//! Geometry of the shared panel.
//!
//! One physical panel is cabled to two machines. It glues their desktops into one
//! coordinate space: the peer's rect for the panel and this machine's rect for it
//! are the same glass. What lies beyond an edge is decided by where monitors really
//! are, not by the machine-level links.
use vstd::prelude::*;

use crate::binary32::{self, Num, F32};
use crate::layout::{hold, share, Edge};
use crate::proto::{near, Rect};

verus! {

/// How far inside an edge the cursor lands, so that it does not rest on it.
pub const EDGE_INSET: i32 = 2;

/// How far INTO a peer monitor beyond the panel the cursor lands when it crosses
/// onto it (along the crossing axis only). A real landing depth puts the cursor
/// clearly on the new screen and gives the seam hysteresis. Held to a third of the
/// monitor so a small screen isn't overshot.
pub const LAND_DEPTH: i32 = 48;

/// A coordinate, held to the range that a coordinate can have.
pub open spec fn coord(v: int) -> int {
    crate::layout::held(v, i32::MIN as int, i32::MAX as int)
}

/// A coordinate, held to the range that a coordinate can have.
pub fn to_coord(v: i64) -> (r: i32)
    ensures
        r == coord(v as int),
{
    hold(v, i32::MIN as i64, i32::MAX as i64) as i32
}

/// The smaller of two integers.
pub open spec fn lesser(a: int, b: int) -> int {
    if a < b {
        a
    } else {
        b
    }
}

/// The larger of two integers.
pub open spec fn larger(a: int, b: int) -> int {
    if a > b {
        a
    } else {
        b
    }
}

/// A rectangle in another machine's coordinates, with room for any result.
#[derive(Clone, Copy, Debug, PartialEq, Eq, Structural)]
pub struct Area {
    pub x: i64,
    pub y: i64,
    pub w: i64,
    pub h: i64,
}

/// The least left and top, and the greatest right and bottom, of some monitors.
pub ghost struct Extent {
    pub x0: int,
    pub y0: int,
    pub x1: int,
    pub y1: int,
}

/// The bounding box of a nonempty list of monitors.
pub open spec fn extent_of(rects: Seq<Rect>) -> Extent
    decreases rects.len(),
{
    let r = rects.last();
    if rects.len() <= 1 {
        Extent { x0: r.x as int, y0: r.y as int, x1: r.end_x(), y1: r.end_y() }
    } else {
        let e = extent_of(rects.drop_last());
        Extent {
            x0: lesser(e.x0, r.x as int),
            y0: lesser(e.y0, r.y as int),
            x1: larger(e.x1, r.end_x()),
            y1: larger(e.y1, r.end_y()),
        }
    }
}

/// The bounding box holds every monitor, and touches one on each side.
pub(crate) proof fn lemma_extent(rects: Seq<Rect>)
    requires
        rects.len() > 0,
    ensures
        forall|i: int|
            0 <= i < rects.len() ==> {
                let (e, r) = (extent_of(rects), #[trigger] rects[i]);
                e.x0 <= r.x && e.y0 <= r.y && r.end_x() <= e.x1 && r.end_y() <= e.y1
            },
        exists|i: int| 0 <= i < rects.len() && (#[trigger] rects[i]).x == extent_of(rects).x0,
        exists|i: int| 0 <= i < rects.len() && (#[trigger] rects[i]).y == extent_of(rects).y0,
        exists|i: int| 0 <= i < rects.len() && (#[trigger] rects[i]).end_x() == extent_of(rects).x1,
        exists|i: int| 0 <= i < rects.len() && (#[trigger] rects[i]).end_y() == extent_of(rects).y1,
    decreases rects.len(),
{
    let n = rects.len() - 1;
    assert(rects[n] == rects.last());
    if n > 0 {
        let rest = rects.drop_last();
        lemma_extent(rest);
        assert forall|i: int| 0 <= i < n implies #[trigger] rects[i] == rest[i] by {}
        let e = extent_of(rest);
        let l = choose|i: int| 0 <= i < n && (#[trigger] rest[i]).x == e.x0;
        let t = choose|i: int| 0 <= i < n && (#[trigger] rest[i]).y == e.y0;
        let f = choose|i: int| 0 <= i < n && (#[trigger] rest[i]).end_x() == e.x1;
        let b = choose|i: int| 0 <= i < n && (#[trigger] rest[i]).end_y() == e.y1;
        assert(rects[l] == rest[l] && rects[t] == rest[t] && rects[f] == rest[f] && rects[b]
            == rest[b]);
    }
}

/// Bounding box of a set of monitor rects (a machine's whole desktop); sizes that
/// exceed a coordinate's range are held to it.
pub open spec fn union_of(rects: Seq<Rect>) -> Option<Rect> {
    if rects.len() == 0 {
        None
    } else {
        let e = extent_of(rects);
        Some(
            Rect {
                x: e.x0 as i32,
                y: e.y0 as i32,
                w: coord(e.x1 - e.x0) as i32,
                h: coord(e.y1 - e.y0) as i32,
            },
        )
    }
}

/// Bounding box of a set of monitor rects (a machine's whole desktop).
pub fn union_rect(rects: &[Rect]) -> (r: Option<Rect>)
    ensures
        r == union_of(rects@),
{
    if rects.len() == 0 {
        return None;
    }
    let first: Rect = rects[0];
    let mut x0: i32 = first.x;
    let mut y0: i32 = first.y;
    let mut x1: i64 = first.x as i64 + first.w as i64;
    let mut y1: i64 = first.y as i64 + first.h as i64;
    let mut i: usize = 1;
    assert(rects@.take(1).last() == first);
    while i < rects.len()
        invariant
            1 <= i <= rects@.len(),
            extent_of(rects@.take(i as int)) == (Extent {
                x0: x0 as int,
                y0: y0 as int,
                x1: x1 as int,
                y1: y1 as int,
            }),
            -0x1_0000_0000 <= x1 <= 0x1_0000_0000,
            -0x1_0000_0000 <= y1 <= 0x1_0000_0000,
        decreases rects@.len() - i,
    {
        let r: Rect = rects[i];
        proof {
            let t = rects@.take(i + 1);
            assert(t.drop_last() =~= rects@.take(i as int));
            assert(t.last() == r);
        }
        if r.x < x0 {
            x0 = r.x;
        }
        if r.y < y0 {
            y0 = r.y;
        }
        let rx: i64 = r.x as i64 + r.w as i64;
        let ry: i64 = r.y as i64 + r.h as i64;
        if rx > x1 {
            x1 = rx;
        }
        if ry > y1 {
            y1 = ry;
        }
        i = i + 1;
    }
    assert(rects@.take(rects@.len() as int) =~= rects@);
    Some(Rect { x: x0, y: y0, w: to_coord(x1 - x0 as i64), h: to_coord(y1 - y0 as i64) })
}

/// The scale from the peer's panel to this machine's.
pub open spec fn scale_of(local: int, peer: int) -> (int, int) {
    crate::layout::share_of(local, peer)
}

/// The whole pixels in `n` scaled by `s`.
#[verifier::opaque]
pub open spec fn scaled(n: int, s: (int, int)) -> int {
    binary32::truncated(binary32::product(binary32::of_int(n), s))
}

/// Peer coordinates to this desktop's coordinates, anchored on the shared panel.
#[verifier::opaque]
pub open spec fn to_global(m: Rect, local: Rect, prect: Rect) -> Area {
    let sx = scale_of(local.w as int, prect.w as int);
    let sy = scale_of(local.h as int, prect.h as int);
    Area {
        x: (local.x + scaled(m.x - prect.x, sx)) as i64,
        y: (local.y + scaled(m.y - prect.y, sy)) as i64,
        w: scaled(m.w as int, sx) as i64,
        h: scaled(m.h as int, sy) as i64,
    }
}

/// The area lies just beyond `edge` of the desktop `b`, over the exit point.
pub open spec fn lies_beyond(g: Area, b: Rect, edge: Edge, ex: int, ey: int) -> bool {
    match edge {
        Edge::Top => crate::proto::within_8(g.y + g.h, b.y as int) && g.x <= ex < g.x + g.w,
        Edge::Bottom => crate::proto::within_8(g.y as int, b.end_y()) && g.x <= ex < g.x + g.w,
        Edge::Left => crate::proto::within_8(g.x + g.w, b.x as int) && g.y <= ey < g.y + g.h,
        Edge::Right => crate::proto::within_8(g.x as int, b.end_x()) && g.y <= ey < g.y + g.h,
    }
}

/// The first of the peer's monitors, from `from` on, other than the panel itself,
/// that lies just beyond `edge` of the desktop `b`, over the exit point.
pub open spec fn beyond_from(
    screens: Seq<Rect>,
    local: Rect,
    prect: Rect,
    b: Rect,
    edge: Edge,
    ex: int,
    ey: int,
    from: int,
) -> Option<Rect>
    decreases screens.len() - from,
{
    if from < 0 || from >= screens.len() {
        None
    } else if screens[from] != prect && lies_beyond(
        to_global(screens[from], local, prect),
        b,
        edge,
        ex,
        ey,
    ) {
        Some(screens[from])
    } else {
        beyond_from(screens, local, prect, b, edge, ex, ey, from + 1)
    }
}

/// How deep into a monitor of this extent the cursor lands.
pub open spec fn depth_of(extent: int) -> int {
    lesser(
        LAND_DEPTH as int,
        larger(
            if extent > 0 {
                extent / 3
            } else {
                0
            },
            EDGE_INSET as int,
        ),
    )
}

/// The coordinate on the peer's monitor at `m0` that is `off` pixels of this
/// desktop along it.
#[verifier::opaque]
pub open spec fn landing_along(m0: int, off: int, s: (int, int)) -> int {
    binary32::truncated(
        binary32::sum(binary32::of_int(m0), binary32::quotient(binary32::of_int(off), s)),
    )
}

/// Where on the peer's monitor `m` the cursor lands when it leaves this desktop
/// through `edge` at `(ex, ey)`: at the same place along the edge, a little way in.
#[verifier::opaque]
pub open spec fn landing_on(
    m: Rect,
    local: Rect,
    prect: Rect,
    edge: Edge,
    ex: int,
    ey: int,
) -> (int, int) {
    let g = to_global(m, local, prect);
    match edge {
        Edge::Top | Edge::Bottom => {
            let px = landing_along(
                m.x as int,
                ex - g.x,
                scale_of(local.w as int, prect.w as int),
            );
            let py = if edge == Edge::Top {
                m.end_y() - 1 - depth_of(m.h as int)
            } else {
                m.y + depth_of(m.h as int)
            };
            (coord(crate::layout::held(px, m.x as int, m.end_x() - 1)), coord(py))
        },
        Edge::Left | Edge::Right => {
            let py = landing_along(
                m.y as int,
                ey - g.y,
                scale_of(local.h as int, prect.h as int),
            );
            let px = if edge == Edge::Left {
                m.end_x() - 1 - depth_of(m.w as int)
            } else {
                m.x + depth_of(m.w as int)
            };
            (coord(px), coord(crate::layout::held(py, m.y as int, m.end_y() - 1)))
        },
    }
}

/// The whole pixels in `n` scaled by `s`.
fn scale(n: i64, s: Num) -> (r: i32)
    requires
        -0x10_0000_0000 <= n <= 0x10_0000_0000,
        s.wf(),
        s.within(400),
    ensures
        r == scaled(n as int, s.pair()),
{
    proof {
        reveal(scaled);
    }
    Num::of(n).times(s).trunc()
}

/// Peer coordinates to this desktop's coordinates.
fn globalize(m: Rect, local: Rect, prect: Rect) -> (g: Area)
    ensures
        g == to_global(m, local, prect),
        -0x1_0000_0000 <= g.x <= 0x1_0000_0000,
        -0x1_0000_0000 <= g.y <= 0x1_0000_0000,
        -0x1_0000_0000 <= g.w <= 0x1_0000_0000,
        -0x1_0000_0000 <= g.h <= 0x1_0000_0000,
{
    proof {
        reveal(to_global);
    }
    let sx: Num = share(local.w as i64, prect.w);
    let sy: Num = share(local.h as i64, prect.h);
    Area {
        x: local.x as i64 + scale(m.x as i64 - prect.x as i64, sx) as i64,
        y: local.y as i64 + scale(m.y as i64 - prect.y as i64, sy) as i64,
        w: scale(m.w as i64, sx) as i64,
        h: scale(m.h as i64, sy) as i64,
    }
}

/// Does the area lie just beyond `edge` of the desktop `b`, over the exit point?
fn is_beyond(g: Area, b: Rect, edge: Edge, ex: i32, ey: i32) -> (r: bool)
    requires
        -0x1_0000_0000 <= g.x <= 0x1_0000_0000,
        -0x1_0000_0000 <= g.y <= 0x1_0000_0000,
        -0x1_0000_0000 <= g.w <= 0x1_0000_0000,
        -0x1_0000_0000 <= g.h <= 0x1_0000_0000,
    ensures
        r == lies_beyond(g, b, edge, ex as int, ey as int),
{
    match edge {
        Edge::Top => near(g.y + g.h, b.y as i64) && g.x <= ex as i64 && (ex as i64) < g.x + g.w,
        Edge::Bottom => near(g.y, b.y as i64 + b.h as i64) && g.x <= ex as i64 && (ex as i64) < g.x
            + g.w,
        Edge::Left => near(g.x + g.w, b.x as i64) && g.y <= ey as i64 && (ey as i64) < g.y + g.h,
        Edge::Right => near(g.x, b.x as i64 + b.w as i64) && g.y <= ey as i64 && (ey as i64) < g.y
            + g.h,
    }
}

/// The first of the peer's monitors that lies just beyond `edge`, over the exit
/// point.
pub fn find_beyond(
    screens: &[Rect],
    local: Rect,
    prect: Rect,
    b: Rect,
    edge: Edge,
    ex: i32,
    ey: i32,
) -> (r: Option<Rect>)
    ensures
        r == beyond_from(screens@, local, prect, b, edge, ex as int, ey as int, 0),
        r matches Some(m) ==> lies_beyond(
            to_global(m, local, prect),
            b,
            edge,
            ex as int,
            ey as int,
        ),
{
    let mut i: usize = 0;
    while i < screens.len()
        invariant
            i <= screens@.len(),
            beyond_from(screens@, local, prect, b, edge, ex as int, ey as int, 0) == beyond_from(
                screens@,
                local,
                prect,
                b,
                edge,
                ex as int,
                ey as int,
                i as int,
            ),
        decreases screens@.len() - i,
    {
        let m: Rect = screens[i];
        if m != prect {
            let g: Area = globalize(m, local, prect);
            if is_beyond(g, b, edge, ex, ey) {
                return Some(m);
            }
        }
        i = i + 1;
    }
    None
}

/// Nothing is wide when the scale is zero.
proof fn lemma_zero_scale(n: int)
    ensures
        scaled(n, (0int, 0int)) == 0,
{
    reveal(scaled);
    let x = binary32::of_int(n);
    assert(x.0 * 0 == 0);
    binary32::lemma_truncated_zero();
}

/// How deep into a monitor of this extent the cursor lands.
fn depth(extent: i32) -> (r: i32)
    ensures
        r == depth_of(extent as int),
        EDGE_INSET <= r <= LAND_DEPTH,
{
    let third: i32 = if extent > 0 {
        extent / 3
    } else {
        0
    };
    let d: i32 = if third > EDGE_INSET {
        third
    } else {
        EDGE_INSET
    };
    if d < LAND_DEPTH {
        d
    } else {
        LAND_DEPTH
    }
}

/// The coordinate on the peer's monitor that is `off` pixels of this desktop along
/// it.
fn land_along(m0: i32, off: i64, s: Num) -> (r: i32)
    requires
        -0x10_0000_0000 <= off <= 0x10_0000_0000,
        s.wf(),
        s.within(400),
        s.n != 0,
    ensures
        r == landing_along(m0 as int, off as int, s.pair()),
{
    proof {
        reveal(landing_along);
    }
    Num::of(m0 as i64).plus(Num::of(off).over(s)).trunc()
}

/// Where on the peer's monitor `m` the cursor lands when it leaves this desktop
/// through `edge` at `(ex, ey)`. The point is computed in the PEER's own
/// coordinates, so the depth is not shrunk by the scale between the two desktops.
pub fn land_on(m: Rect, local: Rect, prect: Rect, b: Rect, edge: Edge, ex: i32, ey: i32) -> (r: (
    i32,
    i32,
))
    requires
        lies_beyond(to_global(m, local, prect), b, edge, ex as int, ey as int),
    ensures
        (r.0 as int, r.1 as int) == landing_on(m, local, prect, edge, ex as int, ey as int),
{
    proof {
        reveal(landing_on);
        reveal(to_global);
    }
    let g: Area = globalize(m, local, prect);
    match edge {
        Edge::Top | Edge::Bottom => {
            let sx: Num = share(local.w as i64, prect.w);
            proof {
                if sx.n == 0 {
                    lemma_zero_scale(m.w as int);
                }
            }
            let px: i64 = land_along(m.x, ex as i64 - g.x, sx) as i64;
            let d: i32 = depth(m.h);
            let py: i64 = if edge == Edge::Top {
                m.y as i64 + m.h as i64 - 1 - d as i64
            } else {
                m.y as i64 + d as i64
            };
            (to_coord(hold(px, m.x as i64, m.x as i64 + m.w as i64 - 1)), to_coord(py))
        },
        Edge::Left | Edge::Right => {
            let sy: Num = share(local.h as i64, prect.h);
            proof {
                if sy.n == 0 {
                    lemma_zero_scale(m.h as int);
                }
            }
            let py: i64 = land_along(m.y, ey as i64 - g.y, sy) as i64;
            let d: i32 = depth(m.w);
            let px: i64 = if edge == Edge::Left {
                m.x as i64 + m.w as i64 - 1 - d as i64
            } else {
                m.x as i64 + d as i64
            };
            (to_coord(px), to_coord(hold(py, m.y as i64, m.y as i64 + m.h as i64 - 1)))
        },
    }
}

/// The point, in the peer's coordinates, lies on `edge` of its copy of the panel.
pub open spec fn on_panel_edge(prect: Rect, edge: Edge, ex: int, ey: int) -> bool {
    match edge {
        Edge::Left => ex <= prect.x && prect.y <= ey < prect.end_y(),
        Edge::Right => ex >= prect.end_x() - 1 && prect.y <= ey < prect.end_y(),
        Edge::Top => ey <= prect.y && prect.x <= ex < prect.end_x(),
        Edge::Bottom => ey >= prect.end_y() - 1 && prect.x <= ex < prect.end_x(),
    }
}

/// Does the point lie on `edge` of the peer's copy of the panel?
pub fn is_on_panel_edge(prect: Rect, edge: Edge, ex: i64, ey: i64) -> (r: bool)
    ensures
        r == on_panel_edge(prect, edge, ex as int, ey as int),
{
    let right: i64 = prect.x as i64 + prect.w as i64;
    let bottom: i64 = prect.y as i64 + prect.h as i64;
    match edge {
        Edge::Left => ex <= prect.x as i64 && ey >= prect.y as i64 && ey < bottom,
        Edge::Right => ex >= right - 1 && ey >= prect.y as i64 && ey < bottom,
        Edge::Top => ey <= prect.y as i64 && ex >= prect.x as i64 && ex < right,
        Edge::Bottom => ey >= bottom - 1 && ex >= prect.x as i64 && ex < right,
    }
}

/// `m` lies against `edge` of `p` from outside, and overlaps it along that edge.
pub open spec fn adjoins(m: Rect, p: Rect, edge: Edge) -> bool {
    match edge {
        Edge::Left => crate::proto::within_8(m.end_x(), p.x as int) && m.y < p.end_y() && m.end_y()
            > p.y,
        Edge::Right => crate::proto::within_8(m.x as int, p.end_x()) && m.y < p.end_y() && m.end_y()
            > p.y,
        Edge::Top => crate::proto::within_8(m.end_y(), p.y as int) && m.x < p.end_x() && m.end_x()
            > p.x,
        Edge::Bottom => crate::proto::within_8(m.y as int, p.end_y()) && m.x < p.end_x()
            && m.end_x() > p.x,
    }
}

/// Does `m` lie against `edge` of `p` from outside, overlapping along it?
pub fn is_adjoining(m: Rect, p: Rect, edge: Edge) -> (r: bool)
    ensures
        r == adjoins(m, p, edge),
{
    let mr: i64 = m.x as i64 + m.w as i64;
    let mb: i64 = m.y as i64 + m.h as i64;
    let pr: i64 = p.x as i64 + p.w as i64;
    let pb: i64 = p.y as i64 + p.h as i64;
    match edge {
        Edge::Left => near(mr, p.x as i64) && (m.y as i64) < pb && mb > p.y as i64,
        Edge::Right => near(m.x as i64, pr) && (m.y as i64) < pb && mb > p.y as i64,
        Edge::Top => near(mb, p.y as i64) && (m.x as i64) < pr && mr > p.x as i64,
        Edge::Bottom => near(m.y as i64, pb) && (m.x as i64) < pr && mr > p.x as i64,
    }
}

/// The first monitor, from `from` on, that lies against `edge` of `p`.
pub open spec fn adjoining_from(monitors: Seq<Rect>, p: Rect, edge: Edge, from: int) -> Option<Rect>
    decreases monitors.len() - from,
{
    if from < 0 || from >= monitors.len() {
        None
    } else if adjoins(monitors[from], p, edge) {
        Some(monitors[from])
    } else {
        adjoining_from(monitors, p, edge, from + 1)
    }
}

/// The first monitor that lies against `edge` of `p`.
pub fn find_adjoining(monitors: &[Rect], p: Rect, edge: Edge) -> (r: Option<Rect>)
    ensures
        r == adjoining_from(monitors@, p, edge, 0),
{
    let mut i: usize = 0;
    while i < monitors.len()
        invariant
            i <= monitors@.len(),
            adjoining_from(monitors@, p, edge, 0) == adjoining_from(monitors@, p, edge, i as int),
        decreases monitors@.len() - i,
    {
        if is_adjoining(monitors[i], p, edge) {
            return Some(monitors[i]);
        }
        i = i + 1;
    }
    None
}

/// Where on this desk's monitor `m` the cursor lands when it comes home through
/// `edge` of the panel: the part `f` along that edge, a little way in.
#[verifier::opaque]
pub open spec fn homecoming(m: Rect, edge: Edge, f: F32) -> (int, int) {
    let along_x = m.x + f.of_length(m.w as int);
    let along_y = m.y + f.of_length(m.h as int);
    let (x, y) = match edge {
        Edge::Left => (m.end_x() - 1 - EDGE_INSET, along_y),
        Edge::Right => (m.x + EDGE_INSET, along_y),
        Edge::Top => (along_x, m.end_y() - 1 - EDGE_INSET),
        Edge::Bottom => (along_x, m.y + EDGE_INSET),
    };
    (
        coord(crate::layout::held(x, m.x as int, m.end_x() - 1)),
        coord(crate::layout::held(y, m.y as int, m.end_y() - 1)),
    )
}

/// Where on this desk's monitor `m` the cursor lands when it comes home through
/// `edge` of the panel.
pub fn come_home(m: Rect, edge: Edge, f: F32) -> (r: (i32, i32))
    ensures
        (r.0 as int, r.1 as int) == homecoming(m, edge, f),
{
    proof {
        reveal(homecoming);
    }
    let along_x: i64 = m.x as i64 + f.along(m.w) as i64;
    let along_y: i64 = m.y as i64 + f.along(m.h) as i64;
    let right: i64 = m.x as i64 + m.w as i64;
    let bottom: i64 = m.y as i64 + m.h as i64;
    let inset: i64 = EDGE_INSET as i64;
    let (x, y): (i64, i64) = match edge {
        Edge::Left => (right - 1 - inset, along_y),
        Edge::Right => (m.x as i64 + inset, along_y),
        Edge::Top => (along_x, bottom - 1 - inset),
        Edge::Bottom => (along_x, m.y as i64 + inset),
    };
    (to_coord(hold(x, m.x as i64, right - 1)), to_coord(hold(y, m.y as i64, bottom - 1)))
}

/// The panel fills the whole of `edge` of the desktop `b`, to within four pixels.
pub open spec fn spans(local: Rect, b: Rect, edge: Edge) -> bool {
    let full_height = local.y <= b.y + 4 && local.end_y() >= b.end_y() - 4;
    let full_width = local.x <= b.x + 4 && local.end_x() >= b.end_x() - 4;
    match edge {
        Edge::Right => local.end_x() >= b.end_x() - 4 && full_height,
        Edge::Left => local.x <= b.x + 4 && full_height,
        Edge::Top => local.y <= b.y + 4 && full_width,
        Edge::Bottom => local.end_y() >= b.end_y() - 4 && full_width,
    }
}

/// The panel reaches `edge` of the desktop `b`, to within four pixels.
pub open spec fn reaches(local: Rect, b: Rect, edge: Edge) -> bool {
    match edge {
        Edge::Top => local.y <= b.y + 4,
        Edge::Bottom => local.end_y() >= b.end_y() - 4,
        Edge::Left => local.x <= b.x + 4,
        Edge::Right => local.end_x() >= b.end_x() - 4,
    }
}

/// Does the panel reach `edge` of the desktop `b`?
pub fn panel_reaches(local: Rect, b: Rect, edge: Edge) -> (r: bool)
    ensures
        r == reaches(local, b, edge),
{
    match edge {
        Edge::Top => local.y as i64 <= b.y as i64 + 4,
        Edge::Bottom => local.y as i64 + local.h as i64 >= b.y as i64 + b.h as i64 - 4,
        Edge::Left => local.x as i64 <= b.x as i64 + 4,
        Edge::Right => local.x as i64 + local.w as i64 >= b.x as i64 + b.w as i64 - 4,
    }
}

/// Does the panel fill the whole of `edge` of the desktop `b`?
pub fn panel_spans(local: Rect, b: Rect, edge: Edge) -> (r: bool)
    ensures
        r == spans(local, b, edge),
{
    match edge {
        Edge::Right | Edge::Left => panel_reaches(local, b, edge) && panel_reaches(
            local,
            b,
            Edge::Top,
        ) && panel_reaches(local, b, Edge::Bottom),
        Edge::Top | Edge::Bottom => panel_reaches(local, b, edge) && panel_reaches(
            local,
            b,
            Edge::Left,
        ) && panel_reaches(local, b, Edge::Right),
    }
}

/// Some monitor of the list lies against `edge` of the panel.
pub open spec fn any_adjoins(screens: Seq<Rect>, prect: Rect, edge: Edge) -> bool {
    exists|i: int| 0 <= i < screens.len() && adjoins(#[trigger] screens[i], prect, edge)
}

/// Some monitor of the list, other than the panel itself, lies against `edge` of
/// the panel.
pub open spec fn other_adjoins(screens: Seq<Rect>, prect: Rect, edge: Edge) -> bool {
    exists|i: int|
        0 <= i < screens.len() && screens[i] != prect && adjoins(#[trigger] screens[i], prect, edge)
}

/// Does some monitor lie against `edge` of the panel? With `skip_panel`, the panel
/// itself does not count.
pub fn has_adjoining(screens: &[Rect], prect: Rect, edge: Edge, skip_panel: bool) -> (r: bool)
    ensures
        r == if skip_panel {
            other_adjoins(screens@, prect, edge)
        } else {
            any_adjoins(screens@, prect, edge)
        },
{
    for i in 0..screens.len()
        invariant
            forall|j: int|
                0 <= j < i ==> (skip_panel && #[trigger] screens@[j] == prect) || !adjoins(
                    screens@[j],
                    prect,
                    edge,
                ),
    {
        let m: Rect = screens[i];
        if !(skip_panel && m == prect) && is_adjoining(m, prect, edge) {
            assert(adjoins(screens@[i as int], prect, edge));
            return true;
        }
    }
    false
}

} // verus!
