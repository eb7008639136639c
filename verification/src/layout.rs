//! Virtual arrangement of machines and the edge ("portal") math.
//!
//! The layout is a list of directed links: `A.right -> B` means "when the cursor
//! pushes through A's right edge, it appears at B's left edge". Every link is
//! implicitly bidirectional: `B.left -> A` is derived.
//!
//! Positions along an edge are expressed as a ratio in `0..=1` over the machine's
//! desktop bounding box, so machines with different resolutions map
//! proportionally.
use vstd::prelude::*;

use crate::binary32::{self, to_f32, Num, F32};
use crate::proto::Rect;

verus! {

#[derive(Clone, Copy, Debug, PartialEq, Eq, Hash, Structural)]
pub enum Edge {
    Left,
    Right,
    Top,
    Bottom,
}

impl Edge {
    /// The facing side.
    pub open spec fn facing(self) -> Edge {
        match self {
            Edge::Left => Edge::Right,
            Edge::Right => Edge::Left,
            Edge::Top => Edge::Bottom,
            Edge::Bottom => Edge::Top,
        }
    }

    /// The lower-case name.
    pub open spec fn name(self) -> Seq<char> {
        match self {
            Edge::Left => "left"@,
            Edge::Right => "right"@,
            Edge::Top => "top"@,
            Edge::Bottom => "bottom"@,
        }
    }

    pub fn opposite(self) -> (r: Edge)
        ensures
            r == self.facing(),
    {
        match self {
            Edge::Left => Edge::Right,
            Edge::Right => Edge::Left,
            Edge::Top => Edge::Bottom,
            Edge::Bottom => Edge::Top,
        }
    }

    /// The lower-case name, as it appears in the configuration and in logs.
    pub fn to_text(self) -> (r: String)
        ensures
            r@ == self.name(),
    {
        match self {
            Edge::Left => "left".to_owned(),
            Edge::Right => "right".to_owned(),
            Edge::Top => "top".to_owned(),
            Edge::Bottom => "bottom".to_owned(),
        }
    }
}

#[derive(Debug)]
pub struct Link {
    pub from: String,
    pub edge: Edge,
    pub to: String,
}

/// What a link says.
#[verifier::ext_equal]
pub ghost struct LinkView {
    pub from: Seq<char>,
    pub edge: Edge,
    pub to: Seq<char>,
}

impl View for Link {
    type V = LinkView;

    open spec fn view(&self) -> LinkView {
        LinkView { from: self.from@, edge: self.edge, to: self.to@ }
    }
}

#[derive(Debug)]
pub struct Layout {
    pub links: Vec<Link>,
}

impl View for Layout {
    type V = Seq<LinkView>;

    open spec fn view(&self) -> Seq<LinkView> {
        self.links@.map_values(|l: Link| l@)
    }
}

/// Where one link leads from `machine` through `edge`: along the link, or back
/// along it.
pub open spec fn link_target(l: LinkView, machine: Seq<char>, edge: Edge) -> Option<
    (Seq<char>, Edge),
> {
    if l.from == machine && l.edge == edge {
        Some((l.to, edge.facing()))
    } else if l.to == machine && l.edge.facing() == edge {
        Some((l.from, l.edge))
    } else {
        None
    }
}

/// Where the first link that leads anywhere from `machine` through `edge` leads.
pub open spec fn target_of(links: Seq<LinkView>, machine: Seq<char>, edge: Edge) -> Option<
    (Seq<char>, Edge),
>
    decreases links.len(),
{
    if links.len() == 0 {
        None
    } else {
        match link_target(links[0], machine, edge) {
            Some(t) => Some(t),
            None => target_of(links.skip(1), machine, edge),
        }
    }
}

/// `edge` alone if it leads somewhere from `machine`.
pub open spec fn portal_at(links: Seq<LinkView>, machine: Seq<char>, edge: Edge) -> Seq<Edge> {
    if target_of(links, machine, edge) is Some {
        seq![edge]
    } else {
        seq![]
    }
}

/// The edges of `machine` that lead somewhere: left, right, top, bottom.
pub open spec fn portals_of(links: Seq<LinkView>, machine: Seq<char>) -> Seq<Edge> {
    portal_at(links, machine, Edge::Left) + portal_at(links, machine, Edge::Right) + portal_at(
        links,
        machine,
        Edge::Top,
    ) + portal_at(links, machine, Edge::Bottom)
}

impl Layout {
    /// Where does `machine` end up when its cursor pushes through `edge`?
    /// Returns the target machine and the edge of the *target* through which the
    /// cursor enters.
    pub fn target(&self, machine: &str, edge: Edge) -> (r: Option<(&str, Edge)>)
        ensures
            match r {
                Some((m, e)) => target_of(self@, machine@, edge) == Some((m@, e)),
                None => target_of(self@, machine@, edge) is None,
            },
    {
        let here: String = machine.to_owned();
        let mut i: usize = 0;
        assert(self@.skip(0) =~= self@);
        while i < self.links.len()
            invariant
                0 <= i <= self.links@.len(),
                here@ == machine@,
                target_of(self@, machine@, edge) == target_of(self@.skip(i as int), machine@, edge),
            decreases self.links@.len() - i,
        {
            let l: &Link = &self.links[i];
            assert(self@.skip(i as int)[0] == l@);
            assert(self@.skip(i as int).skip(1) =~= self@.skip(i + 1));
            if l.from == here && l.edge == edge {
                return Some((l.to.as_str(), edge.opposite()));
            }
            if l.to == here && l.edge.opposite() == edge {
                return Some((l.from.as_str(), l.edge));
            }
            i = i + 1;
        }
        None
    }

    /// All edges of `machine` that lead somewhere.
    pub fn portals(&self, machine: &str) -> (r: Vec<Edge>)
        ensures
            r@ == portals_of(self@, machine@),
    {
        let mut edges: Vec<Edge> = Vec::new();
        if self.target(machine, Edge::Left).is_some() {
            edges.push(Edge::Left);
        }
        if self.target(machine, Edge::Right).is_some() {
            edges.push(Edge::Right);
        }
        if self.target(machine, Edge::Top).is_some() {
            edges.push(Edge::Top);
        }
        if self.target(machine, Edge::Bottom).is_some() {
            edges.push(Edge::Bottom);
        }
        edges
    }
}

/// The length `n`, at least one pixel.
pub open spec fn at_least_1(n: int) -> int {
    if n < 1 {
        1
    } else {
        n
    }
}

/// `v` held to `lo..=hi`.
pub open spec fn held(v: int, lo: int, hi: int) -> int {
    if v < lo {
        lo
    } else if v > hi {
        hi
    } else {
        v
    }
}

/// `v` held to `lo..=hi`.
pub fn hold(v: i64, lo: i64, hi: i64) -> (r: i64)
    ensures
        r == held(v as int, lo as int, hi as int),
{
    if v < lo {
        lo
    } else if v > hi {
        hi
    } else {
        v
    }
}

/// `offset / length` as a number.
#[verifier::opaque]
pub open spec fn share_of(offset: int, length: int) -> (int, int) {
    binary32::quotient(
        binary32::of_int(offset),
        binary32::of_int(at_least_1(length)),
    )
}

/// `offset / length` as a number held to `[0, 1]`.
pub open spec fn unit_share(offset: int, length: int) -> (int, int) {
    binary32::unit_clamped(share_of(offset, length))
}

/// `offset / length` as a number.
pub fn share(offset: i64, length: i32) -> (r: Num)
    requires
        -0x10_0000_0000 <= offset <= 0x10_0000_0000,
    ensures
        r.wf(),
        -148 <= r.e <= 300,
        r.pair() == share_of(offset as int, length as int),
{
    proof {
        reveal(share_of);
    }
    let len: i64 = if length < 1 {
        1
    } else {
        length as i64
    };
    let d: Num = Num::of(len);
    proof {
        binary32::lemma_of_nonzero(len as int);
    }
    Num::of(offset).over(d)
}

/// `offset / length`, held to `[0, 1]`, as it travels between machines.
#[verifier::opaque]
pub open spec fn unit_fraction(offset: int, length: int) -> F32 {
    binary32::encoded(unit_share(offset, length))
}

/// The fraction `offset / length` of a length, held to `[0, 1]`.
pub fn fraction(offset: i64, length: i32) -> (r: F32)
    requires
        -0x10_0000_0000 <= offset <= 0x10_0000_0000,
    ensures
        r == unit_fraction(offset as int, length as int),
        r.exponent() != 255,
        !r.negative(),
        r.value() == unit_share(offset as int, length as int),
{
    proof {
        reveal(unit_fraction);
    }
    let x: Num = share(offset, length).clamp_unit();
    proof {
        if x.n > 0 {
            binary32::lemma_clamped_unit(share_of(offset as int, length as int));
            binary32::lemma_unit_exponent(x);
        }
    }
    to_f32(x)
}

/// How far along `edge` of `bounds` the point lies, and the length of that edge.
pub open spec fn along_edge(bounds: Rect, edge: Edge, x: int, y: int) -> (int, int) {
    match edge {
        Edge::Left | Edge::Right => (y - bounds.y, bounds.h as int),
        Edge::Top | Edge::Bottom => (x - bounds.x, bounds.w as int),
    }
}

/// The ratio of a point along an edge, as it travels between machines.
pub open spec fn edge_ratio(bounds: Rect, edge: Edge, x: int, y: int) -> F32 {
    let (offset, length) = along_edge(bounds, edge, x, y);
    unit_fraction(offset, length)
}

/// Ratio (0..=1) of a point along a given edge of `bounds`.
pub fn ratio_on_edge(bounds: Rect, edge: Edge, x: i32, y: i32) -> (r: F32)
    ensures
        r == edge_ratio(bounds, edge, x as int, y as int),
        r.exponent() != 255,
        !r.negative(),
        ({
            let (offset, length) = along_edge(bounds, edge, x as int, y as int);
            r.value() == unit_share(offset, length)
        }),
{
    match edge {
        Edge::Left | Edge::Right => fraction(y as i64 - bounds.y as i64, bounds.h),
        Edge::Top | Edge::Bottom => fraction(x as i64 - bounds.x as i64, bounds.w),
    }
}

/// The whole pixels in the part `ratio` of a length, the ratio held to `[0, 1]`.
#[verifier::opaque]
pub open spec fn part_of(ratio: F32, length: int) -> int {
    binary32::truncated(
        binary32::product(ratio.unit_value(), binary32::of_int(length)),
    )
}

/// The whole pixels in the part `ratio` of a length.
pub fn part(ratio: F32, length: i32) -> (r: i32)
    ensures
        r == part_of(ratio, length as int),
{
    proof {
        reveal(part_of);
    }
    ratio.unit().times(Num::of(length as i64)).trunc()
}

/// The point `inset` pixels inside `edge` of `bounds`, at `ratio` along it.
#[verifier::opaque]
pub open spec fn edge_point(bounds: Rect, edge: Edge, ratio: F32, inset: int) -> (int, int) {
    let along_x = bounds.x + part_of(ratio, bounds.w as int);
    let along_y = bounds.y + part_of(ratio, bounds.h as int);
    let (x, y) = match edge {
        Edge::Left => (bounds.x + inset, along_y),
        Edge::Right => (bounds.end_x() - 1 - inset, along_y),
        Edge::Top => (along_x, bounds.y + inset),
        Edge::Bottom => (along_x, bounds.end_y() - 1 - inset),
    };
    (held(x, bounds.x as int, bounds.end_x() - 1), held(y, bounds.y as int, bounds.end_y() - 1))
}

/// The point `inset` pixels inside `edge` of `bounds`, at `ratio` along it.
pub fn place_on_edge(bounds: Rect, edge: Edge, ratio: F32, inset: i32) -> (r: (i64, i64))
    ensures
        -0x4_0000_0000 <= r.0 <= 0x4_0000_0000,
        -0x4_0000_0000 <= r.1 <= 0x4_0000_0000,
        (r.0 as int, r.1 as int) == edge_point(bounds, edge, ratio, inset as int),
{
    proof {
        reveal(edge_point);
    }
    let along_y: i64 = bounds.y as i64 + part(ratio, bounds.h) as i64;
    let along_x: i64 = bounds.x as i64 + part(ratio, bounds.w) as i64;
    let right: i64 = bounds.x as i64 + bounds.w as i64;
    let bottom: i64 = bounds.y as i64 + bounds.h as i64;
    let (x, y): (i64, i64) = match edge {
        Edge::Left => (bounds.x as i64 + inset as i64, along_y),
        Edge::Right => (right - 1 - inset as i64, along_y),
        Edge::Top => (along_x, bounds.y as i64 + inset as i64),
        Edge::Bottom => (along_x, bottom - 1 - inset as i64),
    };
    (hold(x, bounds.x as i64, right - 1), hold(y, bounds.y as i64, bottom - 1))
}

/// Point just inside `bounds` on `edge` at `ratio`. `inset` pixels keep the
/// cursor off the exact edge so the arrival does not instantly re-trigger the
/// portal in the other direction.
pub fn point_on_edge(bounds: Rect, edge: Edge, ratio: F32, inset: i32) -> (r: (i32, i32))
    requires
        bounds.solid(),
    ensures
        (r.0 as int, r.1 as int) == edge_point(bounds, edge, ratio, inset as int),
        bounds.holds(r.0 as int, r.1 as int),
{
    proof {
        reveal(edge_point);
    }
    let (x, y): (i64, i64) = place_on_edge(bounds, edge, ratio, inset);
    (x as i32, y as i32)
}

/// An arrival is off the edge that it came in through, so that it does not re-trigger.
pub proof fn law_arrival_is_off_the_edge(bounds: Rect, edge: Edge, ratio: F32, inset: int)
    requires
        bounds.solid(),
        inset >= 1,
        match edge {
            Edge::Left | Edge::Right => bounds.w >= 2,
            Edge::Top | Edge::Bottom => bounds.h >= 2,
        },
    ensures
        ({
            let (x, y) = edge_point(bounds, edge, ratio, inset);
            bounds.holds(x, y) && !at_edge(bounds, edge, x, y)
        }),
{
    reveal(edge_point);
}

/// Is (x, y) inside `r`?
pub fn point_in(r: Rect, x: i32, y: i32) -> (res: bool)
    ensures
        res == r.holds(x as int, y as int),
{
    x >= r.x && (x as i64) < r.x as i64 + r.w as i64 && y >= r.y && (y as i64) < r.y as i64
        + r.h as i64
}

/// The point just past `b` in the direction of travel, or past its nearest side
/// when there is no travel (left, right, top, bottom in case of a tie).
pub open spec fn skipped(b: Rect, x: int, y: int, dx: int, dy: int) -> (int, int) {
    let dl = x - b.x;
    let dr = b.end_x() - x;
    let dt = y - b.y;
    let db = b.end_y() - y;
    if dx == 0 && dy == 0 {
        if dl <= dr && dl <= dt && dl <= db {
            (b.x - 1, y)
        } else if dr <= dt && dr <= db {
            (b.end_x(), y)
        } else if dt <= db {
            (x, b.y - 1)
        } else {
            (x, b.end_y())
        }
    } else if dx >= 0 && dx >= dy && dx >= -dy {
        (b.end_x(), y)
    } else if dx < 0 && -dx >= dy && -dx >= -dy {
        (b.x - 1, y)
    } else if dy >= 0 {
        (x, b.end_y())
    } else {
        (x, b.y - 1)
    }
}

/// The point just past `b` in the direction of travel.
pub fn skip_past(b: Rect, x: i32, y: i32, dx: i64, dy: i64) -> (r: (i64, i64))
    requires
        -0x10_0000_0000 <= dx <= 0x10_0000_0000,
        -0x10_0000_0000 <= dy <= 0x10_0000_0000,
    ensures
        (r.0 as int, r.1 as int) == skipped(b, x as int, y as int, dx as int, dy as int),
{
    let left: i64 = b.x as i64 - 1;
    let top: i64 = b.y as i64 - 1;
    let right: i64 = b.x as i64 + b.w as i64;
    let bottom: i64 = b.y as i64 + b.h as i64;
    if dx == 0 && dy == 0 {
        let dl: i64 = x as i64 - b.x as i64;
        let dr: i64 = right - x as i64;
        let dt: i64 = y as i64 - b.y as i64;
        let db: i64 = bottom - y as i64;
        return if dl <= dr && dl <= dt && dl <= db {
            (left, y as i64)
        } else if dr <= dt && dr <= db {
            (right, y as i64)
        } else if dt <= db {
            (x as i64, top)
        } else {
            (x as i64, bottom)
        };
    }
    let ax: i64 = if dx < 0 {
        -dx
    } else {
        dx
    };
    let ay: i64 = if dy < 0 {
        -dy
    } else {
        dy
    };
    if ax >= ay {
        if dx >= 0 {
            (right, y as i64)
        } else {
            (left, y as i64)
        }
    } else if dy >= 0 {
        (x as i64, bottom)
    } else {
        (x as i64, top)
    }
}

/// The cursor is inside the shared monitor `b` (which this machine must not show
/// right now). Return the point just past `b` in the direction of travel
/// `(dx, dy)`, so the cursor *skips over* the monitor onto whatever is beyond. If
/// motion is ambiguous, pop out the nearest edge.
pub fn skip_out(b: Rect, x: i32, y: i32, dx: i32, dy: i32) -> (r: (i32, i32))
    requires
        ({
            let (px, py) = skipped(b, x as int, y as int, dx as int, dy as int);
            i32::MIN <= px <= i32::MAX && i32::MIN <= py <= i32::MAX
        }),
    ensures
        (r.0 as int, r.1 as int) == skipped(b, x as int, y as int, dx as int, dy as int),
{
    let (px, py): (i64, i64) = skip_past(b, x, y, dx as i64, dy as i64);
    (px as i32, py as i32)
}

/// The point touches `edge` of `bounds`.
pub open spec fn at_edge(bounds: Rect, edge: Edge, x: int, y: int) -> bool {
    match edge {
        Edge::Left => x <= bounds.x,
        Edge::Right => x >= bounds.end_x() - 1,
        Edge::Top => y <= bounds.y,
        Edge::Bottom => y >= bounds.end_y() - 1,
    }
}

/// True if (x, y) is touching `edge` of `bounds` (cursor clamped at boundary).
pub fn touches_edge(bounds: Rect, edge: Edge, x: i32, y: i32) -> (r: bool)
    ensures
        r == at_edge(bounds, edge, x as int, y as int),
{
    match edge {
        Edge::Left => x <= bounds.x,
        Edge::Right => x as i64 >= bounds.x as i64 + bounds.w as i64 - 1,
        Edge::Top => y <= bounds.y,
        Edge::Bottom => y as i64 >= bounds.y as i64 + bounds.h as i64 - 1,
    }
}

/// What lies behind an edge leads back: through the edge that the cursor came in
/// by there is always a way on.
pub proof fn law_target_has_a_way_back(links: Seq<LinkView>, machine: Seq<char>, edge: Edge)
    requires
        target_of(links, machine, edge) is Some,
    ensures
        ({
            let (next, entry) = target_of(links, machine, edge)->0;
            target_of(links, next, entry) is Some
        }),
    decreases links.len(),
{
    if link_target(links[0], machine, edge) is None {
        law_target_has_a_way_back(links.skip(1), machine, edge);
    }
}

/// A link touches an edge of a machine: it leads through that edge either way.
pub open spec fn touches(l: LinkView, machine: Seq<char>, edge: Edge) -> bool {
    link_target(l, machine, edge) is Some
}

/// Every link is bidirectional: where a single link touches the edge that the
/// cursor came in by, going back out through it leads to where the cursor came
/// from.
pub proof fn law_links_are_bidirectional(links: Seq<LinkView>, machine: Seq<char>, edge: Edge)
    requires
        target_of(links, machine, edge) is Some,
        ({
            let (next, entry) = target_of(links, machine, edge)->0;
            forall|i: int, j: int|
                0 <= i < links.len() && 0 <= j < links.len() && #[trigger] touches(
                    links[i],
                    next,
                    entry,
                ) && #[trigger] touches(links[j], next, entry) ==> i == j
        }),
    ensures
        ({
            let (next, entry) = target_of(links, machine, edge)->0;
            target_of(links, next, entry) == Some((machine, edge))
        }),
    decreases links.len(),
{
    let (next, entry) = target_of(links, machine, edge)->0;
    let rest = links.skip(1);
    if link_target(links[0], machine, edge) is None {
        assert forall|i: int, j: int|
            0 <= i < rest.len() && 0 <= j < rest.len() && #[trigger] touches(rest[i], next, entry)
                && #[trigger] touches(rest[j], next, entry) implies i == j by {
            assert(touches(links[i + 1], next, entry));
            assert(touches(links[j + 1], next, entry));
        }
        law_links_are_bidirectional(rest, machine, edge);
        if touches(links[0], next, entry) {
            lemma_target_touches(rest, next, entry);
            let k = choose|k: int| 0 <= k < rest.len() && touches(#[trigger] rest[k], next, entry);
            assert(touches(links[k + 1], next, entry));
        }
    }
}

/// An edge that leads somewhere is touched by some link.
proof fn lemma_target_touches(links: Seq<LinkView>, machine: Seq<char>, edge: Edge)
    requires
        target_of(links, machine, edge) is Some,
    ensures
        exists|k: int| 0 <= k < links.len() && touches(#[trigger] links[k], machine, edge),
    decreases links.len(),
{
    if touches(links[0], machine, edge) {
    } else {
        let rest = links.skip(1);
        lemma_target_touches(rest, machine, edge);
        let k = choose|k: int| 0 <= k < rest.len() && touches(#[trigger] rest[k], machine, edge);
        assert(touches(links[k + 1], machine, edge));
    }
}

/// The portals of a machine are exactly the edges that lead somewhere.
pub proof fn law_portals_lead_somewhere(links: Seq<LinkView>, machine: Seq<char>, edge: Edge)
    ensures
        portals_of(links, machine).contains(edge) <==> target_of(links, machine, edge) is Some,
{
    let l = portal_at(links, machine, Edge::Left);
    let r = portal_at(links, machine, Edge::Right);
    let t = portal_at(links, machine, Edge::Top);
    let b = portal_at(links, machine, Edge::Bottom);
    let all = portals_of(links, machine);
    if target_of(links, machine, edge) is Some {
        let at: int = match edge {
            Edge::Left => 0,
            Edge::Right => l.len() as int,
            Edge::Top => (l.len() + r.len()) as int,
            Edge::Bottom => (l.len() + r.len() + t.len()) as int,
        };
        assert(all[at] == edge);
    }
}

/// The first desired monitor of the size `w` by `h` that is not taken yet.
pub open spec fn free_match(desired: Seq<Rect>, taken: Seq<bool>, w: i32, h: i32, from: int) -> Option<
    int,
>
    decreases desired.len() - from,
{
    if from < 0 || from >= desired.len() {
        None
    } else if !taken[from] && desired[from].w == w && desired[from].h == h {
        Some(from)
    } else {
        free_match(desired, taken, w, h, from + 1)
    }
}

/// The desired rect of each of the monitors `current[at..]`, matched by size in
/// order; `None` when one of them finds no match.
pub open spec fn matched(
    current: Seq<Rect>,
    desired: Seq<Rect>,
    taken: Seq<bool>,
    at: int,
) -> Option<Seq<Rect>>
    decreases current.len() - at,
{
    if at < 0 || at >= current.len() {
        Some(seq![])
    } else {
        match free_match(desired, taken, current[at].w, current[at].h, 0) {
            None => None,
            Some(i) => match matched(current, desired, taken.update(i, true), at + 1) {
                None => None,
                Some(rest) => Some(seq![desired[i]] + rest),
            },
        }
    }
}

/// The index of the primary monitor: the first at the origin, else the first.
pub open spec fn primary_from(current: Seq<Rect>, from: int) -> int
    decreases current.len() - from,
{
    if from < 0 || from >= current.len() {
        0
    } else if current[from].x == 0 && current[from].y == 0 {
        from
    } else {
        primary_from(current, from + 1)
    }
}

/// The matched rects when the two sets of monitors are the same sizes.
pub open spec fn pairing(current: Seq<Rect>, desired: Seq<Rect>) -> Option<Seq<Rect>> {
    if current.len() == 0 || current.len() != desired.len() {
        None
    } else {
        matched(current, desired, Seq::new(desired.len(), |i: int| false), 0)
    }
}

/// `r` moved so that `origin` comes to lie at (0, 0).
pub open spec fn re_pinned(r: Rect, origin: Rect) -> Rect {
    Rect { x: (r.x - origin.x) as i32, y: (r.y - origin.y) as i32, w: r.w, h: r.h }
}

/// All of `out` moved so that the primary monitor comes to lie at (0, 0).
pub open spec fn pinned(current: Seq<Rect>, out: Seq<Rect>) -> Seq<Rect> {
    out.map_values(|r: Rect| re_pinned(r, out[primary_from(current, 0)]))
}

/// Re-pinning leaves every monitor at a representable place.
pub open spec fn can_pin(current: Seq<Rect>, out: Seq<Rect>) -> bool {
    let o = out[primary_from(current, 0)];
    forall|i: int|
        0 <= i < out.len() ==> i32::MIN <= (#[trigger] out[i]).x - o.x <= i32::MAX && i32::MIN
            <= out[i].y - o.y <= i32::MAX
}

/// The matched rects when the two sets of monitors are the same sizes.
fn pair_up(current: &[Rect], desired: &[Rect]) -> (r: Option<Vec<Rect>>)
    ensures
        match r {
            Some(out) => pairing(current@, desired@) == Some(out@) && out@.len() == current@.len()
                && current@.len() > 0,
            None => pairing(current@, desired@) is None,
        },
{
    if current.len() == 0 || current.len() != desired.len() {
        return None;
    }
    let mut taken: Vec<bool> = Vec::new();
    let mut k: usize = 0;
    while k < desired.len()
        invariant
            k <= desired@.len(),
            taken@ =~= Seq::new(k as nat, |i: int| false),
        decreases desired@.len() - k,
    {
        taken.push(false);
        k = k + 1;
    }
    let mut out: Vec<Rect> = Vec::new();
    let mut at: usize = 0;
    let ghost whole = pairing(current@, desired@);
    assert(out@ + matched(current@, desired@, taken@, 0)->0 =~= matched(
        current@,
        desired@,
        taken@,
        0,
    )->0);
    while at < current.len()
        invariant
            at <= current@.len(),
            current@.len() == desired@.len(),
            taken@.len() == desired@.len(),
            out@.len() == at,
            forall|i: int| 0 <= i < at ==> out@[i].w == (#[trigger] current@[i]).w && out@[i].h
                == current@[i].h,
            whole is Some <==> matched(current@, desired@, taken@, at as int) is Some,
            whole is Some ==> whole->0 =~= out@ + matched(current@, desired@, taken@, at as int)->0,
            whole == pairing(current@, desired@),
        decreases current@.len() - at,
    {
        let c: Rect = current[at];
        let mut i: usize = 0;
        while i < desired.len() && (taken[i] || desired[i].w != c.w || desired[i].h != c.h)
            invariant
                i <= desired@.len(),
                taken@.len() == desired@.len(),
                free_match(desired@, taken@, c.w, c.h, 0) == free_match(
                    desired@,
                    taken@,
                    c.w,
                    c.h,
                    i as int,
                ),
            decreases desired@.len() - i,
        {
            i = i + 1;
        }
        if i == desired.len() {
            return None;
        }
        let ghost before = matched(current@, desired@, taken@, at as int);
        let ghost head = out@;
        taken.set(i, true);
        out.push(desired[i]);
        at = at + 1;
        proof {
            let rest = matched(current@, desired@, taken@, at as int);
            if whole is Some {
                assert(head + (seq![desired@[i as int]] + rest->0) =~= out@ + rest->0);
            }
        }
    }
    assert(whole is Some && whole->0 =~= out@);
    Some(out)
}

/// The index of the primary monitor: the first at the origin, else the first.
fn find_primary(current: &[Rect]) -> (r: usize)
    requires
        current@.len() > 0,
    ensures
        r == primary_from(current@, 0),
        r < current@.len(),
{
    let mut prim: usize = 0;
    while prim < current.len() && (current[prim].x != 0 || current[prim].y != 0)
        invariant
            prim <= current@.len(),
            primary_from(current@, 0) == primary_from(current@, prim as int),
        decreases current@.len() - prim,
    {
        prim = prim + 1;
    }
    if prim == current.len() {
        prim = 0;
    }
    prim
}

/// Can `desired` be realised without a monitor coming to lie past what a coordinate holds?
pub fn can_arrange(current: &[Rect], desired: &[Rect]) -> (r: bool)
    ensures
        r == (pairing(current@, desired@) matches Some(out) ==> can_pin(current@, out)),
{
    let out: Vec<Rect> = match pair_up(current, desired) {
        Some(out) => out,
        None => {
            return true;
        },
    };
    let o: Rect = out[find_primary(current)];
    for j in 0..out.len()
        invariant
            pairing(current@, desired@) == Some(out@),
            o == out@[primary_from(current@, 0)],
            forall|i: int|
                0 <= i < j ==> i32::MIN <= (#[trigger] out@[i]).x - o.x <= i32::MAX && i32::MIN
                    <= out@[i].y - o.y <= i32::MAX,
    {
        let (x, y): (i64, i64) = (out[j].x as i64 - o.x as i64, out[j].y as i64 - o.y as i64);
        if x < i32::MIN as i64 || x > i32::MAX as i64 || y < i32::MIN as i64 || y > i32::MAX as i64 {
            assert(!can_pin(current@, out@));
            return false;
        }
    }
    true
}

/// The position each `current` monitor should take to realise `desired`: desired
/// rects are matched to current monitors by size (an ambiguous size falls back to
/// order), then translated so the current PRIMARY (the monitor at 0,0) stays at
/// 0,0. `None` when the sets don't match or nothing would move.
pub fn arranged(current: &[Rect], desired: &[Rect]) -> (r: Option<Vec<Rect>>)
    requires
        pairing(current@, desired@) matches Some(out) ==> can_pin(current@, out),
    ensures
        match r {
            Some(v) => pairing(current@, desired@) is Some && v@ == pinned(
                current@,
                pairing(current@, desired@)->0,
            ) && v@ != current@,
            None => pairing(current@, desired@) matches Some(out) ==> pinned(current@, out)
                == current@,
        },
{
    let out: Vec<Rect> = match pair_up(current, desired) {
        Some(out) => out,
        None => {
            return None;
        },
    };
    let o: Rect = out[find_primary(current)];
    let ghost flat = out@;
    let mut moved: Vec<Rect> = Vec::new();
    let mut same: bool = true;
    let mut j: usize = 0;
    while j < out.len()
        invariant
            j <= out@.len(),
            out@ == flat,
            flat.len() == current@.len(),
            moved@.len() == j,
            o == flat[primary_from(current@, 0)],
            can_pin(current@, flat),
            forall|i: int| 0 <= i < j ==> #[trigger] moved@[i] == re_pinned(flat[i], o),
            same <==> forall|i: int| 0 <= i < j ==> #[trigger] moved@[i] == current@[i],
        decreases out@.len() - j,
    {
        let r: Rect = out[j];
        let m: Rect = Rect { x: r.x - o.x, y: r.y - o.y, w: r.w, h: r.h };
        let ghost head = moved@;
        moved.push(m);
        proof {
            assert(moved@[j as int] == m);
            if same && m == current@[j as int] {
                assert forall|i: int| 0 <= i < j + 1 implies #[trigger] moved@[i] == current@[i] by {
                    if i < j {
                        assert(head[i] == current@[i]);
                    }
                }
            }
            if !same {
                let w = choose|i: int| 0 <= i < j && #[trigger] head[i] != current@[i];
                assert(moved@[w] != current@[w]);
            }
        }
        if m != current[j] {
            same = false;
        }
        j = j + 1;
    }
    assert(moved@ =~= pinned(current@, flat));
    if same {
        assert(moved@ =~= current@);
        None
    } else {
        Some(moved)
    }
}

/// A free match is an index of the right size that is not taken.
proof fn lemma_free_match(desired: Seq<Rect>, taken: Seq<bool>, w: i32, h: i32, from: int)
    requires
        0 <= from,
    ensures
        free_match(desired, taken, w, h, from) matches Some(i) ==> from <= i < desired.len()
            && !taken[i] && desired[i].w == w && desired[i].h == h,
    decreases desired.len() - from,
{
    if from < desired.len() && !(!taken[from] && desired[from].w == w && desired[from].h == h) {
        lemma_free_match(desired, taken, w, h, from + 1);
    }
}

/// Matching keeps each monitor's size.
proof fn lemma_matched_sizes(current: Seq<Rect>, desired: Seq<Rect>, taken: Seq<bool>, at: int)
    requires
        0 <= at <= current.len(),
    ensures
        matched(current, desired, taken, at) matches Some(out) ==> out.len() == current.len() - at
            && forall|i: int|
            0 <= i < out.len() ==> (#[trigger] out[i]).w == current[at + i].w && out[i].h
                == current[at + i].h,
    decreases current.len() - at,
{
    if at < current.len() {
        lemma_free_match(desired, taken, current[at].w, current[at].h, 0);
        match free_match(desired, taken, current[at].w, current[at].h, 0) {
            None => {},
            Some(i) => {
                lemma_matched_sizes(current, desired, taken.update(i, true), at + 1);
                match matched(current, desired, taken.update(i, true), at + 1) {
                    None => {},
                    Some(rest) => {
                        let out = seq![desired[i]] + rest;
                        assert forall|k: int| 0 <= k < out.len() implies (#[trigger] out[k]).w
                            == current[at + k].w && out[k].h == current[at + k].h by {
                            if k > 0 {
                                assert(out[k] == rest[k - 1]);
                                assert(current[at + k] == current[at + 1 + (k - 1)]);
                            }
                        }
                    },
                }
            },
        }
    }
}

proof fn lemma_primary_in_range(current: Seq<Rect>, from: int)
    requires
        current.len() > 0,
        0 <= from,
    ensures
        0 <= primary_from(current, from) < current.len(),
    decreases current.len() - from,
{
    if from < current.len() && !(current[from].x == 0 && current[from].y == 0) {
        lemma_primary_in_range(current, from + 1);
    }
}

/// An arrangement has one rect for each current monitor, keeps every monitor's
/// size, and leaves the primary at the origin.
pub proof fn law_arrangement_keeps_sizes_and_primary(current: Seq<Rect>, desired: Seq<Rect>)
    requires
        pairing(current, desired) is Some,
    ensures
        ({
            let out = pinned(current, pairing(current, desired)->0);
            let prim = primary_from(current, 0);
            &&& out.len() == current.len()
            &&& forall|i: int|
                0 <= i < out.len() ==> (#[trigger] out[i]).w == current[i].w && out[i].h
                    == current[i].h
            &&& 0 <= prim < out.len()
            &&& out[prim].x == 0 && out[prim].y == 0
        }),
{
    lemma_matched_sizes(current, desired, Seq::new(desired.len(), |i: int| false), 0);
    lemma_primary_in_range(current, 0);
}

/// Half of a length, rounded toward zero.
pub open spec fn half(n: int) -> int {
    if n >= 0 {
        n / 2
    } else {
        -((-n) / 2)
    }
}

/// Half of a length, rounded toward zero.
pub fn halve(n: i32) -> (r: i64)
    ensures
        r == half(n as int),
        -0x8000_0000 <= r <= 0x8000_0000,
{
    if n >= 0 {
        n as i64 / 2
    } else {
        -((-(n as i64)) / 2)
    }
}

/// A third of a length, rounded toward zero.
pub open spec fn third(n: int) -> int {
    if n >= 0 {
        n / 3
    } else {
        -((-n) / 3)
    }
}

/// A third of a length, rounded toward zero.
pub fn thirds(n: i32) -> (r: i64)
    ensures
        r == third(n as int),
        -0x8000_0000 <= r <= 0x8000_0000,
{
    if n >= 0 {
        n as i64 / 3
    } else {
        -((-(n as i64)) / 3)
    }
}

/// The smaller of two lengths.
pub open spec fn shorter(a: int, b: int) -> int {
    if a < b {
        a
    } else {
        b
    }
}

/// Where `pos`, a coordinate of a window of length `len` on the hidden monitor's
/// span `(b0, bw)`, comes to lie on the span `(t0, tw)`: at the same relative spot,
/// then held inside.
pub open spec fn relocated(pos: int, len: int, b0: int, bw: int, t0: int, tw: int) -> int {
    held(
        t0 + binary32::truncated(
            binary32::product(share_of(pos - b0, bw), binary32::of_int(tw)),
        ),
        t0,
        t0 + tw - shorter(len, tw),
    )
}

/// One coordinate of a window that is moved off a hidden monitor.
fn relocate(pos: i32, len: i32, b0: i32, bw: i32, t0: i32, tw: i32) -> (r: i64)
    ensures
        r == relocated(pos as int, len as int, b0 as int, bw as int, t0 as int, tw as int),
{
    let w: i64 = if len < tw {
        len as i64
    } else {
        tw as i64
    };
    let f: Num = share(pos as i64 - b0 as i64, bw);
    let along: i64 = f.times(Num::of(tw as i64)).trunc() as i64;
    hold(t0 as i64 + along, t0 as i64, t0 as i64 + tw as i64 - w)
}

/// Where a window that is sitting on a monitor this machine is NOT showing (the
/// shared panel handed to the peer) should be moved to, so it is not stranded on
/// an invisible screen. `win` is the window rect, `blocked` the hidden monitor,
/// `target` a monitor that IS showing us. `None` when the window's centre is not
/// on the hidden monitor.
///
/// The window keeps its size and its relative spot on the monitor, then is held
/// so it lands fully inside `target`: a window pushed half off the screen (title
/// bar out of reach) would be no better than a hidden one.
pub fn relocate_off(win: Rect, blocked: Rect, target: Rect) -> (r: Option<Rect>)
    requires
        target.end_x() - shorter(win.w as int, target.w as int) <= i32::MAX,
        target.end_y() - shorter(win.h as int, target.h as int) <= i32::MAX,
    ensures
        r is Some <==> blocked.holds(win.x + half(win.w as int), win.y + half(win.h as int)),
        r matches Some(m) ==> m.w == win.w && m.h == win.h && m.x == relocated(
            win.x as int,
            win.w as int,
            blocked.x as int,
            blocked.w as int,
            target.x as int,
            target.w as int,
        ) && m.y == relocated(
            win.y as int,
            win.h as int,
            blocked.y as int,
            blocked.h as int,
            target.y as int,
            target.h as int,
        ),
{
    // Judge by the window's CENTRE: a window merely overlapping the seam is still
    // usable, and dragging every straddling window would fight the user.
    let cx: i64 = win.x as i64 + halve(win.w);
    let cy: i64 = win.y as i64 + halve(win.h);
    if !(blocked.x as i64 <= cx && cx < blocked.x as i64 + blocked.w as i64 && blocked.y as i64
        <= cy && cy < blocked.y as i64 + blocked.h as i64) {
        return None;
    }
    let x: i64 = relocate(win.x, win.w, blocked.x, blocked.w, target.x, target.w);
    let y: i64 = relocate(win.y, win.h, blocked.y, blocked.h, target.y, target.h);
    Some(Rect { x: x as i32, y: y as i32, w: win.w, h: win.h })
}

/// A window that is no larger than the target lands fully inside it, and one that
/// is larger lands at the target's origin.
pub proof fn law_relocated_window_is_reachable(
    pos: int,
    len: int,
    b0: int,
    bw: int,
    t0: int,
    tw: int,
)
    ensures
        len <= tw ==> t0 <= relocated(pos, len, b0, bw, t0, tw) <= t0 + tw - len,
        len >= tw ==> relocated(pos, len, b0, bw, t0, tw) == t0,
{
}

/// The smallest fraction that still counts as on a side of the rect: a hundredth
/// before its start, for rounding at corners.
pub open spec fn side_low() -> (int, int) {
    (-10737418, -30)
}

/// The largest fraction that still counts as on a side: a hundredth past its end.
pub open spec fn side_high() -> (int, int) {
    (8472494, -23)
}

/// A crossing of one side: how far along the travel it comes, and where on the
/// rect it lies.
pub ghost struct Hit {
    pub t: (int, int),
    pub fx: (int, int),
    pub fy: (int, int),
}

/// The travel and the rect that it ends in, in numbers.
pub ghost struct Travel {
    pub px: (int, int),
    pub py: (int, int),
    pub dx: (int, int),
    pub dy: (int, int),
    pub x0: (int, int),
    pub y0: (int, int),
    pub x1: (int, int),
    pub y1: (int, int),
    pub w: (int, int),
    pub h: (int, int),
}

pub open spec fn travel(b: Rect, from: (i32, i32), to: (i32, i32)) -> Travel {
    let px = binary32::of_int(from.0 as int);
    let py = binary32::of_int(from.1 as int);
    Travel {
        px,
        py,
        dx: binary32::difference(binary32::of_int(to.0 as int), px),
        dy: binary32::difference(binary32::of_int(to.1 as int), py),
        x0: binary32::of_int(b.x as int),
        y0: binary32::of_int(b.y as int),
        x1: binary32::of_int(b.end_x()),
        y1: binary32::of_int(b.end_y()),
        w: binary32::of_int(at_least_1(b.w as int)),
        h: binary32::of_int(at_least_1(b.h as int)),
    }
}

/// When the travel `p + t * d` reaches the line at `side`.
pub open spec fn time_to(side: (int, int), p: (int, int), d: (int, int)) -> (int, int) {
    binary32::quotient(binary32::difference(side, p), d)
}

/// Where on a span that starts at `o` and is `len` long the travel is at time `t`.
pub open spec fn place_at(
    t: (int, int),
    p: (int, int),
    d: (int, int),
    o: (int, int),
    len: (int, int),
) -> (int, int) {
    binary32::quotient(
        binary32::difference(
            binary32::sum(p, binary32::product(t, d)),
            o,
        ),
        len,
    )
}

pub open spec fn zero() -> (int, int) {
    (0, 0)
}

pub open spec fn one() -> (int, int) {
    binary32::of_int(1)
}

pub open spec fn left_hit(v: Travel) -> Option<Hit> {
    if binary32::below(zero(), v.dx) && binary32::below(v.px, v.x0) {
        let t = time_to(v.x0, v.px, v.dx);
        Some(Hit { t, fx: zero(), fy: place_at(t, v.py, v.dy, v.y0, v.h) })
    } else {
        None
    }
}

pub open spec fn right_hit(v: Travel) -> Option<Hit> {
    if binary32::below(v.dx, zero()) && !binary32::below(v.px, v.x1) {
        let t = time_to(v.x1, v.px, v.dx);
        Some(Hit { t, fx: one(), fy: place_at(t, v.py, v.dy, v.y0, v.h) })
    } else {
        None
    }
}

pub open spec fn top_hit(v: Travel) -> Option<Hit> {
    if binary32::below(zero(), v.dy) && binary32::below(v.py, v.y0) {
        let t = time_to(v.y0, v.py, v.dy);
        Some(Hit { t, fx: place_at(t, v.px, v.dx, v.x0, v.w), fy: zero() })
    } else {
        None
    }
}

pub open spec fn bottom_hit(v: Travel) -> Option<Hit> {
    if binary32::below(v.dy, zero()) && !binary32::below(v.py, v.y1) {
        let t = time_to(v.y1, v.py, v.dy);
        Some(Hit { t, fx: place_at(t, v.px, v.dx, v.x0, v.w), fy: one() })
    } else {
        None
    }
}

/// The fraction lies on the side, or within the tolerance of it.
pub open spec fn on_side(f: (int, int)) -> bool {
    !binary32::below(f, side_low()) && !binary32::below(side_high(), f)
}

/// A crossing counts when it comes during the travel and on the rect's side.
pub open spec fn counts(c: Hit) -> bool {
    !binary32::below(c.t, zero()) && !binary32::below(one(), c.t) && on_side(c.fx)
        && on_side(c.fy)
}

/// The earlier of the best crossing so far and one more side's crossing.
pub open spec fn earlier(best: Option<Hit>, c: Option<Hit>) -> Option<Hit> {
    match c {
        Some(h) => if counts(h) && (best matches Some(p) ==> binary32::below(h.t, p.t)) {
            Some(h)
        } else {
            best
        },
        None => best,
    }
}

/// The side that the travel crosses first.
pub open spec fn first_hit(v: Travel) -> Option<Hit> {
    earlier(earlier(earlier(earlier(None, left_hit(v)), right_hit(v)), top_hit(v)), bottom_hit(v))
}

/// The nearest side of a resting point at `(fx, fy)`: left, right, top, bottom in
/// case of a tie.
pub open spec fn nearest_side(fx: (int, int), fy: (int, int)) -> ((int, int), (int, int)) {
    let dr = binary32::difference(one(), fx);
    let db = binary32::difference(one(), fy);
    if !binary32::below(dr, fx) && !binary32::below(fy, fx)
        && !binary32::below(db, fx) {
        (zero(), fy)
    } else if !binary32::below(fy, dr) && !binary32::below(db, dr) {
        (one(), fy)
    } else if !binary32::below(db, fy) {
        (fx, zero())
    } else {
        (fx, one())
    }
}

/// Where the travel `from`→`to` enters the rect, as fractions across it.
pub open spec fn entry_of(b: Rect, from: (i32, i32), to: (i32, i32)) -> (
    (int, int),
    (int, int),
) {
    match first_hit(travel(b, from, to)) {
        Some(h) => (
            binary32::unit_clamped(h.fx),
            binary32::unit_clamped(h.fy),
        ),
        None => nearest_side(
            unit_share(to.0 - b.x, b.w as int),
            unit_share(to.1 - b.y, b.h as int),
        ),
    }
}

/// A crossing of one side, as computed.
#[derive(Clone, Copy)]
struct Crossing {
    t: Num,
    fx: Num,
    fy: Num,
}

impl Crossing {
    spec fn hit(self) -> Hit {
        Hit { t: self.t.pair(), fx: self.fx.pair(), fy: self.fy.pair() }
    }

    spec fn ok(self) -> bool {
        self.t.wf() && self.fx.wf() && self.fy.wf() && self.t.within(10_000) && self.fx.within(
            100_000,
        ) && self.fy.within(100_000)
    }
}

spec fn hit_of(c: Option<Crossing>) -> Option<Hit> {
    match c {
        Some(k) => Some(k.hit()),
        None => None,
    }
}

spec fn sound(x: Num) -> bool {
    x.wf() && x.within(1_000)
}

/// When the travel `p + t * d` reaches the line at `side`.
fn reach(side: Num, p: Num, d: Num) -> (t: Num)
    requires
        sound(side),
        sound(p),
        sound(d),
        d.n != 0,
    ensures
        t.wf(),
        t.within(5_000),
        t.pair() == time_to(side.pair(), p.pair(), d.pair()),
{
    side.minus(p).over(d)
}

/// Where on a span the travel is at time `t`.
fn place(t: Num, p: Num, d: Num, o: Num, len: Num) -> (f: Num)
    requires
        t.wf(),
        t.within(5_000),
        sound(p),
        sound(d),
        sound(o),
        sound(len),
        len.n != 0,
    ensures
        f.wf(),
        f.within(10_000),
        f.pair() == place_at(t.pair(), p.pair(), d.pair(), o.pair(), len.pair()),
{
    p.plus(t.times(d)).minus(o).over(len)
}

/// Does the crossing come during the travel and on the rect's side?
fn crossing_counts(c: Crossing) -> (r: bool)
    requires
        c.ok(),
    ensures
        r == counts(c.hit()),
{
    let low: Num = Num { n: -10737418, e: -30 };
    let high: Num = Num { n: 8472494, e: -23 };
    !c.t.lt(Num::zero()) && !Num::of(1).lt(c.t) && !c.fx.lt(low) && !high.lt(c.fx) && !c.fy.lt(low)
        && !high.lt(c.fy)
}

/// The earlier of the best crossing so far and one more.
fn consider(best: Option<Crossing>, c: Crossing) -> (r: Option<Crossing>)
    requires
        c.ok(),
        best matches Some(p) ==> p.ok(),
    ensures
        hit_of(r) == earlier(hit_of(best), Some(c.hit())),
        r matches Some(p) ==> p.ok(),
{
    if !crossing_counts(c) {
        return best;
    }
    match best {
        None => Some(c),
        Some(p) => if c.t.lt(p.t) {
            Some(c)
        } else {
            best
        },
    }
}

/// A binary32 of a number held to `[0, 1]`; what is below binary32's normal range
/// becomes zero.
pub open spec fn stored(x: (int, int)) -> (int, int) {
    if x.1 < -149 {
        (0, 0)
    } else {
        x
    }
}

/// Where the travel enters the rect, as it travels between machines.
pub open spec fn entry_fractions(b: Rect, from: (i32, i32), to: (i32, i32)) -> (F32, F32) {
    let (fx, fy) = entry_of(b, from, to);
    (binary32::encoded(stored(fx)), binary32::encoded(stored(fy)))
}

/// Stores a number held to `[0, 1]`.
fn store_unit(x: Num) -> (r: F32)
    requires
        x.wf(),
        x.n >= 0,
        !binary32::below(one(), x.pair()),
    ensures
        r == binary32::encoded(stored(x.pair())),
        r.exponent() != 255,
        !r.negative(),
        r.value() == stored(x.pair()),
{
    if x.e < -149 {
        to_f32(Num::zero())
    } else {
        proof {
            if x.n > 0 {
                binary32::lemma_unit_exponent(x);
            }
        }
        to_f32(x)
    }
}

/// The side that the travel `from`→`to` crosses first.
#[verifier::rlimit(40)]
fn find_hit(b: Rect, from: (i32, i32), to: (i32, i32)) -> (r: Option<Crossing>)
    ensures
        hit_of(r) == first_hit(travel(b, from, to)),
        r matches Some(c) ==> c.ok(),
{
    let px: Num = Num::of(from.0 as i64);
    let py: Num = Num::of(from.1 as i64);
    let dx: Num = Num::of(to.0 as i64).minus(px);
    let dy: Num = Num::of(to.1 as i64).minus(py);
    let wl: i64 = if b.w < 1 {
        1
    } else {
        b.w as i64
    };
    let hl: i64 = if b.h < 1 {
        1
    } else {
        b.h as i64
    };
    let w: Num = Num::of(wl);
    let h: Num = Num::of(hl);
    let x0: Num = Num::of(b.x as i64);
    let y0: Num = Num::of(b.y as i64);
    let x1: Num = Num::of(b.x as i64 + b.w as i64);
    let y1: Num = Num::of(b.y as i64 + b.h as i64);
    let nought: Num = Num::zero();
    let unit: Num = Num::of(1);
    let ghost v = travel(b, from, to);
    proof {
        binary32::lemma_of_nonzero(wl as int);
        binary32::lemma_of_nonzero(hl as int);
        binary32::lemma_below_zero(dx);
        binary32::lemma_below_zero(dy);
    }
    let mut best: Option<Crossing> = None;
    if nought.lt(dx) && px.lt(x0) {
        let t: Num = reach(x0, px, dx);
        best = consider(best, Crossing { t, fx: nought, fy: place(t, py, dy, y0, h) });
    }
    assert(hit_of(best) == earlier(None, left_hit(v)));
    if dx.lt(nought) && !px.lt(x1) {
        let t: Num = reach(x1, px, dx);
        best = consider(best, Crossing { t, fx: unit, fy: place(t, py, dy, y0, h) });
    }
    assert(hit_of(best) == earlier(earlier(None, left_hit(v)), right_hit(v)));
    if nought.lt(dy) && py.lt(y0) {
        let t: Num = reach(y0, py, dy);
        best = consider(best, Crossing { t, fx: place(t, px, dx, x0, w), fy: nought });
    }
    if dy.lt(nought) && !py.lt(y1) {
        let t: Num = reach(y1, py, dy);
        best = consider(best, Crossing { t, fx: place(t, px, dx, x0, w), fy: unit });
    }
    best
}

/// The nearest side of a resting point.
#[verifier::rlimit(40)]
fn find_side(to: (i32, i32), b: Rect) -> (r: (Num, Num))
    ensures
        (r.0.pair(), r.1.pair()) == nearest_side(
            unit_share(to.0 - b.x, b.w as int),
            unit_share(to.1 - b.y, b.h as int),
        ),
        r.0.wf() && r.0.n >= 0 && !binary32::below(one(), r.0.pair()),
        r.1.wf() && r.1.n >= 0 && !binary32::below(one(), r.1.pair()),
{
    let fx: Num = share(to.0 as i64 - b.x as i64, b.w).clamp_unit();
    let fy: Num = share(to.1 as i64 - b.y as i64, b.h).clamp_unit();
    let nought: Num = Num::zero();
    let unit: Num = Num::of(1);
    proof {
        binary32::lemma_clamped_unit(share_of(to.0 - b.x, b.w as int));
        binary32::lemma_clamped_unit(share_of(to.1 - b.y, b.h as int));
        binary32::lemma_unit_bounds();
    }
    let dr: Num = unit.minus(fx);
    let db: Num = unit.minus(fy);
    if !dr.lt(fx) && !fy.lt(fx) && !db.lt(fx) {
        (nought, fy)
    } else if !fy.lt(dr) && !db.lt(dr) {
        (unit, fy)
    } else if !db.lt(fy) {
        (fx, nought)
    } else {
        (fx, unit)
    }
}

/// Where the segment `from`→`to` (ending inside `b`) enters the rect, as fractions
/// across it: the entered edge pinned to exactly 0.0 / 1.0 and the crossing point
/// preserved along it. Every side the segment could have crossed is intersected
/// and the first hit along the travel wins, so a diagonal entry near a corner
/// still resolves to the side that was physically hit first. When there is no
/// crossing to measure (`from` already inside, or no motion), falls back to
/// pinning the nearest side of the caught position.
pub fn entry_on_rect(b: Rect, from: (i32, i32), to: (i32, i32)) -> (r: (F32, F32))
    ensures
        r == entry_fractions(b, from, to),
        r.0.exponent() != 255 && !r.0.negative(),
        r.1.exponent() != 255 && !r.1.negative(),
        (r.0.value(), r.1.value()) == (stored(entry_of(b, from, to).0), stored(
            entry_of(b, from, to).1,
        )),
{
    let (fx, fy): (Num, Num) = match find_hit(b, from, to) {
        Some(c) => {
            proof {
                binary32::lemma_clamped_unit(c.fx.pair());
                binary32::lemma_clamped_unit(c.fy.pair());
            }
            (c.fx.clamp_unit(), c.fy.clamp_unit())
        },
        None => find_side(to, b),
    };
    (store_unit(fx), store_unit(fy))
}

/// The entry point lies on a side of the rect: one of its two fractions is exactly
/// 0 or exactly 1.
pub proof fn law_entry_is_on_a_side(b: Rect, from: (i32, i32), to: (i32, i32))
    ensures
        ({
            let (fx, fy) = entry_of(b, from, to);
            fx == zero() || fx == one() || fy == zero() || fy == one()
        }),
{
    binary32::lemma_unit_bounds();
}

/// An entry lies inside the rect: both fractions are in `[0, 1]`.
pub proof fn law_entry_is_inside(b: Rect, from: (i32, i32), to: (i32, i32))
    ensures
        ({
            let (fx, fy) = entry_of(b, from, to);
            !binary32::below(fx, zero()) && !binary32::below(one(), fx)
                && !binary32::below(fy, zero()) && !binary32::below(one(), fy)
        }),
{
    binary32::lemma_unit_bounds();
    let v = travel(b, from, to);
    match first_hit(v) {
        Some(h) => {
            binary32::lemma_clamped_unit(h.fx);
            binary32::lemma_clamped_unit(h.fy);
            binary32::lemma_nonnegative(binary32::unit_clamped(h.fx));
            binary32::lemma_nonnegative(binary32::unit_clamped(h.fy));
        },
        None => {
            let fx = share_of(to.0 - b.x, b.w as int);
            let fy = share_of(to.1 - b.y, b.h as int);
            binary32::lemma_clamped_unit(fx);
            binary32::lemma_clamped_unit(fy);
            binary32::lemma_nonnegative(binary32::unit_clamped(fx));
            binary32::lemma_nonnegative(binary32::unit_clamped(fy));
        },
    }
}

} // verus!
