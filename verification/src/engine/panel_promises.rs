//! What the shared panel's geometry is for: two desks that share a monitor fit together
//! along it, and a cursor that crosses there keeps its place.
use vstd::prelude::*;

use crate::binary32::{self, of_int, F32};
use crate::engine::action::{ActionView, Offline};
use crate::engine::model::{self, DeskView, RouterView};
use crate::engine::panel::{self, Area, EDGE_INSET, LAND_DEPTH};
use crate::engine::promises::sent;
use crate::engine::Captured;
use crate::geometry::{
    against, at_part, beside, inside_by, is_desktop, is_near, is_ratio,
    law_point_is_beside_its_edge, law_ratio_of_a_length,
    lemma_share, over, ratio_value, WIDEST,
};
use crate::layout::{self, Edge};
use crate::proto::{MsgView, Rect};
use crate::reals::{
    lemma_divided, lemma_of_int, lemma_product_real, lemma_quotient_real, lemma_real_product,
    lemma_sum_real, lemma_truncated_real, real_of, size_of,
};

verus! {

/// Lying against each other is mutual: where one monitor lies against an edge of another,
/// the other lies against the facing side of the one.
pub proof fn law_adjoining_is_mutual(m: Rect, p: Rect, edge: Edge, back: Edge)
    requires
        against(edge, back),
    ensures
        panel::adjoins(m, p, edge) == panel::adjoins(p, m, back),
{
}

/// A monitor that lies against an edge lies outside of it, a few pixels aside, and over a
/// part of it; and one that touches it from outside lies against it.
pub proof fn law_adjoining_is_from_outside(m: Rect, p: Rect, edge: Edge, x: int, y: int)
    requires
        m.solid() && p.solid(),
    ensures
        panel::adjoins(m, p, edge) && m.holds(x, y) ==> inside_by(p, edge, x, y) < 8,
        m.holds(x, y) && inside_by(p, edge, x, y) == -1 && (if edge is Left || edge is Right {
            p.y <= y < p.end_y() && (m.x >= p.end_x() || m.end_x() <= p.x)
        } else {
            p.x <= x < p.end_x() && (m.y >= p.end_y() || m.end_y() <= p.y)
        }) ==> panel::adjoins(m, p, edge),
{
}

/// An area holds a point.
pub open spec fn on_area(g: Area, x: int, y: int) -> bool {
    g.x <= x < g.x + g.w && g.y <= y < g.y + g.h
}

/// The point `k` pixels beyond an edge of a desktop, at a place along it.
pub open spec fn beyond_by(b: Rect, edge: Edge, ex: int, ey: int, k: int) -> (int, int) {
    match edge {
        Edge::Left => (b.x - k, ey),
        Edge::Right => (b.end_x() - 1 + k, ey),
        Edge::Top => (ex, b.y - k),
        Edge::Bottom => (ex, b.end_y() - 1 + k),
    }
}

/// What lies beyond an edge is found by stepping over it: ten pixels on, the cursor is on
/// it; ten pixels back, it is not. A deep enough area that starts at the edge is beyond it.
pub proof fn law_beyond_is_a_step_over_the_edge(g: Area, b: Rect, edge: Edge, ex: int, ey: int)
    requires
        g.w >= 20 && g.h >= 20,
    ensures
        ({
            let (on, back, at) = (
                beyond_by(b, edge, ex, ey, 10),
                beyond_by(b, edge, ex, ey, -10),
                beyond_by(b, edge, ex, ey, 1),
            );
            let here = beyond_by(b, edge, ex, ey, 0);
            &&& panel::lies_beyond(g, b, edge, ex, ey) ==> on_area(g, on.0, on.1) && !on_area(
                g,
                back.0,
                back.1,
            )
            &&& on_area(g, at.0, at.1) && !on_area(g, here.0, here.1) ==> panel::lies_beyond(
                g,
                b,
                edge,
                ex,
                ey,
            )
        }),
{
}

/// A monitor that is found beyond an edge is one of the peer's, is not the panel, and lies
/// beyond it; where none is found, none does.
pub proof fn law_what_is_beyond_is_found(
    screens: Seq<Rect>,
    local: Rect,
    prect: Rect,
    b: Rect,
    edge: Edge,
    ex: int,
    ey: int,
    from: int,
)
    requires
        0 <= from,
    ensures
        match panel::beyond_from(screens, local, prect, b, edge, ex, ey, from) {
            Some(m) => m != prect && panel::lies_beyond(
                panel::to_global(m, local, prect),
                b,
                edge,
                ex,
                ey,
            ) && exists|i: int| from <= i < screens.len() && #[trigger] screens[i] == m,
            None => forall|i: int|
                from <= i < screens.len() ==> #[trigger] screens[i] == prect
                    || !panel::lies_beyond(
                    panel::to_global(screens[i], local, prect),
                    b,
                    edge,
                    ex,
                    ey,
                ),
        },
    decreases screens.len() - from,
{
    if from < screens.len() {
        law_what_is_beyond_is_found(screens, local, prect, b, edge, ex, ey, from + 1);
    }
}

/// A monitor that is found against an edge is the first that lies there.
pub proof fn law_the_adjoining_monitor_is_found(mons: Seq<Rect>, p: Rect, edge: Edge, from: int)
    requires
        0 <= from,
    ensures
        match panel::adjoining_from(mons, p, edge, from) {
            Some(m) => panel::adjoins(m, p, edge) && exists|i: int|
                from <= i < mons.len() && #[trigger] mons[i] == m,
            None => forall|i: int|
                from <= i < mons.len() ==> !panel::adjoins(#[trigger] mons[i], p, edge),
        },
    decreases mons.len() - from,
{
    if from < mons.len() {
        law_the_adjoining_monitor_is_found(mons, p, edge, from + 1);
    }
}

/// A value as an integer part of `n * lw / pw`: toward zero, to within a pixel.
pub open spec fn about(r: int, n: int, lw: int, pw: int) -> bool {
    8real * size_of(r as real - over(n, pw) * lw as real) <= 9real
}

/// A length on the peer's desk is as long on this desk as the two copies of the panel say,
/// to within a pixel.
pub proof fn law_lengths_scale_with_the_panel(n: int, lw: int, pw: int)
    requires
        0 < lw <= WIDEST,
        0 < pw <= WIDEST,
        is_near(n),
        -WIDEST * pw <= n * lw <= WIDEST * pw,
    ensures
        about(panel::scaled(n, panel::scale_of(lw, pw)), n, lw, pw),
        lw == pw ==> panel::scaled(n, panel::scale_of(lw, pw)) == n,
{
    reveal(panel::scaled);
    lemma_share(lw, pw);
    lemma_of_int(n);
    let s = panel::scale_of(lw, pw);
    let f = binary32::product(of_int(n), s);
    lemma_product_real(of_int(n), s, of_int(n));
    let (x, l, p, q, v, k) = (
        n as real,
        lw as real,
        pw as real,
        over(lw, pw),
        real_of(s),
        over(n, pw),
    );
    lemma_divided(x, p, k);
    lemma_real_product(n, lw);
    lemma_real_product(WIDEST as int, pw);
    lemma_real_product(-(WIDEST as int), pw);
    assert(k * l == x * q) by (nonlinear_arith)
        requires
            k * p == x,
            q * p == l,
    ;
    let e = x * q;
    assert(-1048576real <= e <= 1048576real) by (nonlinear_arith)
        requires
            e == x * q,
            q * p == l,
            -1048576real * p <= x * l <= 1048576real * p,
            p > 0real,
    ;
    let d = v - q;
    assert(x * v == e + x * d) by (nonlinear_arith)
        requires
            e == x * q,
            d == v - q,
    ;
    assert(-1real <= 16real * (x * d) <= 1real) by (nonlinear_arith)
        requires
            -q <= 16777216real * d <= q,
            -1048576real <= x * q <= 1048576real,
            q >= 0real,
    ;
    lemma_truncated_real(f);
    if lw == pw {
        lemma_of_int(1);
        reveal(layout::share_of);
        lemma_of_int(lw);
        lemma_quotient_real(of_int(lw), of_int(lw), of_int(1));
        lemma_divided(l, l, 1real);
        assert(v == 1real);
        assert(x * v == x) by (nonlinear_arith)
            requires
                v == 1real,
        ;
        assert(real_of(f) == x);
    }
}

/// Where the two copies of the panel have the same size, the peer's desk lies on this one
/// just shifted, so that the two copies coincide.
pub proof fn law_equal_panels_only_shift(m: Rect, local: Rect, prect: Rect)
    requires
        local.w == prect.w && local.h == prect.h,
        0 < local.w <= WIDEST,
        0 < local.h <= WIDEST,
        is_near(m.x - prect.x) && is_near(m.y - prect.y),
        0 <= m.w <= WIDEST && 0 <= m.h <= WIDEST,
        is_near(local.x as int) && is_near(local.y as int),
    ensures
        ({
            let g = panel::to_global(m, local, prect);
            &&& g.x == m.x - prect.x + local.x
            &&& g.y == m.y - prect.y + local.y
            &&& g.w == m.w && g.h == m.h
        }),
{
    reveal(panel::to_global);
    assert(forall|n: int, l: int|
        is_near(n) && 0 < l ==> -WIDEST * l <= #[trigger] (n * l) <= WIDEST * l) by (nonlinear_arith);
    let (dx, dy) = (m.x - prect.x, m.y - prect.y);
    let (w, h) = (local.w as int, local.h as int);
    assert(-WIDEST * w <= dx * w <= WIDEST * w && -WIDEST * h <= dy * h <= WIDEST * h);
    assert(-WIDEST * w <= m.w * w <= WIDEST * w && -WIDEST * h <= m.h * h <= WIDEST * h);
    law_lengths_scale_with_the_panel(dx, w, w);
    law_lengths_scale_with_the_panel(dy, h, h);
    law_lengths_scale_with_the_panel(m.w as int, w, w);
    law_lengths_scale_with_the_panel(m.h as int, h, h);
}

/// Coming home from the peer's copy of the panel puts the cursor just inside the side of the
/// adjoining monitor that faces the panel, at the part of the way along it that it left at.
pub proof fn law_homecoming_is_beside_the_panel(m: Rect, edge: Edge, f: F32, side: Edge)
    requires
        is_desktop(m),
        m.w > 2 * EDGE_INSET && m.h > 2 * EDGE_INSET,
        is_ratio(f),
        against(edge, side),
    ensures
        ({
            let (x, y) = panel::homecoming(m, edge, f);
            &&& m.holds(x, y)
            &&& inside_by(m, side, x, y) == EDGE_INSET
            &&& edge is Left || edge is Right ==> at_part(y - m.y, m.h as int, ratio_value(f))
            &&& edge is Top || edge is Bottom ==> at_part(x - m.x, m.w as int, ratio_value(f))
        }),
{
    reveal(panel::homecoming);
    law_ratio_of_a_length(f, m.w as int);
    law_ratio_of_a_length(f, m.h as int);
    let v = ratio_value(f);
    let (w, h) = (m.w as real, m.h as real);
    assert(v * w <= w && v * h <= h) by (nonlinear_arith)
        requires
            v <= 1real,
            w > 0real,
            h > 0real,
    ;
}

/// A crossing over the panel lands on the peer's monitor inside the side that faces this
/// desk, a little way in; where the two copies of the panel have the same size, exactly
/// where the cursor was on the shared map, unless that is off the monitor.
pub proof fn law_landing_is_where_the_cursor_was(
    m: Rect,
    local: Rect,
    prect: Rect,
    edge: Edge,
    ex: int,
    ey: int,
    side: Edge,
)
    requires
        against(edge, side),
        m.solid() && m.w >= 3 && m.h >= 3,
    ensures
        ({
            let (x, y) = panel::landing_on(m, local, prect, edge, ex, ey);
            let deep = inside_by(m, side, x, y);
            &&& EDGE_INSET <= deep <= LAND_DEPTH
            &&& m.w > 150 && m.h > 150 ==> deep == LAND_DEPTH
            &&& local.w == prect.w && local.h == prect.h && 0 < local.w <= WIDEST && 0 < local.h
                <= WIDEST && is_near(m.x as int) && is_near(m.y as int) && is_near(
                m.x - prect.x,
            ) && is_near(m.y - prect.y) && m.w <= WIDEST && m.h <= WIDEST && is_near(
                local.x as int,
            ) && is_near(local.y as int) && is_near(ex) && is_near(ey) ==> {
                let (gx, gy) = (ex - local.x + prect.x, ey - local.y + prect.y);
                &&& (edge is Top || edge is Bottom) && m.x <= gx < m.end_x() ==> x == gx
                &&& (edge is Left || edge is Right) && m.y <= gy < m.end_y() ==> y == gy
            }
        }),
{
    reveal(panel::landing_on);
    if local.w == prect.w && local.h == prect.h && 0 < local.w <= WIDEST && 0 < local.h <= WIDEST
        && is_near(m.x as int) && is_near(m.y as int) && is_near(m.x - prect.x) && is_near(
        m.y - prect.y,
    ) && m.w <= WIDEST && m.h <= WIDEST && is_near(local.x as int) && is_near(local.y as int)
        && is_near(ex) && is_near(ey) {
        law_equal_panels_only_shift(m, local, prect);
        let g = panel::to_global(m, local, prect);
        lemma_landing(m.x as int, ex - g.x, local.w as int);
        lemma_landing(m.y as int, ey - g.y, local.h as int);
    }
}

proof fn lemma_landing(m0: int, off: int, l: int)
    requires
        is_near(m0),
        -5 * WIDEST <= off <= 5 * WIDEST,
        0 < l <= WIDEST,
    ensures
        panel::landing_along(m0, off, panel::scale_of(l, l)) == m0 + off,
{
    reveal(panel::landing_along);
    reveal(layout::share_of);
    lemma_of_int(1);
    lemma_of_int(l);
    lemma_of_int(m0);
    lemma_of_int(off);
    lemma_of_int(m0 + off);
    let s = panel::scale_of(l, l);
    lemma_quotient_real(of_int(l), of_int(l), of_int(1));
    lemma_divided(l as real, l as real, 1real);
    assert(real_of(s) == 1real);
    assert(s.0 != 0) by {
        if s.0 == 0 {
            let p = crate::reals::power(s.1);
            assert(0real * p == 0real) by (nonlinear_arith);
        }
    }
    lemma_quotient_real(of_int(off), s, of_int(off));
    lemma_divided(off as real, 1real, off as real);
    let q = binary32::quotient(of_int(off), s);
    lemma_sum_real(of_int(m0), q, of_int(m0 + off));
    lemma_truncated_real(binary32::sum(of_int(m0), q));
}

/// A panel that spans an edge reaches it, and the two edges beside it.
pub proof fn law_spanning_is_reaching_three_edges(local: Rect, b: Rect, edge: Edge, e: Edge, back: Edge)
    requires
        against(edge, back),
        panel::spans(local, b, edge),
        e != back,
    ensures
        panel::reaches(local, b, e),
{
}

/// A panel that lies inside a desktop reaches an edge exactly if it comes within four pixels
/// of it.
pub proof fn law_reaching_is_within_four_pixels(local: Rect, b: Rect, edge: Edge)
    requires
        local.solid() && b.solid(),
    ensures
        panel::reaches(local, b, edge) == exists|x: int, y: int| #[trigger]
            local.holds(x, y) && inside_by(b, edge, x, y) <= 4,
{
    if panel::reaches(local, b, edge) {
        let (x, y) = match edge {
            Edge::Left | Edge::Top => (local.x as int, local.y as int),
            _ => (local.end_x() - 1, local.end_y() - 1),
        };
        assert(local.holds(x, y) && inside_by(b, edge, x, y) <= 4);
    }
}

/// A crossing beside the shared panel goes onto the peer's monitor that lies beyond the edge
/// on the shared map, and input goes there; where none does and nothing else is linked
/// there, the cursor comes back just inside the edge.
pub proof fn law_crossing_beside_the_panel(
    s: RouterView,
    d: DeskView,
    edge: Edge,
    ratio: F32,
    peer: Seq<char>,
    local: Rect,
    prect: Rect,
)
    requires
        s.tablet_edge != Some(edge),
        s.shared_peer() == Some(peer),
        s.shared.local_rect == Some(local),
        s.shared.peer_rect == Some(prect),
        model::online(d, peer),
        is_desktop(s.bounds),
        s.bounds.w > EDGE_INSET && s.bounds.h > EDGE_INSET,
        is_ratio(ratio),
    ensures
        ({
            let t = s.captured(d, Captured::EdgeHit { edge, ratio });
            let (ex, ey) = s.coord_on(s.bounds, edge, ratio, 0);
            let n = s.out.len() as int;
            &&& beside(s.bounds, edge, ratio_value(ratio), 0, ex, ey)
            &&& match panel::beyond_from(
                s.screens(peer),
                local,
                prect,
                s.bounds,
                edge,
                ex,
                ey,
                0,
            ) {
                Some(m) => {
                    let (x, y) = panel::landing_on(m, local, prect, edge, ex, ey);
                    &&& t.focus == Some(peer)
                    &&& t.out.len() == n + 2 && t.out[n] == ActionView::Flash(edge)
                    &&& t.out[n + 1] == sent(peer, MsgView::EnterAt { x: x as i32, y: y as i32 })
                },
                None => (layout::target_of(s.links, s.name, edge) matches Some((to, _)) ==> to
                    == peer) ==> {
                    &&& t.focus == s.focus
                    &&& t.out.len() == n + 3 && t.out[n] == ActionView::ExitForwarding
                    &&& t.out[n + 1] matches ActionView::Warp { x, y } && beside(
                        s.bounds,
                        edge,
                        ratio_value(ratio),
                        EDGE_INSET as int,
                        x,
                        y,
                    )
                },
            }
        }),
{
    reveal(RouterView::edge_hit);
    reveal(RouterView::panel_crossing);
    reveal(RouterView::to_focus);
    law_point_is_beside_its_edge(s.bounds, edge, ratio, 0);
    law_point_is_beside_its_edge(s.bounds, edge, ratio, EDGE_INSET as int);
}

/// The focused peer's cursor that leaves through an edge of its copy of the panel comes home
/// onto this desk's monitor that adjoins the panel there; where none does, it is held on the
/// panel. One that leaves elsewhere is not the panel's to decide.
pub proof fn law_leaving_through_the_panel(
    s: RouterView,
    d: DeskView,
    peer: Seq<char>,
    edge: Edge,
    ratio: F32,
    local: Rect,
    prect: Rect,
    all: Rect,
)
    requires
        s.focus == Some(peer),
        s.shared_peer() == Some(peer),
        s.shared.local_rect == Some(local),
        s.shared.peer_rect == Some(prect),
        panel::union_of(s.screens(peer)) == Some(all),
    ensures
        ({
            let (ex, ey) = layout::edge_point(all, edge, ratio, 0);
            let t = s.cursor_left(d, peer, edge, ratio);
            let n = t.out.len() as int;
            panel::on_panel_edge(prect, edge, ex, ey) ==> match panel::adjoining_from(
                d.monitors,
                local,
                edge,
                0,
            ) {
                Some(m) => {
                    let (x, y) = panel::homecoming(m, edge, layout::edge_ratio(prect, edge, ex, ey));
                    &&& t.focus is None
                    &&& n >= 3 && t.out[n - 3] == ActionView::ExitForwarding
                    &&& t.out[n - 2] == (ActionView::Warp { x, y })
                },
                None => t.focus == Some(peer) && t.out.len() == s.out.len() + 1 && (
                t.out.last() matches ActionView::Send { peer: to, msg: MsgView::EnterAt { .. }, .. }
                    && to == peer),
            }
        }),
{
    reveal(RouterView::cursor_left);
    reveal(RouterView::panel_return);
    reveal(RouterView::to_focus);
    reveal(RouterView::released);
}

/// A point on an edge of the panel's copy is at that edge of it, or beyond, and along it.
pub proof fn law_the_panels_edge_is_its_edge(prect: Rect, edge: Edge, x: int, y: int)
    ensures
        panel::on_panel_edge(prect, edge, x, y) == (inside_by(prect, edge, x, y) <= 0 && if edge is Left
            || edge is Right {
            prect.y <= y < prect.end_y()
        } else {
            prect.x <= x < prect.end_x()
        }),
{
}

/// Reclaiming the panel while its other machine is driven brings the cursor home, to the
/// middle of the panel.
pub proof fn law_reclaiming_brings_the_cursor_home(s: RouterView, peer: Seq<char>, local: Rect)
    requires
        s.focus == Some(peer),
        peer != s.name,
        s.shared.local_rect == Some(local),
        local.solid(),
    ensures
        ({
            let t = s.owned_by(s.name, peer);
            let n = t.out.len() as int;
            &&& t.focus is None && t.shared_owner == s.name && t.blocked is None
            &&& n >= 2 && t.out[n - 2] == ActionView::ExitForwarding
            &&& t.out[n - 1] matches ActionView::Warp { x, y } && local.holds(x, y)
        }),
{
    reveal(RouterView::owned_by);
    reveal(RouterView::to_focus);
    reveal(RouterView::released);
}

/// A change of owner is remembered and shown, and the peer hears which copy to hide: its own
/// where this machine is shown, none where it is.
pub proof fn law_a_change_of_owner_is_told(s: RouterView, owner: Seq<char>, peer: Seq<char>)
    requires
        s.focus is None,
    ensures
        ({
            let t = s.owned_by(owner, peer);
            let n = s.out.len() as int;
            &&& t.shared_owner == owner
            &&& t.out.len() >= n + 5
            &&& t.out[n] == ActionView::RememberOwner(owner)
            &&& t.out[n + 1] == ActionView::SharedOwner(owner)
            &&& t.out.last() == (ActionView::Send {
                peer,
                msg: MsgView::SharedBlock {
                    rect: if owner == s.name {
                        s.shared.peer_rect
                    } else {
                        None
                    },
                },
                offline: Offline::SharedError,
            })
            &&& t.out[t.out.len() - 2] == ActionView::Blocked(
                if owner == s.name {
                    None
                } else {
                    s.shared.local_rect
                },
            )
        }),
{
    reveal(RouterView::owned_by);
}

/// Only the machine that arbitrates switches the panel; another one asks its peer.
pub proof fn law_the_arbiter_switches_the_panel(s: RouterView, owner: Seq<char>)
    ensures
        s.arbiter ==> s.panel_requested(owner) == s.switched_to(owner),
        !s.arbiter && s.peers.len() > 0 ==> s.panel_requested(owner).out == s.out.push(
            sent(s.peers[0].name, MsgView::SharedRequest { owner }),
        ),
        !s.shared.is_configured() ==> s.switched_to(owner).shared_owner == s.shared_owner
            && s.switched_to(owner).blocked == s.blocked,
        s.shared_peer() matches Some(p) ==> owner != s.name && owner != p && owner != "toggle"@
            ==> s.switched_to(owner).shared_owner == s.shared_owner,
{
    reveal(RouterView::switched_to);
}

/// A block that the peer decides takes effect here: the rect is hidden, its windows are
/// rescued, and a cursor that rests on it is parked unless someone is using it.
pub proof fn law_the_peers_block_takes_effect(s: RouterView, d: DeskView, name: Seq<char>, rect: Option<Rect>)
    ensures
        ({
            let t = s.inbound(d, name, MsgView::SharedBlock { rect });
            &&& t.blocked == rect
            &&& t.out.contains(ActionView::Blocked(rect))
            &&& t.out.last() == ActionView::PassiveNotice(rect)
            &&& rect matches Some(b) ==> t.out.contains(ActionView::RescueWindows(b))
            &&& (d.forwarding || s.driven is Some || rect is None) ==> t.out.len() == s.out.len()
                + 2 + (if rect is Some {
                1int
            } else {
                0
            })
        }),
{
    reveal(RouterView::peer_blocked);
    let t = s.inbound(d, name, MsgView::SharedBlock { rect });
    let n = t.out.len() as int;
    if rect is Some {
        assert(t.out[n - 3] == ActionView::Blocked(rect));
        assert(t.out[n - 2] == ActionView::RescueWindows(rect->0));
    } else {
        assert(t.out[n - 2] == ActionView::Blocked(rect));
    }
}

/// The panel is found again after the monitors changed: a rect that a monitor still has is
/// kept; otherwise it is that of a monitor of the panel's size.
pub proof fn law_the_panel_is_found_again(s: RouterView, d: DeskView, local: Rect)
    requires
        s.shared.local_rect == Some(local),
    ensures
        d.monitors.contains(local) ==> s.local_panel(d) == Some(local),
        s.local_panel(d) matches Some(r) && r.w == local.w && r.h == local.h && (r == local
            || d.monitors.contains(r)),
        s.shared.peer_rect matches Some(p) ==> (s.peer_panel() matches Some(r) && r.w == p.w && r.h
            == p.h),
        s.shared.peer_rect matches Some(p) ==> s.shared_peer() matches Some(peer) ==> s.screens(
            peer,
        ).contains(p) ==> s.peer_panel() == Some(p),
{
    reveal(RouterView::local_panel);
    reveal(RouterView::peer_panel);
    match (s.shared.peer_rect, s.shared_peer()) {
        (Some(p), Some(peer)) => {
            let screens = s.screens(peer);
            lemma_of_size(screens, p);
        },
        _ => {},
    }
}

proof fn lemma_of_size(v: Seq<Rect>, p: Rect)
    ensures
        forall|i: int|
            0 <= i < v.filter(model::of_size(p)).len() ==> (#[trigger] v.filter(
                model::of_size(p),
            )[i]).w == p.w && v.filter(model::of_size(p))[i].h == p.h,
    decreases v.len(),
{
    reveal(Seq::filter);
    if v.len() > 0 {
        lemma_of_size(v.drop_last(), p);
    }
}

} // verus!
