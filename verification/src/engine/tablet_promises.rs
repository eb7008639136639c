//! What tablet control and the driven client are for.
use vstd::prelude::*;

use crate::binary32::F32;
use crate::engine::action::{ActionView, Injection, TabletOp};
use crate::engine::client::{ClientView, Outcome, Response};
use crate::engine::model::{self, DeskView, RouterView};
use crate::engine::panel::{self, EDGE_INSET};
use crate::engine::promises::{leaves_through, off};
use crate::engine::Captured;
use crate::geometry::{
    against, at_part, beside, is_desktop, is_ratio, law_point_is_beside_its_edge,
    law_ratio_of_a_length, ratio_value, WIDEST,
};
use crate::layout::{self, Edge};
use crate::proto::{InputEvent, MsgView, Rect};

verus! {

// --------------------------------------------------------------- tablet ----

/// How far a place on a tablet is from one of its sides.
pub open spec fn from_side(side: Edge, v: (int, int), size: (int, int)) -> int {
    match side {
        Edge::Left => v.0,
        Edge::Right => size.0 - v.0,
        Edge::Top => v.1,
        Edge::Bottom => size.1 - v.1,
    }
}

/// The virtual cursor enters a tablet through the side that faces the edge it left by, a
/// little way in, at the same part of the way along it; and has not left again.
pub proof fn law_the_tablet_is_entered_beside_the_edge(
    edge: Edge,
    ratio: F32,
    tw: int,
    th: int,
    side: Edge,
)
    requires
        against(edge, side),
        is_ratio(ratio),
        3 <= tw <= WIDEST,
        3 <= th <= WIDEST,
    ensures
        ({
            let v = RouterView::tablet_entry(edge, ratio, tw, th);
            let deep = from_side(side, v, (tw, th));
            &&& 1 <= deep <= 160 && 3 * deep <= tw && 3 * deep <= th
            &&& tw >= 480 && th >= 480 ==> deep == 160
            &&& 0 <= v.0 <= tw && 0 <= v.1 <= th
            &&& edge is Left || edge is Right ==> at_part(v.1, th, ratio_value(ratio))
            &&& edge is Top || edge is Bottom ==> at_part(v.0, tw, ratio_value(ratio))
            &&& !RouterView::tablet_left(Some(edge), v, (tw, th))
        }),
{
    law_ratio_of_a_length(ratio, tw);
    law_ratio_of_a_length(ratio, th);
}

/// A cursor that crosses the tablet's edge takes control of the tablet: input is forwarded
/// to it, the virtual cursor starts beside the edge, and no peer is focused.
pub proof fn law_the_tablets_edge_leads_to_the_tablet(s: RouterView, d: DeskView, edge: Edge, ratio: F32)
    requires
        s.tablet_edge == Some(edge),
        is_ratio(ratio),
        d.tablet_connected,
        d.tablet_size matches Some(z) ==> 3 <= z.0 <= WIDEST && 3 <= z.1 <= WIDEST,
    ensures
        ({
            let t = s.captured(d, Captured::EdgeHit { edge, ratio });
            let size = match d.tablet_size {
                Some(z) => (z.0 as int, z.1 as int),
                None => (2560, 1600),
            };
            let v = RouterView::tablet_entry(edge, ratio, size.0, size.1);
            &&& t.tablet_active && t.focus is None
            &&& (t.tablet_vpos.0 as int, t.tablet_vpos.1 as int) == v
            &&& t.tablet_entry_ratio == ratio
            &&& t.out.contains(ActionView::Tablet(TabletOp::Wake))
            &&& t.out.contains(ActionView::EnterForwarding)
        }),
{
    reveal(RouterView::edge_hit);
    reveal(RouterView::tablet_crossed);
    reveal(RouterView::tablet_control);
    reveal(RouterView::to_focus);
    reveal(RouterView::released);
    let size = match d.tablet_size {
        Some(z) => (z.0 as int, z.1 as int),
        None => (2560, 1600),
    };
    law_the_tablet_is_entered_beside_the_edge(edge, ratio, size.0, size.1, edge.facing());
    let t = s.captured(d, Captured::EdgeHit { edge, ratio });
    let n = t.out.len() as int;
    assert(t.out[n - 3] == ActionView::Tablet(TabletOp::Wake));
    assert(t.out[n - 2] == ActionView::EnterForwarding);
}

/// Input goes to the tablet as it is while it is controlled: a motion moves the virtual
/// cursor by as much, within the tablet.
pub proof fn law_tablet_input_goes_as_it_is(s: RouterView, d: DeskView, ev: InputEvent)
    requires
        s.tablet_active,
        ev matches InputEvent::MouseMove { dx, dy } ==> 0 < s.tablet_vpos.0 + dx
            < s.tablet_size.0 && 0 < s.tablet_vpos.1 + dy < s.tablet_size.1,
    ensures
        ({
            let t = s.captured(d, Captured::Input(ev));
            &&& t.tablet_active
            &&& t.out.len() == s.out.len() + 1
            &&& t.out.last() matches ActionView::Tablet(op) && match ev {
                InputEvent::MouseMove { dx, dy } => op == (TabletOp::Move { dx, dy })
                    && t.tablet_vpos.0 == s.tablet_vpos.0 + dx && t.tablet_vpos.1
                    == s.tablet_vpos.1 + dy,
                InputEvent::MouseButton { button, pressed } => op matches TabletOp::Button {
                    index,
                    pressed: p,
                } && index == crate::platform::promises::rank(button) && p == pressed,
                InputEvent::Wheel { dx, dy } => op == (TabletOp::Scroll { dx, dy }),
                InputEvent::Key { key, pressed } => op == (TabletOp::Key { key, pressed }),
            }
        }),
{
    reveal(RouterView::tablet_fed);
    reveal(RouterView::tablet_moved);
}

/// A virtual cursor that walks back over the side that it came in by comes home: the tablet
/// is let go, and the cursor is just inside the edge it had left by, where it had left.
pub proof fn law_walking_back_leaves_the_tablet(
    s: RouterView,
    d: DeskView,
    edge: Edge,
    side: Edge,
    dx: i32,
    dy: i32,
)
    requires
        s.tablet_active,
        s.tablet_edge == Some(edge),
        against(edge, side),
        s.tablet_size.0 > 0 && s.tablet_size.1 > 0,
        is_ratio(s.tablet_entry_ratio),
        is_desktop(s.bounds),
        s.bounds.w > EDGE_INSET && s.bounds.h > EDGE_INSET,
    ensures
        ({
            let t = s.captured(d, Captured::Input(InputEvent::MouseMove { dx, dy }));
            let v = (s.tablet_vpos.0 + dx, s.tablet_vpos.1 + dy);
            let size = (s.tablet_size.0 as int, s.tablet_size.1 as int);
            let n = t.out.len() as int;
            &&& t.tablet_active == (from_side(side, v, size) > 0)
            &&& from_side(side, v, size) <= 0 ==> n >= 2 && t.out[n - 1] == ActionView::Cooldown && (
            t.out[n - 2] matches ActionView::Warp { x, y } && beside(
                s.bounds,
                edge,
                ratio_value(s.tablet_entry_ratio),
                EDGE_INSET as int,
                x,
                y,
            )) && t.out.contains(ActionView::ExitForwarding)
        }),
{
    reveal(RouterView::tablet_fed);
    reveal(RouterView::tablet_moved);
    reveal(RouterView::tablet_control);
    law_point_is_beside_its_edge(s.bounds, edge, s.tablet_entry_ratio, EDGE_INSET as int);
    let t = s.captured(d, Captured::Input(InputEvent::MouseMove { dx, dy }));
    let n = t.out.len() as int;
    let v = (s.tablet_vpos.0 + dx, s.tablet_vpos.1 + dy);
    let size = (s.tablet_size.0 as int, s.tablet_size.1 as int);
    if from_side(side, v, size) <= 0 {
        assert(t.out[n - 5] == ActionView::ExitForwarding);
    }
}

// --------------------------------------------------------------- client ----

/// While a client is driven, a button, a wheel or a key is injected as it is, and a motion
/// that stays on the desktop moves the cursor by as much.
pub proof fn law_client_input_is_injected_as_it_is(s: ClientView, ev: InputEvent)
    requires
        s.active,
        s.bounds.fits(),
        ev matches InputEvent::MouseMove { dx, dy } ==> s.bounds.holds(
            s.pos.0 + dx,
            s.pos.1 + dy,
        ),
    ensures
        ({
            let (t, out) = s.answered(MsgView::Input(ev));
            &&& t.active && t.bounds == s.bounds
            &&& out.len() == 1
            &&& out[0] matches Response::Inject(i) && match ev {
                InputEvent::MouseMove { dx, dy } => i matches Injection::MouseTo {
                    x,
                    y,
                    dx: rx,
                    dy: ry,
                } && x == s.pos.0 + dx && y == s.pos.1 + dy && rx == dx && ry == dy && t.pos == (
                    x,
                    y,
                ),
                InputEvent::MouseButton { button, pressed } => i == (Injection::Button {
                    button,
                    pressed,
                }) && t.pos == s.pos,
                InputEvent::Wheel { dx, dy } => i == (Injection::Wheel { dx, dy }) && t.pos
                    == s.pos,
                InputEvent::Key { key, pressed } => i == (Injection::Key { key, pressed })
                    && t.pos == s.pos,
            }
        }),
{
    match ev {
        InputEvent::MouseMove { dx, dy } => {
            lemma_none_crossed(s.portal_edges, s.bounds, s.pos.0 + dx, s.pos.1 + dy, 0);
        },
        _ => {},
    }
}

proof fn lemma_none_crossed(edges: Seq<Edge>, b: Rect, x: int, y: int, from: int)
    requires
        b.holds(x, y),
    ensures
        model::crossed_edge(edges, b, x, y, from) is None,
    decreases edges.len() - from,
{
    if 0 <= from < edges.len() {
        lemma_none_crossed(edges, b, x, y, from + 1);
    }
}

/// A client that is entered has its cursor just inside the edge, at the part of the way
/// along it that it was sent with; one that is left lets go of everything.
pub proof fn law_a_client_is_entered_and_left(s: ClientView, edge: Edge, ratio: F32)
    requires
        is_desktop(s.bounds),
        s.bounds.w > EDGE_INSET && s.bounds.h > EDGE_INSET,
        is_ratio(ratio),
    ensures
        ({
            let (t, out) = s.answered(MsgView::Enter { edge, ratio });
            &&& t.active && beside(
                s.bounds,
                edge,
                ratio_value(ratio),
                EDGE_INSET as int,
                t.pos.0 as int,
                t.pos.1 as int,
            )
            &&& out.contains(
                Response::Inject(
                    Injection::MouseTo { x: t.pos.0, y: t.pos.1, dx: 0, dy: 0 },
                ),
            )
        }),
        ({
            let (t, out) = s.answered(MsgView::Leave);
            !t.active && out.contains(Response::Inject(Injection::ReleaseAll))
        }),
{
    law_point_is_beside_its_edge(s.bounds, edge, ratio, EDGE_INSET as int);
    let (t, out) = s.answered(MsgView::Enter { edge, ratio });
    assert(out[0] is Inject);
    let (u, gone) = s.answered(MsgView::Leave);
    assert(gone[0] == Response::Inject(Injection::ReleaseAll));
}

/// A client's cursor that pushes out through an edge that leads somewhere goes back to the
/// driving machine, with that edge and the place along it, and everything is let go.
pub proof fn law_a_client_gives_the_cursor_back(s: ClientView, dx: i32, dy: i32, edge: Edge)
    requires
        s.active,
        is_desktop(s.bounds),
        s.portal_edges.contains(edge),
        leaves_through(s.bounds, edge, s.pos.0 + dx, s.pos.1 + dy),
    ensures
        ({
            let (t, out) = s.answered(MsgView::Input(InputEvent::MouseMove { dx, dy }));
            let (nx, ny) = (s.pos.0 + dx, s.pos.1 + dy);
            let r = if edge is Left || edge is Right {
                layout::unit_fraction(ny - s.bounds.y, s.bounds.h as int)
            } else {
                layout::unit_fraction(nx - s.bounds.x, s.bounds.w as int)
            };
            &&& !t.active
            &&& out.len() > 0 && out.last() == (Response::CursorLeft { edge, ratio: r })
            &&& out.contains(Response::Inject(Injection::ReleaseAll))
        }),
{
    let (nx, ny) = (s.pos.0 + dx, s.pos.1 + dy);
    crate::engine::promises::lemma_crossed(s.portal_edges, s.bounds, nx, ny, 0, edge);
    assert(edge != Edge::Left ==> !off(s.bounds, Edge::Left, nx, ny));
    assert(edge != Edge::Right ==> !off(s.bounds, Edge::Right, nx, ny));
    assert(edge != Edge::Top ==> !off(s.bounds, Edge::Top, nx, ny));
    assert(edge != Edge::Bottom ==> !off(s.bounds, Edge::Bottom, nx, ny));
    let (t, out) = s.answered(MsgView::Input(InputEvent::MouseMove { dx, dy }));
    assert(out[0] == Response::Inject(Injection::ReleaseAll));
}

/// A ping is answered with its own number, and a farewell ends the session.
pub proof fn law_a_client_answers_pings(s: ClientView, n: u64)
    ensures
        s.answered(MsgView::Ping(n)) == (s, seq![Response::Pong(n)]),
        s.answered(MsgView::Bye).1.contains(Response::Close),
{
    assert(s.answered(MsgView::Bye).1[0] == Response::Close);
}

} // verus!
