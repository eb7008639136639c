//! What the router is for, in terms of what it is told and what it has done: a cursor that
//! crosses goes on on the machine next to it, input does there what it would do here, and
//! both come back.
use vstd::prelude::*;

use crate::binary32::F32;
use crate::engine::action::{ActionView, Injection, Offline};
use crate::engine::model::{self, online, DeskView, RouterView};
use crate::engine::panel::EDGE_INSET;
use crate::engine::Captured;
use crate::geometry::{
    against, at_part, beside, is_desktop, is_ratio, law_point_is_beside_its_edge,
    law_ratio_is_the_part_of_the_length, law_ratio_of_a_length, ratio_value,
};
use crate::layout::{self, Edge, LinkView};
use crate::proto::{InputEvent, MouseButton, MsgView, Rect};
use crate::reals::size_of;

verus! {

/// A link joins `edge` of a machine to a peer: it leads from the one to the other, or back.
pub open spec fn joins(l: LinkView, machine: Seq<char>, edge: Edge, peer: Seq<char>) -> bool {
    ||| l.from == machine && l.edge == edge && l.to == peer
    ||| l.from == peer && against(l.edge, edge) && l.to == machine
}

/// What lies behind an edge is what the first link that joins it says, through the side
/// that faces it; nothing lies behind an edge that no link joins.
pub proof fn law_target_is_the_first_link(links: Seq<LinkView>, machine: Seq<char>, edge: Edge)
    ensures
        match layout::target_of(links, machine, edge) {
            Some((peer, entry)) => against(edge, entry) && exists|i: int|
                0 <= i < links.len() && #[trigger] joins(links[i], machine, edge, peer) && forall|
                    j: int,
                    p: Seq<char>,
                |
                    0 <= j < i ==> !#[trigger] joins(links[j], machine, edge, p),
            None => forall|j: int, p: Seq<char>|
                0 <= j < links.len() ==> !#[trigger] joins(links[j], machine, edge, p),
        },
    decreases links.len(),
{
    if links.len() > 0 {
        let rest = links.skip(1);
        match layout::link_target(links[0], machine, edge) {
            Some((peer, _)) => {
                assert(joins(links[0], machine, edge, peer));
            },
            None => {
                law_target_is_the_first_link(rest, machine, edge);
                assert forall|j: int, p: Seq<char>|
                    0 <= j < links.len() && (j == 0 || !joins(rest[j - 1], machine, edge, p))
                    implies !#[trigger] joins(links[j], machine, edge, p) by {}
                match layout::target_of(rest, machine, edge) {
                    Some((peer, _)) => {
                        let i = choose|i: int|
                            0 <= i < rest.len() && #[trigger] joins(rest[i], machine, edge, peer)
                                && forall|j: int, p: Seq<char>|
                                0 <= j < i ==> !#[trigger] joins(rest[j], machine, edge, p);
                        assert(joins(links[i + 1], machine, edge, peer));
                        assert forall|j: int, p: Seq<char>| 0 <= j < i + 1 implies !#[trigger] joins(
                            links[j],
                            machine,
                            edge,
                            p,
                        ) by {
                            if j > 0 {
                                assert(!joins(rest[j - 1], machine, edge, p));
                            }
                        }
                    },
                    None => {
                        assert forall|j: int, p: Seq<char>|
                            0 <= j < links.len() implies !#[trigger] joins(
                            links[j],
                            machine,
                            edge,
                            p,
                        ) by {
                            if j > 0 {
                                assert(!joins(rest[j - 1], machine, edge, p));
                            }
                        }
                    },
                }
            },
        }
    }
}

/// No shared panel decides a crossing: there is none, or its other machine is offline.
pub open spec fn no_panel(s: RouterView, d: DeskView) -> bool {
    ||| s.shared.local_rect is None
    ||| s.shared.peer_rect is None
    ||| s.shared_peer() is None
    ||| !online(d, s.shared_peer()->0)
}

/// What a desk hands to a peer.
pub open spec fn sent(peer: Seq<char>, msg: MsgView) -> ActionView {
    ActionView::Send { peer, msg, offline: Offline::Ignore }
}

/// The cursor crosses to the machine next to it: one that pushes through an edge that leads
/// to an online peer enters that peer through the side that faces the edge, at the same part
/// of the way along it, and input goes there.
pub proof fn law_crossing_goes_on_next_door(
    s: RouterView,
    d: DeskView,
    edge: Edge,
    ratio: F32,
    peer: Seq<char>,
    entry: Edge,
)
    requires
        s.tablet_edge != Some(edge),
        no_panel(s, d) || s.panel_crossing(d, edge, ratio) is None,
        layout::target_of(s.links, s.name, edge) matches Some((to, _)) && to == peer,
        online(d, peer),
        against(edge, entry),
    ensures
        ({
            let t = s.captured(d, Captured::EdgeHit { edge, ratio });
            &&& t.focus == Some(peer)
            &&& t.out == s.out.push(ActionView::Flash(edge)).push(
                sent(peer, MsgView::Enter { edge: entry, ratio }),
            )
            &&& t.driven == s.driven
        }),
{
    reveal(RouterView::edge_hit);
    reveal(RouterView::panel_crossing);
    reveal(RouterView::linked);
    reveal(RouterView::to_focus);
    law_target_is_the_first_link(s.links, s.name, edge);
}

/// A cursor that pushes through an edge that leads nowhere, or to a machine that is offline,
/// comes back just inside that edge, where it was.
pub proof fn law_crossing_into_nothing_comes_back(s: RouterView, d: DeskView, edge: Edge, ratio: F32)
    requires
        s.tablet_edge != Some(edge),
        no_panel(s, d),
        layout::target_of(s.links, s.name, edge) matches Some((peer, _)) ==> !online(d, peer),
        is_desktop(s.bounds),
        s.bounds.w > EDGE_INSET && s.bounds.h > EDGE_INSET,
        is_ratio(ratio),
    ensures
        ({
            let t = s.captured(d, Captured::EdgeHit { edge, ratio });
            let n = s.out.len() as int;
            &&& t.focus == s.focus
            &&& t.out.len() == n + 3 && t.out.take(n) == s.out
            &&& t.out[n] == ActionView::ExitForwarding
            &&& t.out[n + 1] matches ActionView::Warp { x, y } && beside(
                s.bounds,
                edge,
                ratio_value(ratio),
                EDGE_INSET as int,
                x,
                y,
            )
        }),
{
    reveal(RouterView::edge_hit);
    reveal(RouterView::panel_crossing);
    reveal(RouterView::linked);
    law_point_is_beside_its_edge(s.bounds, edge, ratio, EDGE_INSET as int);
    let t = s.captured(d, Captured::EdgeHit { edge, ratio });
    assert(t.out.take(s.out.len() as int) =~= s.out);
}

/// A cursor that enters this desk appears just inside the edge it enters by, at the part of
/// the way along it that it was sent with, and the peer that sent it drives from there.
pub proof fn law_entering_starts_beside_the_edge(
    s: RouterView,
    d: DeskView,
    peer: Seq<char>,
    edge: Edge,
    ratio: F32,
)
    requires
        s.injector || d.can_inject,
        is_desktop(s.bounds),
        s.bounds.w > EDGE_INSET && s.bounds.h > EDGE_INSET,
        is_ratio(ratio),
    ensures
        ({
            let t = s.inbound(d, peer, MsgView::Enter { edge, ratio });
            &&& t.driven matches Some((by, at)) && by == peer && beside(
                s.bounds,
                edge,
                ratio_value(ratio),
                EDGE_INSET as int,
                at.0 as int,
                at.1 as int,
            ) && t.out.contains(
                ActionView::Inject(Injection::MouseTo { x: at.0, y: at.1, dx: 0, dy: 0 }),
            )
            &&& t.focus is None || t.focus == s.focus
            &&& t.out.contains(ActionView::Driven(true))
        }),
{
    reveal(RouterView::entered);
    reveal(RouterView::rearmed);
    reveal(RouterView::to_focus);
    reveal(RouterView::released);
    law_point_is_beside_its_edge(s.bounds, edge, ratio, EDGE_INSET as int);
    let t = s.inbound(d, peer, MsgView::Enter { edge, ratio });
    let n = t.out.len() as int;
    assert(t.out[n - 3] is Inject);
    assert(t.out[n - 5] == ActionView::Driven(true));
}

/// A cursor that is put down somewhere on this desk is there, and the peer drives from
/// there.
pub proof fn law_entering_at_a_point(s: RouterView, d: DeskView, peer: Seq<char>, x: i32, y: i32)
    requires
        s.injector || d.can_inject,
    ensures
        ({
            let t = s.inbound(d, peer, MsgView::EnterAt { x, y });
            &&& t.driven == Some((peer, (x, y)))
            &&& t.out.contains(ActionView::Inject(Injection::MouseTo { x, y, dx: 0, dy: 0 }))
            &&& t.out.contains(ActionView::Driven(true))
        }),
{
    reveal(RouterView::entered);
    reveal(RouterView::rearmed);
    let t = s.inbound(d, peer, MsgView::EnterAt { x, y });
    let n = t.out.len() as int;
    assert(t.out[n - 3] is Inject);
    assert(t.out[n - 5] == ActionView::Driven(true));
}

/// A cursor that leaves the focused peer through the edge that leads here comes home just
/// inside the side of this desk that faces that edge, at the same part of the way along it;
/// one that leaves toward another machine goes on there; one that leads nowhere comes home.
pub proof fn law_leaving_the_peer_leads_on(
    s: RouterView,
    d: DeskView,
    peer: Seq<char>,
    edge: Edge,
    ratio: F32,
    entry: Edge,
)
    requires
        s.focus == Some(peer),
        s.shared.local_rect is None || s.shared.peer_rect is None || s.shared_peer() != Some(peer),
        against(edge, entry),
        is_desktop(s.bounds),
        s.bounds.w > EDGE_INSET && s.bounds.h > EDGE_INSET,
        is_ratio(ratio),
    ensures
        ({
            let t = s.cursor_left(d, peer, edge, ratio);
            let n = t.out.len() as int;
            match layout::target_of(s.links, peer, edge) {
                Some((next, _)) => if next == s.name {
                    &&& t.focus is None
                    &&& n >= 3 && t.out[n - 3] == ActionView::ExitForwarding
                    &&& t.out[n - 2] matches ActionView::Warp { x, y } && beside(
                        s.bounds,
                        entry,
                        ratio_value(ratio),
                        EDGE_INSET as int,
                        x,
                        y,
                    )
                } else if online(d, next) {
                    &&& t.focus == Some(next)
                    &&& n >= 2 && t.out[n - 2] == sent(peer, MsgView::Leave)
                    &&& t.out[n - 1] == sent(next, MsgView::Enter { edge: entry, ratio })
                } else {
                    t.focus is None && n >= 1 && t.out[n - 1] == ActionView::ExitForwarding
                },
                None => t.focus is None && n >= 1 && t.out[n - 1] == ActionView::ExitForwarding,
            }
        }),
{
    reveal(RouterView::cursor_left);
    reveal(RouterView::panel_return);
    reveal(RouterView::to_focus);
    reveal(RouterView::released);
    law_target_is_the_first_link(s.links, peer, edge);
    law_point_is_beside_its_edge(s.bounds, entry, ratio, EDGE_INSET as int);
}

/// A button, a wheel or a key does on the driven desk what it did on the driving one: it is
/// injected once, the same one, pressed or released alike, turned by as much.
pub proof fn law_driven_input_is_injected_as_it_is(
    s: RouterView,
    d: DeskView,
    peer: Seq<char>,
    ev: InputEvent,
)
    requires
        s.driven matches Some((by, _)) && by == peer,
        s.injector,
        !(ev is MouseMove),
    ensures
        ({
            let t = s.inbound(d, peer, MsgView::Input(ev));
            &&& t.driven == s.driven && t.focus == s.focus
            &&& t.out.len() == s.out.len() + 1 && t.out.drop_last() == s.out
            &&& t.out.last() matches ActionView::Inject(i) && match ev {
                InputEvent::MouseButton { button, pressed } => i matches Injection::Button {
                    button: b,
                    pressed: p,
                } && b == button && p == pressed,
                InputEvent::Wheel { dx, dy } => i matches Injection::Wheel { dx: x, dy: y } && x
                    == dx && y == dy,
                InputEvent::Key { key, pressed } => i matches Injection::Key {
                    key: k,
                    pressed: p,
                } && k == key && p == pressed,
                InputEvent::MouseMove { .. } => true,
            }
        }),
{
    reveal(RouterView::applied);
    let t = s.inbound(d, peer, MsgView::Input(ev));
    assert(t.out.drop_last() =~= s.out);
}

/// A motion that stays on the driven desk moves the cursor there by just as much.
pub proof fn law_driven_motion_moves_by_as_much(
    s: RouterView,
    d: DeskView,
    peer: Seq<char>,
    at: (i32, i32),
    dx: i32,
    dy: i32,
)
    requires
        s.driven == Some((peer, at)),
        s.injector,
        s.bounds.fits(),
        s.bounds.holds(at.0 + dx, at.1 + dy),
        s.blocked matches Some(b) ==> !b.holds(at.0 + dx, at.1 + dy),
    ensures
        ({
            let t = s.inbound(d, peer, MsgView::Input(InputEvent::MouseMove { dx, dy }));
            &&& t.driven matches Some((by, to)) && by == peer && to.0 == at.0 + dx && to.1 == at.1
                + dy && t.out == s.out.push(
                ActionView::Inject(Injection::MouseTo { x: to.0, y: to.1, dx, dy }),
            )
        }),
{
    reveal(RouterView::applied);
    let (nx, ny) = (at.0 + dx, at.1 + dy);
    lemma_nothing_crossed(s.my_edges, s.bounds, nx, ny, 0);
}

proof fn lemma_nothing_crossed(edges: Seq<Edge>, b: Rect, x: int, y: int, from: int)
    requires
        b.holds(x, y),
    ensures
        model::crossed_edge(edges, b, x, y, from) is None,
    decreases edges.len() - from,
{
    if 0 <= from < edges.len() {
        lemma_nothing_crossed(edges, b, x, y, from + 1);
    }
}

/// A point lies off a desktop, on the far side of an edge.
pub open spec fn off(b: Rect, edge: Edge, x: int, y: int) -> bool {
    crate::geometry::inside_by(b, edge, x, y) < 0
}

/// A point lies off a desktop on the far side of this edge and of no other.
pub open spec fn leaves_through(b: Rect, edge: Edge, x: int, y: int) -> bool {
    off(b, edge, x, y) && forall|e: Edge| e != edge ==> !#[trigger] off(b, e, x, y)
}

/// A motion that takes the cursor out of the driven desk through an edge that leads
/// somewhere gives it back to the driving peer, with that edge and the place along it; what
/// the peer held here is released.
pub proof fn law_driven_cursor_goes_back_through_the_edge(
    s: RouterView,
    d: DeskView,
    peer: Seq<char>,
    at: (i32, i32),
    dx: i32,
    dy: i32,
    edge: Edge,
)
    requires
        s.driven == Some((peer, at)),
        s.injector,
        is_desktop(s.bounds),
        s.my_edges.contains(edge),
        leaves_through(s.bounds, edge, at.0 + dx, at.1 + dy),
        s.blocked matches Some(b) ==> !b.holds(at.0 + dx, at.1 + dy),
    ensures
        ({
            let t = s.inbound(d, peer, MsgView::Input(InputEvent::MouseMove { dx, dy }));
            let (nx, ny) = (at.0 + dx, at.1 + dy);
            let r = if edge is Left || edge is Right {
                layout::unit_fraction(ny - s.bounds.y, s.bounds.h as int)
            } else {
                layout::unit_fraction(nx - s.bounds.x, s.bounds.w as int)
            };
            &&& t.driven is None
            &&& t.out.len() > 0 && t.out.last() == sent(
                peer,
                MsgView::CursorLeft { edge, ratio: r },
            )
            &&& t.out.contains(ActionView::Inject(Injection::ReleaseAll))
            &&& t.out.contains(ActionView::Driven(false))
        }),
{
    reveal(RouterView::applied);
    reveal(RouterView::undriven);
    reveal(RouterView::rearmed);
    reveal(RouterView::parked);
    let (nx, ny) = (at.0 + dx, at.1 + dy);
    lemma_crossed(s.my_edges, s.bounds, nx, ny, 0, edge);
    assert(edge != Edge::Left ==> !off(s.bounds, Edge::Left, nx, ny));
    assert(edge != Edge::Right ==> !off(s.bounds, Edge::Right, nx, ny));
    assert(edge != Edge::Top ==> !off(s.bounds, Edge::Top, nx, ny));
    assert(edge != Edge::Bottom ==> !off(s.bounds, Edge::Bottom, nx, ny));
    let t = s.inbound(d, peer, MsgView::Input(InputEvent::MouseMove { dx, dy }));
    let n = t.out.len() as int;
    assert(t.out[n - 5] == ActionView::Inject(Injection::ReleaseAll));
    assert(t.out[n - 6] == ActionView::Driven(false));
}

pub(crate) proof fn lemma_crossed(edges: Seq<Edge>, b: Rect, x: int, y: int, from: int, edge: Edge)
    requires
        0 <= from,
        leaves_through(b, edge, x, y),
        exists|i: int| from <= i < edges.len() && edges[i] == edge,
    ensures
        model::crossed_edge(edges, b, x, y, from) == Some(edge),
    decreases edges.len() - from,
{
    let i = choose|i: int| from <= i < edges.len() && edges[i] == edge;
    if edges[from] != edge {
        assert(!off(b, edges[from], x, y));
        assert(from < i);
        lemma_crossed(edges, b, x, y, from + 1, edge);
    }
}

/// What is pressed is held, what is released is not, and nothing else changes.
pub proof fn law_presses_are_held<T>(held: Seq<T>, k: T, pressed: bool, x: T)
    ensures
        model::after_press(held, k, pressed).contains(k) == pressed,
        x != k ==> model::after_press(held, k, pressed).contains(x) == held.contains(x),
{
    if pressed {
        if !held.contains(k) {
            assert(held.push(k)[held.len() as int] == k);
            if held.contains(x) {
                let i = choose|i: int| 0 <= i < held.len() && held[i] == x;
                assert(held.push(k)[i] == x);
            }
        }
    } else {
        lemma_filtered(held, k, k);
        lemma_filtered(held, k, x);
    }
}

proof fn lemma_filtered<T>(held: Seq<T>, k: T, x: T)
    ensures
        held.filter(model::other_than(k)).contains(x) == (held.contains(x) && x != k),
    decreases held.len(),
{
    reveal(Seq::filter);
    if held.len() > 0 {
        let rest = held.drop_last();
        lemma_filtered(rest, k, x);
        let f = rest.filter(model::other_than(k));
        let last = held.last();
        if held.contains(x) {
            let i = choose|i: int| 0 <= i < held.len() && held[i] == x;
            if i < held.len() - 1 {
                assert(rest[i] == x);
            }
        }
        if rest.contains(x) {
            let i = choose|i: int| 0 <= i < rest.len() && rest[i] == x;
            assert(held[i] == x);
        }
        assert(held[held.len() - 1] == last);
        if last != k {
            assert(f.push(last)[f.len() as int] == last);
            if f.contains(x) {
                let i = choose|i: int| 0 <= i < f.len() && f[i] == x;
                assert(f.push(last)[i] == x);
            }
            if f.push(last).contains(x) && x != last {
                let i = choose|i: int| 0 <= i < f.push(last).len() && f.push(last)[i] == x;
                assert(f[i] == x);
            }
        }
    }
}

/// Captured input goes to the focused peer as it is, but for the modifiers that a Mac sends
/// a Windows machine.
pub proof fn law_captured_input_goes_to_the_focus(
    s: RouterView,
    d: DeskView,
    peer: Seq<char>,
    ev: InputEvent,
)
    requires
        s.focus == Some(peer),
        !s.tablet_active,
        s.pending_drop_url is None,
    ensures
        ({
            let t = s.captured(d, Captured::Input(ev));
            let windows = s.macos && s.mac_shortcuts && model::os_of(s.peers, peer, 0) == Some(
                "windows"@,
            );
            &&& t.focus == s.focus
            &&& t.out.len() == s.out.len() + 1 && t.out.drop_last() == s.out
            &&& t.out.last() matches ActionView::Send { peer: to, msg: MsgView::Input(e), .. } && to
                == peer && match ev {
                InputEvent::Key { key, pressed } => e matches InputEvent::Key {
                    key: k,
                    pressed: p,
                } && p == pressed && (!windows || (key != 0xE0 && key != 0xE2 && key != 0xE3) ==> k
                    == key) && (windows && key == 0xE0 ==> k == s.win_mods.0) && (windows && key
                    == 0xE2 ==> k == s.win_mods.1) && (windows && key == 0xE3 ==> k
                    == s.win_mods.2),
                _ => e == ev,
            }
            &&& ev matches InputEvent::Key { key, pressed } ==> t.down_keys.contains(key)
                == pressed
            &&& ev matches InputEvent::MouseButton { button, pressed }
                ==> t.down_buttons.contains(button) == pressed
        }),
{
    reveal(RouterView::forwarded);
    reveal(RouterView::to_focus);
    let t = s.captured(d, Captured::Input(ev));
    assert(t.out.drop_last() =~= s.out);
    match ev {
        InputEvent::Key { key, pressed } => law_presses_are_held(s.down_keys, key, pressed, key),
        InputEvent::MouseButton { button, pressed } => law_presses_are_held(
            s.down_buttons,
            button,
            pressed,
            button,
        ),
        _ => {},
    }
}

/// A link that was dragged across is opened on the peer when the left button comes up
/// there, once.
pub proof fn law_a_dragged_link_is_dropped_there(s: RouterView, d: DeskView, peer: Seq<char>, url: Seq<char>)
    requires
        s.focus == Some(peer),
        !s.tablet_active,
        s.pending_drop_url == Some(url),
    ensures
        ({
            let up = InputEvent::MouseButton { button: MouseButton::Left, pressed: false };
            let t = s.captured(d, Captured::Input(up));
            &&& t.pending_drop_url is None
            &&& t.out.len() > 0 && t.out.last() == sent(peer, MsgView::OpenUrl { url })
        }),
{
    reveal(RouterView::forwarded);
    reveal(RouterView::to_focus);
}

/// A coordinate on a span is at the part `v` of it, to within a pixel, unless it is held
/// `inset` pixels from an end.
pub open spec fn held_part(along: int, length: int, v: real, inset: int) -> bool {
    &&& inset <= along <= length - 1 - inset
    &&& along > inset ==> 8real * (along as real - v * length as real) <= 1real
    &&& along < length - 1 - inset ==> 8real * (v * length as real - along as real) < 9real
}

/// A cursor that moves onto this desk's copy of the shared panel while that shows the peer
/// goes on on the peer's copy, at the same part of it both ways, and input goes there.
pub proof fn law_the_panel_hands_over_in_place(
    s: RouterView,
    d: DeskView,
    fx: F32,
    fy: F32,
    peer: Seq<char>,
    pr: Rect,
)
    requires
        s.shared_peer() == Some(peer),
        s.shared.peer_rect == Some(pr),
        online(d, peer),
        is_desktop(pr),
        pr.w > 2 * EDGE_INSET && pr.h > 2 * EDGE_INSET,
        is_ratio(fx) && is_ratio(fy),
    ensures
        ({
            let t = s.captured(d, Captured::SharedEnter { fx, fy });
            &&& t.focus == Some(peer)
            &&& t.out.len() == s.out.len() + 2
            &&& t.out[s.out.len() as int] == ActionView::EnterForwarding
            &&& t.out.last() matches ActionView::Send { peer: to, msg: MsgView::EnterAt { x, y }, .. }
                && to == peer && held_part(
                x - pr.x,
                pr.w as int,
                ratio_value(fx),
                EDGE_INSET as int,
            ) && held_part(y - pr.y, pr.h as int, ratio_value(fy), EDGE_INSET as int)
        }),
{
    reveal(RouterView::shared_entered);
    reveal(RouterView::to_focus);
    law_ratio_of_a_length(fx, pr.w as int);
    law_ratio_of_a_length(fy, pr.h as int);
}

/// The focused peer's cursor that moves onto its copy of the shared panel while that shows
/// this machine comes home onto this desk's copy, at the same part of it both ways.
pub proof fn law_the_panel_hands_back_in_place(
    s: RouterView,
    peer: Seq<char>,
    fx: F32,
    fy: F32,
    local: Rect,
)
    requires
        s.focus == Some(peer),
        s.shared.local_rect == Some(local),
        is_desktop(local),
        is_ratio(fx) && is_ratio(fy),
        local.end_x() < i32::MAX && local.end_y() < i32::MAX,
    ensures
        ({
            let t = s.shared_crossed(peer, fx, fy);
            &&& t.focus is None
            &&& t.out.len() >= 2 && t.out[t.out.len() - 2] == ActionView::ExitForwarding
            &&& t.out.last() matches ActionView::Warp { x, y } && at_part(
                x - local.x,
                local.w as int,
                ratio_value(fx),
            ) && at_part(y - local.y, local.h as int, ratio_value(fy))
        }),
{
    reveal(RouterView::shared_crossed);
    reveal(RouterView::to_focus);
    reveal(RouterView::released);
    law_ratio_of_a_length(fx, local.w as int);
    law_ratio_of_a_length(fy, local.h as int);
}

/// The middle of a rect is on it.
pub proof fn law_the_middle_is_on_it(r: Rect)
    requires
        r.solid(),
    ensures
        ({
            let (x, y) = model::centre(r);
            &&& r.holds(x, y)
            &&& -1 <= (x - r.x) - (r.end_x() - x) <= 1
            &&& -1 <= (y - r.y) - (r.end_y() - y) <= 1
        }),
{
}

/// A cursor that rests on a hidden panel is parked in the middle of another monitor; one
/// that does not is left where it is.
pub proof fn law_a_hidden_cursor_is_parked(s: RouterView, d: DeskView, b: Rect)
    requires
        forall|i: int| 0 <= i < d.monitors.len() ==> (#[trigger] d.monitors[i]).solid(),
    ensures
        ({
            let t = s.parked(d, b);
            &&& !b.holds(d.cursor.0 as int, d.cursor.1 as int) ==> t == s
            &&& b.holds(d.cursor.0 as int, d.cursor.1 as int) && (exists|i: int|
                0 <= i < d.monitors.len() && #[trigger] d.monitors[i] != b) ==> (t.out.len()
                == s.out.len() + 1 && (t.out.last() matches ActionView::Warp { x, y } && exists|
                i: int,
            |
                0 <= i < d.monitors.len() && #[trigger] d.monitors[i] != b && d.monitors[i].holds(
                    x,
                    y,
                )))
        }),
{
    reveal(RouterView::parked);
    lemma_other_monitor(d.monitors, b, 0);
    match model::other_monitor(d.monitors, b, 0) {
        Some(m) => law_the_middle_is_on_it(m),
        None => {},
    }
}

proof fn lemma_other_monitor(mons: Seq<Rect>, b: Rect, from: int)
    requires
        0 <= from,
    ensures
        match model::other_monitor(mons, b, from) {
            Some(m) => exists|i: int| from <= i < mons.len() && #[trigger] mons[i] != b && mons[i]
                == m,
            None => forall|i: int| from <= i < mons.len() ==> #[trigger] mons[i] == b,
        },
    decreases mons.len() - from,
{
    if from < mons.len() && mons[from] == b {
        lemma_other_monitor(mons, b, from + 1);
    }
}

/// Every edge that leads somewhere is armed, unless a peer drives this desk: along a link to
/// an online machine, unless the shared panel is a wall there; beyond the panel; to a tablet
/// that is there.
pub proof fn law_what_leads_somewhere_is_armed(s: RouterView, d: DeskView, edge: Edge)
    requires
        s.driven is None,
        ({
            ||| s.leads_along_link(d, edge)
            ||| s.leads_beyond(d, edge)
            ||| s.tablet_edge == Some(edge) && d.tablet_present
        }),
    ensures
        s.rearmed(d).portals.contains(edge),
        s.rearmed(d).my_edges.contains(edge),
        s.rearmed(d).out == s.out.push(ActionView::Portals(s.rearmed(d).portals)),
{
    reveal(RouterView::rearmed);
    reveal(RouterView::active_edges);
    let a0 = Seq::<Edge>::empty();
    let a1 = s.add_link_edge(d, a0, Edge::Left);
    let a2 = s.add_link_edge(d, a1, Edge::Right);
    let a3 = s.add_link_edge(d, a2, Edge::Top);
    let a4 = s.add_link_edge(d, a3, Edge::Bottom);
    let b1 = s.add_beyond_edge(d, a4, Edge::Left);
    let b2 = s.add_beyond_edge(d, b1, Edge::Right);
    let b3 = s.add_beyond_edge(d, b2, Edge::Top);
    let b4 = s.add_beyond_edge(d, b3, Edge::Bottom);
    lemma_added(a0, Edge::Left, edge);
    lemma_added(a1, Edge::Right, edge);
    lemma_added(a2, Edge::Top, edge);
    lemma_added(a3, Edge::Bottom, edge);
    lemma_added(a4, Edge::Left, edge);
    lemma_added(b1, Edge::Right, edge);
    lemma_added(b2, Edge::Top, edge);
    lemma_added(b3, Edge::Bottom, edge);
    match s.tablet_edge {
        Some(te) => lemma_added(b4, te, edge),
        None => {},
    }
}

proof fn lemma_added(v: Seq<Edge>, e: Edge, x: Edge)
    ensures
        v.push(e).contains(x) <==> v.contains(x) || e == x,
{
    if v.contains(x) {
        let i = choose|i: int| 0 <= i < v.len() && v[i] == x;
        assert(v.push(e)[i] == x);
    }
    assert(v.push(e)[v.len() as int] == e);
}

/// An edge leads along a link exactly if the first link that joins it leads to an online
/// machine, and the panel is no wall there.
pub proof fn law_links_lead_to_online_machines(s: RouterView, d: DeskView, edge: Edge)
    ensures
        s.leads_along_link(d, edge) ==> exists|i: int, peer: Seq<char>|
            0 <= i < s.links.len() && #[trigger] joins(s.links[i], s.name, edge, peer)
                && d.sessions.contains(peer),
        s.links.len() == 1 && s.shared.local_rect is None ==> s.leads_along_link(d, edge) == exists|
            peer: Seq<char>,
        | #[trigger] joins(s.links[0], s.name, edge, peer) && d.sessions.contains(peer),
{
    law_target_is_the_first_link(s.links, s.name, edge);
    if s.links.len() == 1 {
        match layout::target_of(s.links, s.name, edge) {
            Some((to, _)) => {
                assert(joins(s.links[0], s.name, edge, to));
                reveal_with_fuel(layout::target_of, 2);
            },
            None => {},
        }
    }
}

/// A peer that lets go of this desk leaves nothing behind: what it held is released, the
/// cursor is this desk's own again, and the edges are armed.
pub proof fn law_letting_go_releases_everything(s: RouterView, d: DeskView, peer: Seq<char>)
    requires
        s.driven matches Some((by, _)) && by == peer,
        s.injector,
    ensures
        ({
            let t = s.inbound(d, peer, MsgView::Leave);
            &&& t.driven is None
            &&& t.out.contains(ActionView::Inject(Injection::ReleaseAll))
            &&& t.out.contains(ActionView::Driven(false))
            &&& t.out.contains(ActionView::Portals(t.portals)) && t.portals == t.my_edges
            &&& t.out.last() == ActionView::Focus(None)
        }),
{
    reveal(RouterView::undriven);
    reveal(RouterView::rearmed);
    reveal(RouterView::parked);
    let t = s.inbound(d, peer, MsgView::Leave);
    let n = t.out.len() as int;
    assert(t.out[n - 3] == ActionView::Portals(t.portals));
    assert(t.out[n - 4] == ActionView::Inject(Injection::ReleaseAll));
    assert(t.out[n - 5] == ActionView::Driven(false));
}

/// A desk that cannot inject gives the cursor straight back, and is not driven.
pub proof fn law_a_desk_that_cannot_inject_gives_the_cursor_back(
    s: RouterView,
    d: DeskView,
    peer: Seq<char>,
    edge: Edge,
    ratio: F32,
)
    requires
        !s.injector && !d.can_inject,
    ensures
        ({
            let t = s.inbound(d, peer, MsgView::Enter { edge, ratio });
            &&& t.driven == s.driven && t.focus == s.focus
            &&& t.out.len() == s.out.len() + 1
            &&& t.out.last() matches ActionView::Send { peer: to, msg: MsgView::CursorLeft { .. }, .. }
                && to == peer
        }),
{
    reveal(RouterView::entered);
}

/// An arrangement that a peer or the editor sends for this desk is remembered, and applied
/// unless it is empty; one for another machine goes there.
pub proof fn law_arrangements_are_applied(
    s: RouterView,
    d: DeskView,
    peer: Seq<char>,
    machine: Seq<char>,
    mons: Seq<Rect>,
)
    ensures
        ({
            let t = s.inbound(d, peer, MsgView::Arrange { monitors: mons });
            &&& t.out.contains(ActionView::RememberArrangement(mons))
            &&& mons.len() > 0 ==> t.out.last() == ActionView::ApplyArrangement(mons)
            &&& mons.len() == 0 ==> t.out.len() == s.out.len() + 1
            &&& s.arranged(s.name, mons) == t
        }),
        machine != s.name ==> (s.arranged(machine, mons).out.last() matches ActionView::Send {
            peer: to,
            msg: MsgView::Arrange { monitors },
            ..
        } && to == machine && monitors == mons),
{
    let t = s.inbound(d, peer, MsgView::Arrange { monitors: mons });
    assert(t.out[s.out.len() as int] == ActionView::RememberArrangement(mons));
}

/// The panic escape puts the cursor in the middle of this desk, after the focused peer was
/// told to stop.
pub proof fn law_panic_puts_the_cursor_in_the_middle(s: RouterView, d: DeskView)
    requires
        !s.tablet_active,
        s.bounds.solid(),
    ensures
        ({
            let t = s.captured(d, Captured::Panic);
            &&& t.focus is None && t.down_keys.len() == 0 && t.down_buttons.len() == 0
            &&& t.out.len() > 0
            &&& t.out.last() matches ActionView::Warp { x, y } && s.bounds.holds(x, y)
            &&& s.focus matches Some(peer) ==> t.out.len() >= 2 && t.out[t.out.len() - 2] == sent(
                peer,
                MsgView::Leave,
            )
        }),
{
    reveal(RouterView::to_focus);
    reveal(RouterView::released);
    law_the_middle_is_on_it(s.bounds);
}

/// The tablet's hotkey takes the tablet, or lets it go; where none is connected, it is asked
/// for.
pub proof fn law_the_tablets_hotkey(s: RouterView, d: DeskView)
    ensures
        ({
            let t = s.captured(d, Captured::TabletHotkey);
            &&& s.tablet_active ==> !t.tablet_active
            &&& !s.tablet_active && d.tablet_connected ==> t.tablet_active && t.focus is None
            &&& !s.tablet_active && !d.tablet_connected ==> !t.tablet_active && t.out.contains(
                ActionView::Tablet(crate::engine::action::TabletOp::Connect),
            )
        }),
{
    reveal(RouterView::tablet_control);
    reveal(RouterView::to_focus);
    reveal(RouterView::released);
    let t = s.captured(d, Captured::TabletHotkey);
    if !s.tablet_active && !d.tablet_connected {
        assert(t.out[s.out.len() as int] == ActionView::Tablet(
            crate::engine::action::TabletOp::Connect,
        ));
    }
}

/// A machine that hears who the panel shows goes by it: it blocks its own copy exactly while
/// the other one is shown.
pub proof fn law_the_arbiters_word_is_the_state(
    s: RouterView,
    d: DeskView,
    name: Seq<char>,
    state: Seq<char>,
    configured: bool,
    owner: Seq<char>,
)
    requires
        !s.arbiter,
        s.shared.is_configured(),
        s.shared_owner != owner,
        owner == s.name || s.shared_peer() == Some(owner),
    ensures
        ({
            let t = s.inbound(
                d,
                name,
                MsgView::StateSync { state, shared_configured: configured, owner },
            );
            &&& t.shared_owner == owner
            &&& owner == s.name ==> t.blocked is None
            &&& owner != s.name ==> t.blocked == s.shared.local_rect
            &&& t.out.len() > s.out.len() && t.out[s.out.len() as int] == ActionView::Synced(state)
        }),
{
    reveal(RouterView::synced);
    reveal(RouterView::peer_blocked);
    reveal(RouterView::parked);
}

/// A peer that connects or a layout that changes arms the edges anew.
pub proof fn law_changes_rearm_the_edges(s: RouterView, d: DeskView, name: Seq<char>, edge: Edge)
    requires
        s.driven is None,
        !s.shared.is_configured(),
        s.leads_along_link(d, edge),
    ensures
        s.layout_changed(d).portals.contains(edge),
        s.connected(d).portals.contains(edge),
        s.focus != Some(name) ==> s.disconnected(d, name).portals.contains(edge),
{
    reveal(RouterView::layout_changed);
    reveal(RouterView::connected);
    reveal(RouterView::disconnected);
    reveal(RouterView::panel_refreshed);
    law_what_leads_somewhere_is_armed(s, d, edge);
    lemma_rearmed_keeps(s, d);
}

proof fn lemma_rearmed_keeps(s: RouterView, d: DeskView)
    ensures
        s.rearmed(d).shared == s.shared,
        s.rearmed(d).arbiter == s.arbiter,
{
    reveal(RouterView::rearmed);
}

/// Where a point lies on a span, as a part of it: as near as a ratio can say.
pub open spec fn tells(f: F32, offset: int, length: int) -> bool {
    is_ratio(f) && 16777216real * size_of(ratio_value(f) * length as real - offset as real)
        <= offset as real
}

/// A driven cursor that moves onto the hidden copy of the panel goes home to the machine
/// that drives it, which hears where on the panel it was, both ways.
pub proof fn law_a_driven_cursor_hands_the_panel_over(
    s: RouterView,
    d: DeskView,
    peer: Seq<char>,
    pos: (i32, i32),
    dx: i32,
    dy: i32,
    b: Rect,
)
    requires
        s.driven == Some((peer, pos)),
        s.blocked == Some(b),
        b.holds(pos.0 + dx, pos.1 + dy),
        is_desktop(b),
    ensures
        ({
            let t = s.inbound(d, peer, MsgView::Input(InputEvent::MouseMove { dx, dy }));
            &&& t.driven is None
            &&& t.out.len() > 0
            &&& t.out.last() matches ActionView::Send { peer: to, msg: MsgView::SharedCross { fx, fy }, .. }
                && to == peer && tells(fx, pos.0 + dx - b.x, b.w as int) && tells(
                fy,
                pos.1 + dy - b.y,
                b.h as int,
            )
        }),
{
    reveal(RouterView::applied);
    reveal(RouterView::undriven);
    reveal(RouterView::parked);
    reveal(RouterView::rearmed);
    law_ratio_is_the_part_of_the_length(pos.0 + dx - b.x, b.w as int);
    law_ratio_is_the_part_of_the_length(pos.1 + dy - b.y, b.h as int);
}

/// While a peer drives this desk, the editor shows it as the one in use.
pub proof fn law_a_driven_desk_is_shown_in_use(
    s: RouterView,
    d: DeskView,
    peer: Seq<char>,
    x: i32,
    y: i32,
)
    requires
        s.injector || d.can_inject,
    ensures
        ({
            let t = s.inbound(d, peer, MsgView::EnterAt { x, y });
            let n = t.out.len() as int;
            &&& t.driven == Some((peer, (x, y))) && t.focus is None && t.portals.len() == 0
            &&& n >= 5
            &&& t.out[n - 1] == ActionView::Focus(Some(s.name))
            &&& t.out[n - 2] == (ActionView::Indicator { connected: true, active: true })
            &&& t.out[n - 3] == ActionView::Inject(Injection::MouseTo { x, y, dx: 0, dy: 0 })
            &&& t.out.contains(ActionView::Driven(true))
        }),
{
    reveal(RouterView::entered);
    reveal(RouterView::rearmed);
    reveal(RouterView::to_focus);
    reveal(RouterView::released);
    let t = s.inbound(d, peer, MsgView::EnterAt { x, y });
    assert(t.out[t.out.len() - 5] == ActionView::Driven(true));
}

/// The machine that arbitrates tells every peer who the panel shows, whenever one connects
/// or the layout changes; another machine tells nobody.
pub proof fn law_the_arbiter_keeps_everyone_informed(s: RouterView, d: DeskView)
    ensures
        s.arbiter ==> ({
            let t = s.layout_changed(d);
            let u = s.connected(d);
            &&& t.out.len() > 0 && t.out.last() == (ActionView::Broadcast {
                configured: t.shared.is_configured(),
                owner: t.shared_owner,
            })
            &&& u.out.len() > 0 && u.out.last() == (ActionView::Broadcast {
                configured: u.shared.is_configured(),
                owner: u.shared_owner,
            })
        }),
        !s.arbiter && !s.shared.is_configured() ==> ({
            let t = s.layout_changed(d);
            t.out.len() == s.out.len() + 1 && t.out.last() == ActionView::Portals(t.portals)
        }),
{
    reveal(RouterView::layout_changed);
    reveal(RouterView::connected);
    lemma_refreshed_keeps(s, d);
    let a = s.panel_refreshed(d);
    lemma_rearmed_keeps(a, d);
    let b = a.rearmed(d);
    lemma_switched_keeps(b, b.shared_owner);
    if !s.arbiter && !s.shared.is_configured() {
        reveal(RouterView::panel_refreshed);
        reveal(RouterView::rearmed);
    }
}

proof fn lemma_switched_keeps(s: RouterView, owner: Seq<char>)
    ensures
        s.switched_to(owner).arbiter == s.arbiter,
{
    reveal(RouterView::switched_to);
    reveal(RouterView::owned_by);
    reveal(RouterView::to_focus);
    reveal(RouterView::released);
}

proof fn lemma_refreshed_keeps(s: RouterView, d: DeskView)
    ensures
        s.panel_refreshed(d).arbiter == s.arbiter,
{
    reveal(RouterView::panel_refreshed);
    lemma_switched_keeps(
        (RouterView {
            shared: crate::config::SharedMonitorView {
                local_rect: s.local_panel(d),
                peer_rect: s.peer_panel(),
                ..s.shared
            },
            ..s
        }).emit(
            ActionView::RememberRects { local: s.local_panel(d), peer: s.peer_panel() },
        ),
        s.shared_owner,
    );
}

/// A machine starts where it stopped: the panel shows the machine that it last showed, if
/// that is still one of the two, and the copy here is hidden exactly while that is the other.
pub proof fn law_the_owner_survives_a_restart(
    c: crate::config::ConfigView,
    bounds: Rect,
    macos: bool,
    owner: Seq<char>,
)
    requires
        c.shared_monitor.last_owner == Some(owner),
        owner == c.name || RouterView::started(c, bounds, macos).shared_peer() == Some(owner),
    ensures
        ({
            let s = RouterView::started(c, bounds, macos);
            &&& s.shared_owner == owner
            &&& owner == c.name ==> s.blocked is None
            &&& owner != c.name ==> s.blocked == c.shared_monitor.local_rect && s.out.last()
                == ActionView::Blocked(c.shared_monitor.local_rect)
        }),
{
}

/// Settings that changed on disk take effect: the shortcuts, what the modifiers send, the
/// tablet's edge, the links and the panel.
pub proof fn law_changed_settings_take_effect(
    s: RouterView,
    c: crate::config::ConfigView,
    bounds: Rect,
    macos: bool,
    edge: Edge,
)
    ensures
        ({
            let t = s.reloaded(c);
            let u = RouterView::started(c, bounds, macos);
            &&& t.mac_shortcuts == c.mac_shortcuts && u.mac_shortcuts == c.mac_shortcuts
            &&& t.links == c.links && u.links == c.links
            &&& t.shared == c.shared_monitor && u.shared == c.shared_monitor
            &&& c.tablet_edge == Some(edge.name()) ==> t.tablet_edge == Some(edge) && u.tablet_edge
                == Some(edge)
            &&& c.tablet_edge is None ==> t.tablet_edge is None && u.tablet_edge is None
            &&& c.win_ctrl == "ctrl"@ ==> t.win_mods.0 == 0xE0 && u.win_mods.0 == 0xE0
            &&& c.win_opt == "alt"@ ==> t.win_mods.1 == 0xE2 && u.win_mods.1 == 0xE2
            &&& c.win_cmd == "win"@ ==> t.win_mods.2 == 0xE3 && u.win_mods.2 == 0xE3
            &&& c.win_cmd == "ctrl"@ ==> t.win_mods.2 == 0xE0 && u.win_mods.2 == 0xE0
            &&& c.win_ctrl == "win"@ ==> t.win_mods.0 == 0xE3 && u.win_mods.0 == 0xE3
            &&& t.out.len() > s.out.len() && t.out[s.out.len() as int] == ActionView::EdgeDwell(
                c.edge_dwell_ms,
            )
            &&& s.shared != c.shared_monitor ==> t.out.contains(
                ActionView::SharedHotkey(
                    c.shared_monitor.is_configured() && c.shared_monitor.hotkey,
                ),
            )
            &&& t.focus == s.focus && t.driven == s.driven && t.shared_owner == s.shared_owner
        }),
{
    reveal_strlit("ctrl");
    reveal_strlit("alt");
    reveal_strlit("win");
    assert("ctrl"@[0] != "alt"@[0] && "ctrl"@[0] != "win"@[0] && "alt"@[0] != "win"@[0]);
    model::law_edge_names_parse_back(edge);
    let t = s.reloaded(c);
    if s.shared != c.shared_monitor {
        assert(t.out[(s.out.len() + 1) as int] == ActionView::SharedHotkey(
            c.shared_monitor.is_configured() && c.shared_monitor.hotkey,
        ));
    }
}

/// Every crossing flashes the side of this desk that it went through: outward, back off a
/// side that leads nowhere, and home by the panel, where it is the side of the monitor that
/// faces the panel.
pub proof fn law_crossings_flash_their_side(
    s: RouterView,
    d: DeskView,
    edge: Edge,
    facing: Edge,
    ratio: F32,
    peer: Seq<char>,
)
    requires
        against(edge, facing),
    ensures
        ({
            let t = s.linked(d, edge, ratio, None);
            t.focus != s.focus ==> t.out.len() > s.out.len() && t.out[s.out.len() as int]
                == ActionView::Flash(edge)
        }),
        s.returned_at(edge, ratio).out.last() == ActionView::Flash(edge),
        ({
            s.panel_return(d, peer, edge, ratio) matches Some(t) ==> t.focus != s.focus
                ==> t.out.len() > 0 && t.out.last() == ActionView::Flash(facing)
        }),
{
    reveal(RouterView::linked);
    reveal(RouterView::to_focus);
    reveal(RouterView::panel_return);
    reveal(RouterView::released);
}

/// Letting the tablet go gives the input back, with the cursor in the middle of this desk.
pub proof fn law_letting_the_tablet_go(s: RouterView, d: DeskView)
    requires
        s.tablet_active,
    ensures
        ({
            let t = s.captured(d, Captured::Panic);
            let n = t.out.len() as int;
            let b = s.bounds;
            &&& !t.tablet_active && t == s.captured(d, Captured::TabletHotkey)
            &&& n == s.out.len() + 3
            &&& t.out[n - 3] == ActionView::ExitForwarding && t.out[n - 1] == ActionView::Focus(
                None,
            )
            &&& t.out[n - 2] matches ActionView::Warp { x, y } && (b.solid() ==> b.holds(x, y) && -1
                <= (x - b.x) - (b.end_x() - x) <= 1 && -1 <= (y - b.y) - (b.end_y() - y) <= 1)
        }),
{
    reveal(RouterView::tablet_control);
    if s.bounds.solid() {
        law_the_middle_is_on_it(s.bounds);
    }
}

} // verus!
