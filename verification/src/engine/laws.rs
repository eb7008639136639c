//! What the router keeps to, whatever happens.
use vstd::prelude::*;

use crate::binary32::F32;
use crate::engine::action::{self, Injection, Offline};
use crate::engine::model::{self, RouterView};
use crate::engine::panel;
use crate::engine::Captured;
use crate::layout::{self, Edge};
use crate::proto::{self, InputEvent, Rect};

verus! {

/// This desk does not drive a peer and get driven by one at the same time.
pub open spec fn exclusive(s: RouterView) -> bool {
    s.focus is None || s.driven is None
}

/// Sending to the focused peer changes nothing but what is to be sent.
proof fn lemma_to_focus(s: RouterView, msg: proto::MsgView)
    ensures
        s.to_focus(msg) == (RouterView { out: s.to_focus(msg).out, ..s }),
        s.focus matches Some(p) ==> s.to_focus(msg).out == s.out.push(
            action::ActionView::Send { peer: p, msg: s.for_focus(msg), offline: Offline::Ignore },
        ),
        s.focus is None ==> s.to_focus(msg) == s,
{
    reveal(RouterView::to_focus);
}

/// Leaving the focused peer changes the focus, what is held, and what is to be sent.
proof fn lemma_unfocused(s: RouterView)
    ensures
        s.unfocused() == (RouterView {
            focus: None,
            down_keys: seq![],
            down_buttons: seq![],
            out: s.unfocused().out,
            ..s
        }),
{
    reveal(RouterView::released);
    lemma_to_focus(s.released(), proto::MsgView::Leave);
}

/// Arming edges changes the edges and what is to be done.
proof fn lemma_rearmed(s: RouterView, d: model::DeskView)
    ensures
        s.rearmed(d) == (RouterView {
            my_edges: s.active_edges(d),
            portals: if s.driven is Some {
                seq![]
            } else {
                s.active_edges(d)
            },
            out: s.rearmed(d).out,
            ..s
        }),
{
    reveal(RouterView::rearmed);
}

/// Parking the cursor changes only what is to be done.
proof fn lemma_parked(s: RouterView, d: model::DeskView, b: Rect)
    ensures
        s.parked(d, b) == (RouterView { out: s.parked(d, b).out, ..s }),
{
    reveal(RouterView::parked);
}

/// A panel that changes hands leaves the driver alone and at most takes the focus home.
proof fn lemma_switched(s: RouterView, owner: Seq<char>)
    ensures
        s.switched_to(owner).driven == s.driven,
        s.switched_to(owner).focus == s.focus || s.switched_to(owner).focus is None,
        s.switched_to(owner).name == s.name,
        s.switched_to(owner).shared == s.shared,
        s.switched_to(owner).peers == s.peers,
{
    reveal(RouterView::switched_to);
    reveal(RouterView::owned_by);
    match s.shared_peer() {
        Some(peer) => match s.requested_owner(owner, peer) {
            Some(o) => {
                let to_me = o == s.name;
                let t = (RouterView { shared_owner: o, ..s }).emit(
                    action::ActionView::RememberOwner(o),
                ).emit(action::ActionView::SharedOwner(o)).emit(
                    action::ActionView::ClearSharedError,
                ).broadcast();
                let mine = if to_me {
                    None
                } else {
                    s.shared.local_rect
                };
                let theirs = if to_me {
                    s.shared.peer_rect
                } else {
                    None
                };
                let u = (RouterView { blocked: mine, ..t }).emit(
                    action::ActionView::Blocked(mine),
                ).emit(
                    action::ActionView::Send {
                        peer,
                        msg: proto::MsgView::SharedBlock { rect: theirs },
                        offline: Offline::SharedError,
                    },
                );
                lemma_unfocused(u);
            },
            None => {},
        },
        None => {},
    }
}

/// Re-deriving the panel's rects leaves the driver alone and at most takes the focus
/// home.
proof fn lemma_panel_refreshed(s: RouterView, d: model::DeskView)
    ensures
        s.panel_refreshed(d).driven == s.driven,
        s.panel_refreshed(d).focus == s.focus || s.panel_refreshed(d).focus is None,
        s.panel_refreshed(d).name == s.name,
{
    reveal(RouterView::panel_refreshed);
    let local = s.local_panel(d);
    let peer = s.peer_panel();
    let t = (RouterView {
        shared: crate::config::SharedMonitorView { local_rect: local, peer_rect: peer, ..s.shared },
        ..s
    }).emit(action::ActionView::RememberRects { local, peer });
    lemma_switched(t, s.shared_owner);
}

proof fn lemma_undriven(s: RouterView, d: model::DeskView)
    ensures
        s.undriven(d).driven is None,
        s.undriven(d).focus == s.focus,
        s.undriven(d).name == s.name,
        s.driven is None ==> s.undriven(d) == s,
{
    reveal(RouterView::undriven);
    if s.driven is Some {
        let t = RouterView { driven: None, ..s };
        let u = match t.blocked {
            Some(b) => t.parked(d, b),
            None => t,
        };
        match t.blocked {
            Some(b) => lemma_parked(t, d, b),
            None => {},
        }
        let v = u.emit(action::ActionView::Driven(false));
        let w = if v.injector {
            v.emit(action::ActionView::Inject(Injection::ReleaseAll))
        } else {
            v
        };
        lemma_rearmed(w, d);
    }
}

/// A peer that takes control takes it from this desk's own crossing: nothing is
/// focused any more.
pub proof fn law_being_driven_ends_driving(
    s: RouterView,
    d: model::DeskView,
    peer: Seq<char>,
    pos: (i32, i32),
)
    requires
        exclusive(s),
    ensures
        exclusive(s.entered(d, peer, pos)),
        s.injector || d.can_inject ==> s.entered(d, peer, pos).driven == Some((peer, pos))
            && s.entered(d, peer, pos).focus is None && s.entered(d, peer, pos).portals.len() == 0,
        !s.injector && !d.can_inject ==> s.entered(d, peer, pos).driven == s.driven && s.entered(
            d,
            peer,
            pos,
        ).focus == s.focus,
{
    reveal(RouterView::entered);
    if s.injector || d.can_inject {
        let t = RouterView { injector: true, ..s };
        lemma_unfocused(t);
        let u = if t.focus is Some {
            t.came_home()
        } else {
            t
        };
        let v = (RouterView { driven: Some((peer, pos)), ..u }).emit(
            action::ActionView::Driven(true),
        );
        lemma_rearmed(v, d);
    }
}

proof fn lemma_peer_blocked(s: RouterView, d: model::DeskView, rect: Option<Rect>)
    ensures
        s.peer_blocked(d, rect).driven == s.driven,
        s.peer_blocked(d, rect).focus == s.focus,
        s.peer_blocked(d, rect).blocked == rect,
{
    reveal(RouterView::peer_blocked);
    match rect {
        Some(b) => lemma_parked(s, d, b),
        None => {},
    }
}

/// Driving and being driven stay mutually exclusive, whatever a peer sends.
pub proof fn law_exclusive_over_inbound(
    s: RouterView,
    d: model::DeskView,
    name: Seq<char>,
    msg: proto::MsgView,
)
    requires
        exclusive(s),
    ensures
        exclusive(s.inbound(d, name, msg)),
{
    match msg {
        proto::MsgView::Enter { edge, ratio } => {
            let p = s.coord_on(s.bounds, edge, ratio, crate::engine::panel::EDGE_INSET as int);
            law_being_driven_ends_driving(s, d, name, (p.0 as i32, p.1 as i32));
        },
        proto::MsgView::EnterAt { x, y } => {
            law_being_driven_ends_driving(s, d, name, (x, y));
        },
        proto::MsgView::Leave => {
            lemma_undriven(s, d);
        },
        proto::MsgView::Input(ev) => {
            if s.driven is Some {
                reveal(RouterView::applied);
                lemma_undriven(s.applied(ev).0, d);
            }
        },
        proto::MsgView::SharedBlock { rect } => {
            lemma_peer_blocked(s, d, rect);
        },
        proto::MsgView::StateSync { state, shared_configured, owner } => {
            reveal(RouterView::synced);
            if !s.arbiter {
                let t = s.emit(action::ActionView::Synced(state)).emit(
                    action::ActionView::SharedState {
                        configured: shared_configured,
                        peer: Some(name),
                        owner: Some(owner),
                    },
                );
                let u = (RouterView { shared_owner: owner, ..t }).emit(
                    action::ActionView::RememberOwner(owner),
                ).emit(action::ActionView::SharedOwner(owner));
                lemma_peer_blocked(
                    u,
                    d,
                    if owner == s.name {
                        None
                    } else {
                        s.shared.local_rect
                    },
                );
            }
        },
        _ => {},
    }
}

proof fn lemma_tablet_control(s: RouterView, d: model::DeskView, on: bool)
    ensures
        s.tablet_control(d, on).driven == s.driven,
        s.tablet_control(d, on).focus == s.focus || s.tablet_control(d, on).focus is None,
        on && d.tablet_connected ==> s.tablet_control(d, on).focus is None && s.tablet_control(
            d,
            on,
        ).tablet_active,
        !on ==> !s.tablet_control(d, on).tablet_active,
        !on ==> s.tablet_control(d, on).focus == s.focus,
{
    reveal(RouterView::tablet_control);
    lemma_unfocused(s);
}

proof fn lemma_panel_return(
    s: RouterView,
    d: model::DeskView,
    peer: Seq<char>,
    edge: Edge,
    ratio: F32,
)
    ensures
        s.panel_return(d, peer, edge, ratio) matches Some(t) ==> t.driven == s.driven && (t.focus
            == s.focus || t.focus is None),
{
    reveal(RouterView::panel_return);
    lemma_unfocused(s);
    match (s.shared.local_rect, s.shared.peer_rect, panel::union_of(s.screens(peer))) {
        (Some(local), Some(prect), Some(pb)) => {
            let (ex, ey) = layout::edge_point(pb, edge, ratio, 0);
            let f = layout::edge_ratio(prect, edge, ex, ey);
            let p = s.coord_on(prect, edge, f, panel::EDGE_INSET as int);
            lemma_to_focus(s, proto::MsgView::EnterAt { x: p.0 as i32, y: p.1 as i32 });
        },
        _ => {},
    }
}

/// Driving and being driven stay mutually exclusive, whatever the capture side
/// reports: while a peer drives this desk no edge is armed and the cursor guard is
/// off, so no crossing of this desk's own begins.
pub proof fn law_exclusive_over_captured(s: RouterView, d: model::DeskView, ev: Captured)
    requires
        exclusive(s),
        s.driven is Some ==> !(ev is EdgeHit) && !(ev is SharedEnter),
    ensures
        exclusive(s.captured(d, ev)),
{
    match ev {
        Captured::Input(input) => {
            if s.tablet_active {
                reveal(RouterView::tablet_fed);
                match input {
                    InputEvent::MouseMove { dx, dy } => {
                        lemma_tablet_moved(s, d, dx, dy);
                    },
                    _ => {},
                }
            } else {
                reveal(RouterView::forwarded);
                let t = s.holding(input);
                lemma_to_focus(t, proto::MsgView::Input(input));
                let u = t.to_focus(proto::MsgView::Input(input));
                match u.pending_drop_url {
                    Some(url) => lemma_to_focus(
                        RouterView { pending_drop_url: None, ..u },
                        proto::MsgView::OpenUrl { url },
                    ),
                    None => {},
                }
            }
        },
        Captured::EdgeHit { edge, ratio } => {
            lemma_edge_hit_undriven(s, d, edge, ratio);
        },
        Captured::Panic => {
            lemma_tablet_control(s, d, false);
            lemma_unfocused(s);
        },
        Captured::SharedHotkey => {
            lemma_switched(s, "toggle"@);
        },
        Captured::TabletHotkey => {
            lemma_tablet_control(s, d, false);
            lemma_tablet_control(s, d, true);
        },
        Captured::SharedEnter { fx, fy } => {
            reveal(RouterView::shared_entered);
            match (s.shared_peer(), s.shared.peer_rect) {
                (Some(peer), Some(pr)) => {
                    reveal(RouterView::to_focus);
                },
                _ => {},
            }
        },
    }
}

proof fn lemma_tablet_moved(s: RouterView, d: model::DeskView, dx: i32, dy: i32)
    ensures
        s.tablet_moved(d, dx, dy).driven == s.driven,
        s.tablet_moved(d, dx, dy).focus == s.focus,
{
    reveal(RouterView::tablet_moved);
    let v = (
        layout::held(s.tablet_vpos.0 + dx, 0, s.tablet_size.0 as int),
        layout::held(s.tablet_vpos.1 + dy, 0, s.tablet_size.1 as int),
    );
    let t = (RouterView { tablet_vpos: (v.0 as i32, v.1 as i32), ..s }).emit(
        action::ActionView::Tablet(crate::engine::action::TabletOp::Move { dx, dy }),
    );
    lemma_tablet_control(t, d, false);
}

/// A crossing leaves the driver alone.
proof fn lemma_edge_hit_undriven(s: RouterView, d: model::DeskView, edge: Edge, ratio: F32)
    ensures
        s.edge_hit(d, edge, ratio).driven == s.driven,
{
    reveal(RouterView::edge_hit);
    reveal(RouterView::tablet_crossed);
    reveal(RouterView::panel_crossing);
    reveal(RouterView::linked);
    reveal(RouterView::to_focus);
    if s.tablet_edge == Some(edge) && d.tablet_connected {
        let size = match d.tablet_size {
            Some(z) => z,
            None => (2560i32, 1600i32),
        };
        let p = RouterView::tablet_entry(edge, ratio, size.0 as int, size.1 as int);
        lemma_tablet_control(
            RouterView {
                tablet_size: size,
                tablet_entry_ratio: ratio,
                tablet_vpos: (panel::coord(p.0) as i32, panel::coord(p.1) as i32),
                ..s
            },
            d,
            true,
        );
    }
}

/// Driving and being driven stay mutually exclusive, whatever a session reports.
pub proof fn law_exclusive_over_sessions(
    s: RouterView,
    d: model::DeskView,
    name: Seq<char>,
    edge: Edge,
    ratio: F32,
    fx: F32,
    fy: F32,
)
    requires
        exclusive(s),
    ensures
        exclusive(s.connected(d)),
        exclusive(s.disconnected(d, name)),
        exclusive(s.switched_to(name)),
        exclusive(s.layout_changed(d)),
        exclusive(s.shared_crossed(name, fx, fy)),
        exclusive(s.cursor_left(d, name, edge, ratio)),
{
    reveal(RouterView::connected);
    reveal(RouterView::layout_changed);
    reveal(RouterView::shared_crossed);
    lemma_switched(s, name);
    lemma_panel_refreshed(s, d);
    let t = s.panel_refreshed(d);
    lemma_rearmed(t, d);
    lemma_switched(t.rearmed(d), t.rearmed(d).shared_owner);
    law_disconnected_peer_has_no_hold(s, d, name);
    lemma_unfocused(s);
    lemma_cursor_left_exclusive(s, d, name, edge, ratio);
}

proof fn lemma_cursor_left_exclusive(
    s: RouterView,
    d: model::DeskView,
    name: Seq<char>,
    edge: Edge,
    ratio: F32,
)
    requires
        exclusive(s),
    ensures
        exclusive(s.cursor_left(d, name, edge, ratio)),
{
    reveal(RouterView::cursor_left);
    lemma_panel_return(s, d, name, edge, ratio);
    lemma_unfocused(s);
    if s.focus == Some(name) {
        match layout::target_of(s.links, name, edge) {
            Some((next, entry)) => {
                lemma_to_focus(
                    RouterView { focus: Some(next), ..s.unfocused() },
                    proto::MsgView::Enter { edge: entry, ratio },
                );
            },
            None => {},
        }
    }
}

/// A peer that disconnected neither drives this desk nor is driven: its session takes
/// nothing with it, and nobody is left without a cursor.
pub proof fn law_disconnected_peer_has_no_hold(s: RouterView, d: model::DeskView, name: Seq<char>)
    ensures
        s.disconnected(d, name).focus != Some(name),
        s.disconnected(d, name).driven matches Some((peer, _)) ==> peer != name,
        s.focus == Some(name) ==> s.disconnected(d, name).focus is None && s.disconnected(
            d,
            name,
        ).down_keys.len() == 0 && s.disconnected(d, name).down_buttons.len() == 0
            && s.disconnected(d, name).out.contains(action::ActionView::ExitForwarding),
        exclusive(s) ==> exclusive(s.disconnected(d, name)),
{
    reveal(RouterView::disconnected);
    lemma_undriven(s, d);
    let t = if s.driven matches Some((peer, _)) && peer == name {
        s.undriven(d)
    } else {
        s
    };
    if t.focus == Some(name) {
        let u = (RouterView { focus: None, down_keys: seq![], down_buttons: seq![], ..t }).emit(
            action::ActionView::ExitForwarding,
        );
        lemma_rearmed(u, d);
        reveal(RouterView::rearmed);
        assert(u.out[u.out.len() - 1] == action::ActionView::ExitForwarding);
        assert(u.rearmed(d).out[u.out.len() - 1] == action::ActionView::ExitForwarding);
    } else {
        lemma_rearmed(t, d);
    }
}

/// Nothing stays stuck down: when the focused peer is left, the release of every held
/// key and button goes to it, and it is told to stop after them.
pub proof fn law_everything_held_is_released(s: RouterView, peer: Seq<char>)
    requires
        s.focus == Some(peer),
    ensures
        s.unfocused().focus is None,
        s.unfocused().down_keys.len() == 0,
        s.unfocused().down_buttons.len() == 0,
        forall|i: int|
            0 <= i < s.down_keys.len() ==> s.unfocused().out.contains(
                action::ActionView::Send {
                    peer,
                    msg: proto::MsgView::Input(
                        InputEvent::Key {
                            key: s.remapped(#[trigger] s.down_keys[i]),
                            pressed: false,
                        },
                    ),
                    offline: Offline::Ignore,
                },
            ),
        forall|i: int|
            0 <= i < s.down_buttons.len() ==> s.unfocused().out.contains(
                action::ActionView::Send {
                    peer,
                    msg: proto::MsgView::Input(
                        InputEvent::MouseButton {
                            button: #[trigger] s.down_buttons[i],
                            pressed: false,
                        },
                    ),
                    offline: Offline::Ignore,
                },
            ),
        s.unfocused().out.last() == (action::ActionView::Send {
            peer,
            msg: proto::MsgView::Leave,
            offline: Offline::Ignore,
        }),
{
    reveal(RouterView::released);
    lemma_unfocused(s);
    let r = s.released();
    lemma_to_focus(r, proto::MsgView::Leave);
    let out = s.unfocused().out;
    assert(out == r.out.push(
        action::ActionView::Send {
            peer,
            msg: proto::MsgView::Leave,
            offline: Offline::Ignore,
        },
    ));
    assert forall|i: int| 0 <= i < s.down_keys.len() implies out.contains(
        action::ActionView::Send {
            peer,
            msg: proto::MsgView::Input(
                InputEvent::Key { key: s.remapped(#[trigger] s.down_keys[i]), pressed: false },
            ),
            offline: Offline::Ignore,
        },
    ) by {
        assert(out[s.out.len() + i] == s.key_releases()[i]);
    }
    assert forall|i: int| 0 <= i < s.down_buttons.len() implies out.contains(
        action::ActionView::Send {
            peer,
            msg: proto::MsgView::Input(
                InputEvent::MouseButton { button: #[trigger] s.down_buttons[i], pressed: false },
            ),
            offline: Offline::Ignore,
        },
    ) by {
        assert(out[s.out.len() + s.key_releases().len() + i] == s.button_releases()[i]);
    }
}

/// The cursor can never vanish into an offline screen: an edge is armed only if it
/// leads along a link to a machine that is online and is no dead side of the panel, or
/// to a monitor of the online peer beyond the panel, or to a tablet that is present.
pub proof fn law_armed_edges_lead_somewhere(s: RouterView, d: model::DeskView, edge: Edge)
    requires
        s.rearmed(d).portals.contains(edge),
    ensures
        s.leads_along_link(d, edge) || s.leads_beyond(d, edge) || (s.tablet_edge == Some(edge)
            && d.tablet_present),
        s.driven is None,
{
    lemma_rearmed(s, d);
    reveal(RouterView::active_edges);
    let a0 = Seq::<Edge>::empty();
    let a1 = s.add_link_edge(d, a0, Edge::Left);
    let a2 = s.add_link_edge(d, a1, Edge::Right);
    let a3 = s.add_link_edge(d, a2, Edge::Top);
    let a4 = s.add_link_edge(d, a3, Edge::Bottom);
    let b1 = s.add_beyond_edge(d, a4, Edge::Left);
    let b2 = s.add_beyond_edge(d, b1, Edge::Right);
    let b3 = s.add_beyond_edge(d, b2, Edge::Top);
    let b4 = s.add_beyond_edge(d, b3, Edge::Bottom);
    lemma_push_contains(a0, Edge::Left, edge);
    lemma_push_contains(a1, Edge::Right, edge);
    lemma_push_contains(a2, Edge::Top, edge);
    lemma_push_contains(a3, Edge::Bottom, edge);
    lemma_push_contains(a4, Edge::Left, edge);
    lemma_push_contains(b1, Edge::Right, edge);
    lemma_push_contains(b2, Edge::Top, edge);
    lemma_push_contains(b3, Edge::Bottom, edge);
    match s.tablet_edge {
        Some(te) => lemma_push_contains(b4, te, edge),
        None => {},
    }
}

proof fn lemma_push_contains(v: Seq<Edge>, e: Edge, x: Edge)
    ensures
        v.push(e).contains(x) <==> v.contains(x) || e == x,
{
    if v.contains(x) {
        let i = choose|i: int| 0 <= i < v.len() && v[i] == x;
        assert(v.push(e)[i] == x);
    }
    assert(v.push(e)[v.len() as int] == e);
}

/// While a peer drives this desk nothing is armed, so a physical nudge can't start a
/// control fight.
pub proof fn law_nothing_is_armed_while_driven(s: RouterView, d: model::DeskView)
    requires
        s.driven is Some,
    ensures
        s.rearmed(d).portals.len() == 0,
{
    lemma_rearmed(s, d);
}

/// What a peer reports after it lost the focus is ignored, and so is input from a
/// peer that does not drive this desk.
pub proof fn law_stale_reports_are_ignored(
    s: RouterView,
    d: model::DeskView,
    name: Seq<char>,
    edge: Edge,
    ratio: F32,
    fx: F32,
    fy: F32,
    ev: InputEvent,
)
    ensures
        s.focus != Some(name) ==> s.cursor_left(d, name, edge, ratio) == s,
        s.focus != Some(name) ==> s.shared_crossed(name, fx, fy) == s,
        !(s.driven matches Some((peer, _)) && peer == name) ==> s.inbound(
            d,
            name,
            proto::MsgView::Input(ev),
        ) == s,
        !(s.driven matches Some((peer, _)) && peer == name) ==> s.inbound(
            d,
            name,
            proto::MsgView::Leave,
        ) == s,
{
    reveal(RouterView::cursor_left);
    reveal(RouterView::shared_crossed);
}

/// The editor view and the panel's owner have one author: the machine that arbitrates
/// adopts nothing, and the other one only asks.
pub proof fn law_panel_has_one_arbiter(
    s: RouterView,
    d: model::DeskView,
    name: Seq<char>,
    state: Seq<char>,
    configured: bool,
    owner: Seq<char>,
)
    ensures
        s.arbiter ==> s.synced(d, name, state, configured, owner) == s,
        !s.arbiter ==> s.panel_requested(owner).shared_owner == s.shared_owner
            && s.panel_requested(owner).blocked == s.blocked,
        !s.arbiter ==> s.broadcast() == s,
{
    reveal(RouterView::synced);
}

/// The panel is blocked on exactly one side: the machine that it shows has its copy
/// free, and the other one is told, or has, its rect blocked.
pub proof fn law_panel_is_blocked_on_one_side(s: RouterView, owner: Seq<char>, peer: Seq<char>)
    ensures
        s.owned_by(owner, peer).shared_owner == owner,
        s.owned_by(owner, peer).blocked == if owner == s.name {
            None
        } else {
            s.shared.local_rect
        },
        s.owned_by(owner, peer).out.contains(
            action::ActionView::Send {
                peer,
                msg: proto::MsgView::SharedBlock {
                    rect: if owner == s.name {
                        s.shared.peer_rect
                    } else {
                        None
                    },
                },
                offline: Offline::SharedError,
            },
        ),
{
    reveal(RouterView::owned_by);
    reveal(RouterView::released);
    let to_me = owner == s.name;
    let t = (RouterView { shared_owner: owner, ..s }).emit(
        action::ActionView::RememberOwner(owner),
    ).emit(action::ActionView::SharedOwner(owner)).emit(
        action::ActionView::ClearSharedError,
    ).broadcast();
    let mine = if to_me {
        None
    } else {
        s.shared.local_rect
    };
    let theirs = if to_me {
        s.shared.peer_rect
    } else {
        None
    };
    let block = action::ActionView::Send {
        peer,
        msg: proto::MsgView::SharedBlock { rect: theirs },
        offline: Offline::SharedError,
    };
    let b = (RouterView { blocked: mine, ..t }).emit(action::ActionView::Blocked(mine));
    let u = b.emit(block);
    let at = b.out.len() as int;
    assert(u.out[at] == block);
    if to_me && s.focus == Some(peer) {
        lemma_unfocused(u);
        let r = u.released();
        lemma_to_focus(r, proto::MsgView::Leave);
        assert(r.out[at] == block);
        assert(u.unfocused().out[at] == block);
        let h = u.came_home();
        assert(h.out[at] == block);
        match s.shared.local_rect {
            Some(lr) => {
                assert(h.warp(model::centre(lr)).out[at] == block);
            },
            None => {},
        }
    }
    let z = s.owned_by(owner, peer);
    assert(z.out[at] == block);
}

/// Flipping the panel twice brings it back to where it was.
pub proof fn law_two_toggles_restore_the_owner(s: RouterView, peer: Seq<char>)
    requires
        s.shared.is_configured(),
        s.shared_peer() == Some(peer),
        peer != s.name,
        s.shared_owner == s.name || s.shared_owner == peer,
    ensures
        s.switched_to("toggle"@).shared_owner != s.shared_owner,
        s.switched_to("toggle"@).switched_to("toggle"@).shared_owner == s.shared_owner,
{
    reveal(RouterView::switched_to);
    let o = s.requested_owner("toggle"@, peer)->0;
    law_panel_is_blocked_on_one_side(s, o, peer);
    let t = s.switched_to("toggle"@);
    lemma_switched(s, "toggle"@);
    assert(t.shared_peer() == Some(peer));
    let o2 = t.requested_owner("toggle"@, peer)->0;
    law_panel_is_blocked_on_one_side(t, o2, peer);
}

/// The panic escape brings input home: no peer is focused afterwards, or, where the
/// tablet was controlled, the tablet no longer is.
pub proof fn law_panic_brings_input_home(s: RouterView, d: model::DeskView)
    ensures
        !s.tablet_active ==> s.captured(d, Captured::Panic).focus is None,
        s.tablet_active ==> !s.captured(d, Captured::Panic).tablet_active,
{
    lemma_unfocused(s);
    lemma_tablet_control(s, d, false);
}

/// A router starts with everything at home, and blocks this desk's copy of the panel
/// exactly while the panel shows the peer.
pub proof fn law_start_is_at_home(c: crate::config::ConfigView, bounds: Rect, macos: bool)
    ensures
        ({
            let s = RouterView::started(c, bounds, macos);
            &&& s.focus is None && s.driven is None && !s.tablet_active
            &&& s.portals.len() == 0
            &&& s.shared_owner == s.name || s.shared_peer() == Some(s.shared_owner)
            &&& s.shared_owner == s.name ==> s.blocked is None
            &&& s.shared_owner != s.name ==> s.blocked == s.shared.local_rect
        }),
{
}

/// A crossing onto a peer's monitor lands on that monitor, if it is at least three
/// pixels wide and high.
pub proof fn law_landing_is_on_the_monitor(
    m: Rect,
    local: Rect,
    prect: Rect,
    edge: Edge,
    ex: int,
    ey: int,
)
    requires
        m.fits(),
        m.w >= 3,
        m.h >= 3,
    ensures
        ({
            let (x, y) = panel::landing_on(m, local, prect, edge, ex, ey);
            m.holds(x, y)
        }),
{
    reveal(panel::landing_on);
}

/// Coming home through the panel lands on the monitor that adjoins it.
pub proof fn law_homecoming_is_on_the_monitor(m: Rect, edge: Edge, f: F32)
    requires
        m.solid(),
    ensures
        ({
            let (x, y) = panel::homecoming(m, edge, f);
            m.holds(x, y)
        }),
{
    reveal(panel::homecoming);
}

/// The dead-reckoned cursor of a driving peer never leaves the desk.
pub proof fn law_driven_cursor_stays_on_desk(s: RouterView, ev: InputEvent)
    requires
        s.bounds.solid(),
        s.driven is Some,
        s.bounds.holds(s.driven_x(), s.driven_y()),
    ensures
        s.applied(ev).0.driven is Some,
        s.bounds.holds(s.applied(ev).0.driven_x(), s.applied(ev).0.driven_y()),
{
    reveal(RouterView::applied);
}

} // verus!
