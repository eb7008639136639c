//! Being driven by a peer: what arrives from it, and how this desk answers.
use vstd::prelude::*;

use crate::binary32::F32;
use crate::engine::action::{Action, Injection};
use crate::engine::model::{self, Desk, Driven, Router, RouterView};
use crate::engine::panel::{to_coord, EDGE_INSET};
use crate::layout::{self, fraction, hold, ratio_on_edge, Edge};
use crate::proto::{InputEvent, Msg, Rect};
use crate::text::{is_text, same_text};

verus! {

/// What an input event of the driving peer triggered on this desk.
pub(crate) enum DrivenCross {
    Stay,
    /// The cursor pushed out through one of this desk's own edges.
    Portal(Edge, F32),
    /// The cursor moved onto this desk's copy of the shared panel.
    Shared(F32, F32),
}

impl Router {
    /// A peer took control of this desk: what it sends is injected from now on. A
    /// desk that cannot inject bounces control straight back rather than swallowing
    /// the cursor.
    pub(crate) fn enter_driven(&mut self, desk: &Desk, peer: &str, pos: (i32, i32))
        ensures
            final(self)@ == old(self)@.entered(desk@, peer@, pos),
    {
        proof {
            reveal(RouterView::entered);
        }
        if !self.injector {
            if !desk.can_inject {
                self.send(
                    peer,
                    Msg::CursorLeft { edge: Edge::Left, ratio: F32 { bits: 0x3f00_0000 } },
                );
                return ;
            }
            self.injector = true;
        }
        if self.focus.is_some() {
            self.go_home();
        }
        self.driven = Some(Driven { peer: peer.to_owned(), pos });
        self.emit(Action::Driven(true));
        self.refresh_portals(desk);
        self.emit(
            Action::Inject(Injection::MouseTo { x: pos.0, y: pos.1, dx: 0, dy: 0 }),
        );
        self.emit(Action::Indicator { connected: true, active: true });
        let me: String = self.name.clone();
        self.emit(Action::Focus(Some(me)));
    }

    /// Control left this desk again (handed back, or the session died).
    pub(crate) fn leave_driven(&mut self, desk: &Desk)
        ensures
            final(self)@ == old(self)@.undriven(desk@),
    {
        proof {
            reveal(RouterView::undriven);
        }
        if self.driven.is_none() {
            return ;
        }
        self.driven = None;
        if let Some(b) = self.blocked {
            self.park_off_hidden_panel(desk, b);
        }
        self.emit(Action::Driven(false));
        if self.injector {
            self.emit(Action::Inject(Injection::ReleaseAll));
        }
        self.refresh_portals(desk);
        self.emit(Action::Indicator { connected: true, active: false });
        self.emit(Action::Focus(None));
    }

    pub(crate) fn inject(&mut self, i: Injection)
        ensures
            final(self)@ == old(self)@.inject(i),
    {
        if self.injector {
            self.emit(Action::Inject(i));
        }
    }

    /// Where a motion to a point puts the cursor on this desk.
    pub(crate) fn keep_on_desk(&self, nx: i64, ny: i64) -> (r: (i32, i32))
        ensures
            (r.0 as int, r.1 as int) == self@.on_desk(nx as int, ny as int),
    {
        let b: Rect = self.bounds;
        (
            to_coord(hold(nx, b.x as i64, b.x as i64 + b.w as i64 - 1)),
            to_coord(hold(ny, b.y as i64, b.y as i64 + b.h as i64 - 1)),
        )
    }

    /// The first of this desk's own edges that a point lies past.
    pub(crate) fn edge_passed(&self, nx: i64, ny: i64) -> (r: Option<Edge>)
        ensures
            r == model::crossed_edge(self@.my_edges, self@.bounds, nx as int, ny as int, 0),
    {
        let b: Rect = self.bounds;
        let mut i: usize = 0;
        while i < self.my_edges.len()
            invariant
                i <= self.my_edges@.len(),
                b == self.bounds,
                model::crossed_edge(self.my_edges@, b, nx as int, ny as int, 0) == model::crossed_edge(
                    self.my_edges@,
                    b,
                    nx as int,
                    ny as int,
                    i as int,
                ),
            decreases self.my_edges@.len() - i,
        {
            let e: Edge = self.my_edges[i];
            let out: bool = match e {
                Edge::Left => nx < b.x as i64,
                Edge::Right => nx >= b.x as i64 + b.w as i64,
                Edge::Top => ny < b.y as i64,
                Edge::Bottom => ny >= b.y as i64 + b.h as i64,
            };
            if out {
                return Some(e);
            }
            i = i + 1;
        }
        None
    }

    /// Applies one input event from the driving peer, dead-reckoning this desk's own
    /// absolute cursor. Returns the crossing it caused.
    pub(crate) fn apply_driven_input(&mut self, ev: InputEvent) -> (r: DrivenCross)
        requires
            old(self).driven is Some,
        ensures
            final(self)@ == old(self)@.applied(ev).0,
            match r {
                DrivenCross::Stay => old(self)@.applied(ev).1 is Stay,
                DrivenCross::Portal(e, ratio) => {
                    &&& ev matches InputEvent::MouseMove { dx, dy }
                    &&& old(self)@.applied(ev).1 == model::CrossView::Portal(e)
                    &&& ratio == old(self)@.exit_ratio(
                        e,
                        old(self)@.driven_x() + dx,
                        old(self)@.driven_y() + dy,
                    )
                },
                DrivenCross::Shared(fx, fy) => {
                    &&& ev matches InputEvent::MouseMove { dx, dy }
                    &&& old(self)@.applied(ev).1 is Shared
                    &&& old(self).blocked is Some
                    &&& fx == layout::unit_fraction(
                        old(self)@.driven_x() + dx - old(self).blocked->0.x,
                        old(self).blocked->0.w as int,
                    )
                    &&& fy == layout::unit_fraction(
                        old(self)@.driven_y() + dy - old(self).blocked->0.y,
                        old(self).blocked->0.h as int,
                    )
                },
            },
    {
        proof {
            reveal(RouterView::applied);
        }
        match ev {
            InputEvent::MouseMove { dx, dy } => {
                let pos: (i32, i32) = match &self.driven {
                    Some(d) => d.pos,
                    None => (0, 0),
                };
                let nx: i64 = pos.0 as i64 + dx as i64;
                let ny: i64 = pos.1 as i64 + dy as i64;
                // This desk's copy of the shared panel is showing the other machine:
                // moving onto it hands control back at the same relative spot.
                if let Some(b) = self.blocked {
                    if b.x as i64 <= nx && nx < b.x as i64 + b.w as i64 && b.y as i64 <= ny && ny
                        < b.y as i64 + b.h as i64 {
                        return DrivenCross::Shared(
                            fraction(nx - b.x as i64, b.w),
                            fraction(ny - b.y as i64, b.h),
                        );
                    }
                }
                let at: (i32, i32) = self.keep_on_desk(nx, ny);
                if let Some(edge) = self.edge_passed(nx, ny) {
                    return DrivenCross::Portal(
                        edge,
                        ratio_on_edge(self.bounds, edge, at.0, at.1),
                    );
                }
                let peer: String = match &self.driven {
                    Some(d) => d.peer.clone(),
                    None => String::new(),
                };
                self.driven = Some(Driven { peer, pos: at });
                self.inject(Injection::MouseTo { x: at.0, y: at.1, dx, dy });
            },
            InputEvent::MouseButton { button, pressed } => {
                self.inject(Injection::Button { button, pressed });
            },
            InputEvent::Wheel { dx, dy } => {
                self.inject(Injection::Wheel { dx, dy });
            },
            InputEvent::Key { key, pressed } => {
                self.inject(Injection::Key { key, pressed });
            },
        }
        DrivenCross::Stay
    }

    /// Is this peer driving the desk?
    pub(crate) fn driven_by(&self, name: &str) -> (r: bool)
        ensures
            r == (self@.driven matches Some((peer, _)) && peer == name@),
    {
        match &self.driven {
            Some(d) => same_text(d.peer.as_str(), name),
            None => false,
        }
    }

    /// The editor view of the arbiter arrives.
    pub(crate) fn adopt_state(
        &mut self,
        desk: &Desk,
        name: &str,
        state: String,
        shared_configured: bool,
        owner: String,
    )
        ensures
            final(self)@ == old(self)@.synced(desk@, name@, state@, shared_configured, owner@),
    {
        proof {
            reveal(RouterView::synced);
        }
        // Only the arbiter authors the editor view; it must never adopt the other
        // side's copy of it.
        if self.arbiter {
            return ;
        }
        self.emit(Action::Synced(state));
        self.emit(
            Action::SharedState {
                configured: shared_configured,
                peer: Some(name.to_owned()),
                owner: Some(owner.clone()),
            },
        );
        let mine: bool = same_text(owner.as_str(), self.name.as_str());
        let peer: Option<String> = self.shared_peer_name();
        let known: bool = mine || is_text(&peer, owner.as_str());
        if self.shared.configured() && known && !same_text(
            self.shared_owner.as_str(),
            owner.as_str(),
        ) {
            self.shared_owner = owner.clone();
            self.emit(Action::RememberOwner(owner.clone()));
            self.emit(Action::SharedOwner(owner));
            let rect: Option<Rect> = if mine {
                None
            } else {
                self.shared.local_rect
            };
            self.apply_peer_block(desk, rect);
        }
    }

    /// Routes one message that arrived from `name`: being driven by it, or what it
    /// says about the panel, the arrangement and the editor view. The other messages
    /// are consumed by the session itself.
    pub fn on_inbound(&mut self, desk: &Desk, name: &str, msg: Msg)
        ensures
            final(self)@ == old(self)@.inbound(desk@, name@, msg@),
    {
        match msg {
            Msg::Enter { edge, ratio } => {
                let pos: (i32, i32) = self.spot_on(self.bounds, edge, ratio, EDGE_INSET);
                self.enter_driven(desk, name, pos);
            },
            Msg::EnterAt { x, y } => {
                self.enter_driven(desk, name, (x, y));
            },
            Msg::Leave => {
                if self.driven_by(name) {
                    self.leave_driven(desk);
                }
            },
            Msg::Input(ev) => {
                // Events still in flight after control was handed back are dropped,
                // so the cursor doesn't twitch after the handoff.
                if !self.driven_by(name) {
                    return ;
                }
                match self.apply_driven_input(ev) {
                    DrivenCross::Portal(edge, ratio) => {
                        self.leave_driven(desk);
                        self.send(name, Msg::CursorLeft { edge, ratio });
                    },
                    DrivenCross::Shared(fx, fy) => {
                        self.leave_driven(desk);
                        self.send(name, Msg::SharedCross { fx, fy });
                    },
                    DrivenCross::Stay => {},
                }
            },
            Msg::SharedBlock { rect } => {
                self.apply_peer_block(desk, rect);
                self.emit(Action::PassiveNotice(rect));
            },
            Msg::Arrange { monitors } => {
                self.adopt_arrangement(monitors);
            },
            Msg::StateSync { state, shared_configured, owner } => {
                self.adopt_state(desk, name, state, shared_configured, owner);
            },
            Msg::Hello { .. }
            | Msg::Welcome { .. }
            | Msg::Ping(_)
            | Msg::Pong(_)
            | Msg::Bye
            | Msg::CursorLeft { .. }
            | Msg::DisplayPower { .. }
            | Msg::DisplayPowerResult { .. }
            | Msg::Monitors { .. }
            | Msg::SharedCross { .. }
            | Msg::SharedRequest { .. }
            | Msg::UseAddr { .. }
            | Msg::Clipboard { .. }
            | Msg::OpenUrl { .. } => {},
        }
    }
}

} // verus!
