//! Crossings: captured input, edges, the shared panel and the tablet.
use vstd::prelude::*;

use crate::binary32::F32;
use crate::engine::action::{Action, TabletOp};
use crate::engine::host::{middle, press_button, press_key};
use crate::engine::model::{button_index, Desk, Router, RouterView};
use crate::engine::panel::{
    come_home, find_adjoining, find_beyond, is_on_panel_edge, land_on, to_coord, union_rect,
    EDGE_INSET,
};
use crate::engine::Captured;
use crate::layout::{self, fraction, hold, place_on_edge, Edge};
use crate::proto::{InputEvent, MouseButton, Msg, Rect};
use crate::text::{copy_opt, has_text, is_text, same_text};

verus! {

impl Router {
    /// Enters or leaves tablet control: local input is swallowed and goes to the
    /// connected tablet, or local control is restored.
    pub fn set_tablet_control(&mut self, desk: &Desk, on: bool)
        ensures
            final(self)@ == old(self)@.tablet_control(desk@, on),
    {
        proof {
            reveal(RouterView::tablet_control);
        }
        if on {
            if !desk.tablet_connected {
                return ;
            }
            self.unfocus();
            self.tablet_active = true;
            self.emit(Action::Tablet(TabletOp::Wake));
            self.emit(Action::EnterForwarding);
            self.emit(Action::Focus(Some("tablet".to_owned())));
        } else if self.tablet_active {
            self.tablet_active = false;
            self.emit(Action::ExitForwarding);
            self.warp(middle(self.bounds));
            self.emit(Action::Focus(None));
        }
    }

    /// If `edge` is the tablet's edge, hands control to the tablet. Returns whether
    /// it is.
    pub(crate) fn try_tablet_cross(&mut self, desk: &Desk, edge: Edge, ratio: F32) -> (r: bool)
        ensures
            r == (old(self)@.tablet_edge == Some(edge)),
            final(self)@ == if r {
                old(self)@.tablet_crossed(desk@, edge, ratio)
            } else {
                old(self)@
            },
    {
        proof {
            reveal(RouterView::tablet_crossed);
        }
        if self.tablet_edge != Some(edge) {
            return false;
        }
        if !desk.tablet_connected {
            // Not ready: connect in the background and bounce the cursor back so the
            // next crossing works.
            self.emit(Action::Tablet(TabletOp::Connect));
            self.return_local_at(edge, ratio);
            return true;
        }
        let (tw, th): (i32, i32) = match desk.tablet_size {
            Some(z) => z,
            None => (2560, 1600),
        };
        // Enter a little INSIDE the edge, so pushing back toward it returns cleanly.
        let a: i64 = layout::thirds(tw);
        let b: i64 = layout::thirds(th);
        let least: i64 = if a < b {
            a
        } else {
            b
        };
        let inset: i64 = if 160 < least {
            160
        } else {
            least
        };
        let (vx, vy): (i64, i64) = match edge {
            Edge::Right => (inset, ratio.along(th) as i64),
            Edge::Left => (tw as i64 - inset, ratio.along(th) as i64),
            Edge::Top => (ratio.along(tw) as i64, th as i64 - inset),
            Edge::Bottom => (ratio.along(tw) as i64, inset),
        };
        self.tablet_size = (tw, th);
        self.tablet_entry_ratio = ratio;
        self.tablet_vpos = (to_coord(vx), to_coord(vy));
        self.set_tablet_control(desk, true);
        true
    }

    /// Tracks the tablet's virtual cursor and, when it walks back to the entry edge,
    /// returns control to the same edge of this desktop, at the entry position.
    pub(crate) fn tablet_track(&mut self, desk: &Desk, dx: i32, dy: i32)
        ensures
            final(self)@ == old(self)@.tablet_moved(desk@, dx, dy),
    {
        proof {
            reveal(RouterView::tablet_moved);
        }
        let (tw, th): (i32, i32) = self.tablet_size;
        let vx: i32 = hold(self.tablet_vpos.0 as i64 + dx as i64, 0, tw as i64) as i32;
        let vy: i32 = hold(self.tablet_vpos.1 as i64 + dy as i64, 0, th as i64) as i32;
        self.tablet_vpos = (vx, vy);
        self.emit(Action::Tablet(TabletOp::Move { dx, dy }));
        if let Some(te) = self.tablet_edge {
            let back: bool = match te {
                Edge::Right => vx <= 0,
                Edge::Left => vx >= tw,
                Edge::Top => vy >= th,
                Edge::Bottom => vy <= 0,
            };
            if back {
                let p: (i32, i32) = self.spot_on(
                    self.bounds,
                    te,
                    self.tablet_entry_ratio,
                    EDGE_INSET,
                );
                self.set_tablet_control(desk, false);
                self.warp(p);
                self.emit(Action::Cooldown);
            }
        }
    }

    /// Resolves an edge crossing toward the shared peer by GEOMETRY, not the
    /// machine-level link. A portal exists only where a peer monitor physically sits
    /// just beyond the edge the cursor left through; anywhere else is a WALL, even
    /// though a stale link claims otherwise. Returns true if it handled the crossing
    /// (crossed or walled); false when this edge targets a different peer, or there
    /// is no panel to go by.
    pub(crate) fn try_shared_edge_cross(&mut self, desk: &Desk, edge: Edge, ratio: F32) -> (r: bool)
        ensures
            r == (old(self)@.panel_crossing(desk@, edge, ratio) is Some),
            final(self)@ == match old(self)@.panel_crossing(desk@, edge, ratio) {
                Some(s) => s,
                None => old(self)@,
            },
    {
        proof {
            reveal(RouterView::panel_crossing);
        }
        let peer: String = match self.shared_peer_name() {
            Some(p) => p,
            None => {
                return false;
            },
        };
        let (local, prect): (Rect, Rect) = match (self.shared.local_rect, self.shared.peer_rect) {
            (Some(l), Some(p)) => (l, p),
            _ => {
                return false;
            },
        };
        if !has_text(&desk.sessions, peer.as_str()) {
            return false;
        }
        let b: Rect = self.bounds;
        let (ex, ey): (i32, i32) = self.spot_on(b, edge, ratio, 0);
        let screens: Vec<Rect> = self.screens(peer.as_str());
        if let Some(m) = find_beyond(screens.as_slice(), local, prect, b, edge, ex, ey) {
            let (x, y): (i32, i32) = land_on(m, local, prect, b, edge, ex, ey);
            self.emit(Action::Flash(edge));
            self.focus = Some(peer);
            self.send_to_focus(Msg::EnterAt { x, y });
            return true;
        }
        match self.layout_target(self.name.as_str(), edge) {
            Some((t, _)) => {
                if !same_text(t.as_str(), peer.as_str()) {
                    return false;
                }
            },
            None => {},
        }
        self.return_local_at(edge, ratio);
        true
    }

    /// The counterpart of `try_shared_edge_cross`: the focused peer's cursor left
    /// through an edge of ITS copy of the shared panel. A host monitor that sits
    /// beyond the panel on that side brings control home onto it at the aligned
    /// offset; where nothing is there, it's a WALL, and the cursor is held on the
    /// peer's panel. Returns true if it handled the crossing.
    pub(crate) fn try_shared_edge_return(&mut self, desk: &Desk, peer: &str, edge: Edge, ratio: F32) -> (r:
        bool)
        ensures
            r == (old(self)@.panel_return(desk@, peer@, edge, ratio) is Some),
            final(self)@ == match old(self)@.panel_return(desk@, peer@, edge, ratio) {
                Some(s) => s,
                None => old(self)@,
            },
    {
        proof {
            reveal(RouterView::panel_return);
        }
        let (local, prect): (Rect, Rect) = match (self.shared.local_rect, self.shared.peer_rect) {
            (Some(l), Some(p)) => (l, p),
            _ => {
                return false;
            },
        };
        let sharing: Option<String> = self.shared_peer_name();
        if !is_text(&sharing, peer) {
            return false;
        }
        let screens: Vec<Rect> = self.screens(peer);
        let pb: Rect = match union_rect(screens.as_slice()) {
            Some(r) => r,
            None => {
                return false;
            },
        };
        let (ex, ey): (i64, i64) = place_on_edge(pb, edge, ratio, 0);
        if !is_on_panel_edge(prect, edge, ex, ey) {
            return false;
        }
        // Offset along the panel edge, preserved across the crossing.
        let f: F32 = match edge {
            Edge::Left | Edge::Right => fraction(ey - prect.y as i64, prect.h),
            Edge::Top | Edge::Bottom => fraction(ex - prect.x as i64, prect.w),
        };
        match find_adjoining(desk.monitors.as_slice(), local, edge) {
            Some(m) => {
                let p: (i32, i32) = come_home(m, edge, f);
                self.go_home();
                self.warp(p);
                self.emit(Action::Flash(edge.opposite()));
            },
            None => {
                let (x, y): (i32, i32) = self.spot_on(prect, edge, f, EDGE_INSET);
                self.send_to_focus(Msg::EnterAt { x, y });
            },
        }
        true
    }

    /// Is the left button held?
    pub fn left_held(&self) -> (r: bool)
        ensures
            r == self@.down_buttons.contains(MouseButton::Left),
    {
        for i in 0..self.down_buttons.len()
            invariant
                forall|j: int| 0 <= j < i ==> self.down_buttons@[j] != MouseButton::Left,
        {
            if self.down_buttons[i] == MouseButton::Left {
                return true;
            }
        }
        false
    }

    /// The cursor follows the link behind an edge.
    pub(crate) fn follow_link(
        &mut self,
        desk: &Desk,
        edge: Edge,
        ratio: F32,
        drag: Option<String>,
    )
        ensures
            final(self)@ == old(self)@.linked(
                desk@,
                edge,
                ratio,
                crate::text::opt_text(drag),
            ),
    {
        proof {
            reveal(RouterView::linked);
        }
        if let Some((peer, entry)) = self.layout_target(self.name.as_str(), edge) {
            if has_text(&desk.sessions, peer.as_str()) {
                self.emit(Action::Flash(edge));
                self.focus = Some(peer);
                self.pending_drop_url = drag;
                self.send_to_focus(Msg::Enter { edge: entry, ratio });
                return ;
            }
        }
        // The peer vanished between the portal check and now.
        self.return_local_at(edge, ratio);
    }

    /// The local cursor pushed through an armed edge.
    pub(crate) fn on_edge_hit(&mut self, desk: &Desk, edge: Edge, ratio: F32)
        ensures
            final(self)@ == old(self)@.edge_hit(desk@, edge, ratio),
    {
        proof {
            reveal(RouterView::edge_hit);
        }
        if self.try_tablet_cross(desk, edge, ratio) {
            return ;
        }
        // A link that is being dragged is opened on the peer when it is dropped.
        let drag: Option<String> = if self.left_held() {
            copy_opt(&desk.drag_url)
        } else {
            None
        };
        if self.try_shared_edge_cross(desk, edge, ratio) {
            self.pending_drop_url = drag;
            return ;
        }
        self.follow_link(desk, edge, ratio, drag);
    }

    /// A captured input event goes to the focused peer.
    pub(crate) fn forward(&mut self, ev: InputEvent)
        ensures
            final(self)@ == old(self)@.forwarded(ev),
    {
        proof {
            reveal(RouterView::forwarded);
        }
        match ev {
            InputEvent::Key { key, pressed } => {
                let mut keys: Vec<u16> = Vec::new();
                std::mem::swap(&mut self.down_keys, &mut keys);
                self.down_keys = press_key(keys, key, pressed);
            },
            InputEvent::MouseButton { button, pressed } => {
                let mut buttons: Vec<MouseButton> = Vec::new();
                std::mem::swap(&mut self.down_buttons, &mut buttons);
                self.down_buttons = press_button(buttons, button, pressed);
            },
            _ => {},
        }
        assert(self@ =~= old(self)@.holding(ev));
        self.send_to_focus(Msg::Input(ev));
        // A link dragged across is "dropped" when the left button comes up.
        if let InputEvent::MouseButton { button: MouseButton::Left, pressed: false } = ev {
            let mut url: Option<String> = None;
            std::mem::swap(&mut self.pending_drop_url, &mut url);
            if let Some(u) = url {
                self.send_to_focus(Msg::OpenUrl { url: u });
            }
        }
    }

    /// A captured input event goes to the tablet.
    pub(crate) fn feed_tablet(&mut self, desk: &Desk, ev: InputEvent)
        ensures
            final(self)@ == old(self)@.tablet_fed(desk@, ev),
    {
        proof {
            reveal(RouterView::tablet_fed);
        }
        match ev {
            InputEvent::MouseMove { dx, dy } => {
                self.tablet_track(desk, dx, dy);
            },
            InputEvent::MouseButton { button, pressed } => {
                self.emit(
                    Action::Tablet(TabletOp::Button { index: button_index(button), pressed }),
                );
            },
            InputEvent::Wheel { dx, dy } => {
                self.emit(Action::Tablet(TabletOp::Scroll { dx, dy }));
            },
            InputEvent::Key { key, pressed } => {
                self.emit(Action::Tablet(TabletOp::Key { key, pressed }));
            },
        }
    }

    /// The local cursor moved onto the shared panel, which shows the peer.
    pub(crate) fn on_shared_enter(&mut self, desk: &Desk, fx: F32, fy: F32)
        ensures
            final(self)@ == old(self)@.shared_entered(desk@, fx, fy),
    {
        proof {
            reveal(RouterView::shared_entered);
        }
        if let (Some(peer), Some(pr)) = (self.shared_peer_name(), self.shared.peer_rect) {
            if has_text(&desk.sessions, peer.as_str()) {
                // The landing is kept a few px off the panel edges, which often
                // coincide with the peer's own portal edges.
                let inset: i64 = EDGE_INSET as i64;
                let x: i32 = to_coord(
                    hold(
                        pr.x as i64 + fx.along(pr.w) as i64,
                        pr.x as i64 + inset,
                        pr.x as i64 + pr.w as i64 - 1 - inset,
                    ),
                );
                let y: i32 = to_coord(
                    hold(
                        pr.y as i64 + fy.along(pr.h) as i64,
                        pr.y as i64 + inset,
                        pr.y as i64 + pr.h as i64 - 1 - inset,
                    ),
                );
                self.emit(Action::EnterForwarding);
                self.focus = Some(peer);
                self.send_to_focus(Msg::EnterAt { x, y });
            }
        }
    }

    /// Something the capture side reports.
    pub fn on_captured(&mut self, desk: &Desk, ev: Captured)
        ensures
            final(self)@ == old(self)@.captured(desk@, ev),
    {
        match ev {
            Captured::Input(input) => {
                if self.tablet_active {
                    self.feed_tablet(desk, input);
                } else {
                    self.forward(input);
                }
            },
            Captured::EdgeHit { edge, ratio } => {
                self.on_edge_hit(desk, edge, ratio);
            },
            Captured::Panic => {
                if self.tablet_active {
                    self.set_tablet_control(desk, false);
                } else {
                    let home: (i32, i32) = middle(self.bounds);
                    self.unfocus();
                    self.warp(home);
                }
            },
            Captured::SharedHotkey => {
                self.request_shared_owner("toggle");
            },
            Captured::TabletHotkey => {
                if self.tablet_active {
                    self.set_tablet_control(desk, false);
                } else if desk.tablet_connected {
                    self.set_tablet_control(desk, true);
                } else {
                    self.emit(Action::Tablet(TabletOp::Connect));
                    self.emit(Action::LinkError("tablet connecting — try again".to_owned()));
                }
            },
            Captured::SharedEnter { fx, fy } => {
                self.on_shared_enter(desk, fx, fy);
            },
        }
    }
}

} // verus!
