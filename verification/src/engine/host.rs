//! The router: owns the decision which machine the keyboard and mouse drive.
use vstd::prelude::*;

use crate::binary32::F32;
use crate::config::copy_rects;
use crate::engine::action::{self, Action, Offline};
use crate::engine::model::{self, Desk, KnownPeer, Router, RouterView};
use crate::engine::panel::{has_adjoining, panel_reaches, panel_spans, to_coord, EDGE_INSET};
use crate::layout::{self, halve, place_on_edge, Edge};
use crate::proto::{InputEvent, MouseButton, Msg, Rect};
use crate::text::{self, copy_opt, has_text, is_text, same_text};

verus! {

/// The OS of the first peer with this name is Windows.
pub(crate) fn runs_windows(peers: &Vec<KnownPeer>, name: &str) -> (r: bool)
    ensures
        r == (model::os_of(peers@.map_values(|p: KnownPeer| p@), name@, 0) == Some("windows"@)),
{
    let ghost v = peers@.map_values(|p: KnownPeer| p@);
    let mut i: usize = 0;
    while i < peers.len()
        invariant
            i <= peers@.len(),
            v == peers@.map_values(|p: KnownPeer| p@),
            model::os_of(v, name@, 0) == model::os_of(v, name@, i as int),
        decreases peers@.len() - i,
    {
        assert(v[i as int] == peers@[i as int]@);
        if same_text(peers[i].name.as_str(), name) {
            return is_text(&peers[i].os, "windows");
        }
        i = i + 1;
    }
    false
}

/// The middle of a rect.
pub(crate) fn middle(r: Rect) -> (p: (i32, i32))
    ensures
        (p.0 as int, p.1 as int) == model::centre(r),
{
    (to_coord(r.x as i64 + halve(r.w)), to_coord(r.y as i64 + halve(r.h)))
}

/// Does the list hold this rect?
pub(crate) fn has_rect(v: &Vec<Rect>, r: Rect) -> (b: bool)
    ensures
        b == v@.contains(r),
{
    for i in 0..v.len()
        invariant
            forall|j: int| 0 <= j < i ==> v@[j] != r,
    {
        if v[i] == r {
            return true;
        }
    }
    false
}

/// Does the list hold this edge?
pub fn has_edge(v: &Vec<Edge>, e: Edge) -> (b: bool)
    ensures
        b == v@.contains(e),
{
    for i in 0..v.len()
        invariant
            forall|j: int| 0 <= j < i ==> v@[j] != e,
    {
        if v[i] == e {
            return true;
        }
    }
    false
}

/// A copy of a list of edges.
pub(crate) fn copy_edges(v: &Vec<Edge>) -> (r: Vec<Edge>)
    ensures
        r@ == v@,
{
    let mut out: Vec<Edge> = Vec::new();
    for i in 0..v.len()
        invariant
            out@ == v@.take(i as int),
    {
        out.push(v[i]);
    }
    assert(v@.take(v@.len() as int) =~= v@);
    out
}

/// The held keys once `k` is pressed or released.
pub(crate) fn press_key(held: Vec<u16>, k: u16, pressed: bool) -> (r: Vec<u16>)
    ensures
        r@ == model::after_press(held@, k, pressed),
{
    let ghost keep = model::other_than(k);
    let mut rest: Vec<u16> = Vec::new();
    assert(held@.take(0).filter(keep) =~= seq![]) by {
        reveal(Seq::filter);
    }
    for i in 0..held.len()
        invariant
            keep == model::other_than(k),
            rest@ == held@.take(i as int).filter(keep),
            pressed ==> forall|j: int| 0 <= j < i ==> held@[j] != k,
    {
        proof {
            let t = held@.take(i + 1);
            assert(t.drop_last() =~= held@.take(i as int));
            assert(t.last() == held@[i as int]);
            reveal(Seq::filter);
        }
        if held[i] == k {
            if pressed {
                return held;
            }
        } else {
            rest.push(held[i]);
        }
    }
    assert(held@.take(held@.len() as int) =~= held@);
    if pressed {
        let mut more: Vec<u16> = held;
        more.push(k);
        more
    } else {
        rest
    }
}

/// The held buttons once `k` is pressed or released.
pub(crate) fn press_button(held: Vec<MouseButton>, k: MouseButton, pressed: bool) -> (r: Vec<MouseButton>)
    ensures
        r@ == model::after_press(held@, k, pressed),
{
    let ghost keep = model::other_than(k);
    let mut rest: Vec<MouseButton> = Vec::new();
    assert(held@.take(0).filter(keep) =~= seq![]) by {
        reveal(Seq::filter);
    }
    for i in 0..held.len()
        invariant
            keep == model::other_than(k),
            rest@ == held@.take(i as int).filter(keep),
            pressed ==> forall|j: int| 0 <= j < i ==> held@[j] != k,
    {
        proof {
            let t = held@.take(i + 1);
            assert(t.drop_last() =~= held@.take(i as int));
            assert(t.last() == held@[i as int]);
            reveal(Seq::filter);
        }
        if held[i] == k {
            if pressed {
                return held;
            }
        } else {
            rest.push(held[i]);
        }
    }
    assert(held@.take(held@.len() as int) =~= held@);
    if pressed {
        let mut more: Vec<MouseButton> = held;
        more.push(k);
        more
    } else {
        rest
    }
}

/// One more action says one more thing.
proof fn lemma_actions_push(v: Seq<Action>, a: Action)
    ensures
        action::actions_view(v.push(a)) == action::actions_view(v).push(a@),
{
    assert(action::actions_view(v.push(a)) =~= action::actions_view(v).push(a@));
}

impl Router {
    pub(crate) fn emit(&mut self, a: Action)
        ensures
            final(self)@ == old(self)@.emit(a@),
    {
        proof {
            lemma_actions_push(self.out@, a);
        }
        self.out.push(a);
    }

    /// The actions that are to be carried out, in order; the list starts anew.
    pub fn take_actions(&mut self) -> (r: Vec<Action>)
        ensures
            action::actions_view(r@) == old(self)@.out,
            final(self)@ == (RouterView { out: seq![], ..old(self)@ }),
    {
        let mut fresh: Vec<Action> = Vec::new();
        std::mem::swap(&mut self.out, &mut fresh);
        assert(action::actions_view(self.out@) =~= seq![]);
        fresh
    }

    pub(crate) fn send(&mut self, peer: &str, msg: Msg)
        ensures
            final(self)@ == old(self)@.send(peer@, msg@),
    {
        self.emit(Action::Send { peer: peer.to_owned(), msg, offline: Offline::Ignore });
    }

    pub(crate) fn warp(&mut self, p: (i32, i32))
        ensures
            final(self)@ == old(self)@.warp((p.0 as int, p.1 as int)),
    {
        self.emit(Action::Warp { x: p.0, y: p.1 });
    }

    /// The peer that shares the panel: explicit config, else the first paired peer.
    pub fn shared_peer_name(&self) -> (r: Option<String>)
        ensures
            text::opt_text(r) == self@.shared_peer(),
    {
        if self.shared.peer.is_some() {
            return copy_opt(&self.shared.peer);
        }
        if self.peers.len() > 0 {
            assert(self@.peers[0] == self.peers@[0]@);
            Some(self.peers[0].name.clone())
        } else {
            None
        }
    }

    /// The monitors that a peer last reported.
    pub(crate) fn screens(&self, name: &str) -> (r: Vec<Rect>)
        ensures
            r@ == self@.screens(name@),
    {
        let ghost v = self@.peer_screens;
        let mut i: usize = 0;
        while i < self.peer_screens.len()
            invariant
                i <= self.peer_screens@.len(),
                v == self@.peer_screens,
                model::screens_of(v, name@, 0) == model::screens_of(v, name@, i as int),
            decreases self.peer_screens@.len() - i,
        {
            assert(v[i as int] == self.peer_screens@[i as int]@);
            if same_text(self.peer_screens[i].peer.as_str(), name) {
                return copy_rects(self.peer_screens[i].screens.as_slice());
            }
            i = i + 1;
        }
        Vec::new()
    }

    /// Where a machine's cursor ends up through one of its edges.
    pub(crate) fn layout_target(&self, machine: &str, edge: Edge) -> (r: Option<(String, Edge)>)
        ensures
            match r {
                Some((m, e)) => layout::target_of(self@.links, machine@, edge) == Some((m@, e)),
                None => layout::target_of(self@.links, machine@, edge) is None,
            },
    {
        match self.layout.target(machine, edge) {
            Some((m, e)) => Some((m.to_owned(), e)),
            None => None,
        }
    }

    /// Mac-modifier remap for Windows peers: each of the left Ctrl, Alt and Cmd
    /// sends what the settings say. The right modifiers stay untouched: right Alt is
    /// AltGr on Windows layouts.
    pub(crate) fn remap_key(&self, key: u16) -> (r: u16)
        ensures
            r == self@.remapped(key),
    {
        if !self.macos || !self.mac_shortcuts {
            return key;
        }
        let win: bool = match &self.focus {
            Some(f) => runs_windows(&self.peers, f.as_str()),
            None => false,
        };
        if !win {
            return key;
        }
        if key == 0xE0 {
            self.win_mods.0
        } else if key == 0xE2 {
            self.win_mods.1
        } else if key == 0xE3 {
            self.win_mods.2
        } else {
            key
        }
    }

    /// Hands a message to the focused peer. Keys are remapped here, so presses and
    /// releases pass through the same remap and nothing can get stuck.
    pub(crate) fn send_to_focus(&mut self, msg: Msg)
        ensures
            final(self)@ == old(self)@.to_focus(msg@),
    {
        proof {
            reveal(RouterView::to_focus);
        }
        let focus: Option<String> = copy_opt(&self.focus);
        if let Some(name) = focus {
            let out: Msg = match msg {
                Msg::Input(InputEvent::Key { key, pressed }) => Msg::Input(
                    InputEvent::Key { key: self.remap_key(key), pressed },
                ),
                m => m,
            };
            self.send(name.as_str(), out);
        }
    }

    /// Sends key and button releases to the focused peer so nothing stays stuck
    /// down when focus moves away.
    pub(crate) fn release_all(&mut self)
        ensures
            final(self)@ == old(self)@.released(),
    {
        proof {
            reveal(RouterView::released);
        }
        let mut keys: Vec<u16> = Vec::new();
        let mut buttons: Vec<MouseButton> = Vec::new();
        std::mem::swap(&mut self.down_keys, &mut keys);
        std::mem::swap(&mut self.down_buttons, &mut buttons);
        let ghost start = old(self)@;
        let ghost bare = RouterView { down_keys: seq![], down_buttons: seq![], ..start };
        assert(self@ =~= bare);
        let mut i: usize = 0;
        assert(start.out + start.key_releases().take(0) =~= start.out);
        while i < keys.len()
            invariant
                i <= keys@.len(),
                keys@ == start.down_keys,
                bare == (RouterView { down_keys: seq![], down_buttons: seq![], ..start }),
                self@ == (RouterView {
                    out: if start.focus is Some {
                        start.out + start.key_releases().take(i as int)
                    } else {
                        start.out
                    },
                    ..bare
                }),
            decreases keys@.len() - i,
        {
            self.send_to_focus(Msg::Input(InputEvent::Key { key: keys[i], pressed: false }));
            reveal(RouterView::to_focus);
            assert(start.key_releases().take(i + 1) =~= start.key_releases().take(i as int).push(
                start.key_releases()[i as int],
            ));
            if self.focus.is_some() {
                assert(self@.out =~= start.out + start.key_releases().take(i + 1));
            }
            i = i + 1;
        }
        assert(start.key_releases().take(i as int) =~= start.key_releases());
        let ghost mid = start.out + start.key_releases();
        let mut j: usize = 0;
        assert(mid + start.button_releases().take(0) =~= mid);
        while j < buttons.len()
            invariant
                j <= buttons@.len(),
                buttons@ == start.down_buttons,
                mid == start.out + start.key_releases(),
                bare == (RouterView { down_keys: seq![], down_buttons: seq![], ..start }),
                self@ == (RouterView {
                    out: if start.focus is Some {
                        mid + start.button_releases().take(j as int)
                    } else {
                        start.out
                    },
                    ..bare
                }),
            decreases buttons@.len() - j,
        {
            self.send_to_focus(
                Msg::Input(InputEvent::MouseButton { button: buttons[j], pressed: false }),
            );
            reveal(RouterView::to_focus);
            assert(start.button_releases().take(j + 1) =~= start.button_releases().take(
                j as int,
            ).push(start.button_releases()[j as int]));
            if self.focus.is_some() {
                assert(self@.out =~= mid + start.button_releases().take(j + 1));
            }
            j = j + 1;
        }
        assert(start.button_releases().take(j as int) =~= start.button_releases());
    }

    /// Leaves the focused peer.
    pub(crate) fn unfocus(&mut self)
        ensures
            final(self)@ == old(self)@.unfocused(),
    {
        self.release_all();
        self.send_to_focus(Msg::Leave);
        self.focus = None;
    }

    /// Leaves the focused peer and lets local input flow again.
    pub(crate) fn go_home(&mut self)
        ensures
            final(self)@ == old(self)@.came_home(),
    {
        self.unfocus();
        self.emit(Action::ExitForwarding);
    }

    pub(crate) fn spot_on(&self, b: Rect, edge: Edge, ratio: F32, inset: i32) -> (r: (i32, i32))
        ensures
            (r.0 as int, r.1 as int) == self@.coord_on(b, edge, ratio, inset as int),
    {
        let (x, y): (i64, i64) = place_on_edge(b, edge, ratio, inset);
        (to_coord(x), to_coord(y))
    }

    /// Lets local input flow again, with the cursor just inside an edge.
    pub(crate) fn return_local_at(&mut self, entry_edge: Edge, ratio: F32)
        ensures
            final(self)@ == old(self)@.returned_at(entry_edge, ratio),
    {
        let p: (i32, i32) = self.spot_on(self.bounds, entry_edge, ratio, EDGE_INSET);
        self.emit(Action::ExitForwarding);
        self.warp(p);
        self.emit(Action::Flash(entry_edge));
    }

    /// True when `edge` is a dead side of the shared panel. Such an edge leads
    /// nowhere, so it should stay a wall.
    pub(crate) fn shared_edge_is_wall(&self, target_peer: &str, edge: Edge) -> (r: bool)
        ensures
            r == self@.is_wall(target_peer@, edge),
    {
        match (self.shared.local_rect, self.shared.peer_rect, self.shared_peer_name()) {
            (Some(local), Some(prect), Some(peer)) => {
                same_text(peer.as_str(), target_peer) && panel_spans(local, self.bounds, edge)
                    && !has_adjoining(self.screens(target_peer).as_slice(), prect, edge, false)
            },
            _ => false,
        }
    }

    /// Does `edge` lead to a peer monitor just beyond the shared panel?
    pub(crate) fn shared_beyond_edge(&self, desk: &Desk, edge: Edge) -> (r: bool)
        ensures
            r == self@.leads_beyond(desk@, edge),
    {
        match (self.shared_peer_name(), self.shared.local_rect, self.shared.peer_rect) {
            (Some(peer), Some(local), Some(prect)) => {
                has_text(&desk.sessions, peer.as_str()) && has_adjoining(
                    self.screens(peer.as_str()).as_slice(),
                    prect,
                    edge,
                    true,
                ) && panel_reaches(local, self.bounds, edge)
            },
            _ => false,
        }
    }

    pub(crate) fn link_edge(&self, desk: &Desk, edges: &mut Vec<Edge>, edge: Edge)
        ensures
            final(edges)@ == self@.add_link_edge(desk@, old(edges)@, edge),
    {
        if let Some((peer, _)) = self.layout_target(self.name.as_str(), edge) {
            if has_text(&desk.sessions, peer.as_str()) && !self.shared_edge_is_wall(
                peer.as_str(),
                edge,
            ) {
                edges.push(edge);
            }
        }
    }

    pub(crate) fn beyond_edge(&self, desk: &Desk, edges: &mut Vec<Edge>, edge: Edge)
        ensures
            final(edges)@ == self@.add_beyond_edge(desk@, old(edges)@, edge),
    {
        if self.shared_beyond_edge(desk, edge) && !has_edge(edges, edge) {
            edges.push(edge);
        }
    }

    /// Portal edges are only armed when the machine behind them is online, and never
    /// when they're a shared-panel wall. Edges with a peer monitor beyond the panel
    /// are armed without a link, and so is the tablet's edge. While a peer drives
    /// this desk nothing is armed, so a physical nudge can't start a control fight.
    pub(crate) fn refresh_portals(&mut self, desk: &Desk)
        ensures
            final(self)@ == old(self)@.rearmed(desk@),
    {
        proof {
            reveal(RouterView::active_edges);
            reveal(RouterView::rearmed);
        }
        let mut active: Vec<Edge> = Vec::new();
        self.link_edge(desk, &mut active, Edge::Left);
        self.link_edge(desk, &mut active, Edge::Right);
        self.link_edge(desk, &mut active, Edge::Top);
        self.link_edge(desk, &mut active, Edge::Bottom);
        self.beyond_edge(desk, &mut active, Edge::Left);
        self.beyond_edge(desk, &mut active, Edge::Right);
        self.beyond_edge(desk, &mut active, Edge::Top);
        self.beyond_edge(desk, &mut active, Edge::Bottom);
        if let Some(te) = self.tablet_edge {
            if desk.tablet_present && !has_edge(&active, te) {
                active.push(te);
            }
        }
        assert(active@ == self@.active_edges(desk@));
        let armed: Vec<Edge> = if self.driven.is_some() {
            Vec::new()
        } else {
            copy_edges(&active)
        };
        let told: Vec<Edge> = copy_edges(&armed);
        self.my_edges = active;
        self.portals = armed;
        self.emit(Action::Portals(told));
    }

    /// Pushes the editor view to every peer. It has one author: the machine that
    /// arbitrates.
    pub(crate) fn broadcast_state(&mut self)
        ensures
            final(self)@ == old(self)@.broadcast(),
    {
        if self.arbiter {
            let configured: bool = self.shared.configured();
            let owner: String = self.shared_owner.clone();
            self.emit(Action::Broadcast { configured, owner });
        }
    }

    /// The panel shows `owner` now.
    pub(crate) fn give_panel(&mut self, owner: String, peer: String)
        ensures
            final(self)@ == old(self)@.owned_by(owner@, peer@),
    {
        proof {
            reveal(RouterView::owned_by);
        }
        let to_me: bool = same_text(owner.as_str(), self.name.as_str());
        let local: Option<Rect> = self.shared.local_rect;
        let theirs: Option<Rect> = if to_me {
            self.shared.peer_rect
        } else {
            None
        };
        let mine: Option<Rect> = if to_me {
            None
        } else {
            local
        };
        self.shared_owner = owner.clone();
        self.emit(Action::RememberOwner(owner.clone()));
        self.emit(Action::SharedOwner(owner));
        self.emit(Action::ClearSharedError);
        self.broadcast_state();
        self.blocked = mine;
        self.emit(Action::Blocked(mine));
        self.emit(
            Action::Send {
                peer: peer.clone(),
                msg: Msg::SharedBlock { rect: theirs },
                offline: Offline::SharedError,
            },
        );
        if to_me && is_text(&self.focus, peer.as_str()) {
            self.go_home();
            if let Some(lr) = local {
                self.warp(middle(lr));
            }
        }
    }

    /// Flips which machine the shared panel is "showing". `owner` is a machine name
    /// or "toggle". No display is ever touched: the machine that is NOT being shown
    /// blocks its rect so its cursor skips over it.
    pub(crate) fn set_shared_owner(&mut self, owner: &str)
        ensures
            final(self)@ == old(self)@.switched_to(owner@),
    {
        proof {
            reveal(RouterView::switched_to);
        }
        if !self.shared.configured() {
            return ;
        }
        if let Some(peer) = self.shared_peer_name() {
            if same_text(owner, "toggle") {
                if same_text(self.shared_owner.as_str(), self.name.as_str()) {
                    let next: String = peer.clone();
                    self.give_panel(next, peer);
                } else {
                    let next: String = self.name.clone();
                    self.give_panel(next, peer);
                }
            } else if same_text(owner, self.name.as_str()) || same_text(owner, peer.as_str()) {
                self.give_panel(owner.to_owned(), peer);
            }
        }
    }

    /// Switches the shared panel, or asks the machine that arbitrates to. This is
    /// what makes the hotkey, the editor and the command line work identically on
    /// both desks.
    pub fn request_shared_owner(&mut self, owner: &str)
        ensures
            final(self)@ == old(self)@.panel_requested(owner@),
    {
        if self.arbiter {
            self.set_shared_owner(owner);
        } else if self.peers.len() > 0 {
            assert(self@.peers[0] == self.peers@[0]@);
            let peer: String = self.peers[0].name.clone();
            self.send(peer.as_str(), Msg::SharedRequest { owner: owner.to_owned() });
        }
    }

    /// If the cursor is resting on `b`, this desk's copy of the shared panel, moves
    /// it to the middle of a monitor that is actually showing this machine.
    pub(crate) fn park_off_hidden_panel(&mut self, desk: &Desk, b: Rect)
        ensures
            final(self)@ == old(self)@.parked(desk@, b),
    {
        proof {
            reveal(RouterView::parked);
        }
        if !layout::point_in(b, desk.cursor.0, desk.cursor.1) {
            return ;
        }
        let mut i: usize = 0;
        while i < desk.monitors.len()
            invariant
                i <= desk.monitors@.len(),
                self@ == old(self)@,
                b.holds(desk@.cursor.0 as int, desk@.cursor.1 as int),
                model::other_monitor(desk.monitors@, b, 0) == model::other_monitor(desk.monitors@, b, i as int),
            decreases desk.monitors@.len() - i,
        {
            if desk.monitors[i] != b {
                self.warp(middle(desk.monitors[i]));
                reveal(RouterView::parked);
                return ;
            }
            i = i + 1;
        }
    }

    /// Applies a block on this desk's copy of the panel that the PEER decided.
    pub(crate) fn apply_peer_block(&mut self, desk: &Desk, rect: Option<Rect>)
        ensures
            final(self)@ == old(self)@.peer_blocked(desk@, rect),
    {
        proof {
            reveal(RouterView::peer_blocked);
        }
        if let Some(b) = rect {
            if !desk.forwarding && self.driven.is_none() {
                self.park_off_hidden_panel(desk, b);
            }
        }
        self.blocked = rect;
        self.emit(Action::Blocked(rect));
        if let Some(b) = rect {
            self.emit(Action::RescueWindows(b));
        }
    }

    /// Remembers the arrangement that the editor gave this desk and makes the OS
    /// match it.
    pub(crate) fn adopt_arrangement(&mut self, monitors: Vec<Rect>)
        ensures
            final(self)@ == old(self)@.adopted(monitors@),
    {
        let again: Vec<Rect> = copy_rects(monitors.as_slice());
        let some: bool = monitors.len() > 0;
        self.emit(Action::RememberArrangement(monitors));
        if some {
            self.emit(Action::ApplyArrangement(again));
        }
    }
}

} // verus!
