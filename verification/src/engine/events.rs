//! What sessions report, what the editor commands, and how the router starts.
use vstd::prelude::*;

use crate::binary32::F32;
use crate::config::{copy_rects, Config, Mode, SharedMonitor};
use crate::engine::action::{Action, Offline};
use crate::engine::host::has_rect;
use crate::engine::model::{
    self, mod_hid, parse_edge, Desk, KnownPeer, PeerScreens, Router, RouterView, SessionEvent,
    UiCmd,
};
use crate::engine::panel::to_coord;
use crate::layout::{self, Edge, Layout, Link};
use crate::proto::{Msg, Rect};
use crate::text::{self, copy_opt, has_text, is_text, same_text};

verus! {

/// The only monitor of the panel's size.
fn find_only_of_size(screens: &Vec<Rect>, p: Rect) -> (r: Option<Rect>)
    ensures
        r == model::only_of_size(screens@, p),
{
    let ghost fits = model::of_size(p);
    let mut found: Vec<Rect> = Vec::new();
    assert(screens@.take(0).filter(fits) =~= seq![]) by {
        reveal(Seq::filter);
    }
    for i in 0..screens.len()
        invariant
            fits == model::of_size(p),
            found@ == screens@.take(i as int).filter(fits),
    {
        proof {
            let t = screens@.take(i + 1);
            assert(t.drop_last() =~= screens@.take(i as int));
            assert(t.last() == screens@[i as int]);
            reveal(Seq::filter);
        }
        if screens[i].w == p.w && screens[i].h == p.h {
            found.push(screens[i]);
        }
    }
    assert(screens@.take(screens@.len() as int) =~= screens@);
    if found.len() == 1 {
        Some(found[0])
    } else {
        None
    }
}

impl Router {
    /// This desk's rect for the panel, from the current geometry.
    pub(crate) fn find_local_panel(&self, desk: &Desk) -> (r: Option<Rect>)
        ensures
            r == self@.local_panel(desk@),
    {
        proof {
            reveal(RouterView::local_panel);
        }
        match (self.shared.local_rect, self.shared.local_index) {
            (Some(lr), Some(i)) => {
                let k: usize = if self.macos && i > 0 {
                    (i - 1) as usize
                } else {
                    i as usize
                };
                if !has_rect(&desk.monitors, lr) && desk.monitors.len() >= 2 && k
                    < desk.monitors.len() && desk.monitors[k].w == lr.w && desk.monitors[k].h
                    == lr.h {
                    Some(desk.monitors[k])
                } else {
                    Some(lr)
                }
            },
            _ => self.shared.local_rect,
        }
    }

    /// The peer's rect for the panel, from the geometry that it reported.
    pub(crate) fn find_peer_panel(&self) -> (r: Option<Rect>)
        ensures
            r == self@.peer_panel(),
    {
        proof {
            reveal(RouterView::peer_panel);
        }
        match (self.shared.peer_rect, self.shared_peer_name()) {
            (Some(pr), Some(peer)) => {
                let screens: Vec<Rect> = self.screens(peer.as_str());
                if screens.len() == 0 || has_rect(&screens, pr) {
                    return Some(pr);
                }
                if let Some(i) = self.shared.peer_index {
                    let k: usize = i as usize;
                    if k < screens.len() && screens[k].w == pr.w && screens[k].h == pr.h {
                        return Some(screens[k]);
                    }
                }
                match find_only_of_size(&screens, pr) {
                    Some(m) => Some(m),
                    None => Some(pr),
                }
            },
            _ => self.shared.peer_rect,
        }
    }

    /// Re-derives the shared-panel rects from live geometry: monitors are
    /// re-anchored when the primary display or the arrangement changes. Remembers
    /// any change and re-applies the block so both sides skip the panel's REAL
    /// location.
    pub(crate) fn refresh_shared_rects(&mut self, desk: &Desk)
        ensures
            final(self)@ == old(self)@.panel_refreshed(desk@),
    {
        proof {
            reveal(RouterView::panel_refreshed);
        }
        if !self.shared.configured() {
            return ;
        }
        let local: Option<Rect> = self.find_local_panel(desk);
        let peer: Option<Rect> = self.find_peer_panel();
        if local == self.shared.local_rect && peer == self.shared.peer_rect {
            return ;
        }
        self.shared.local_rect = local;
        self.shared.peer_rect = peer;
        self.emit(Action::RememberRects { local, peer });
        let owner: String = self.shared_owner.clone();
        self.set_shared_owner(owner.as_str());
    }

    /// A peer connected: its Hello may carry a different geometry, and its block has
    /// to match the current owner.
    fn on_connected(&mut self, desk: &Desk)
        ensures
            final(self)@ == old(self)@.connected(desk@),
    {
        proof {
            reveal(RouterView::connected);
        }
        self.refresh_shared_rects(desk);
        self.refresh_portals(desk);
        if self.arbiter && self.shared.configured() {
            let owner: String = self.shared_owner.clone();
            self.set_shared_owner(owner.as_str());
        }
        self.broadcast_state();
    }

    /// A peer's session ended. Never leave the user with no cursor: pull input home.
    fn on_disconnected(&mut self, desk: &Desk, name: &str)
        ensures
            final(self)@ == old(self)@.disconnected(desk@, name@),
    {
        proof {
            reveal(RouterView::disconnected);
        }
        if self.driven_by(name) {
            self.leave_driven(desk);
        }
        if is_text(&self.focus, name) {
            self.focus = None;
            self.down_keys = Vec::new();
            self.down_buttons = Vec::new();
            self.emit(Action::ExitForwarding);
        }
        self.refresh_portals(desk);
    }

    /// The focused peer's cursor moved onto the shared panel.
    fn on_shared_cross(&mut self, name: &str, fx: F32, fy: F32)
        ensures
            final(self)@ == old(self)@.shared_crossed(name@, fx, fy),
    {
        proof {
            reveal(RouterView::shared_crossed);
        }
        if !is_text(&self.focus, name) {
            return ;
        }
        if let Some(r) = self.shared.local_rect {
            let x: i32 = to_coord(r.x as i64 + fx.along(r.w) as i64);
            let y: i32 = to_coord(r.y as i64 + fy.along(r.h) as i64);
            self.go_home();
            self.warp((x, y));
        }
    }

    /// The focused peer's cursor pushed through one of its edges.
    fn on_cursor_left(&mut self, desk: &Desk, name: &str, edge: Edge, ratio: F32)
        ensures
            final(self)@ == old(self)@.cursor_left(desk@, name@, edge, ratio),
    {
        proof {
            reveal(RouterView::cursor_left);
        }
        // A stale report from a peer that lost focus already is dropped.
        if !is_text(&self.focus, name) {
            return ;
        }
        if self.try_shared_edge_return(desk, name, edge, ratio) {
            return ;
        }
        match self.layout_target(name, edge) {
            Some((next, entry)) => {
                if same_text(next.as_str(), self.name.as_str()) {
                    self.unfocus();
                    self.return_local_at(entry, ratio);
                } else if has_text(&desk.sessions, next.as_str()) {
                    self.unfocus();
                    self.focus = Some(next);
                    self.send_to_focus(Msg::Enter { edge: entry, ratio });
                } else {
                    self.go_home();
                }
            },
            None => {
                self.go_home();
            },
        }
    }

    fn on_layout_changed(&mut self, desk: &Desk)
        ensures
            final(self)@ == old(self)@.layout_changed(desk@),
    {
        proof {
            reveal(RouterView::layout_changed);
        }
        self.refresh_shared_rects(desk);
        self.refresh_portals(desk);
        self.broadcast_state();
    }

    /// Something a session reports.
    pub fn on_session_event(&mut self, desk: &Desk, ev: SessionEvent)
        ensures
            match ev {
                SessionEvent::Connected { name } => final(self)@ == old(self)@.connected(desk@),
                SessionEvent::Disconnected { name } => final(self)@ == old(self)@.disconnected(
                    desk@,
                    name@,
                ),
                SessionEvent::SharedRequest { name, owner } => final(self)@
                    == old(self)@.switched_to(owner@),
                SessionEvent::Inbound { name, msg } => final(self)@ == old(self)@.inbound(
                    desk@,
                    name@,
                    msg@,
                ),
                SessionEvent::LayoutChanged => final(self)@ == old(self)@.layout_changed(desk@),
                SessionEvent::SharedCross { name, fx, fy } => final(self)@
                    == old(self)@.shared_crossed(name@, fx, fy),
                SessionEvent::CursorLeft { name, edge, ratio } => final(self)@
                    == old(self)@.cursor_left(desk@, name@, edge, ratio),
            },
    {
        match ev {
            SessionEvent::Connected { name } => {
                self.on_connected(desk);
            },
            SessionEvent::Disconnected { name } => {
                self.on_disconnected(desk, name.as_str());
            },
            SessionEvent::SharedRequest { name, owner } => {
                self.set_shared_owner(owner.as_str());
            },
            SessionEvent::Inbound { name, msg } => {
                self.on_inbound(desk, name.as_str(), msg);
            },
            SessionEvent::LayoutChanged => {
                self.on_layout_changed(desk);
            },
            SessionEvent::SharedCross { name, fx, fy } => {
                self.on_shared_cross(name.as_str(), fx, fy);
            },
            SessionEvent::CursorLeft { name, edge, ratio } => {
                self.on_cursor_left(desk, name.as_str(), edge, ratio);
            },
        }
    }

    /// The editor's arrangement for `machine`: this desk's is adopted; a peer's is
    /// pushed to it.
    pub fn arrange(&mut self, machine: &str, monitors: Vec<Rect>)
        ensures
            final(self)@ == old(self)@.arranged(machine@, monitors@),
    {
        if same_text(machine, self.name.as_str()) {
            self.adopt_arrangement(monitors);
        } else {
            self.emit(
                Action::Send {
                    peer: machine.to_owned(),
                    msg: Msg::Arrange { monitors },
                    offline: Offline::LinkError,
                },
            );
        }
    }

    /// A command of the editor or the command line.
    pub fn on_command(&mut self, desk: &Desk, cmd: UiCmd)
        ensures
            match cmd {
                UiCmd::SetSharedOwner(owner) => final(self)@ == old(self)@.panel_requested(owner@),
                UiCmd::TabletControl(on) => final(self)@ == old(self)@.tablet_control(desk@, on),
                UiCmd::Arrange { machine, monitors } => final(self)@ == old(self)@.arranged(
                    machine@,
                    monitors@,
                ),
                UiCmd::UseAddr { peer, addr } => final(self)@ == old(self)@.send(
                    peer@,
                    crate::proto::MsgView::UseAddr { addr: addr@ },
                ),
            },
    {
        match cmd {
            UiCmd::SetSharedOwner(owner) => {
                self.request_shared_owner(owner.as_str());
            },
            UiCmd::TabletControl(on) => {
                self.set_tablet_control(desk, on);
            },
            UiCmd::Arrange { machine, monitors } => {
                self.arrange(machine.as_str(), monitors);
            },
            UiCmd::UseAddr { peer, addr } => {
                self.send(peer.as_str(), Msg::UseAddr { addr });
            },
        }
    }

    /// Which machine is driven right now.
    pub fn focused(&self) -> (r: Option<String>)
        ensures
            text::opt_text(r) == self@.focus,
    {
        copy_opt(&self.focus)
    }

    /// Tells the editor when the focus is another than `before`.
    pub fn tell_focus(&mut self, before: &Option<String>)
        ensures
            final(self)@ == old(self)@.with_focus_told(text::opt_text(*before)),
    {
        let same: bool = match (&self.focus, before) {
            (Some(a), Some(b)) => same_text(a.as_str(), b.as_str()),
            (None, None) => true,
            _ => false,
        };
        if !same {
            let f: Option<String> = copy_opt(&self.focus);
            self.emit(Action::Focus(f));
        }
    }

    /// Takes note of the monitors that a peer reported. An empty report is ignored.
    pub fn set_peer_screens(&mut self, peer: &str, monitors: &[Rect])
        ensures
            final(self)@ == (RouterView {
                peer_screens: if monitors@.len() == 0 {
                    old(self)@.peer_screens
                } else {
                    model::with_report(old(self)@.peer_screens, peer@, monitors@, 0)
                },
                ..old(self)@
            }),
    {
        if monitors.len() == 0 {
            return ;
        }
        let ghost v = old(self)@.peer_screens;
        let ghost whole = model::with_report(v, peer@, monitors@, 0);
        let mut i: usize = 0;
        while i < self.peer_screens.len()
            invariant
                i <= self.peer_screens@.len(),
                self@ == old(self)@,
                v == self@.peer_screens,
                whole == model::with_report(v, peer@, monitors@, 0),
                whole == model::with_report(v, peer@, monitors@, i as int),
                monitors@.len() > 0,
            decreases self.peer_screens@.len() - i,
        {
            assert(v[i as int] == self.peer_screens@[i as int]@);
            if same_text(self.peer_screens[i].peer.as_str(), peer) {
                let entry: PeerScreens = PeerScreens {
                    peer: peer.to_owned(),
                    screens: copy_rects(monitors),
                };
                self.peer_screens.set(i, entry);
                assert(self@.peer_screens =~= v.update(i as int, entry@));
                return ;
            }
            i = i + 1;
        }
        let entry: PeerScreens = PeerScreens {
            peer: peer.to_owned(),
            screens: copy_rects(monitors),
        };
        self.peer_screens.push(entry);
        assert(self@.peer_screens =~= v.push(entry@));
    }

    /// Takes over the settings of a configuration that changed on disk, so that edits
    /// apply without a restart. Returns whether the links changed.
    pub fn reload(&mut self, cfg: &Config) -> (r: bool)
        ensures
            r == (old(self)@.links != cfg@.links),
            final(self)@ == old(self)@.reloaded(cfg@),
    {
        self.mac_shortcuts = cfg.mac_shortcuts;
        self.win_mods = modifier_settings(cfg);
        self.tablet_edge = tablet_setting(cfg);
        let changed: bool = !same_layout(&self.layout, &cfg.layout);
        if changed {
            self.layout = copy_layout(&cfg.layout);
        }
        self.emit(Action::EdgeDwell(cfg.edge_dwell_ms));
        if !same_shared(&self.shared, &cfg.shared_monitor) {
            self.shared = cfg.shared_monitor.copy();
            let configured: bool = cfg.shared_monitor.configured();
            let peer: Option<String> = cfg.panel_peer();
            self.emit(Action::SharedHotkey(configured && cfg.shared_monitor.hotkey));
            self.emit(Action::SharedState { configured, peer, owner: None });
        }
        changed
    }

    /// The router of a machine with this configuration, as it starts. Ownership of
    /// the panel survives restarts: the physical panel doesn't change inputs just
    /// because this program did.
    pub fn new(cfg: &Config, bounds: Rect, macos: bool) -> (r: Router)
        ensures
            r@ == RouterView::started(cfg@, bounds, macos),
    {
        let mut peers: Vec<KnownPeer> = Vec::new();
        let mut screens: Vec<PeerScreens> = Vec::new();
        let ghost kp = model::known_peers(cfg@);
        let ghost ks = model::known_screens(cfg@);
        for i in 0..cfg.peers.len()
            invariant
                kp == model::known_peers(cfg@),
                ks == model::known_screens(cfg@),
                peers@.map_values(|p: KnownPeer| p@) =~= kp.take(i as int),
                screens@.map_values(|p: PeerScreens| p@) =~= ks.take(i as int),
        {
            let p: KnownPeer = KnownPeer {
                name: cfg.peers[i].name.clone(),
                os: copy_opt(&cfg.peers[i].os),
            };
            let z: PeerScreens = PeerScreens {
                peer: cfg.peers[i].name.clone(),
                screens: copy_rects(cfg.peers[i].screens.as_slice()),
            };
            proof {
                assert(cfg@.peers[i as int] == cfg.peers@[i as int]@);
                assert(p@ == kp[i as int]);
                assert(z@ == ks[i as int]);
                assert(peers@.push(p).map_values(|p: KnownPeer| p@) =~= peers@.map_values(
                    |p: KnownPeer| p@,
                ).push(p@));
                assert(screens@.push(z).map_values(|p: PeerScreens| p@) =~= screens@.map_values(
                    |p: PeerScreens| p@,
                ).push(z@));
            }
            peers.push(p);
            screens.push(z);
        }
        assert(kp.take(cfg.peers@.len() as int) =~= kp);
        assert(ks.take(cfg.peers@.len() as int) =~= ks);
        let mut router: Router = Router {
            name: cfg.name.clone(),
            peers,
            arbiter: cfg.mode == Mode::Host,
            macos,
            bounds,
            layout: copy_layout(&cfg.layout),
            shared: cfg.shared_monitor.copy(),
            peer_screens: screens,
            shared_owner: String::new(),
            focus: None,
            driven: None,
            injector: false,
            my_edges: Vec::new(),
            portals: Vec::new(),
            blocked: None,
            tablet_edge: tablet_setting(cfg),
            mac_shortcuts: cfg.mac_shortcuts,
            win_mods: modifier_settings(cfg),
            down_keys: Vec::new(),
            down_buttons: Vec::new(),
            pending_drop_url: None,
            tablet_active: false,
            tablet_vpos: (0, 0),
            tablet_size: (2560, 1600),
            tablet_entry_ratio: F32 { bits: 0x3f00_0000 },
            out: Vec::new(),
        };
        assert(router@.out =~= seq![]);
        let peer: Option<String> = router.shared_peer_name();
        let owner: String = match &cfg.shared_monitor.last_owner {
            Some(o) => if same_text(o.as_str(), cfg.name.as_str()) || is_text(&peer, o.as_str()) {
                o.clone()
            } else {
                cfg.name.clone()
            },
            None => cfg.name.clone(),
        };
        let configured: bool = cfg.shared_monitor.configured();
        let away: bool = !same_text(owner.as_str(), cfg.name.as_str());
        router.shared_owner = owner.clone();
        if configured {
            router.emit(Action::SharedHotkey(cfg.shared_monitor.hotkey));
        }
        router.emit(Action::EdgeDwell(cfg.edge_dwell_ms));
        router.emit(Action::SharedState { configured, peer, owner: Some(owner) });
        if away {
            router.blocked = cfg.shared_monitor.local_rect;
            router.emit(Action::Blocked(cfg.shared_monitor.local_rect));
        }
        router
    }
}

/// What the three left modifiers send, by the settings.
pub(crate) fn modifier_settings(cfg: &Config) -> (r: (u16, u16, u16))
    ensures
        r == model::modifiers_of(cfg@),
{
    (
        mod_hid(cfg.win_modifiers.ctrl.as_str(), 0xE0),
        mod_hid(cfg.win_modifiers.opt.as_str(), 0xE2),
        mod_hid(cfg.win_modifiers.cmd.as_str(), 0xE3),
    )
}

/// The edge that leads to the tablet, by the settings.
pub(crate) fn tablet_setting(cfg: &Config) -> (r: Option<Edge>)
    ensures
        r == model::edge_setting(cfg@.tablet_edge),
{
    match &cfg.tablet_edge {
        Some(t) => parse_edge(t.as_str()),
        None => None,
    }
}

/// A copy of a layout.
pub fn copy_layout(l: &Layout) -> (r: Layout)
    ensures
        r@ == l@,
{
    let mut links: Vec<Link> = Vec::new();
    for i in 0..l.links.len()
        invariant
            links@.map_values(|k: Link| k@) =~= l@.take(i as int),
    {
        let k: Link = Link {
            from: l.links[i].from.clone(),
            edge: l.links[i].edge,
            to: l.links[i].to.clone(),
        };
        proof {
            assert(k@ == l@[i as int]);
            assert(links@.push(k).map_values(|k: Link| k@) =~= links@.map_values(
                |k: Link| k@,
            ).push(k@));
        }
        links.push(k);
    }
    assert(l@.take(l.links@.len() as int) =~= l@);
    Layout { links }
}

/// Do two layouts have the same links?
pub fn same_layout(a: &Layout, b: &Layout) -> (r: bool)
    ensures
        r == (a@ == b@),
{
    if a.links.len() != b.links.len() {
        assert(a@.len() != b@.len());
        return false;
    }
    for i in 0..a.links.len()
        invariant
            a.links@.len() == b.links@.len(),
            forall|j: int| 0 <= j < i ==> a@[j] == b@[j],
    {
        let x: &Link = &a.links[i];
        let y: &Link = &b.links[i];
        assert(a@[i as int] == x@ && b@[i as int] == y@);
        if x.edge != y.edge || !same_text(x.from.as_str(), y.from.as_str()) || !same_text(
            x.to.as_str(),
            y.to.as_str(),
        ) {
            return false;
        }
    }
    assert(a@ =~= b@);
    true
}

/// Are two optional texts the same?
fn same_opt(a: &Option<String>, b: &Option<String>) -> (r: bool)
    ensures
        r == (text::opt_text(*a) == text::opt_text(*b)),
{
    match (a, b) {
        (Some(x), Some(y)) => same_text(x.as_str(), y.as_str()),
        (None, None) => true,
        _ => false,
    }
}

/// Are two shared-monitor settings the same?
fn same_shared(a: &SharedMonitor, b: &SharedMonitor) -> (r: bool)
    ensures
        r == (a@ == b@),
{
    a.local_index == b.local_index && a.local_rect == b.local_rect && same_opt(&a.peer, &b.peer)
        && a.peer_index == b.peer_index && a.peer_rect == b.peer_rect && a.hotkey == b.hotkey
        && same_opt(&a.last_owner, &b.last_owner)
}

} // verus!
