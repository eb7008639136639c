//! The state of the router and how each event changes it.
//!
//! `focus` is `None` while input stays local and names the peer that is being
//! driven otherwise; `driven` is set while a peer drives this desk. The router
//! reads a snapshot of its surroundings ([`Desk`]) with every event and answers
//! with [`Action`]s, which are to be carried out in order.
use vstd::prelude::*;

use crate::binary32::F32;
use crate::config::{self, SharedMonitor};
use crate::engine::action::{self, Action, Injection, Offline, TabletOp};
use crate::engine::panel::{self, EDGE_INSET};
use crate::engine::Captured;
use crate::layout::{self, Edge, Layout};
use crate::proto::{self, InputEvent, MouseButton, Msg, Rect};
use crate::text::{self, same_text};

verus! {

/// What the router sees of its surroundings.
#[derive(Debug)]
pub struct Desk {
    /// The peers with a live session.
    pub sessions: Vec<String>,
    /// This desk's monitors.
    pub monitors: Vec<Rect>,
    /// Where the cursor is.
    pub cursor: (i32, i32),
    /// Local input is being swallowed.
    pub forwarding: bool,
    /// Input can be injected on this desk.
    pub can_inject: bool,
    /// A tablet is connected.
    pub tablet_connected: bool,
    /// A tablet is present, connected or not.
    pub tablet_present: bool,
    /// The tablet's size in pixels, where it is known.
    pub tablet_size: Option<(i32, i32)>,
    /// The URL of the link that is being dragged.
    pub drag_url: Option<String>,
}

/// What a snapshot says.
#[verifier::ext_equal]
pub ghost struct DeskView {
    pub sessions: Seq<Seq<char>>,
    pub monitors: Seq<Rect>,
    pub cursor: (i32, i32),
    pub forwarding: bool,
    pub can_inject: bool,
    pub tablet_connected: bool,
    pub tablet_present: bool,
    pub tablet_size: Option<(i32, i32)>,
    pub drag_url: Option<Seq<char>>,
}

impl View for Desk {
    type V = DeskView;

    open spec fn view(&self) -> DeskView {
        DeskView {
            sessions: text::texts(self.sessions@),
            monitors: self.monitors@,
            cursor: self.cursor,
            forwarding: self.forwarding,
            can_inject: self.can_inject,
            tablet_connected: self.tablet_connected,
            tablet_present: self.tablet_present,
            tablet_size: self.tablet_size,
            drag_url: text::opt_text(self.drag_url),
        }
    }
}

/// A peer that this machine is paired with.
#[derive(Debug)]
pub struct KnownPeer {
    pub name: String,
    pub os: Option<String>,
}

/// What a known peer says.
#[verifier::ext_equal]
pub ghost struct KnownPeerView {
    pub name: Seq<char>,
    pub os: Option<Seq<char>>,
}

impl View for KnownPeer {
    type V = KnownPeerView;

    open spec fn view(&self) -> KnownPeerView {
        KnownPeerView { name: self.name@, os: text::opt_text(self.os) }
    }
}

/// The monitors that a peer last reported.
#[derive(Debug)]
pub struct PeerScreens {
    pub peer: String,
    pub screens: Vec<Rect>,
}

/// What a report says.
#[verifier::ext_equal]
pub ghost struct PeerScreensView {
    pub peer: Seq<char>,
    pub screens: Seq<Rect>,
}

impl View for PeerScreens {
    type V = PeerScreensView;

    open spec fn view(&self) -> PeerScreensView {
        PeerScreensView { peer: self.peer@, screens: self.screens@ }
    }
}

/// A peer is driving this machine: which one, and where the cursor is believed to
/// be. The position is dead-reckoned from the relative deltas that it sends.
#[derive(Debug)]
pub struct Driven {
    pub peer: String,
    pub pos: (i32, i32),
}

/// Something a session reports.
#[derive(Debug)]
pub enum SessionEvent {
    Connected { name: String },
    Disconnected { name: String },
    CursorLeft { name: String, edge: Edge, ratio: F32 },
    /// The peer's cursor moved onto the shared panel, which shows this machine.
    SharedCross { name: String, fx: F32, fy: F32 },
    /// The peer asked for a shared-panel ownership change.
    SharedRequest { name: String, owner: String },
    /// A message that the session did not consume itself.
    Inbound { name: String, msg: Msg },
    LayoutChanged,
}

/// A command of the editor or the command line.
#[derive(Debug)]
pub enum UiCmd {
    SetSharedOwner(String),
    /// Enter (true) or leave (false) tablet control.
    TabletControl(bool),
    /// Put a machine's monitors where the editor says they go.
    Arrange { machine: String, monitors: Vec<Rect> },
    /// Tell `peer` to reconnect to this machine at `addr`.
    UseAddr { peer: String, addr: String },
}

/// Which machine the keyboard and mouse drive, and everything that decides it.
#[derive(Debug)]
pub struct Router {
    /// This machine's name.
    pub name: String,
    pub peers: Vec<KnownPeer>,
    /// Whether THIS machine arbitrates shared-panel ownership. Control is
    /// symmetric, but ownership is single-writer: the other side asks.
    pub arbiter: bool,
    /// This machine runs macOS.
    pub macos: bool,
    /// The whole desktop.
    pub bounds: Rect,
    pub layout: Layout,
    pub shared: SharedMonitor,
    pub peer_screens: Vec<PeerScreens>,
    /// Which machine the shared panel is currently showing (best knowledge).
    pub shared_owner: String,
    /// Set while this machine drives that peer.
    pub focus: Option<String>,
    /// Set while a peer drives this machine.
    pub driven: Option<Driven>,
    /// Input injection has been set up.
    pub injector: bool,
    /// This desk's own edges that lead somewhere, independent of who is driving.
    pub my_edges: Vec<Edge>,
    /// The edges that the capture side triggers on: empty while driven.
    pub portals: Vec<Edge>,
    /// This desk's copy of the shared panel while it shows the peer.
    pub blocked: Option<Rect>,
    pub tablet_edge: Option<Edge>,
    pub mac_shortcuts: bool,
    /// What the left Ctrl, Alt and Cmd keys send to a Windows peer.
    pub win_mods: (u16, u16, u16),
    pub down_keys: Vec<u16>,
    pub down_buttons: Vec<MouseButton>,
    /// The link that is being dragged across, opened when it is dropped.
    pub pending_drop_url: Option<String>,
    /// Captured input goes to the tablet.
    pub tablet_active: bool,
    /// Virtual cursor position on the tablet.
    pub tablet_vpos: (i32, i32),
    pub tablet_size: (i32, i32),
    pub tablet_entry_ratio: F32,
    /// What is to be done, in order.
    pub out: Vec<Action>,
}

/// The state of a router.
pub ghost struct RouterView {
    pub name: Seq<char>,
    pub peers: Seq<KnownPeerView>,
    pub arbiter: bool,
    pub macos: bool,
    pub bounds: Rect,
    pub links: Seq<layout::LinkView>,
    pub shared: config::SharedMonitorView,
    pub peer_screens: Seq<PeerScreensView>,
    pub shared_owner: Seq<char>,
    pub focus: Option<Seq<char>>,
    pub driven: Option<(Seq<char>, (i32, i32))>,
    pub injector: bool,
    pub my_edges: Seq<Edge>,
    pub portals: Seq<Edge>,
    pub blocked: Option<Rect>,
    pub tablet_edge: Option<Edge>,
    pub mac_shortcuts: bool,
    pub win_mods: (u16, u16, u16),
    pub down_keys: Seq<u16>,
    pub down_buttons: Seq<MouseButton>,
    pub pending_drop_url: Option<Seq<char>>,
    pub tablet_active: bool,
    pub tablet_vpos: (i32, i32),
    pub tablet_size: (i32, i32),
    pub tablet_entry_ratio: F32,
    pub out: Seq<action::ActionView>,
}

impl View for Router {
    type V = RouterView;

    open spec fn view(&self) -> RouterView {
        RouterView {
            name: self.name@,
            peers: self.peers@.map_values(|p: KnownPeer| p@),
            arbiter: self.arbiter,
            macos: self.macos,
            bounds: self.bounds,
            links: self.layout@,
            shared: self.shared@,
            peer_screens: self.peer_screens@.map_values(|p: PeerScreens| p@),
            shared_owner: self.shared_owner@,
            focus: text::opt_text(self.focus),
            driven: match self.driven {
                Some(d) => Some((d.peer@, d.pos)),
                None => None,
            },
            injector: self.injector,
            my_edges: self.my_edges@,
            portals: self.portals@,
            blocked: self.blocked,
            tablet_edge: self.tablet_edge,
            mac_shortcuts: self.mac_shortcuts,
            win_mods: self.win_mods,
            down_keys: self.down_keys@,
            down_buttons: self.down_buttons@,
            pending_drop_url: text::opt_text(self.pending_drop_url),
            tablet_active: self.tablet_active,
            tablet_vpos: self.tablet_vpos,
            tablet_size: self.tablet_size,
            tablet_entry_ratio: self.tablet_entry_ratio,
            out: action::actions_view(self.out@),
        }
    }
}

/// The HID usage that a modifier's name stands for, or a fallback.
pub open spec fn modifier_hid(name: Seq<char>, fallback: u16) -> u16 {
    if name == "ctrl"@ {
        0xE0
    } else if name == "alt"@ {
        0xE2
    } else if name == "win"@ {
        0xE3
    } else {
        fallback
    }
}

/// "ctrl"/"alt"/"win" to the left modifier's HID usage; anything else falls back.
pub fn mod_hid(name: &str, fallback: u16) -> (r: u16)
    ensures
        r == modifier_hid(name@, fallback),
{
    if same_text(name, "ctrl") {
        0xE0
    } else if same_text(name, "alt") {
        0xE2
    } else if same_text(name, "win") {
        0xE3
    } else {
        fallback
    }
}

/// The edge with this name.
pub open spec fn edge_named(s: Seq<char>) -> Option<Edge> {
    if s == "left"@ {
        Some(Edge::Left)
    } else if s == "right"@ {
        Some(Edge::Right)
    } else if s == "top"@ {
        Some(Edge::Top)
    } else if s == "bottom"@ {
        Some(Edge::Bottom)
    } else {
        None
    }
}

/// The edge with this name.
pub fn parse_edge(s: &str) -> (r: Option<Edge>)
    ensures
        r == edge_named(s@),
{
    if same_text(s, "left") {
        Some(Edge::Left)
    } else if same_text(s, "right") {
        Some(Edge::Right)
    } else if same_text(s, "top") {
        Some(Edge::Top)
    } else if same_text(s, "bottom") {
        Some(Edge::Bottom)
    } else {
        None
    }
}

/// The name of an edge is parsed as that edge.
pub proof fn law_edge_names_parse_back(e: Edge)
    ensures
        edge_named(e.name()) == Some(e),
{
    reveal_strlit("left");
    reveal_strlit("right");
    reveal_strlit("top");
    reveal_strlit("bottom");
    assert("left"@[0] == 'l');
    assert("right"@[0] == 'r');
    assert("top"@[0] == 't');
    assert("bottom"@[0] == 'b');
}

/// UHID mouse button bit index for a captured button.
pub fn button_index(b: MouseButton) -> (r: u8)
    ensures
        r == button_bit(b),
{
    match b {
        MouseButton::Left => 0,
        MouseButton::Right => 1,
        MouseButton::Middle => 2,
        MouseButton::X1 => 3,
        MouseButton::X2 => 4,
    }
}

/// A snapshot names this peer among the live sessions.
pub open spec fn online(d: DeskView, name: Seq<char>) -> bool {
    d.sessions.contains(name)
}

/// The OS of the first peer with this name, from `from` on.
pub open spec fn os_of(peers: Seq<KnownPeerView>, name: Seq<char>, from: int) -> Option<Seq<char>>
    decreases peers.len() - from,
{
    if from < 0 || from >= peers.len() {
        None
    } else if peers[from].name == name {
        peers[from].os
    } else {
        os_of(peers, name, from + 1)
    }
}

/// The monitors that a peer last reported, from entry `from` on; none if it never
/// did.
pub open spec fn screens_of(v: Seq<PeerScreensView>, name: Seq<char>, from: int) -> Seq<Rect>
    decreases v.len() - from,
{
    if from < 0 || from >= v.len() {
        seq![]
    } else if v[from].peer == name {
        v[from].screens
    } else {
        screens_of(v, name, from + 1)
    }
}

/// The first monitor, from `from` on, that is not `b`.
pub open spec fn other_monitor(monitors: Seq<Rect>, b: Rect, from: int) -> Option<Rect>
    decreases monitors.len() - from,
{
    if from < 0 || from >= monitors.len() {
        None
    } else if monitors[from] != b {
        Some(monitors[from])
    } else {
        other_monitor(monitors, b, from + 1)
    }
}

/// The middle of a rect.
pub open spec fn centre(r: Rect) -> (int, int) {
    (
        panel::coord(r.x + layout::half(r.w as int)),
        panel::coord(r.y + layout::half(r.h as int)),
    )
}

/// The point lies outside `b` past `edge`.
pub open spec fn past_edge(b: Rect, edge: Edge, x: int, y: int) -> bool {
    match edge {
        Edge::Left => x < b.x,
        Edge::Right => x >= b.end_x(),
        Edge::Top => y < b.y,
        Edge::Bottom => y >= b.end_y(),
    }
}

/// The first of `edges`, from `from` on, that the point lies past.
pub open spec fn crossed_edge(edges: Seq<Edge>, b: Rect, x: int, y: int, from: int) -> Option<Edge>
    decreases edges.len() - from,
{
    if from < 0 || from >= edges.len() {
        None
    } else if past_edge(b, edges[from], x, y) {
        Some(edges[from])
    } else {
        crossed_edge(edges, b, x, y, from + 1)
    }
}

/// What an input event of the driving peer brings about.
pub ghost enum CrossView {
    Stay,
    /// The cursor pushed out through one of this desk's own edges.
    Portal(Edge),
    /// The cursor moved onto this desk's copy of the shared panel.
    Shared,
}

/// `edges` with `e` added at the end unless it is there.
pub open spec fn with_edge(edges: Seq<Edge>, e: Edge) -> Seq<Edge> {
    if edges.contains(e) {
        edges
    } else {
        edges.push(e)
    }
}

impl RouterView {
    pub open spec fn emit(self, a: action::ActionView) -> RouterView {
        RouterView { out: self.out.push(a), ..self }
    }

    /// Hand a message to a peer.
    pub open spec fn send(self, peer: Seq<char>, msg: proto::MsgView) -> RouterView {
        self.emit(
            action::ActionView::Send { peer, msg, offline: Offline::Ignore },
        )
    }

    pub open spec fn warp(self, p: (int, int)) -> RouterView {
        self.emit(action::ActionView::Warp { x: p.0, y: p.1 })
    }

    /// The peer that shares the panel: the configured one, else the first paired.
    pub open spec fn shared_peer(self) -> Option<Seq<char>> {
        if self.shared.peer is Some {
            self.shared.peer
        } else if self.peers.len() > 0 {
            Some(self.peers[0].name)
        } else {
            None
        }
    }

    /// The monitors that a peer last reported.
    pub open spec fn screens(self, peer: Seq<char>) -> Seq<Rect> {
        screens_of(self.peer_screens, peer, 0)
    }

    /// What a key sends to the focused peer: with Mac shortcuts on a Mac, the left
    /// modifiers become what the settings say when the peer runs Windows.
    pub open spec fn remapped(self, key: u16) -> u16 {
        if self.macos && self.mac_shortcuts && (self.focus matches Some(f) && os_of(
            self.peers,
            f,
            0,
        ) == Some("windows"@)) {
            if key == 0xE0 {
                self.win_mods.0
            } else if key == 0xE2 {
                self.win_mods.1
            } else if key == 0xE3 {
                self.win_mods.2
            } else {
                key
            }
        } else {
            key
        }
    }

    /// The message as the focused peer is to get it.
    pub open spec fn for_focus(self, msg: proto::MsgView) -> proto::MsgView {
        match msg {
            proto::MsgView::Input(InputEvent::Key { key, pressed }) =>
                proto::MsgView::Input(
                InputEvent::Key { key: self.remapped(key), pressed },
            ),
            _ => msg,
        }
    }

    /// Hand a message to the focused peer, if there is one.
    #[verifier::opaque]
    pub open spec fn to_focus(self, msg: proto::MsgView) -> RouterView {
        match self.focus {
            Some(peer) => self.send(peer, self.for_focus(msg)),
            None => self,
        }
    }

    /// The releases of the held keys, in order.
    pub open spec fn key_releases(self) -> Seq<action::ActionView> {
        Seq::new(
            self.down_keys.len(),
            |i: int|
                action::ActionView::Send {
                    peer: self.focus->0,
                    msg: proto::MsgView::Input(
                        InputEvent::Key { key: self.remapped(self.down_keys[i]), pressed: false },
                    ),
                    offline: Offline::Ignore,
                },
        )
    }

    /// The releases of the held buttons, in order.
    pub open spec fn button_releases(self) -> Seq<action::ActionView> {
        Seq::new(
            self.down_buttons.len(),
            |i: int|
                action::ActionView::Send {
                    peer: self.focus->0,
                    msg: proto::MsgView::Input(
                        InputEvent::MouseButton { button: self.down_buttons[i], pressed: false },
                    ),
                    offline: Offline::Ignore,
                },
        )
    }

    /// Everything that is held is released on the focused peer.
    #[verifier::opaque]
    pub open spec fn released(self) -> RouterView {
        RouterView {
            out: if self.focus is Some {
                self.out + self.key_releases() + self.button_releases()
            } else {
                self.out
            },
            down_keys: seq![],
            down_buttons: seq![],
            ..self
        }
    }

    /// The focused peer is left: what is held is released, it is told to stop, and
    /// the focus comes home.
    pub open spec fn unfocused(self) -> RouterView {
        RouterView { focus: None, ..self.released().to_focus(proto::MsgView::Leave) }
    }

    /// The focused peer is left and local input flows again.
    pub open spec fn came_home(self) -> RouterView {
        self.unfocused().emit(action::ActionView::ExitForwarding)
    }

    /// Local input flows again, with the cursor just inside `edge` at `ratio`.
    pub open spec fn returned_at(self, edge: Edge, ratio: F32) -> RouterView {
        self.emit(action::ActionView::ExitForwarding).warp(
            self.coord_on(self.bounds, edge, ratio, EDGE_INSET as int),
        ).emit(action::ActionView::Flash(edge))
    }

    /// A point on an edge, as a coordinate pair.
    pub open spec fn coord_on(self, b: Rect, edge: Edge, ratio: F32, inset: int) -> (int, int) {
        let p = layout::edge_point(b, edge, ratio, inset);
        (panel::coord(p.0), panel::coord(p.1))
    }

    /// `edge` is a dead side of the shared panel: the panel spans the entire
    /// desktop edge and the peer has no monitor beyond its copy of it there.
    pub open spec fn is_wall(self, target: Seq<char>, edge: Edge) -> bool {
        match (self.shared.local_rect, self.shared.peer_rect) {
            (Some(local), Some(prect)) => self.shared_peer() == Some(target)
                && panel::spans(local, self.bounds, edge)
                && !panel::any_adjoins(self.screens(target), prect, edge),
            _ => false,
        }
    }

    /// `edge` leads to a peer monitor beyond the shared panel.
    pub open spec fn leads_beyond(self, d: DeskView, edge: Edge) -> bool {
        match (self.shared_peer(), self.shared.local_rect, self.shared.peer_rect) {
            (Some(peer), Some(local), Some(prect)) => online(d, peer)
                && panel::other_adjoins(self.screens(peer), prect, edge)
                && panel::reaches(local, self.bounds, edge),
            _ => false,
        }
    }

    /// `edge` leads along a link to a machine that is online, and is no wall.
    pub open spec fn leads_along_link(self, d: DeskView, edge: Edge) -> bool {
        layout::target_of(self.links, self.name, edge) matches Some((peer, _)) && online(
            d,
            peer,
        ) && !self.is_wall(peer, edge)
    }

    /// `edges` with `edge` added if it leads along a link.
    pub open spec fn add_link_edge(self, d: DeskView, edges: Seq<Edge>, edge: Edge) -> Seq<Edge> {
        if self.leads_along_link(d, edge) {
            edges.push(edge)
        } else {
            edges
        }
    }

    /// `edges` with `edge` added if it leads beyond the panel.
    pub open spec fn add_beyond_edge(self, d: DeskView, edges: Seq<Edge>, edge: Edge) -> Seq<Edge> {
        if self.leads_beyond(d, edge) {
            with_edge(edges, edge)
        } else {
            edges
        }
    }

    /// The edges of this desk that lead somewhere right now.
    #[verifier::opaque]
    pub open spec fn active_edges(self, d: DeskView) -> Seq<Edge> {
        let a = self.add_link_edge(d, seq![], Edge::Left);
        let a = self.add_link_edge(d, a, Edge::Right);
        let a = self.add_link_edge(d, a, Edge::Top);
        let a = self.add_link_edge(d, a, Edge::Bottom);
        let a = self.add_beyond_edge(d, a, Edge::Left);
        let a = self.add_beyond_edge(d, a, Edge::Right);
        let a = self.add_beyond_edge(d, a, Edge::Top);
        let a = self.add_beyond_edge(d, a, Edge::Bottom);
        match self.tablet_edge {
            Some(te) => if d.tablet_present {
                with_edge(a, te)
            } else {
                a
            },
            None => a,
        }
    }

    /// The edges are armed anew: all that lead somewhere, or none while driven.
    #[verifier::opaque]
    pub open spec fn rearmed(self, d: DeskView) -> RouterView {
        let active = self.active_edges(d);
        let armed = if self.driven is Some {
            seq![]
        } else {
            active
        };
        (RouterView { my_edges: active, portals: armed, ..self }).emit(
            action::ActionView::Portals(armed),
        )
    }

    /// The editor view goes to every peer, from the machine that authors it.
    pub open spec fn broadcast(self) -> RouterView {
        if self.arbiter {
            self.emit(
                action::ActionView::Broadcast {
                    configured: self.shared.is_configured(),
                    owner: self.shared_owner,
                },
            )
        } else {
            self
        }
    }

    /// The machine that a request for the panel names: "toggle" flips, and only the
    /// two machines that share it can be named.
    pub open spec fn requested_owner(self, owner: Seq<char>, peer: Seq<char>) -> Option<Seq<char>> {
        if owner == "toggle"@ {
            if self.shared_owner == self.name {
                Some(peer)
            } else {
                Some(self.name)
            }
        } else if owner == self.name || owner == peer {
            Some(owner)
        } else {
            None
        }
    }

    /// The panel shows `owner` now: it is remembered and published, the machine
    /// that is not shown blocks its copy, and input that was going to the peer comes
    /// home when the panel is reclaimed.
    #[verifier::opaque]
    pub open spec fn owned_by(self, owner: Seq<char>, peer: Seq<char>) -> RouterView {
        let to_me = owner == self.name;
        let s = (RouterView { shared_owner: owner, ..self }).emit(
            action::ActionView::RememberOwner(owner),
        ).emit(action::ActionView::SharedOwner(owner)).emit(
            action::ActionView::ClearSharedError,
        ).broadcast();
        let mine = if to_me {
            None
        } else {
            self.shared.local_rect
        };
        let theirs = if to_me {
            self.shared.peer_rect
        } else {
            None
        };
        let s = (RouterView { blocked: mine, ..s }).emit(
            action::ActionView::Blocked(mine),
        ).emit(
            action::ActionView::Send {
                peer,
                msg: proto::MsgView::SharedBlock { rect: theirs },
                offline: Offline::SharedError,
            },
        );
        if to_me && self.focus == Some(peer) {
            let h = s.came_home();
            match self.shared.local_rect {
                Some(lr) => h.warp(centre(lr)),
                None => h,
            }
        } else {
            s
        }
    }

    /// The panel is switched to what `owner` asks for, where that can be done.
    #[verifier::opaque]
    pub open spec fn switched_to(self, owner: Seq<char>) -> RouterView {
        match self.shared_peer() {
            Some(peer) => if self.shared.is_configured() {
                match self.requested_owner(owner, peer) {
                    Some(o) => self.owned_by(o, peer),
                    None => self,
                }
            } else {
                self
            },
            None => self,
        }
    }

    /// The panel is switched here, or the machine that arbitrates is asked to.
    pub open spec fn panel_requested(self, owner: Seq<char>) -> RouterView {
        if self.arbiter {
            self.switched_to(owner)
        } else if self.peers.len() > 0 {
            self.send(self.peers[0].name, proto::MsgView::SharedRequest { owner })
        } else {
            self
        }
    }

    /// A cursor that rests on the hidden panel `b` is parked on another monitor.
    #[verifier::opaque]
    pub open spec fn parked(self, d: DeskView, b: Rect) -> RouterView {
        if b.holds(d.cursor.0 as int, d.cursor.1 as int) {
            match other_monitor(d.monitors, b, 0) {
                Some(m) => self.warp(centre(m)),
                None => self,
            }
        } else {
            self
        }
    }

    /// A block that the peer decided: nobody here pressed anything, so a cursor on
    /// the panel is parked, never handed over.
    #[verifier::opaque]
    pub open spec fn peer_blocked(self, d: DeskView, rect: Option<Rect>) -> RouterView {
        let busy = d.forwarding || self.driven is Some;
        let s = match rect {
            Some(b) => if busy {
                self
            } else {
                self.parked(d, b)
            },
            None => self,
        };
        let s = (RouterView { blocked: rect, ..s }).emit(
            action::ActionView::Blocked(rect),
        );
        match rect {
            Some(b) => s.emit(action::ActionView::RescueWindows(b)),
            None => s,
        }
    }

    /// An arrangement for this desk is remembered and applied.
    pub open spec fn adopted(self, monitors: Seq<Rect>) -> RouterView {
        let s = self.emit(action::ActionView::RememberArrangement(monitors));
        if monitors.len() > 0 {
            s.emit(action::ActionView::ApplyArrangement(monitors))
        } else {
            s
        }
    }

    /// A peer takes control of this desk at `pos`.
    #[verifier::opaque]
    pub open spec fn entered(self, d: DeskView, peer: Seq<char>, pos: (i32, i32)) -> RouterView {
        if !self.injector && !d.can_inject {
            self.send(
                peer,
                proto::MsgView::CursorLeft {
                    edge: Edge::Left,
                    ratio: F32 { bits: 0x3f00_0000 },
                },
            )
        } else {
            let s = RouterView { injector: true, ..self };
            let s = if s.focus is Some {
                s.came_home()
            } else {
                s
            };
            let s = (RouterView { driven: Some((peer, pos)), ..s }).emit(
                action::ActionView::Driven(true),
            ).rearmed(d).emit(
                action::ActionView::Inject(
                    Injection::MouseTo { x: pos.0, y: pos.1, dx: 0, dy: 0 },
                ),
            ).emit(action::ActionView::Indicator { connected: true, active: true });
            s.emit(action::ActionView::Focus(Some(s.name)))
        }
    }

    /// Control left this desk again.
    #[verifier::opaque]
    pub open spec fn undriven(self, d: DeskView) -> RouterView {
        if self.driven is None {
            self
        } else {
            let s = RouterView { driven: None, ..self };
            let s = match s.blocked {
                Some(b) => s.parked(d, b),
                None => s,
            };
            let s = s.emit(action::ActionView::Driven(false));
            let s = if s.injector {
                s.emit(action::ActionView::Inject(Injection::ReleaseAll))
            } else {
                s
            };
            s.rearmed(d).emit(
                action::ActionView::Indicator { connected: true, active: false },
            ).emit(action::ActionView::Focus(None))
        }
    }

    /// What a motion of the driving peer's mouse to `(nx, ny)` brings about.
    pub open spec fn motion_outcome(self, nx: int, ny: int) -> CrossView {
        if self.blocked matches Some(b) && b.holds(nx, ny) {
            CrossView::Shared
        } else {
            match crossed_edge(self.my_edges, self.bounds, nx, ny, 0) {
                Some(e) => CrossView::Portal(e),
                None => CrossView::Stay,
            }
        }
    }

    /// Where a motion to `(nx, ny)` puts the cursor on this desk.
    pub open spec fn on_desk(self, nx: int, ny: int) -> (int, int) {
        (
            panel::coord(
                layout::held(nx, self.bounds.x as int, self.bounds.end_x() - 1),
            ),
            panel::coord(
                layout::held(ny, self.bounds.y as int, self.bounds.end_y() - 1),
            ),
        )
    }

    /// Something is injected, if injection has been set up.
    pub open spec fn inject(self, i: Injection) -> RouterView {
        if self.injector {
            self.emit(action::ActionView::Inject(i))
        } else {
            self
        }
    }
}

impl RouterView {
    /// One input event of the driving peer is applied at `pos`.
    #[verifier::opaque]
    pub open spec fn applied(self, ev: InputEvent) -> (RouterView, CrossView) {
        let (peer, pos) = self.driven->0;
        match ev {
            InputEvent::MouseMove { dx, dy } => {
                let nx = pos.0 + dx;
                let ny = pos.1 + dy;
                let cross = self.motion_outcome(nx, ny);
                if cross is Stay {
                    let p = self.on_desk(nx, ny);
                    let q = (p.0 as i32, p.1 as i32);
                    (
                        (RouterView { driven: Some((peer, q)), ..self }).inject(
                            Injection::MouseTo { x: q.0, y: q.1, dx, dy },
                        ),
                        cross,
                    )
                } else {
                    (self, cross)
                }
            },
            InputEvent::MouseButton { button, pressed } => (
                self.inject(Injection::Button { button, pressed }),
                CrossView::Stay,
            ),
            InputEvent::Wheel { dx, dy } => (
                self.inject(Injection::Wheel { dx, dy }),
                CrossView::Stay,
            ),
            InputEvent::Key { key, pressed } => (
                self.inject(Injection::Key { key, pressed }),
                CrossView::Stay,
            ),
        }
    }

    /// The column where the driving peer's cursor is believed to be.
    pub open spec fn driven_x(self) -> int {
        match self.driven {
            Some((_, pos)) => pos.0 as int,
            None => 0,
        }
    }

    /// The row where the driving peer's cursor is believed to be.
    pub open spec fn driven_y(self) -> int {
        match self.driven {
            Some((_, pos)) => pos.1 as int,
            None => 0,
        }
    }

    /// Where a motion that left through `edge` crossed it.
    pub open spec fn exit_ratio(self, edge: Edge, nx: int, ny: int) -> F32 {
        let p = self.on_desk(nx, ny);
        layout::edge_ratio(self.bounds, edge, p.0, p.1)
    }

    /// An input event of a peer: applied while that peer drives this desk, and
    /// control goes back to it when the cursor leaves.
    pub open spec fn fed(self, d: DeskView, name: Seq<char>, ev: InputEvent) -> RouterView {
        match self.driven {
            Some((peer, pos)) => if peer == name {
                let (s, cross) = self.applied(ev);
                match (cross, ev) {
                    (CrossView::Portal(edge), InputEvent::MouseMove { dx, dy }) => s.undriven(
                        d,
                    ).send(
                        name,
                        proto::MsgView::CursorLeft {
                            edge,
                            ratio: self.exit_ratio(edge, pos.0 + dx, pos.1 + dy),
                        },
                    ),
                    (CrossView::Shared, InputEvent::MouseMove { dx, dy }) => {
                        let b = self.blocked->0;
                        s.undriven(d).send(
                            name,
                            proto::MsgView::SharedCross {
                                fx: layout::unit_fraction(pos.0 + dx - b.x, b.w as int),
                                fy: layout::unit_fraction(pos.1 + dy - b.y, b.h as int),
                            },
                        )
                    },
                    _ => s,
                }
            } else {
                self
            },
            None => self,
        }
    }

    /// The editor view of the arbiter arrives: its word on who the panel shows is
    /// the state.
    #[verifier::opaque]
    pub open spec fn synced(
        self,
        d: DeskView,
        name: Seq<char>,
        state: Seq<char>,
        configured: bool,
        owner: Seq<char>,
    ) -> RouterView {
        if self.arbiter {
            self
        } else {
            let s = self.emit(action::ActionView::Synced(state)).emit(
                action::ActionView::SharedState {
                    configured,
                    peer: Some(name),
                    owner: Some(owner),
                },
            );
            let known = owner == self.name || self.shared_peer() == Some(owner);
            if self.shared.is_configured() && known && self.shared_owner != owner {
                (RouterView { shared_owner: owner, ..s }).emit(
                    action::ActionView::RememberOwner(owner),
                ).emit(action::ActionView::SharedOwner(owner)).peer_blocked(
                    d,
                    if owner == self.name {
                        None
                    } else {
                        self.shared.local_rect
                    },
                )
            } else {
                s
            }
        }
    }

    /// A message that arrived from `name`.
    pub open spec fn inbound(self, d: DeskView, name: Seq<char>, msg: proto::MsgView) -> RouterView {
        match msg {
            proto::MsgView::Enter { edge, ratio } => {
                let p = self.coord_on(self.bounds, edge, ratio, EDGE_INSET as int);
                self.entered(d, name, (p.0 as i32, p.1 as i32))
            },
            proto::MsgView::EnterAt { x, y } => self.entered(d, name, (x, y)),
            proto::MsgView::Leave => if self.driven matches Some((peer, _)) && peer == name {
                self.undriven(d)
            } else {
                self
            },
            proto::MsgView::Input(ev) => self.fed(d, name, ev),
            proto::MsgView::SharedBlock { rect } => self.peer_blocked(d, rect).emit(
                action::ActionView::PassiveNotice(rect),
            ),
            proto::MsgView::Arrange { monitors } => self.adopted(monitors),
            proto::MsgView::StateSync { state, shared_configured, owner } => self.synced(
                d,
                name,
                state,
                shared_configured,
                owner,
            ),
            _ => self,
        }
    }

    /// Tablet control begins or ends.
    #[verifier::opaque]
    pub open spec fn tablet_control(self, d: DeskView, on: bool) -> RouterView {
        if on {
            if d.tablet_connected {
                (RouterView { tablet_active: true, ..self.unfocused() }).emit(
                    action::ActionView::Tablet(TabletOp::Wake),
                ).emit(action::ActionView::EnterForwarding).emit(
                    action::ActionView::Focus(Some("tablet"@)),
                )
            } else {
                self
            }
        } else if self.tablet_active {
            (RouterView { tablet_active: false, ..self }).emit(
                action::ActionView::ExitForwarding,
            ).warp(centre(self.bounds)).emit(action::ActionView::Focus(None))
        } else {
            self
        }
    }

    /// Where the virtual cursor enters a tablet of this size: a little inside the
    /// edge, at the same place along it.
    pub open spec fn tablet_entry(edge: Edge, ratio: F32, tw: int, th: int) -> (int, int) {
        let inset = panel::lesser(
            160,
            panel::lesser(layout::third(tw), layout::third(th)),
        );
        match edge {
            Edge::Right => (inset, ratio.of_length(th)),
            Edge::Left => (tw - inset, ratio.of_length(th)),
            Edge::Top => (ratio.of_length(tw), th - inset),
            Edge::Bottom => (ratio.of_length(tw), inset),
        }
    }

    /// The crossing is the tablet's: control goes to the tablet, or back to this
    /// desk while the tablet is being connected.
    #[verifier::opaque]
    pub open spec fn tablet_crossed(self, d: DeskView, edge: Edge, ratio: F32) -> RouterView {
        if d.tablet_connected {
            let size = match d.tablet_size {
                Some(z) => z,
                None => (2560i32, 1600i32),
            };
            let p = Self::tablet_entry(edge, ratio, size.0 as int, size.1 as int);
            (RouterView {
                tablet_size: size,
                tablet_entry_ratio: ratio,
                tablet_vpos: (panel::coord(p.0) as i32, panel::coord(p.1) as i32),
                ..self
            }).tablet_control(d, true)
        } else {
            self.emit(action::ActionView::Tablet(TabletOp::Connect)).returned_at(edge, ratio)
        }
    }

    /// The virtual cursor walked back to the edge that it came in by.
    pub open spec fn tablet_left(edge: Option<Edge>, v: (int, int), size: (int, int)) -> bool {
        match edge {
            Some(Edge::Right) => v.0 <= 0,
            Some(Edge::Left) => v.0 >= size.0,
            Some(Edge::Top) => v.1 >= size.1,
            Some(Edge::Bottom) => v.1 <= 0,
            None => false,
        }
    }

    /// A motion while the tablet is controlled.
    #[verifier::opaque]
    pub open spec fn tablet_moved(self, d: DeskView, dx: i32, dy: i32) -> RouterView {
        let v = (
            layout::held(self.tablet_vpos.0 + dx, 0, self.tablet_size.0 as int),
            layout::held(self.tablet_vpos.1 + dy, 0, self.tablet_size.1 as int),
        );
        let s = (RouterView { tablet_vpos: (v.0 as i32, v.1 as i32), ..self }).emit(
            action::ActionView::Tablet(TabletOp::Move { dx, dy }),
        );
        if Self::tablet_left(
            self.tablet_edge,
            v,
            (self.tablet_size.0 as int, self.tablet_size.1 as int),
        ) {
            let entry = self.tablet_edge->0;
            s.tablet_control(d, false).warp(
                self.coord_on(self.bounds, entry, self.tablet_entry_ratio, EDGE_INSET as int),
            ).emit(action::ActionView::Cooldown)
        } else {
            s
        }
    }

    /// The cursor is handed to the peer's monitor `m` beyond the panel.
    pub open spec fn crossed_to(
        self,
        peer: Seq<char>,
        m: Rect,
        local: Rect,
        prect: Rect,
        edge: Edge,
        ex: int,
        ey: int,
    ) -> RouterView {
        let p = panel::landing_on(m, local, prect, edge, ex, ey);
        (RouterView { focus: Some(peer), ..self.emit(action::ActionView::Flash(edge)) }).to_focus(
            proto::MsgView::EnterAt { x: p.0 as i32, y: p.1 as i32 },
        )
    }

    /// A crossing toward the shared peer, resolved by geometry: onto the monitor
    /// that physically sits beyond the edge, or back as from a wall. `None` when the
    /// crossing is not the panel's to decide.
    #[verifier::opaque]
    pub open spec fn panel_crossing(self, d: DeskView, edge: Edge, ratio: F32) -> Option<
        RouterView,
    > {
        match (self.shared_peer(), self.shared.local_rect, self.shared.peer_rect) {
            (Some(peer), Some(local), Some(prect)) => if online(d, peer) {
                let (ex, ey) = self.coord_on(self.bounds, edge, ratio, 0);
                match panel::beyond_from(
                    self.screens(peer),
                    local,
                    prect,
                    self.bounds,
                    edge,
                    ex,
                    ey,
                    0,
                ) {
                    Some(m) => Some(self.crossed_to(peer, m, local, prect, edge, ex, ey)),
                    None => match layout::target_of(self.links, self.name, edge) {
                        Some((t, _)) => if t != peer {
                            None
                        } else {
                            Some(self.returned_at(edge, ratio))
                        },
                        None => Some(self.returned_at(edge, ratio)),
                    },
                }
            } else {
                None
            },
            _ => None,
        }
    }

    /// The focused peer's cursor left through an edge of ITS copy of the shared
    /// panel: home onto the monitor that adjoins the panel there, or held on the
    /// panel as by a wall. `None` when it left elsewhere.
    #[verifier::opaque]
    pub open spec fn panel_return(
        self,
        d: DeskView,
        peer: Seq<char>,
        edge: Edge,
        ratio: F32,
    ) -> Option<RouterView> {
        match (self.shared.local_rect, self.shared.peer_rect, panel::union_of(self.screens(peer))) {
            (Some(local), Some(prect), Some(pb)) => if self.shared_peer() == Some(peer) {
                let (ex, ey) = layout::edge_point(pb, edge, ratio, 0);
                if panel::on_panel_edge(prect, edge, ex, ey) {
                    let f = layout::edge_ratio(prect, edge, ex, ey);
                    match panel::adjoining_from(d.monitors, local, edge, 0) {
                        Some(m) => Some(
                            self.came_home().warp(panel::homecoming(m, edge, f)).emit(
                                action::ActionView::Flash(edge.facing()),
                            ),
                        ),
                        None => {
                            let p = self.coord_on(prect, edge, f, EDGE_INSET as int);
                            Some(
                                self.to_focus(
                                    proto::MsgView::EnterAt { x: p.0 as i32, y: p.1 as i32 },
                                ),
                            )
                        },
                    }
                } else {
                    None
                }
            } else {
                None
            },
            _ => None,
        }
    }

    /// The cursor follows the link behind an edge, or comes back where the machine
    /// behind it is offline.
    #[verifier::opaque]
    pub open spec fn linked(
        self,
        d: DeskView,
        edge: Edge,
        ratio: F32,
        drag: Option<Seq<char>>,
    ) -> RouterView {
        match layout::target_of(self.links, self.name, edge) {
            Some((peer, entry)) => if online(d, peer) {
                (RouterView {
                    focus: Some(peer),
                    pending_drop_url: drag,
                    ..self.emit(action::ActionView::Flash(edge))
                }).to_focus(proto::MsgView::Enter { edge: entry, ratio })
            } else {
                self.returned_at(edge, ratio)
            },
            None => self.returned_at(edge, ratio),
        }
    }

    /// An edge was hit: the tablet's edge first, then the shared panel's geometry,
    /// then the link; back where it leads nowhere.
    #[verifier::opaque]
    pub open spec fn edge_hit(self, d: DeskView, edge: Edge, ratio: F32) -> RouterView {
        if self.tablet_edge == Some(edge) {
            self.tablet_crossed(d, edge, ratio)
        } else {
            let drag = if self.down_buttons.contains(MouseButton::Left) {
                d.drag_url
            } else {
                None
            };
            match self.panel_crossing(d, edge, ratio) {
                Some(s) => RouterView { pending_drop_url: drag, ..s },
                None => self.linked(d, edge, ratio, drag),
            }
        }
    }

    /// What is held after a key or button event.
    pub open spec fn holding(self, ev: InputEvent) -> RouterView {
        match ev {
            InputEvent::Key { key, pressed } => RouterView {
                down_keys: after_press(self.down_keys, key, pressed),
                ..self
            },
            InputEvent::MouseButton { button, pressed } => RouterView {
                down_buttons: after_press(self.down_buttons, button, pressed),
                ..self
            },
            _ => self,
        }
    }

    /// A captured input event goes to the focused peer; a link that was dragged
    /// across is opened there when the left button comes up.
    #[verifier::opaque]
    pub open spec fn forwarded(self, ev: InputEvent) -> RouterView {
        let s = self.holding(ev).to_focus(proto::MsgView::Input(ev));
        match (ev, s.pending_drop_url) {
            (
                InputEvent::MouseButton { button: MouseButton::Left, pressed: false },
                Some(url),
            ) => (RouterView { pending_drop_url: None, ..s }).to_focus(
                proto::MsgView::OpenUrl { url },
            ),
            _ => s,
        }
    }

    /// A captured input event while the tablet is controlled.
    #[verifier::opaque]
    pub open spec fn tablet_fed(self, d: DeskView, ev: InputEvent) -> RouterView {
        match ev {
            InputEvent::MouseMove { dx, dy } => self.tablet_moved(d, dx, dy),
            InputEvent::MouseButton { button, pressed } => self.emit(
                action::ActionView::Tablet(
                    TabletOp::Button { index: button_bit(button), pressed },
                ),
            ),
            InputEvent::Wheel { dx, dy } => self.emit(
                action::ActionView::Tablet(TabletOp::Scroll { dx, dy }),
            ),
            InputEvent::Key { key, pressed } => self.emit(
                action::ActionView::Tablet(TabletOp::Key { key, pressed }),
            ),
        }
    }

    /// The local cursor moved onto the shared panel, which shows the peer: control
    /// goes to the peer, onto its copy of the panel, a few pixels off its edges.
    #[verifier::opaque]
    pub open spec fn shared_entered(self, d: DeskView, fx: F32, fy: F32) -> RouterView {
        match (self.shared_peer(), self.shared.peer_rect) {
            (Some(peer), Some(pr)) => if online(d, peer) {
                let x = panel::coord(
                    layout::held(
                        pr.x + fx.of_length(pr.w as int),
                        pr.x + EDGE_INSET,
                        pr.end_x() - 1 - EDGE_INSET,
                    ),
                );
                let y = panel::coord(
                    layout::held(
                        pr.y + fy.of_length(pr.h as int),
                        pr.y + EDGE_INSET,
                        pr.end_y() - 1 - EDGE_INSET,
                    ),
                );
                (RouterView {
                    focus: Some(peer),
                    ..self.emit(action::ActionView::EnterForwarding)
                }).to_focus(proto::MsgView::EnterAt { x: x as i32, y: y as i32 })
            } else {
                self
            },
            _ => self,
        }
    }

    /// Something the capture side reports.
    pub open spec fn captured(self, d: DeskView, ev: Captured) -> RouterView {
        match ev {
            Captured::Input(input) => if self.tablet_active {
                self.tablet_fed(d, input)
            } else {
                self.forwarded(input)
            },
            Captured::EdgeHit { edge, ratio } => self.edge_hit(d, edge, ratio),
            Captured::Panic => if self.tablet_active {
                self.tablet_control(d, false)
            } else {
                self.unfocused().warp(centre(self.bounds))
            },
            Captured::SharedHotkey => self.panel_requested("toggle"@),
            Captured::TabletHotkey => if self.tablet_active {
                self.tablet_control(d, false)
            } else if d.tablet_connected {
                self.tablet_control(d, true)
            } else {
                self.emit(action::ActionView::Tablet(TabletOp::Connect)).emit(
                    action::ActionView::LinkError("tablet connecting — try again"@),
                )
            },
            Captured::SharedEnter { fx, fy } => self.shared_entered(d, fx, fy),
        }
    }

    /// This desk's rect for the panel: the configured one while a monitor has it or
    /// the panel is absent, else the monitor at the configured index, if it has the
    /// panel's size. (Size alone does not identify the panel here: another monitor
    /// can have the same resolution.)
    #[verifier::opaque]
    pub open spec fn local_panel(self, d: DeskView) -> Option<Rect> {
        match (self.shared.local_rect, self.shared.local_index) {
            (Some(lr), Some(i)) => {
                let k: int = if self.macos && i > 0 {
                    i - 1
                } else {
                    i as int
                };
                if !d.monitors.contains(lr) && d.monitors.len() >= 2 && k < d.monitors.len()
                    && d.monitors[k].w == lr.w && d.monitors[k].h == lr.h {
                    Some(d.monitors[k])
                } else {
                    Some(lr)
                }
            },
            _ => self.shared.local_rect,
        }
    }

    /// The peer's rect for the panel: the configured one while a monitor has it,
    /// else the monitor at the configured index if it has the panel's size, else the
    /// only monitor of that size.
    #[verifier::opaque]
    pub open spec fn peer_panel(self) -> Option<Rect> {
        match (self.shared.peer_rect, self.shared_peer()) {
            (Some(pr), Some(peer)) => {
                let screens = self.screens(peer);
                if screens.len() == 0 || screens.contains(pr) {
                    Some(pr)
                } else if self.shared.peer_index matches Some(i) && i < screens.len() && screens[i
                    as int].w == pr.w && screens[i as int].h == pr.h {
                    Some(screens[self.shared.peer_index->0 as int])
                } else {
                    match only_of_size(screens, pr) {
                        Some(m) => Some(m),
                        None => Some(pr),
                    }
                }
            },
            _ => self.shared.peer_rect,
        }
    }

    /// The panel's rects are derived anew from the current geometry; a change is
    /// remembered and the blocks are applied anew.
    #[verifier::opaque]
    pub open spec fn panel_refreshed(self, d: DeskView) -> RouterView {
        let local = self.local_panel(d);
        let peer = self.peer_panel();
        if !self.shared.is_configured() || (local == self.shared.local_rect && peer
            == self.shared.peer_rect) {
            self
        } else {
            (RouterView {
                shared: config::SharedMonitorView {
                    local_rect: local,
                    peer_rect: peer,
                    ..self.shared
                },
                ..self
            }).emit(action::ActionView::RememberRects { local, peer }).switched_to(
                self.shared_owner,
            )
        }
    }

    /// A peer connected.
    #[verifier::opaque]
    pub open spec fn connected(self, d: DeskView) -> RouterView {
        let s = self.panel_refreshed(d).rearmed(d);
        let s = if s.arbiter && s.shared.is_configured() {
            s.switched_to(s.shared_owner)
        } else {
            s
        };
        s.broadcast()
    }

    /// A peer's session ended: whatever it drove or was driven comes home.
    #[verifier::opaque]
    pub open spec fn disconnected(self, d: DeskView, name: Seq<char>) -> RouterView {
        let s = if self.driven matches Some((peer, _)) && peer == name {
            self.undriven(d)
        } else {
            self
        };
        let s = if s.focus == Some(name) {
            (RouterView { focus: None, down_keys: seq![], down_buttons: seq![], ..s }).emit(
                action::ActionView::ExitForwarding,
            )
        } else {
            s
        };
        s.rearmed(d)
    }

    /// The focused peer's cursor moved onto the shared panel: home onto this desk's
    /// copy of it.
    #[verifier::opaque]
    pub open spec fn shared_crossed(self, name: Seq<char>, fx: F32, fy: F32) -> RouterView {
        match self.shared.local_rect {
            Some(r) => if self.focus == Some(name) {
                self.came_home().warp(
                    (
                        panel::coord(r.x + fx.of_length(r.w as int)),
                        panel::coord(r.y + fy.of_length(r.h as int)),
                    ),
                )
            } else {
                self
            },
            None => self,
        }
    }

    /// The focused peer's cursor pushed through one of its edges: by the panel's
    /// geometry, else along the link: home, on to another machine, or home where it
    /// leads nowhere.
    #[verifier::opaque]
    pub open spec fn cursor_left(
        self,
        d: DeskView,
        name: Seq<char>,
        edge: Edge,
        ratio: F32,
    ) -> RouterView {
        if self.focus != Some(name) {
            self
        } else {
            match self.panel_return(d, name, edge, ratio) {
                Some(s) => s,
                None => match layout::target_of(self.links, name, edge) {
                    Some((next, entry)) => if next == self.name {
                        self.unfocused().returned_at(entry, ratio)
                    } else if online(d, next) {
                        (RouterView { focus: Some(next), ..self.unfocused() }).to_focus(
                            proto::MsgView::Enter { edge: entry, ratio },
                        )
                    } else {
                        self.came_home()
                    },
                    None => self.came_home(),
                },
            }
        }
    }

    /// The layout, the shared-monitor settings or a peer's geometry changed.
    #[verifier::opaque]
    pub open spec fn layout_changed(self, d: DeskView) -> RouterView {
        self.panel_refreshed(d).rearmed(d).broadcast()
    }
}

/// UHID mouse button bit index for a captured button.
pub open spec fn button_bit(b: MouseButton) -> u8 {
    match b {
        MouseButton::Left => 0,
        MouseButton::Right => 1,
        MouseButton::Middle => 2,
        MouseButton::X1 => 3,
        MouseButton::X2 => 4,
    }
}

/// Everything but `k`.
pub open spec fn other_than<T>(k: T) -> spec_fn(T) -> bool {
    |x: T| x != k
}

/// What is held once `k` is pressed or released.
pub open spec fn after_press<T>(held: Seq<T>, k: T, pressed: bool) -> Seq<T> {
    if pressed {
        if held.contains(k) {
            held
        } else {
            held.push(k)
        }
    } else {
        held.filter(other_than(k))
    }
}

/// The rects of the panel's size.
pub open spec fn of_size(p: Rect) -> spec_fn(Rect) -> bool {
    |m: Rect| m.w == p.w && m.h == p.h
}

/// The only monitor of the panel's size.
pub open spec fn only_of_size(screens: Seq<Rect>, p: Rect) -> Option<Rect> {
    let fitting = screens.filter(of_size(p));
    if fitting.len() == 1 {
        Some(fitting[0])
    } else {
        None
    }
}

/// `v` with the report of `peer` replaced, or added at the end.
pub open spec fn with_report(
    v: Seq<PeerScreensView>,
    peer: Seq<char>,
    screens: Seq<Rect>,
    from: int,
) -> Seq<PeerScreensView>
    decreases v.len() - from,
{
    if from < 0 || from >= v.len() {
        v.push(PeerScreensView { peer, screens })
    } else if v[from].peer == peer {
        v.update(from, PeerScreensView { peer, screens })
    } else {
        with_report(v, peer, screens, from + 1)
    }
}

/// What a report leaves: the peer's monitors are the reported ones, and every other
/// peer's are what they were.
pub proof fn law_report_is_read_back(
    v: Seq<PeerScreensView>,
    peer: Seq<char>,
    screens: Seq<Rect>,
    other: Seq<char>,
)
    ensures
        screens_of(with_report(v, peer, screens, 0), peer, 0) == screens,
        other != peer ==> screens_of(with_report(v, peer, screens, 0), other, 0) == screens_of(
            v,
            other,
            0,
        ),
{
    lemma_report(v, peer, screens, other, 0);
}

proof fn lemma_report(
    v: Seq<PeerScreensView>,
    peer: Seq<char>,
    screens: Seq<Rect>,
    other: Seq<char>,
    from: int,
)
    requires
        0 <= from <= v.len(),
    ensures
        with_report(v, peer, screens, from).len() >= v.len(),
        forall|i: int|
            0 <= i < from ==> with_report(v, peer, screens, from)[i] == #[trigger] v[i],
        screens_of(with_report(v, peer, screens, from), peer, from) == screens,
        other != peer ==> screens_of(with_report(v, peer, screens, from), other, from)
            == screens_of(v, other, from),
    decreases v.len() - from,
{
    let w = with_report(v, peer, screens, from);
    if from == v.len() {
        assert(w[from].peer == peer);
        assert(screens_of(w, other, from + 1) =~= seq![]);
    } else if v[from].peer == peer {
        assert(w[from].peer == peer);
        if other != peer {
            lemma_same_tail(v, w, other, from + 1);
        }
    } else {
        lemma_report(v, peer, screens, other, from + 1);
        assert(w[from] == v[from]);
    }
}

proof fn lemma_same_tail(
    v: Seq<PeerScreensView>,
    w: Seq<PeerScreensView>,
    name: Seq<char>,
    from: int,
)
    requires
        v.len() == w.len(),
        0 <= from <= v.len(),
        forall|i: int| from <= i < v.len() ==> v[i] == #[trigger] w[i],
    ensures
        screens_of(v, name, from) == screens_of(w, name, from),
    decreases v.len() - from,
{
    if from < v.len() {
        assert(v[from] == w[from]);
        lemma_same_tail(v, w, name, from + 1);
    }
}

/// The machine that the panel is taken to show at start: the remembered one if it
/// is one of the two that share it, else this one.
pub open spec fn restored_owner(
    last: Option<Seq<char>>,
    me: Seq<char>,
    peer: Option<Seq<char>>,
) -> Seq<char> {
    match last {
        Some(o) => if o == me || peer == Some(o) {
            o
        } else {
            me
        },
        None => me,
    }
}

/// The edge that a setting names, if any.
pub open spec fn edge_setting(s: Option<Seq<char>>) -> Option<Edge> {
    match s {
        Some(t) => edge_named(t),
        None => None,
    }
}

/// What the three left modifiers send, by the settings.
pub open spec fn modifiers_of(c: config::ConfigView) -> (u16, u16, u16) {
    (
        modifier_hid(c.win_ctrl, 0xE0),
        modifier_hid(c.win_opt, 0xE2),
        modifier_hid(c.win_cmd, 0xE3),
    )
}

/// The peers of a configuration.
pub open spec fn known_peers(c: config::ConfigView) -> Seq<KnownPeerView> {
    c.peers.map_values(|p: config::PeerView| KnownPeerView { name: p.name, os: p.os })
}

/// The monitors that the peers of a configuration last reported.
pub open spec fn known_screens(c: config::ConfigView) -> Seq<PeerScreensView> {
    c.peers.map_values(
        |p: config::PeerView| PeerScreensView { peer: p.name, screens: p.screens },
    )
}

impl RouterView {
    /// A command of the editor for a machine's monitors.
    pub open spec fn arranged(self, machine: Seq<char>, monitors: Seq<Rect>) -> RouterView {
        if machine == self.name {
            self.adopted(monitors)
        } else {
            self.emit(
                action::ActionView::Send {
                    peer: machine,
                    msg: proto::MsgView::Arrange { monitors },
                    offline: Offline::LinkError,
                },
            )
        }
    }

    /// The settings of a configuration that changed on disk.
    pub open spec fn reloaded(self, c: config::ConfigView) -> RouterView {
        let s = (RouterView {
            mac_shortcuts: c.mac_shortcuts,
            win_mods: modifiers_of(c),
            tablet_edge: edge_setting(c.tablet_edge),
            links: c.links,
            ..self
        }).emit(action::ActionView::EdgeDwell(c.edge_dwell_ms));
        if self.shared != c.shared_monitor {
            let t = RouterView { shared: c.shared_monitor, ..s };
            t.emit(
                action::ActionView::SharedHotkey(
                    c.shared_monitor.is_configured() && c.shared_monitor.hotkey,
                ),
            ).emit(
                action::ActionView::SharedState {
                    configured: c.shared_monitor.is_configured(),
                    peer: c.panel_peer(),
                    owner: None,
                },
            )
        } else {
            s
        }
    }

    /// A router as it starts: nothing is focused or driven, and the copy of the
    /// panel on this desk is blocked while the panel shows the peer.
    pub open spec fn started(c: config::ConfigView, bounds: Rect, macos: bool) -> RouterView {
        let bare = RouterView {
            name: c.name,
            peers: known_peers(c),
            arbiter: c.mode == config::Mode::Host,
            macos,
            bounds,
            links: c.links,
            shared: c.shared_monitor,
            peer_screens: known_screens(c),
            shared_owner: seq![],
            focus: None,
            driven: None,
            injector: false,
            my_edges: seq![],
            portals: seq![],
            blocked: None,
            tablet_edge: edge_setting(c.tablet_edge),
            mac_shortcuts: c.mac_shortcuts,
            win_mods: modifiers_of(c),
            down_keys: seq![],
            down_buttons: seq![],
            pending_drop_url: None,
            tablet_active: false,
            tablet_vpos: (0, 0),
            tablet_size: (2560, 1600),
            tablet_entry_ratio: F32 { bits: 0x3f00_0000 },
            out: seq![],
        };
        let owner = restored_owner(c.shared_monitor.last_owner, c.name, bare.shared_peer());
        let s = RouterView { shared_owner: owner, ..bare };
        let s = if c.shared_monitor.is_configured() {
            s.emit(action::ActionView::SharedHotkey(c.shared_monitor.hotkey))
        } else {
            s
        };
        let s = s.emit(action::ActionView::EdgeDwell(c.edge_dwell_ms)).emit(
            action::ActionView::SharedState {
                configured: c.shared_monitor.is_configured(),
                peer: bare.shared_peer(),
                owner: Some(owner),
            },
        );
        if owner != c.name {
            (RouterView { blocked: c.shared_monitor.local_rect, ..s }).emit(
                action::ActionView::Blocked(c.shared_monitor.local_rect),
            )
        } else {
            s
        }
    }

    /// The editor is told when the focus changed.
    pub open spec fn with_focus_told(self, before: Option<Seq<char>>) -> RouterView {
        if self.focus != before {
            self.emit(action::ActionView::Focus(self.focus))
        } else {
            self
        }
    }
}

} // verus!
