//! What the router asks its surroundings to do, in order.
use vstd::prelude::*;

use crate::layout::Edge;
use crate::proto::{Msg, MouseButton, Rect};
use crate::text::joined;

verus! {

/// One injected input event.
#[derive(Clone, Copy, Debug, PartialEq, Eq, Structural)]
pub enum Injection {
    /// Move to an absolute point; the deltas are what the sender reported.
    MouseTo { x: i32, y: i32, dx: i32, dy: i32 },
    Button { button: MouseButton, pressed: bool },
    Wheel { dx: i32, dy: i32 },
    Key { key: u16, pressed: bool },
    /// Release everything that is held.
    ReleaseAll,
}

/// One operation on the connected tablet.
#[derive(Clone, Copy, Debug, PartialEq, Eq, Structural)]
pub enum TabletOp {
    /// Light up a slept screen.
    Wake,
    /// Connect in the background.
    Connect,
    Move { dx: i32, dy: i32 },
    Button { index: u8, pressed: bool },
    Scroll { dx: i32, dy: i32 },
    Key { key: u16, pressed: bool },
}

/// What is shown when a message finds no live session.
#[derive(Clone, Copy, Debug, PartialEq, Eq, Structural)]
pub enum Offline {
    /// Nothing.
    Ignore,
    /// The shared-panel error.
    SharedError,
    /// The link error.
    LinkError,
}

/// Something to be done outside the router.
#[derive(Debug)]
pub enum Action {
    /// Hand a message to a peer's session.
    Send { peer: String, msg: Msg, offline: Offline },
    /// Push the editor view to every connected peer.
    Broadcast { configured: bool, owner: String },
    /// Put the cursor somewhere and let it settle.
    Warp { x: i32, y: i32 },
    /// Start swallowing local input.
    EnterForwarding,
    /// Stop swallowing local input, with a cooldown before the next crossing.
    ExitForwarding,
    /// Hold off the next crossing for the cooldown.
    Cooldown,
    /// The edges that the capture side triggers on.
    Portals(Vec<Edge>),
    /// The rect that the cursor must not rest on.
    Blocked(Option<Rect>),
    /// A peer is driving this desk, or no longer is.
    Driven(bool),
    Inject(Injection),
    Indicator { connected: bool, active: bool },
    /// Which machine has the cursor, for the editor.
    Focus(Option<String>),
    /// A crossing through this edge, for the editor.
    Flash(Edge),
    SharedOwner(String),
    ClearSharedError,
    LinkError(String),
    /// The editor view that the arbiter authored.
    Synced(String),
    SharedState { configured: bool, peer: Option<String>, owner: Option<String> },
    /// The notice over this desk's copy of the shared panel.
    PassiveNotice(Option<Rect>),
    RememberOwner(String),
    RememberRects { local: Option<Rect>, peer: Option<Rect> },
    RememberArrangement(Vec<Rect>),
    /// Make the OS match an arrangement.
    ApplyArrangement(Vec<Rect>),
    /// Move windows off a monitor that is not showing this machine.
    RescueWindows(Rect),
    Tablet(TabletOp),
    /// Whether the shared-panel hotkey is armed.
    SharedHotkey(bool),
    /// How long the cursor must rest against an edge.
    EdgeDwell(u64),
}

/// What an action says.
#[verifier::ext_equal]
pub ghost enum ActionView {
    Send { peer: Seq<char>, msg: crate::proto::MsgView, offline: Offline },
    Broadcast { configured: bool, owner: Seq<char> },
    Warp { x: int, y: int },
    EnterForwarding,
    ExitForwarding,
    Cooldown,
    Portals(Seq<Edge>),
    Blocked(Option<Rect>),
    Driven(bool),
    Inject(Injection),
    Indicator { connected: bool, active: bool },
    Focus(Option<Seq<char>>),
    Flash(Edge),
    SharedOwner(Seq<char>),
    ClearSharedError,
    LinkError(Seq<char>),
    Synced(Seq<char>),
    SharedState { configured: bool, peer: Option<Seq<char>>, owner: Option<Seq<char>> },
    PassiveNotice(Option<Rect>),
    RememberOwner(Seq<char>),
    RememberRects { local: Option<Rect>, peer: Option<Rect> },
    RememberArrangement(Seq<Rect>),
    ApplyArrangement(Seq<Rect>),
    RescueWindows(Rect),
    Tablet(TabletOp),
    SharedHotkey(bool),
    EdgeDwell(u64),
}

impl View for Action {
    type V = ActionView;

    open spec fn view(&self) -> ActionView {
        match *self {
            Action::Send { peer, msg, offline } => ActionView::Send {
                peer: peer@,
                msg: msg@,
                offline,
            },
            Action::Broadcast { configured, owner } => ActionView::Broadcast {
                configured,
                owner: owner@,
            },
            Action::Warp { x, y } => ActionView::Warp { x: x as int, y: y as int },
            Action::EnterForwarding => ActionView::EnterForwarding,
            Action::ExitForwarding => ActionView::ExitForwarding,
            Action::Cooldown => ActionView::Cooldown,
            Action::Portals(v) => ActionView::Portals(v@),
            Action::Blocked(b) => ActionView::Blocked(b),
            Action::Driven(b) => ActionView::Driven(b),
            Action::Inject(i) => ActionView::Inject(i),
            Action::Indicator { connected, active } => ActionView::Indicator { connected, active },
            Action::Focus(f) => ActionView::Focus(crate::text::opt_text(f)),
            Action::Flash(e) => ActionView::Flash(e),
            Action::SharedOwner(o) => ActionView::SharedOwner(o@),
            Action::ClearSharedError => ActionView::ClearSharedError,
            Action::LinkError(t) => ActionView::LinkError(t@),
            Action::Synced(t) => ActionView::Synced(t@),
            Action::SharedState { configured, peer, owner } => ActionView::SharedState {
                configured,
                peer: crate::text::opt_text(peer),
                owner: crate::text::opt_text(owner),
            },
            Action::PassiveNotice(r) => ActionView::PassiveNotice(r),
            Action::RememberOwner(o) => ActionView::RememberOwner(o@),
            Action::RememberRects { local, peer } => ActionView::RememberRects { local, peer },
            Action::RememberArrangement(v) => ActionView::RememberArrangement(v@),
            Action::ApplyArrangement(v) => ActionView::ApplyArrangement(v@),
            Action::RescueWindows(r) => ActionView::RescueWindows(r),
            Action::Tablet(t) => ActionView::Tablet(t),
            Action::SharedHotkey(b) => ActionView::SharedHotkey(b),
            Action::EdgeDwell(d) => ActionView::EdgeDwell(d),
        }
    }
}

/// What a list of actions says.
pub open spec fn actions_view(v: Seq<Action>) -> Seq<ActionView> {
    v.map_values(|a: Action| a@)
}

/// The text shown when a message to `peer` finds no live session.
pub open spec fn offline_message(peer: Seq<char>, offline: Offline) -> Option<Seq<char>> {
    match offline {
        Offline::Ignore => None,
        Offline::SharedError => Some(peer + " offline"@),
        Offline::LinkError => Some(peer + " offline — arrangement not sent"@),
    }
}

/// The text shown when a message to `peer` finds no live session.
pub fn offline_text(peer: &str, offline: Offline) -> (r: Option<String>)
    ensures
        crate::text::opt_text(r) == offline_message(peer@, offline),
{
    match offline {
        Offline::Ignore => None,
        Offline::SharedError => Some(joined(peer, " offline")),
        Offline::LinkError => Some(joined(peer, " offline — arrangement not sent")),
    }
}

} // verus!
