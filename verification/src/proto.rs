//! Messages between machines and the input event model.
//!
//! Key codes are USB HID keyboard usage IDs (page 0x07). Each platform backend
//! maps its native virtual key codes to and from HID usages, so the messages are
//! platform-neutral.
use vstd::prelude::*;

use crate::binary32::F32;
use crate::layout::Edge;

verus! {

/// Bumped on incompatible changes. Peers with different versions refuse to talk.
pub const PROTOCOL_VERSION: u16 = 10;

/// A rectangle in a machine's own desktop coordinate space. The origin is
/// top-left on every platform.
#[derive(Clone, Copy, Debug, PartialEq, Eq, Structural)]
pub struct Rect {
    pub x: i32,
    pub y: i32,
    pub w: i32,
    pub h: i32,
}

impl Rect {
    /// The first column past the rectangle.
    pub open spec fn end_x(self) -> int {
        self.x + self.w
    }

    /// The first row past the rectangle.
    pub open spec fn end_y(self) -> int {
        self.y + self.h
    }

    /// Both far edges are coordinates.
    pub open spec fn fits(self) -> bool {
        i32::MIN <= self.end_x() <= i32::MAX && i32::MIN <= self.end_y() <= i32::MAX
    }

    /// At least one pixel wide and high, with both far edges representable.
    pub open spec fn solid(self) -> bool {
        self.fits() && self.w > 0 && self.h > 0
    }

    /// The point lies inside.
    pub open spec fn holds(self, x: int, y: int) -> bool {
        self.x <= x < self.end_x() && self.y <= y < self.end_y()
    }

    pub fn right(&self) -> (r: i32)
        requires
            i32::MIN <= self.end_x() <= i32::MAX,
        ensures
            r == self.end_x(),
    {
        self.x + self.w
    }

    pub fn bottom(&self) -> (r: i32)
        requires
            i32::MIN <= self.end_y() <= i32::MAX,
        ensures
            r == self.end_y(),
    {
        self.y + self.h
    }
}

/// Two coordinates within eight pixels of each other.
pub open spec fn within_8(a: int, b: int) -> bool {
    -8 <= a - b <= 8
}

/// Are two coordinates within eight pixels of each other?
pub fn near(a: i64, b: i64) -> (r: bool)
    requires
        -0x10_0000_0000 <= a <= 0x10_0000_0000,
        -0x10_0000_0000 <= b <= 0x10_0000_0000,
    ensures
        r == within_8(a as int, b as int),
{
    -8 <= a - b && a - b <= 8
}

/// Do two monitor rects refer to the same physical display? Position anchors
/// the identity; a small tolerance absorbs rounding and minor mode differences.
pub fn rects_match(a: Rect, b: Rect) -> (r: bool)
    ensures
        r == (within_8(a.x as int, b.x as int) && within_8(a.y as int, b.y as int) && within_8(
            a.w as int,
            b.w as int,
        ) && within_8(a.h as int, b.h as int)),
{
    near(a.x as i64, b.x as i64) && near(a.y as i64, b.y as i64) && near(a.w as i64, b.w as i64)
        && near(a.h as i64, b.h as i64)
}

#[derive(Clone, Copy, Debug, PartialEq, Eq, Hash, Structural)]
pub enum MouseButton {
    Left,
    Right,
    Middle,
    X1,
    X2,
}

/// Input events. Mouse motion is always relative: the receiving machine owns its
/// cursor position, which is what makes crossing feel native between machines of
/// different resolutions.
#[derive(Clone, Copy, Debug, PartialEq, Eq, Structural)]
pub enum InputEvent {
    MouseMove { dx: i32, dy: i32 },
    MouseButton { button: MouseButton, pressed: bool },
    /// Wheel deltas in 1/120 notch units, positive = up/right.
    Wheel { dx: i32, dy: i32 },
    /// `key` is a USB HID keyboard usage ID.
    Key { key: u16, pressed: bool },
}

/// One session message.
#[derive(Debug)]
pub enum Msg {
    /// First message after the secure handshake, from the machine that dialed.
    Hello {
        version: u16,
        name: String,
        os: String,
        /// Bounding box of the whole desktop.
        screen: Rect,
        /// Individual physical displays.
        monitors: Vec<Rect>,
    },
    /// The reply. `portal_edges` are the receiver's own desktop edges that lead
    /// somewhere in the layout.
    Welcome { version: u16, name: String, portal_edges: Vec<Edge> },
    /// The cursor is entering the receiver's screen through `edge` at `ratio`
    /// (0..1 along that edge).
    Enter { edge: Edge, ratio: F32 },
    /// Stop applying input: focus moved elsewhere.
    Leave,
    Input(InputEvent),
    /// The sender's cursor pushed through its own `edge` at `ratio`.
    CursorLeft { edge: Edge, ratio: F32 },
    Ping(u64),
    Pong(u64),
    Bye,
    /// Attach (`on`) or detach one of the receiver's displays. `expect` is the
    /// geometry of the display that is meant; a display of another geometry at
    /// `index` is left alone.
    DisplayPower { index: u32, expect: Rect, on: bool },
    /// Outcome of a `DisplayPower` request.
    DisplayPowerResult { index: u32, on: bool, error: Option<String> },
    /// The sender's desktop geometry changed.
    Monitors { screen: Rect, monitors: Vec<Rect> },
    /// Treat `rect` as a hole that the cursor cannot rest on: the shared monitor
    /// while the other machine is being shown on it. `None` clears the block.
    SharedBlock { rect: Option<Rect> },
    /// Warp to an absolute point and take input.
    EnterAt { x: i32, y: i32 },
    /// The sender's cursor moved onto the shared panel, at a relative position.
    SharedCross { fx: F32, fy: F32 },
    /// Please make `owner` the machine the panel shows ("toggle" flips).
    SharedRequest { owner: String },
    /// The sender's whole editor view, so both machines draw the same map.
    StateSync { state: String, shared_configured: bool, owner: String },
    /// Reconnect to the sender at this address.
    UseAddr { addr: String },
    /// The sender's clipboard changed; mirror it.
    Clipboard { text: String },
    /// Open this URL: a link was dragged across the boundary.
    OpenUrl { url: String },
    /// Put the receiver's monitors where the editor says they go.
    Arrange { monitors: Vec<Rect> },
}

/// What a message says.
#[verifier::ext_equal]
pub ghost enum MsgView {
    Hello { version: u16, name: Seq<char>, os: Seq<char>, screen: Rect, monitors: Seq<Rect> },
    Welcome { version: u16, name: Seq<char>, portal_edges: Seq<Edge> },
    Enter { edge: Edge, ratio: F32 },
    Leave,
    Input(InputEvent),
    CursorLeft { edge: Edge, ratio: F32 },
    Ping(u64),
    Pong(u64),
    Bye,
    DisplayPower { index: u32, expect: Rect, on: bool },
    DisplayPowerResult { index: u32, on: bool, error: Option<Seq<char>> },
    Monitors { screen: Rect, monitors: Seq<Rect> },
    SharedBlock { rect: Option<Rect> },
    EnterAt { x: i32, y: i32 },
    SharedCross { fx: F32, fy: F32 },
    SharedRequest { owner: Seq<char> },
    StateSync { state: Seq<char>, shared_configured: bool, owner: Seq<char> },
    UseAddr { addr: Seq<char> },
    Clipboard { text: Seq<char> },
    OpenUrl { url: Seq<char> },
    Arrange { monitors: Seq<Rect> },
}

impl View for Msg {
    type V = MsgView;

    open spec fn view(&self) -> MsgView {
        match *self {
            Msg::Hello { version, name, os, screen, monitors } => MsgView::Hello {
                version,
                name: name@,
                os: os@,
                screen,
                monitors: monitors@,
            },
            Msg::Welcome { version, name, portal_edges } => MsgView::Welcome {
                version,
                name: name@,
                portal_edges: portal_edges@,
            },
            Msg::Enter { edge, ratio } => MsgView::Enter { edge, ratio },
            Msg::Leave => MsgView::Leave,
            Msg::Input(ev) => MsgView::Input(ev),
            Msg::CursorLeft { edge, ratio } => MsgView::CursorLeft { edge, ratio },
            Msg::Ping(n) => MsgView::Ping(n),
            Msg::Pong(n) => MsgView::Pong(n),
            Msg::Bye => MsgView::Bye,
            Msg::DisplayPower { index, expect, on } => MsgView::DisplayPower { index, expect, on },
            Msg::DisplayPowerResult { index, on, error } => MsgView::DisplayPowerResult {
                index,
                on,
                error: crate::text::opt_text(error),
            },
            Msg::Monitors { screen, monitors } => MsgView::Monitors { screen, monitors: monitors@ },
            Msg::SharedBlock { rect } => MsgView::SharedBlock { rect },
            Msg::EnterAt { x, y } => MsgView::EnterAt { x, y },
            Msg::SharedCross { fx, fy } => MsgView::SharedCross { fx, fy },
            Msg::SharedRequest { owner } => MsgView::SharedRequest { owner: owner@ },
            Msg::StateSync { state, shared_configured, owner } => MsgView::StateSync {
                state: state@,
                shared_configured,
                owner: owner@,
            },
            Msg::UseAddr { addr } => MsgView::UseAddr { addr: addr@ },
            Msg::Clipboard { text } => MsgView::Clipboard { text: text@ },
            Msg::OpenUrl { url } => MsgView::OpenUrl { url: url@ },
            Msg::Arrange { monitors } => MsgView::Arrange { monitors: monitors@ },
        }
    }
}

/// First frame on a fresh connection, in plaintext, so that the listening
/// machine can select the right key before the handshake. The peer name is the
/// only plaintext metadata.
#[derive(Debug)]
pub enum Intro {
    Session { name: String },
    Pair,
}

} // verus!
