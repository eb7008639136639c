//! Windows capture: what the low-level hooks make of each event.
//!
//! While forwarding, the hooks swallow events, so the physical cursor never moves; each
//! blocked motion still reports the *proposed* position, and the delta against the
//! parked position is the raw motion that is forwarded. The cursor is parked a safe
//! inset away from the portal edge so proposed positions are never clamped by the screen
//! bounds.
use vstd::prelude::*;

use crate::engine::panel::{self, to_coord};
use crate::engine::Captured;
use crate::keymap::{self, native_to_hid, Os};
use crate::layout::{self, ratio_on_edge, Edge};
use crate::platform::{self, touched, CaptureCtl, Escape};
use crate::proto::{InputEvent, MouseButton, Rect};

verus! {

pub const WM_MOUSEMOVE: u32 = 0x200;

pub const WM_LBUTTONDOWN: u32 = 0x201;

pub const WM_LBUTTONUP: u32 = 0x202;

pub const WM_RBUTTONDOWN: u32 = 0x204;

pub const WM_RBUTTONUP: u32 = 0x205;

pub const WM_MBUTTONDOWN: u32 = 0x207;

pub const WM_MBUTTONUP: u32 = 0x208;

pub const WM_MOUSEWHEEL: u32 = 0x20A;

pub const WM_XBUTTONDOWN: u32 = 0x20B;

pub const WM_XBUTTONUP: u32 = 0x20C;

pub const WM_MOUSEHWHEEL: u32 = 0x20E;

pub const WM_KEYDOWN: u32 = 0x100;

pub const WM_KEYUP: u32 = 0x101;

pub const WM_SYSKEYDOWN: u32 = 0x104;

pub const WM_SYSKEYUP: u32 = 0x105;

pub const VK_ESCAPE: u16 = 0x1B;

/// Park the cursor this far inside the portal edge while forwarding, so proposed
/// positions in the hook are never clamped by the desktop bounds.
pub const PARK_INSET: i32 = 300;

/// A mouse event as the hook sees it.
#[derive(Clone, Copy, Debug, PartialEq, Eq, Structural)]
pub struct MouseHook {
    /// Our own synthetic events: never touch them.
    pub injected: bool,
    pub msg: u32,
    pub x: i32,
    pub y: i32,
    /// The wheel delta or the X button, in the high word.
    pub data: u32,
}

/// A key event as the hook sees it.
#[derive(Clone, Copy, Debug, PartialEq, Eq, Structural)]
pub struct KeyHook {
    pub injected: bool,
    pub msg: u32,
    pub vk: u16,
}

/// What a hook does with an event.
#[derive(Clone, Copy, Debug, PartialEq, Eq)]
pub struct HookReply {
    pub swallow: bool,
    /// Where to put the physical cursor.
    pub park: Option<(i32, i32)>,
    /// What the router hears.
    pub captured: Option<Captured>,
}

#[derive(Clone, Copy, Debug, PartialEq, Eq)]
pub struct CapState {
    /// Where the physical cursor is parked while forwarding; deltas are computed against
    /// this point.
    pub park: (i32, i32),
    pub esc: Escape,
}

/// The event goes on.
pub open spec fn passed() -> HookReply {
    HookReply { swallow: false, park: None, captured: None }
}

/// The event ends here.
pub open spec fn swallowed(e: Option<InputEvent>) -> HookReply {
    HookReply {
        swallow: true,
        park: None,
        captured: match e {
            Some(i) => Some(Captured::Input(i)),
            None => None,
        },
    }
}

/// The point at which the cursor is parked: an inset away from an edge, on the desktop.
pub open spec fn park_of(bounds: Rect, edge: Edge, x: int, y: int) -> (int, int) {
    match edge {
        Edge::Left => (panel::lesser(bounds.x + PARK_INSET, bounds.end_x() - 1), y),
        Edge::Right => (panel::larger(bounds.end_x() - 1 - PARK_INSET, bounds.x as int), y),
        Edge::Top => (x, panel::lesser(bounds.y + PARK_INSET, bounds.end_y() - 1)),
        Edge::Bottom => (x, panel::larger(bounds.end_y() - 1 - PARK_INSET, bounds.y as int)),
    }
}

/// The point at which the cursor is parked.
pub fn park_point(bounds: Rect, edge: Edge, x: i32, y: i32) -> (r: (i32, i32))
    ensures
        ({
            let (px, py) = park_of(bounds, edge, x as int, y as int);
            r == (panel::coord(px) as i32, panel::coord(py) as i32)
        }),
{
    let right: i64 = bounds.x as i64 + bounds.w as i64;
    let bottom: i64 = bounds.y as i64 + bounds.h as i64;
    let left_in: i64 = bounds.x as i64 + PARK_INSET as i64;
    let top_in: i64 = bounds.y as i64 + PARK_INSET as i64;
    let right_in: i64 = right - 1 - PARK_INSET as i64;
    let bottom_in: i64 = bottom - 1 - PARK_INSET as i64;
    match edge {
        Edge::Left => (
            to_coord(
                if left_in < right - 1 {
                    left_in
                } else {
                    right - 1
                },
            ),
            y,
        ),
        Edge::Right => (
            to_coord(
                if right_in > bounds.x as i64 {
                    right_in
                } else {
                    bounds.x as i64
                },
            ),
            y,
        ),
        Edge::Top => (
            x,
            to_coord(
                if top_in < bottom - 1 {
                    top_in
                } else {
                    bottom - 1
                },
            ),
        ),
        Edge::Bottom => (
            x,
            to_coord(
                if bottom_in > bounds.y as i64 {
                    bottom_in
                } else {
                    bounds.y as i64
                },
            ),
        ),
    }
}

/// The parked cursor is on the desktop, wherever on it the edge was hit.
pub proof fn law_parked_on_the_desktop(bounds: Rect, edge: Edge, x: int, y: int)
    requires
        bounds.solid(),
        bounds.holds(x, y),
    ensures
        ({
            let (px, py) = park_of(bounds, edge, x, y);
            bounds.holds(px, py)
        }),
{
}

/// The high word of the data, unsigned.
pub open spec fn high_word(data: u32) -> int {
    data as int / 0x1_0000
}

/// The wheel delta in the data: its high word, signed.
pub open spec fn wheel_delta(data: u32) -> i32 {
    let h = high_word(data);
    (if h >= 0x8000 {
        h - 0x1_0000
    } else {
        h
    }) as i32
}

/// The wheel delta in the data.
fn read_wheel(data: u32) -> (r: i32)
    ensures
        r == wheel_delta(data),
{
    let h: i32 = (data / 0x1_0000) as i32;
    if h >= 0x8000 {
        h - 0x1_0000
    } else {
        h
    }
}

/// What a mouse event is on the wire.
pub open spec fn mouse_event(park: (i32, i32), ev: MouseHook) -> Option<InputEvent> {
    if ev.msg == WM_MOUSEMOVE {
        let dx = panel::coord(ev.x - park.0) as i32;
        let dy = panel::coord(ev.y - park.1) as i32;
        if dx == 0 && dy == 0 {
            None
        } else {
            Some(InputEvent::MouseMove { dx, dy })
        }
    } else if ev.msg == WM_LBUTTONDOWN || ev.msg == WM_LBUTTONUP {
        Some(
            InputEvent::MouseButton {
                button: MouseButton::Left,
                pressed: ev.msg == WM_LBUTTONDOWN,
            },
        )
    } else if ev.msg == WM_RBUTTONDOWN || ev.msg == WM_RBUTTONUP {
        Some(
            InputEvent::MouseButton {
                button: MouseButton::Right,
                pressed: ev.msg == WM_RBUTTONDOWN,
            },
        )
    } else if ev.msg == WM_MBUTTONDOWN || ev.msg == WM_MBUTTONUP {
        Some(
            InputEvent::MouseButton {
                button: MouseButton::Middle,
                pressed: ev.msg == WM_MBUTTONDOWN,
            },
        )
    } else if ev.msg == WM_XBUTTONDOWN || ev.msg == WM_XBUTTONUP {
        Some(
            InputEvent::MouseButton {
                button: if high_word(ev.data) == 2 {
                    MouseButton::X2
                } else {
                    MouseButton::X1
                },
                pressed: ev.msg == WM_XBUTTONDOWN,
            },
        )
    } else if ev.msg == WM_MOUSEWHEEL {
        Some(InputEvent::Wheel { dx: 0, dy: wheel_delta(ev.data) })
    } else if ev.msg == WM_MOUSEHWHEEL {
        Some(InputEvent::Wheel { dx: wheel_delta(ev.data), dy: 0 })
    } else {
        None
    }
}

/// What a mouse event is on the wire.
fn translate(park: (i32, i32), ev: &MouseHook) -> (r: Option<InputEvent>)
    ensures
        r == mouse_event(park, *ev),
{
    let m: u32 = ev.msg;
    if m == WM_MOUSEMOVE {
        let dx: i32 = to_coord(ev.x as i64 - park.0 as i64);
        let dy: i32 = to_coord(ev.y as i64 - park.1 as i64);
        if dx == 0 && dy == 0 {
            None
        } else {
            Some(InputEvent::MouseMove { dx, dy })
        }
    } else if m == WM_LBUTTONDOWN || m == WM_LBUTTONUP {
        Some(InputEvent::MouseButton { button: MouseButton::Left, pressed: m == WM_LBUTTONDOWN })
    } else if m == WM_RBUTTONDOWN || m == WM_RBUTTONUP {
        Some(InputEvent::MouseButton { button: MouseButton::Right, pressed: m == WM_RBUTTONDOWN })
    } else if m == WM_MBUTTONDOWN || m == WM_MBUTTONUP {
        Some(InputEvent::MouseButton { button: MouseButton::Middle, pressed: m == WM_MBUTTONDOWN })
    } else if m == WM_XBUTTONDOWN || m == WM_XBUTTONUP {
        let button: MouseButton = if ev.data / 0x1_0000 == 2 {
            MouseButton::X2
        } else {
            MouseButton::X1
        };
        Some(InputEvent::MouseButton { button, pressed: m == WM_XBUTTONDOWN })
    } else if m == WM_MOUSEWHEEL {
        Some(InputEvent::Wheel { dx: 0, dy: read_wheel(ev.data) })
    } else if m == WM_MOUSEHWHEEL {
        Some(InputEvent::Wheel { dx: read_wheel(ev.data), dy: 0 })
    } else {
        None
    }
}

/// What motion makes of the hook while input is local.
pub open spec fn moved(
    st: CapState,
    ctl: platform::CtlView,
    x: int,
    y: int,
    now: u64,
) -> (CapState, platform::CtlView, HookReply) {
    if now < ctl.cooldown_until {
        (st, ctl, passed())
    } else {
        match platform::touched_of(ctl.portals, ctl.bounds, x, y) {
            None => (st, ctl, passed()),
            Some(edge) => {
                let (px, py) = park_of(ctl.bounds, edge, x, y);
                let park = (panel::coord(px) as i32, panel::coord(py) as i32);
                (
                    CapState { park, ..st },
                    platform::CtlView { forwarding: true, ..ctl },
                    HookReply {
                        swallow: false,
                        park: Some(park),
                        captured: Some(
                            Captured::EdgeHit {
                                edge,
                                ratio: layout::edge_ratio(ctl.bounds, edge, x, y),
                            },
                        ),
                    },
                )
            },
        }
    }
}

/// What the mouse hook makes of an event.
pub open spec fn mouse_hooked(
    st: CapState,
    ctl: platform::CtlView,
    ev: MouseHook,
    now: u64,
) -> (CapState, platform::CtlView, HookReply) {
    if ev.injected {
        (st, ctl, passed())
    } else if ctl.forwarding {
        (st, ctl, swallowed(mouse_event(st.park, ev)))
    } else if ev.msg == WM_MOUSEMOVE {
        moved(st, ctl, ev.x as int, ev.y as int, now)
    } else {
        (st, ctl, passed())
    }
}

/// A key was pressed or released; nothing else counts.
pub open spec fn key_change(msg: u32) -> Option<bool> {
    if msg == WM_KEYDOWN || msg == WM_SYSKEYDOWN {
        Some(true)
    } else if msg == WM_KEYUP || msg == WM_SYSKEYUP {
        Some(false)
    } else {
        None
    }
}

/// What the keyboard hook makes of an event. The third Esc within the panic window
/// brings input home.
pub open spec fn key_hooked(
    st: CapState,
    ctl: platform::CtlView,
    ev: KeyHook,
    now: u64,
) -> (CapState, platform::CtlView, HookReply) {
    if ev.injected || !ctl.forwarding {
        (st, ctl, passed())
    } else {
        match key_change(ev.msg) {
            None => (st, ctl, passed()),
            Some(pressed) => {
                let esc = pressed && ev.vk == VK_ESCAPE;
                let next = if esc {
                    CapState { esc: st.esc.pressed(now), ..st }
                } else {
                    st
                };
                if esc && st.esc.hits(now) {
                    (
                        next,
                        platform::CtlView { forwarding: false, ..ctl },
                        HookReply { swallow: true, park: None, captured: Some(Captured::Panic) },
                    )
                } else {
                    let e = match keymap::hid_of(Os::Windows, ev.vk) {
                        Some(key) => Some(InputEvent::Key { key, pressed }),
                        None => None,
                    };
                    (next, ctl, swallowed(e))
                }
            },
        }
    }
}

/// Synthetic events pass both hooks untouched, so injected input never loops back.
pub proof fn law_injected_input_passes(
    st: CapState,
    ctl: platform::CtlView,
    m: MouseHook,
    k: KeyHook,
    now: u64,
)
    requires
        m.injected,
        k.injected,
    ensures
        mouse_hooked(st, ctl, m, now) == (st, ctl, passed()),
        key_hooked(st, ctl, k, now) == (st, ctl, passed()),
{
}

/// While input is local, nothing is swallowed.
pub proof fn law_local_input_passes(
    st: CapState,
    ctl: platform::CtlView,
    m: MouseHook,
    k: KeyHook,
    now: u64,
)
    requires
        !ctl.forwarding,
    ensures
        !mouse_hooked(st, ctl, m, now).2.swallow,
        !key_hooked(st, ctl, k, now).2.swallow,
{
}

/// While input is forwarded, every physical event is swallowed.
pub proof fn law_forwarded_input_is_swallowed(
    st: CapState,
    ctl: platform::CtlView,
    m: MouseHook,
    k: KeyHook,
    now: u64,
)
    requires
        ctl.forwarding,
        !m.injected,
        !k.injected,
        key_change(k.msg) is Some,
    ensures
        mouse_hooked(st, ctl, m, now).2.swallow,
        key_hooked(st, ctl, k, now).2.swallow,
{
}

/// Input starts being swallowed exactly when the router hears of an edge, and stops
/// exactly when it hears of the panic escape.
pub proof fn law_forwarding_flips_with_the_report(
    st: CapState,
    ctl: platform::CtlView,
    m: MouseHook,
    k: KeyHook,
    now: u64,
)
    ensures
        ({
            let (_, after, reply) = mouse_hooked(st, ctl, m, now);
            &&& (!ctl.forwarding && after.forwarding) == (reply.captured matches Some(c)
                && c is EdgeHit)
            &&& ctl.forwarding ==> after.forwarding
            &&& after == (platform::CtlView { forwarding: after.forwarding, ..ctl })
        }),
        ({
            let (_, after, reply) = key_hooked(st, ctl, k, now);
            &&& (ctl.forwarding && !after.forwarding) == (reply.captured == Some(Captured::Panic))
            &&& after.forwarding ==> ctl.forwarding
            &&& after == (platform::CtlView { forwarding: after.forwarding, ..ctl })
        }),
{
}

/// An arrival does not re-trigger: for the length of the cooldown after forwarding ended,
/// no edge is crossed.
pub proof fn law_no_crossing_in_the_cooldown(
    st: CapState,
    ctl: platform::CtlView,
    m: MouseHook,
    at: u64,
    now: u64,
)
    requires
        now < at + platform::RETURN_COOLDOWN <= u64::MAX,
    ensures
        ({
            let home = ctl.told(crate::engine::action::ActionView::ExitForwarding, at);
            let (_, after, reply) = mouse_hooked(st, home, m, now);
            !after.forwarding && reply.captured is None
        }),
{
}

impl CapState {
    /// Parked at the origin.
    pub fn new() -> (r: CapState)
        ensures
            r == (CapState { park: (0, 0), esc: Escape::none() }),
    {
        CapState { park: (0, 0), esc: Escape::new() }
    }

    /// Motion while input is local: does it cross an armed edge?
    fn maybe_enter_portal(&mut self, ctl: &mut CaptureCtl, x: i32, y: i32, now: u64) -> (r: HookReply)
        ensures
            (*final(self), final(ctl)@, r) == moved(
                *old(self),
                old(ctl)@,
                x as int,
                y as int,
                now,
            ),
    {
        if now < ctl.cooldown_until {
            return HookReply { swallow: false, park: None, captured: None };
        }
        let b: Rect = ctl.bounds;
        match touched(&ctl.portals, b, x, y) {
            Some(edge) => {
                let park: (i32, i32) = park_point(b, edge, x, y);
                self.park = park;
                ctl.forwarding = true;
                HookReply {
                    swallow: false,
                    park: Some(park),
                    captured: Some(
                        Captured::EdgeHit { edge, ratio: ratio_on_edge(b, edge, x, y) },
                    ),
                }
            },
            None => HookReply { swallow: false, park: None, captured: None },
        }
    }

    /// What the mouse hook makes of an event.
    pub fn mouse_proc(&mut self, ctl: &mut CaptureCtl, ev: &MouseHook, now: u64) -> (r: HookReply)
        ensures
            (*final(self), final(ctl)@, r) == mouse_hooked(*old(self), old(ctl)@, *ev, now),
    {
        if ev.injected {
            return HookReply { swallow: false, park: None, captured: None };
        }
        if !ctl.forwarding {
            if ev.msg == WM_MOUSEMOVE {
                return self.maybe_enter_portal(ctl, ev.x, ev.y, now);
            }
            return HookReply { swallow: false, park: None, captured: None };
        }
        let captured: Option<Captured> = match translate(self.park, ev) {
            Some(e) => Some(Captured::Input(e)),
            None => None,
        };
        HookReply { swallow: true, park: None, captured }
    }

    /// What the keyboard hook makes of an event.
    pub fn keyboard_proc(&mut self, ctl: &mut CaptureCtl, ev: &KeyHook, now: u64) -> (r: HookReply)
        ensures
            (*final(self), final(ctl)@, r) == key_hooked(*old(self), old(ctl)@, *ev, now),
    {
        let pass: HookReply = HookReply { swallow: false, park: None, captured: None };
        if ev.injected || !ctl.forwarding {
            return pass;
        }
        let pressed: bool = ev.msg == WM_KEYDOWN || ev.msg == WM_SYSKEYDOWN;
        let released: bool = ev.msg == WM_KEYUP || ev.msg == WM_SYSKEYUP;
        if !(pressed || released) {
            return pass;
        }
        if pressed && ev.vk == VK_ESCAPE && self.esc.press(now) {
            ctl.forwarding = false;
            return HookReply { swallow: true, park: None, captured: Some(Captured::Panic) };
        }
        let captured: Option<Captured> = match native_to_hid(Os::Windows, ev.vk) {
            Some(key) => Some(Captured::Input(InputEvent::Key { key, pressed })),
            None => None,
        };
        HookReply { swallow: true, park: None, captured }
    }

    /// The cursor was put somewhere: deltas count from there.
    pub fn warped(&mut self, x: i32, y: i32)
        ensures
            *final(self) == (CapState { park: (x, y), ..*old(self) }),
    {
        self.park = (x, y);
    }
}

} // verus!
