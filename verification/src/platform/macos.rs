//! macOS capture: what the event tap makes of each event.
//!
//! While forwarding, events are swallowed and the cursor is frozen; mouse deltas keep
//! flowing to the tap with the cursor pinned, exactly like an FPS game grabs the mouse.
use vstd::prelude::*;

use crate::engine::panel::{self, to_coord};
use crate::engine::Captured;
use crate::keymap::{self, native_to_hid, Os};
use crate::layout::{self, hold, ratio_on_edge, Edge};
use crate::platform::{self, elapsed, touched, CaptureCtl, Escape};
use crate::proto::{InputEvent, MouseButton, Rect};

verus! {

// CGEventType values.
pub const ET_LEFT_DOWN: u32 = 1;

pub const ET_LEFT_UP: u32 = 2;

pub const ET_RIGHT_DOWN: u32 = 3;

pub const ET_RIGHT_UP: u32 = 4;

pub const ET_MOVED: u32 = 5;

pub const ET_LEFT_DRAG: u32 = 6;

pub const ET_RIGHT_DRAG: u32 = 7;

pub const ET_KEY_DOWN: u32 = 10;

pub const ET_KEY_UP: u32 = 11;

pub const ET_FLAGS: u32 = 12;

pub const ET_SCROLL: u32 = 22;

pub const ET_OTHER_DOWN: u32 = 25;

pub const ET_OTHER_UP: u32 = 26;

pub const ET_OTHER_DRAG: u32 = 27;

pub const ET_TAP_DISABLED_TIMEOUT: u32 = 0xFFFF_FFFE;

pub const ET_TAP_DISABLED_INPUT: u32 = 0xFFFF_FFFF;

// CGEventFlags masks.
pub const FLAG_CAPS: u64 = 0x0001_0000;

pub const FLAG_SHIFT: u64 = 0x0002_0000;

pub const FLAG_CTRL: u64 = 0x0004_0000;

pub const FLAG_ALT: u64 = 0x0008_0000;

pub const FLAG_CMD: u64 = 0x0010_0000;

// Virtual keys with a meaning of their own.
pub const VK_M: i64 = 46;

pub const VK_T: i64 = 17;

pub const VK_ESC: u16 = 53;

// ------------------------------------------------------------- pointer ----

/// Whether the local pointer is hidden. Hiding and showing it is counted by the system:
/// two hides need two shows, so each is asked for once.
#[derive(Clone, Copy, Debug, PartialEq, Eq, Structural)]
pub struct Pointer {
    pub hidden: bool,
}

/// What is asked of the system.
#[derive(Clone, Copy, Debug, PartialEq, Eq, Structural)]
pub struct PointerChange {
    /// The mouse moves the pointer.
    pub associated: bool,
    /// Hide the pointer (true) or show it (false).
    pub hide: Option<bool>,
}

impl Pointer {
    /// The pointer after forwarding was switched on or off, and what is asked for.
    pub open spec fn switched(self, on: bool) -> (Pointer, PointerChange) {
        (
            Pointer { hidden: on },
            PointerChange {
                associated: !on,
                hide: if on == self.hidden {
                    None
                } else {
                    Some(on)
                },
            },
        )
    }

    /// Hides and detaches the local pointer while input is forwarded.
    pub fn set_forwarding_visuals(&mut self, on: bool) -> (r: PointerChange)
        ensures
            (*final(self), r) == old(self).switched(on),
    {
        let hide: Option<bool> = if on == self.hidden {
            None
        } else {
            Some(on)
        };
        self.hidden = on;
        PointerChange { associated: !on, hide }
    }
}

/// Hides and shows alternate: what was asked for last is never asked for again before
/// its opposite.
pub proof fn law_hides_and_shows_alternate(p: Pointer, first: bool, second: bool)
    ensures
        p.switched(first).0.switched(second).1.hide != Some(first),
        p.switched(first).1.hide is Some ==> p.hidden != first,
{
}

// ------------------------------------------------------------- capture ----

/// An event as the tap sees it.
#[derive(Clone, Copy, Debug, PartialEq, Eq, Structural)]
pub struct TapEvent {
    pub kind: u32,
    pub keycode: i64,
    pub flags: u64,
    pub x: i32,
    pub y: i32,
    pub dx: i32,
    pub dy: i32,
    pub button: i64,
    /// In lines.
    pub scroll_x: i32,
    pub scroll_y: i32,
}

/// What the tap does with an event.
#[derive(Clone, Copy, Debug, PartialEq, Eq)]
pub struct TapReply {
    /// macOS disables taps it thinks are too slow; recover immediately.
    pub reenable: bool,
    /// The event ends here.
    pub swallow: bool,
    /// Hide or show the local cursor.
    pub visuals: Option<bool>,
    /// Where to put the local cursor.
    pub warp: Option<(i32, i32)>,
    /// What the router hears.
    pub captured: Option<Captured>,
}

/// An edge against which the cursor rests, and since when.
#[derive(Clone, Copy, Debug, PartialEq, Eq, Structural)]
pub struct EdgePending {
    pub edge: Edge,
    pub since: u64,
}

#[derive(Debug)]
pub struct CaptureState {
    /// Modifier keycodes currently held (for flagsChanged press/release).
    pub mods_down: Vec<u16>,
    pub esc: Escape,
    /// While a dwell is configured: which portal edge the cursor is currently resting
    /// against, and since when. Cleared when it leaves the edge.
    pub edge_pending: Option<EdgePending>,
    /// Where the local cursor is pinned while forwarding. Every swallowed pointer event
    /// warps back here, so the local pointer is rock-solid even if the OS re-associates
    /// the mouse under us.
    pub park: (i32, i32),
}

/// What the tap remembers.
#[verifier::ext_equal]
pub ghost struct StateView {
    pub mods_down: Seq<u16>,
    pub esc: Escape,
    pub edge_pending: Option<EdgePending>,
    pub park: (i32, i32),
}

impl View for CaptureState {
    type V = StateView;

    open spec fn view(&self) -> StateView {
        StateView {
            mods_down: self.mods_down@,
            esc: self.esc,
            edge_pending: self.edge_pending,
            park: self.park,
        }
    }
}

/// The event goes on to where it was meant for.
pub open spec fn passed() -> TapReply {
    TapReply { reenable: false, swallow: false, visuals: None, warp: None, captured: None }
}

/// The event ends here.
pub open spec fn swallowed(captured: Option<Captured>) -> TapReply {
    TapReply { reenable: false, swallow: true, visuals: None, warp: None, captured }
}

/// Command, option and this key together.
pub open spec fn chord(ev: TapEvent, vk: i64) -> bool {
    ev.kind == ET_KEY_DOWN && ev.keycode == vk && ev.flags & FLAG_CMD != 0 && ev.flags & FLAG_ALT
        != 0
}

/// The cursor moved, with or without a button held.
pub open spec fn is_motion(kind: u32) -> bool {
    kind == ET_MOVED || kind == ET_LEFT_DRAG || kind == ET_RIGHT_DRAG || kind == ET_OTHER_DRAG
}

/// The point at which the cursor is pinned: a little inside the desktop, so that it is
/// off the boundary and won't re-trigger on return.
pub open spec fn park_at(bounds: Rect, x: int, y: int) -> (i32, i32) {
    (
        panel::coord(layout::held(x, bounds.x + 4, bounds.end_x() - 5)) as i32,
        panel::coord(layout::held(y, bounds.y + 4, bounds.end_y() - 5)) as i32,
    )
}

/// The cursor has rested long enough against an edge; with no dwell it always has.
pub open spec fn dwelt(
    pending: Option<EdgePending>,
    edge: Edge,
    dwell_ms: u64,
    now: u64,
) -> bool {
    dwell_ms == 0 || match pending {
        Some(p) => p.edge == edge && platform::since(now, p.since) >= dwell_ms * 1_000_000,
        None => false,
    }
}

/// The edge against which the cursor rests, and since when.
pub open spec fn charging(pending: Option<EdgePending>, edge: Edge, now: u64) -> EdgePending {
    match pending {
        Some(p) => if p.edge == edge {
            p
        } else {
            EdgePending { edge, since: now }
        },
        None => EdgePending { edge, since: now },
    }
}

/// What motion makes of the tap while input is local: crossing an armed edge flips into
/// forwarding *now*, so the very next event is already swallowed.
pub open spec fn moved(
    st: StateView,
    ctl: platform::CtlView,
    x: int,
    y: int,
    now: u64,
) -> (StateView, platform::CtlView, TapReply) {
    if now < ctl.cooldown_until {
        (st, ctl, passed())
    } else {
        match platform::touched_of(ctl.portals, ctl.bounds, x, y) {
            None => (StateView { edge_pending: None, ..st }, ctl, passed()),
            Some(edge) => if dwelt(st.edge_pending, edge, ctl.edge_dwell_ms, now) {
                let park = park_at(ctl.bounds, x, y);
                (
                    StateView { edge_pending: None, park, ..st },
                    platform::CtlView { forwarding: true, ..ctl },
                    TapReply {
                        visuals: Some(true),
                        warp: Some(park),
                        captured: Some(
                            Captured::EdgeHit {
                                edge,
                                ratio: layout::edge_ratio(ctl.bounds, edge, x, y),
                            },
                        ),
                        ..passed()
                    },
                )
            } else {
                (
                    StateView {
                        edge_pending: Some(charging(st.edge_pending, edge, now)),
                        ..st
                    },
                    ctl,
                    passed(),
                )
            },
        }
    }
}

/// A click of a button.
pub open spec fn click(button: MouseButton, pressed: bool) -> Option<InputEvent> {
    Some(InputEvent::MouseButton { button, pressed })
}

/// The button of a number beyond the first two.
pub open spec fn other_button(n: i64) -> MouseButton {
    if n == 3 {
        MouseButton::X1
    } else if n == 4 {
        MouseButton::X2
    } else {
        MouseButton::Middle
    }
}

/// What a key code is on the wire.
pub open spec fn key_event(vk: u16, pressed: bool) -> Option<InputEvent> {
    match keymap::hid_of(Os::MacOs, vk) {
        Some(key) => Some(InputEvent::Key { key, pressed }),
        None => None,
    }
}

/// Where a key code first stands in a list; its length where it does not.
pub open spec fn place_of(keys: Seq<u16>, vk: u16) -> int
    decreases keys.len(),
{
    if keys.len() == 0 || keys[0] == vk {
        0
    } else {
        1 + place_of(keys.skip(1), vk)
    }
}

/// The modifiers that are held after one of them changed: a key that was held is not
/// any more, one that was not is.
pub open spec fn toggled(mods: Seq<u16>, vk: u16) -> Seq<u16> {
    let i = place_of(mods, vk);
    if i < mods.len() {
        mods.remove(i)
    } else {
        mods.push(vk)
    }
}

/// What an event is on the wire.
pub open spec fn event_of(st: StateView, ev: TapEvent) -> Option<InputEvent> {
    if is_motion(ev.kind) {
        Some(InputEvent::MouseMove { dx: ev.dx, dy: ev.dy })
    } else if ev.kind == ET_LEFT_DOWN || ev.kind == ET_LEFT_UP {
        click(MouseButton::Left, ev.kind == ET_LEFT_DOWN)
    } else if ev.kind == ET_RIGHT_DOWN || ev.kind == ET_RIGHT_UP {
        click(MouseButton::Right, ev.kind == ET_RIGHT_DOWN)
    } else if ev.kind == ET_OTHER_DOWN || ev.kind == ET_OTHER_UP {
        click(other_button(ev.button), ev.kind == ET_OTHER_DOWN)
    } else if ev.kind == ET_SCROLL {
        Some(
            InputEvent::Wheel {
                dx: panel::coord(ev.scroll_x * 120) as i32,
                dy: panel::coord(ev.scroll_y * 120) as i32,
            },
        )
    } else if ev.kind == ET_KEY_DOWN || ev.kind == ET_KEY_UP {
        key_event(ev.keycode as u16, ev.kind == ET_KEY_DOWN)
    } else if ev.kind == ET_FLAGS {
        key_event(
            ev.keycode as u16,
            place_of(st.mods_down, ev.keycode as u16) == st.mods_down.len(),
        )
    } else {
        None
    }
}

/// A captured input event.
pub open spec fn input_of(e: Option<InputEvent>) -> Option<Captured> {
    match e {
        Some(i) => Some(Captured::Input(i)),
        None => None,
    }
}

/// What the tap makes of an event while input is forwarded: it is translated, shipped
/// and swallowed. The third Esc within the panic window brings input home instead.
pub open spec fn forwarded(
    st: StateView,
    ctl: platform::CtlView,
    ev: TapEvent,
    now: u64,
) -> (StateView, platform::CtlView, TapReply) {
    let esc = ev.kind == ET_KEY_DOWN && ev.keycode as u16 == VK_ESC;
    if esc && st.esc.hits(now) {
        (
            StateView { esc: st.esc.pressed(now), ..st },
            platform::CtlView { forwarding: false, ..ctl },
            TapReply { visuals: Some(false), ..swallowed(Some(Captured::Panic)) },
        )
    } else {
        let known = keymap::hid_of(Os::MacOs, ev.keycode as u16) is Some;
        let next = StateView {
            esc: if esc {
                st.esc.pressed(now)
            } else {
                st.esc
            },
            mods_down: if ev.kind == ET_FLAGS && known {
                toggled(st.mods_down, ev.keycode as u16)
            } else {
                st.mods_down
            },
            ..st
        };
        let warp = if is_motion(ev.kind) {
            Some(st.park)
        } else {
            None
        };
        (next, ctl, TapReply { warp, ..swallowed(input_of(event_of(st, ev))) })
    }
}

/// What the tap makes of an event. The two hotkeys work wherever the cursor currently
/// lives: the tap sees every physical key.
pub open spec fn tapped(
    st: StateView,
    ctl: platform::CtlView,
    ev: TapEvent,
    now: u64,
) -> (StateView, platform::CtlView, TapReply) {
    if ev.kind == ET_TAP_DISABLED_TIMEOUT || ev.kind == ET_TAP_DISABLED_INPUT {
        (st, ctl, TapReply { reenable: true, ..passed() })
    } else if ctl.shared_hotkey && chord(ev, VK_M) {
        (st, ctl, swallowed(Some(Captured::SharedHotkey)))
    } else if chord(ev, VK_T) {
        (st, ctl, swallowed(Some(Captured::TabletHotkey)))
    } else if ctl.forwarding {
        forwarded(st, ctl, ev, now)
    } else if is_motion(ev.kind) {
        moved(st, ctl, ev.x as int, ev.y as int, now)
    } else {
        (st, ctl, passed())
    }
}

/// While input is local, nothing is swallowed but the hotkeys.
pub proof fn law_local_input_passes(
    st: StateView,
    ctl: platform::CtlView,
    ev: TapEvent,
    now: u64,
)
    requires
        !ctl.forwarding,
        !chord(ev, VK_M),
        !chord(ev, VK_T),
    ensures
        !tapped(st, ctl, ev, now).2.swallow,
{
}

/// While input is forwarded, every event is swallowed; only the tap's own notices pass.
pub proof fn law_forwarded_input_is_swallowed(
    st: StateView,
    ctl: platform::CtlView,
    ev: TapEvent,
    now: u64,
)
    requires
        ctl.forwarding,
        ev.kind != ET_TAP_DISABLED_TIMEOUT,
        ev.kind != ET_TAP_DISABLED_INPUT,
    ensures
        tapped(st, ctl, ev, now).2.swallow,
{
}

/// Input starts being swallowed exactly when the router hears of an edge, and stops
/// exactly when it hears of the panic escape.
pub proof fn law_forwarding_flips_with_the_report(
    st: StateView,
    ctl: platform::CtlView,
    ev: TapEvent,
    now: u64,
)
    ensures
        ({
            let (_, after, reply) = tapped(st, ctl, ev, now);
            &&& (!ctl.forwarding && after.forwarding) == (reply.captured matches Some(c)
                && c is EdgeHit)
            &&& (ctl.forwarding && !after.forwarding) == (reply.captured == Some(Captured::Panic))
            &&& after == (platform::CtlView { forwarding: after.forwarding, ..ctl })
        }),
{
}

/// An arrival does not re-trigger: for the length of the cooldown after forwarding ended,
/// no edge is crossed.
pub proof fn law_no_crossing_in_the_cooldown(
    st: StateView,
    ctl: platform::CtlView,
    ev: TapEvent,
    at: u64,
    now: u64,
)
    requires
        now < at + platform::RETURN_COOLDOWN <= u64::MAX,
    ensures
        ({
            let home = ctl.told(crate::engine::action::ActionView::ExitForwarding, at);
            let (_, after, reply) = tapped(st, home, ev, now);
            !after.forwarding && !(reply.captured matches Some(c) && c is EdgeHit)
        }),
{
}

/// A quick brush does not jump screens: where a dwell is set, an edge is crossed only by a
/// cursor that has rested against it for that long.
pub proof fn law_a_brush_does_not_cross(
    st: StateView,
    ctl: platform::CtlView,
    ev: TapEvent,
    now: u64,
)
    requires
        ctl.edge_dwell_ms > 0,
    ensures
        tapped(st, ctl, ev, now).2.captured matches Some(Captured::EdgeHit { edge, .. })
            ==> st.edge_pending matches Some(p) && p.edge == edge && platform::since(now, p.since)
            >= ctl.edge_dwell_ms * 1_000_000,
{
}

/// A modifier's two changes are a press and a release, and leave nothing held behind.
pub proof fn law_modifier_changes_alternate(mods: Seq<u16>, vk: u16)
    requires
        place_of(mods, vk) == mods.len(),
    ensures
        place_of(toggled(mods, vk), vk) < toggled(mods, vk).len(),
        toggled(toggled(mods, vk), vk) == mods,
{
    lemma_place(mods, vk);
    lemma_place(mods.push(vk), vk);
    let i = place_of(mods.push(vk), vk);
    assert(mods.push(vk)[mods.len() as int] == vk);
    assert(i == mods.len()) by {
        if i < mods.len() {
            assert(mods[i] == vk);
        }
    }
    assert(mods.push(vk).remove(mods.len() as int) =~= mods);
}

/// A place is the first one of its key code.
proof fn lemma_place(keys: Seq<u16>, vk: u16)
    ensures
        0 <= place_of(keys, vk) <= keys.len(),
        place_of(keys, vk) < keys.len() ==> keys[place_of(keys, vk)] == vk,
        forall|j: int| 0 <= j < place_of(keys, vk) ==> #[trigger] keys[j] != vk,
        place_of(keys, vk) == keys.len() ==> !keys.contains(vk),
    decreases keys.len(),
{
    if keys.len() > 0 && keys[0] != vk {
        lemma_place(keys.skip(1), vk);
        assert forall|j: int| 0 <= j < place_of(keys, vk) implies #[trigger] keys[j] != vk by {
            if j > 0 {
                assert(keys[j] == keys.skip(1)[j - 1]);
            }
        }
    }
}

impl CaptureState {
    /// Nothing is held, nothing is pending.
    pub fn new() -> (r: CaptureState)
        ensures
            r@ == (StateView {
                mods_down: seq![],
                esc: Escape::none(),
                edge_pending: None,
                park: (0, 0),
            }),
    {
        let r: CaptureState = CaptureState {
            mods_down: Vec::new(),
            esc: Escape::new(),
            edge_pending: None,
            park: (0, 0),
        };
        assert(r@.mods_down =~= seq![]);
        r
    }

    /// A modifier changed: is it pressed now?
    fn toggle(&mut self, vk: u16) -> (r: bool)
        ensures
            r == (place_of(old(self)@.mods_down, vk) == old(self)@.mods_down.len()),
            final(self)@ == (StateView {
                mods_down: toggled(old(self)@.mods_down, vk),
                ..old(self)@
            }),
    {
        let ghost keys = self.mods_down@;
        let mut i: usize = 0;
        assert(keys.skip(0) =~= keys);
        while i < self.mods_down.len() && self.mods_down[i] != vk
            invariant
                i <= keys.len(),
                self@ == old(self)@,
                keys == self.mods_down@,
                place_of(keys, vk) == i + place_of(keys.skip(i as int), vk),
            decreases keys.len() - i,
        {
            assert(keys.skip(i as int).skip(1) =~= keys.skip(i + 1));
            i = i + 1;
        }
        if i < self.mods_down.len() {
            self.mods_down.remove(i);
            false
        } else {
            self.mods_down.push(vk);
            true
        }
    }

    /// Motion while input is local: does it cross an armed edge?
    fn maybe_enter_portal(&mut self, ctl: &mut CaptureCtl, x: i32, y: i32, now: u64) -> (r: TapReply)
        ensures
            (final(self)@, final(ctl)@, r) == moved(
                old(self)@,
                old(ctl)@,
                x as int,
                y as int,
                now,
            ),
    {
        let pass: TapReply = TapReply {
            reenable: false,
            swallow: false,
            visuals: None,
            warp: None,
            captured: None,
        };
        if now < ctl.cooldown_until {
            return pass;
        }
        let b: Rect = ctl.bounds;
        let edge: Edge = match touched(&ctl.portals, b, x, y) {
            Some(e) => e,
            None => {
                self.edge_pending = None;
                return pass;
            },
        };
        if ctl.edge_dwell_ms > 0 {
            let ready: bool = match self.edge_pending {
                Some(p) => p.edge == edge && elapsed(now, p.since) as u128 >= ctl.edge_dwell_ms
                    as u128 * 1_000_000,
                None => false,
            };
            if !ready {
                let since: u64 = match self.edge_pending {
                    Some(p) => if p.edge == edge {
                        p.since
                    } else {
                        now
                    },
                    None => now,
                };
                self.edge_pending = Some(EdgePending { edge, since });
                return pass;
            }
        }
        self.edge_pending = None;
        let px: i64 = hold(x as i64, b.x as i64 + 4, b.x as i64 + b.w as i64 - 5);
        let py: i64 = hold(y as i64, b.y as i64 + 4, b.y as i64 + b.h as i64 - 5);
        self.park = (to_coord(px), to_coord(py));
        ctl.forwarding = true;
        TapReply {
            reenable: false,
            swallow: false,
            visuals: Some(true),
            warp: Some(self.park),
            captured: Some(Captured::EdgeHit { edge, ratio: ratio_on_edge(b, edge, x, y) }),
        }
    }

    /// Translates an event while input is forwarded.
    fn translate(&mut self, ev: &TapEvent) -> (r: Option<InputEvent>)
        ensures
            r == event_of(old(self)@, *ev),
            final(self)@ == (StateView {
                mods_down: if ev.kind == ET_FLAGS && keymap::hid_of(
                    Os::MacOs,
                    ev.keycode as u16,
                ) is Some {
                    toggled(old(self)@.mods_down, ev.keycode as u16)
                } else {
                    old(self)@.mods_down
                },
                ..old(self)@
            }),
    {
        let k: u32 = ev.kind;
        if k == ET_MOVED || k == ET_LEFT_DRAG || k == ET_RIGHT_DRAG || k == ET_OTHER_DRAG {
            Some(InputEvent::MouseMove { dx: ev.dx, dy: ev.dy })
        } else if k == ET_LEFT_DOWN || k == ET_LEFT_UP {
            Some(InputEvent::MouseButton { button: MouseButton::Left, pressed: k == ET_LEFT_DOWN })
        } else if k == ET_RIGHT_DOWN || k == ET_RIGHT_UP {
            Some(
                InputEvent::MouseButton { button: MouseButton::Right, pressed: k == ET_RIGHT_DOWN },
            )
        } else if k == ET_OTHER_DOWN || k == ET_OTHER_UP {
            let button: MouseButton = if ev.button == 3 {
                MouseButton::X1
            } else if ev.button == 4 {
                MouseButton::X2
            } else {
                MouseButton::Middle
            };
            Some(InputEvent::MouseButton { button, pressed: k == ET_OTHER_DOWN })
        } else if k == ET_SCROLL {
            Some(
                InputEvent::Wheel {
                    dx: to_coord(ev.scroll_x as i64 * 120),
                    dy: to_coord(ev.scroll_y as i64 * 120),
                },
            )
        } else if k == ET_KEY_DOWN || k == ET_KEY_UP {
            match native_to_hid(Os::MacOs, ev.keycode as u16) {
                Some(key) => Some(InputEvent::Key { key, pressed: k == ET_KEY_DOWN }),
                None => None,
            }
        } else if k == ET_FLAGS {
            match native_to_hid(Os::MacOs, ev.keycode as u16) {
                Some(key) => {
                    let pressed: bool = self.toggle(ev.keycode as u16);
                    Some(InputEvent::Key { key, pressed })
                },
                None => None,
            }
        } else {
            None
        }
    }

    /// What the tap makes of an event.
    pub fn tap_callback(&mut self, ctl: &mut CaptureCtl, ev: &TapEvent, now: u64) -> (r: TapReply)
        ensures
            (final(self)@, final(ctl)@, r) == tapped(old(self)@, old(ctl)@, *ev, now),
    {
        let pass: TapReply = TapReply {
            reenable: false,
            swallow: false,
            visuals: None,
            warp: None,
            captured: None,
        };
        let k: u32 = ev.kind;
        if k == ET_TAP_DISABLED_TIMEOUT || k == ET_TAP_DISABLED_INPUT {
            return TapReply {
                reenable: true,
                swallow: false,
                visuals: None,
                warp: None,
                captured: None,
            };
        }
        let both: bool = k == ET_KEY_DOWN && ev.flags & FLAG_CMD != 0 && ev.flags & FLAG_ALT != 0;
        if ctl.shared_hotkey && both && ev.keycode == VK_M {
            return TapReply {
                reenable: false,
                swallow: true,
                visuals: None,
                warp: None,
                captured: Some(Captured::SharedHotkey),
            };
        }
        if both && ev.keycode == VK_T {
            return TapReply {
                reenable: false,
                swallow: true,
                visuals: None,
                warp: None,
                captured: Some(Captured::TabletHotkey),
            };
        }
        let motion: bool = k == ET_MOVED || k == ET_LEFT_DRAG || k == ET_RIGHT_DRAG || k
            == ET_OTHER_DRAG;
        if !ctl.forwarding {
            if motion {
                return self.maybe_enter_portal(ctl, ev.x, ev.y, now);
            }
            return pass;
        }
        if k == ET_KEY_DOWN && ev.keycode as u16 == VK_ESC && self.esc.press(now) {
            ctl.forwarding = false;
            return TapReply {
                reenable: false,
                swallow: true,
                visuals: Some(false),
                warp: None,
                captured: Some(Captured::Panic),
            };
        }
        let warp: Option<(i32, i32)> = if motion {
            Some(self.park)
        } else {
            None
        };
        let captured: Option<Captured> = match self.translate(ev) {
            Some(e) => Some(Captured::Input(e)),
            None => None,
        };
        TapReply { reenable: false, swallow: true, visuals: None, warp, captured }
    }
}

} // verus!
