//! What capture and injection are for: what is captured on one machine and injected on
//! another does there what it did here.
use vstd::prelude::*;

use crate::binary32::{self, of_int};
use crate::engine::action::ActionView;
use crate::engine::model;
use crate::engine::Captured;
use crate::geometry::{
    inside_by, is_desktop, is_ratio, law_ratio_is_the_part_of_the_length, ratio_value,
};
use crate::keymap::{self, Os};
use crate::layout::{self, Edge};
use crate::platform::macos::{self, TapEvent};
use crate::platform::macos_injector::{self as mac, MacEvent};
use crate::platform::windows::{self, CapState, MouseHook};
use crate::platform::windows_injector::{self as win, WinInput};
use crate::platform::{self, CtlView};
use crate::proto::{InputEvent, MouseButton, Rect};
use crate::reals::{
    lemma_divided, lemma_nearest_parts, lemma_of_int, lemma_order, lemma_power,
    lemma_power_monotone, lemma_quotient_real, lemma_sign, power, real_of, size_of,
};

verus! {

// -------------------------------------------------------------- Windows ----

/// Normalizing is linear, to within one unit of 65536: every pixel of the desktop goes to
/// its part of the whole, in order.
pub proof fn law_normalizing_is_linear(offset: int, length: int)
    requires
        0 <= offset < length,
        length > 1,
    ensures
        ({
            let n = win::normalized(offset, length);
            &&& n * (length - 1) <= offset * 65535 < (n + 1) * (length - 1)
            &&& offset + 1 < length && length <= 65536 ==> n < win::normalized(offset + 1, length)
        }),
{
    let span = length - 1;
    let n = win::normalized(offset, length);
    let a = offset * 65535;
    assert(n == a / span);
    assert(n * span <= a < (n + 1) * span) by (nonlinear_arith)
        requires
            n == a / span,
            span > 0,
    ;
    if offset + 1 < length && length <= 65536 {
        let m = win::normalized(offset + 1, length);
        let c = (offset + 1) * 65535;
        assert(m == c / span);
        assert(c == a + 65535) by (nonlinear_arith)
            requires
                c == (offset + 1) * 65535,
                a == offset * 65535,
        ;
        assert(n < m) by (nonlinear_arith)
            requires
                n == a / span,
                m == c / span,
                c == a + 65535,
                0 < span <= 65535,
                n * span <= a,
        ;
    }
}

/// A motion to a point of a Windows desktop asks for just that point: absolute, over the
/// whole desktop, each coordinate at its part of the whole.
pub proof fn law_windows_cursor_goes_to_the_point(b: Rect, x: i32, y: i32)
    requires
        b.solid() && b.w > 1 && b.h > 1,
        b.holds(x as int, y as int),
    ensures
        win::motion_input(b, x, y) matches WinInput::Mouse { flags, dx, dy, data } && {
            &&& flags == 0x8000 + 0x4000 + 0x0001
            &&& data == 0
            &&& dx * (b.w - 1) <= (x - b.x) * 65535 < (dx + 1) * (b.w - 1)
            &&& dy * (b.h - 1) <= (y - b.y) * 65535 < (dy + 1) * (b.h - 1)
        },
{
    law_normalizing_is_linear(x - b.x, b.w as int);
    law_normalizing_is_linear(y - b.y, b.h as int);
    win::law_normalized_spans_the_desktop(x - b.x, b.w as int);
    win::law_normalized_spans_the_desktop(y - b.y, b.h as int);
}

/// The place of a button in the order left, right, middle, and the two on the side.
pub open spec fn rank(b: MouseButton) -> int {
    match b {
        MouseButton::Left => 0,
        MouseButton::Right => 1,
        MouseButton::Middle => 2,
        MouseButton::X1 => 3,
        MouseButton::X2 => 4,
    }
}

/// The flag of a button of this rank.
pub open spec fn flag_at(rank: int) -> int
    decreases rank,
{
    if rank <= 0 {
        2
    } else if rank > 3 {
        flag_at(3)
    } else {
        4 * flag_at(rank - 1)
    }
}

/// Windows is sent the button that is meant: the flags are in the order of the buttons, a
/// release is the flag after the press, and a side button is told by its number.
pub proof fn law_windows_buttons(b: MouseButton, pressed: bool)
    ensures
        win::button_input(b, pressed) matches WinInput::Mouse { flags, dx, dy, data } && {
            &&& flags == flag_at(rank(b)) * (if pressed {
                1int
            } else {
                2
            })
            &&& data == (if rank(b) >= 3 {
                rank(b) - 2
            } else {
                0
            })
            &&& dx == 0 && dy == 0
        },
{
    reveal_with_fuel(flag_at, 5);
}

/// What the hook reports of a button of this rank: the message and the data.
pub open spec fn hooked_button(b: MouseButton, pressed: bool) -> (int, int) {
    let base = if rank(b) < 3 {
        0x201 + 3 * rank(b)
    } else {
        0x20B
    };
    (
        if pressed {
            base
        } else {
            base + 1
        },
        if rank(b) < 3 {
            0
        } else {
            (rank(b) - 2) * 0x1_0000
        },
    )
}

/// A button that is pressed or released on a Windows machine is captured as what it is.
pub proof fn law_windows_buttons_are_captured(
    park: (i32, i32),
    ev: MouseHook,
    b: MouseButton,
    pressed: bool,
)
    requires
        (ev.msg as int, ev.data as int) == hooked_button(b, pressed),
    ensures
        windows::mouse_event(park, ev) == Some(InputEvent::MouseButton { button: b, pressed }),
{
}

/// A motion of a Windows mouse is captured as what takes the cursor from where it is parked
/// to where it would be.
pub proof fn law_windows_motion_is_captured(park: (i32, i32), ev: MouseHook)
    requires
        ev.msg == windows::WM_MOUSEMOVE,
        i32::MIN <= ev.x - park.0 <= i32::MAX,
        i32::MIN <= ev.y - park.1 <= i32::MAX,
    ensures
        match windows::mouse_event(park, ev) {
            Some(InputEvent::MouseMove { dx, dy }) => park.0 + dx == ev.x && park.1 + dy == ev.y,
            Some(_) => false,
            None => ev.x == park.0 && ev.y == park.1,
        },
{
}

/// A turn of a wheel is captured as what it is: signed, each wheel for itself.
pub proof fn law_windows_wheels_are_captured(park: (i32, i32), ev: MouseHook, turn: int)
    requires
        -0x8000 <= turn < 0x8000,
        ev.data as int / 0x1_0000 == if turn < 0 {
            turn + 0x1_0000
        } else {
            turn
        },
        ev.msg == 0x20A || ev.msg == 0x20E,
    ensures
        windows::mouse_event(park, ev) matches Some(InputEvent::Wheel { dx, dy }) && {
            &&& ev.msg == 0x20A ==> dx == 0 && dy == turn
            &&& ev.msg == 0x20E ==> dx == turn && dy == 0
        },
{
}

/// Windows is turned the wheels that moved, each by as much, and no other.
pub proof fn law_windows_wheels(dx: i32, dy: i32)
    ensures
        ({
            let w = win::wheel_inputs(dx, dy);
            let (up, side) = (
                WinInput::Mouse { flags: 0x800, dx: 0, dy: 0, data: dy },
                WinInput::Mouse { flags: 0x1000, dx: 0, dy: 0, data: dx },
            );
            &&& w.contains(up) == (dy != 0)
            &&& w.contains(side) == (dx != 0)
            &&& forall|i: int| 0 <= i < w.len() ==> w[i] == up || w[i] == side
            &&& w.len() <= 2
        }),
{
    let w = win::wheel_inputs(dx, dy);
    if dy != 0 {
        assert(w[0] is Mouse);
    }
    if dx != 0 {
        assert(w[w.len() - 1] is Mouse);
    }
}

/// A key goes to Windows as pressed or released as it is, and the keys of letters, digits
/// and functions go by their codes.
pub proof fn law_windows_keys(hid: u16, pressed: bool)
    ensures
        win::key_input(hid, pressed) matches Some(i) ==> i matches WinInput::Key { vk, up, .. } && up
            == !pressed && keymap::native_of(Os::Windows, hid) == Some(vk),
        0x04 <= hid <= 0x1D ==> keymap::native_of(Os::Windows, hid) == Some((hid + 0x3D) as u16),
        0x1E <= hid <= 0x26 ==> keymap::native_of(Os::Windows, hid) == Some((hid + 0x13) as u16),
        0x3A <= hid <= 0x45 ==> keymap::native_of(Os::Windows, hid) == Some((hid + 0x36) as u16),
        0x68 <= hid <= 0x6E ==> keymap::native_of(Os::Windows, hid) == Some((hid + 0x14) as u16),
        0x59 <= hid <= 0x61 ==> keymap::native_of(Os::Windows, hid) == Some((hid + 8) as u16),
{
}

// ---------------------------------------------------------------- macOS ----

/// macOS is posted the button that is meant, by its number, where the cursor is; what is
/// posted is captured as that button, pressed or released alike.
pub proof fn law_mac_buttons(
    v: mac::InjectorView,
    b: MouseButton,
    pressed: bool,
    now: u64,
    st: macos::StateView,
    ev: TapEvent,
)
    ensures
        v.button_post(b, pressed, now).event matches MacEvent::Click { kind, button, x, y, .. } && {
            &&& button == rank(b)
            &&& kind == (if rank(b) < 2 {
                1 + 2 * rank(b)
            } else {
                25
            }) + (if pressed {
                0int
            } else {
                1
            })
            &&& x == v.x && y == v.y
            &&& ev.kind == kind && ev.button == button ==> macos::event_of(st, ev) == Some(
                InputEvent::MouseButton { button: b, pressed },
            )
        },
        v.button_post(b, pressed, now).flags == v.flags,
        v.after_button(b, pressed, now).down_buttons == model::after_press(
            v.down_buttons,
            b,
            pressed,
        ),
{
}

/// A motion puts the macOS cursor on the point, keeps the raw motion for those who read it,
/// and is a drag exactly while a button is held; it is captured as that motion.
pub proof fn law_mac_motion(
    v: mac::InjectorView,
    x: i32,
    y: i32,
    dx: i32,
    dy: i32,
    st: macos::StateView,
    ev: TapEvent,
)
    ensures
        ({
            let (w, post) = v.moved_to(x, y, dx, dy);
            &&& w.x == x && w.y == y && w.down_buttons == v.down_buttons && w.down_keys
                == v.down_keys
            &&& post.flags == v.flags
            &&& post.event matches MacEvent::Motion { kind, button, x: px, y: py, dx: ex, dy: ey }
                && {
                &&& px == x && py == y && ex == dx && ey == dy
                &&& (kind == 5) == (!v.left_down && !v.right_down && !v.other_down)
                &&& v.left_down ==> kind == 6 && button == 0
                &&& !v.left_down && v.right_down ==> kind == 7 && button == 1
                &&& ev.kind == kind && ev.dx == dx && ev.dy == dy ==> macos::event_of(st, ev)
                    == Some(InputEvent::MouseMove { dx, dy })
            }
        }),
{
}

/// Wheel units become the nearest number of lines, and never none where there was motion.
pub proof fn law_lines_are_the_nearest(v: int)
    requires
        0 < v <= 0x10_0000,
    ensures
        mac::lines_of(v) >= 1,
        mac::lines_of(v) * 120 <= v + 120,
        v >= 61 ==> -61 <= mac::lines_of(v) * 120 - v <= 61,
        v % 120 == 0 ==> mac::lines_of(v) * 120 == v,
{
    let q = binary32::quotient(of_int(v), of_int(120));
    lemma_notches(v);
    let t = (binary32::halved(q.0 as nat, -q.1 - 1) + 1) / 2;
    assert(binary32::nearest(q) == t);
    if v % 120 == 0 {
        let m = v / 120;
        assert(m * 120 == v);
        assert(t == m);
    }
}

proof fn lemma_notches(v: int)
    requires
        0 < v <= 0x10_0000,
    ensures
        ({
            let q = binary32::quotient(of_int(v), of_int(120));
            let t = (binary32::halved(q.0 as nat, -q.1 - 1) + 1) / 2;
            &&& q.0 > 0 && q.1 < 0
            &&& 1000 * v - 60_500 <= 120_000 * t <= 1000 * v + 60_500
        }),
{
    lemma_of_int(v);
    lemma_of_int(120);
    lemma_of_int(0);
    let q = binary32::quotient(of_int(v), of_int(120));
    lemma_quotient_real(of_int(v), of_int(120), of_int(0));
    let (a, r) = (v as real, real_of(q));
    let k = a / 120real;
    lemma_divided(a, 120real, k);
    assert(0real < k <= 8739real);
    assert(-1real <= 1000real * (r - k) <= 1real);
    lemma_power(q.1);
    lemma_sign(q.0 as real, power(q.1));
    if q.1 >= 0 {
        lemma_power_monotone(0, q.1);
        lemma_order(1real, power(q.1), q.0 as real);
        assert(power(q.1) * (q.0 as real) == q.0 as real * power(q.1)) by (nonlinear_arith);
    }
    let t = (binary32::halved(q.0 as nat, -q.1 - 1) + 1) / 2;
    lemma_nearest_parts(q, t as int);
}

/// The wheels turn alike both ways.
pub proof fn law_lines_are_symmetric(v: int)
    requires
        0 < v <= 0x10_0000,
    ensures
        mac::lines_of(-v) == -mac::lines_of(v),
        mac::lines_of(0) == 0,
{
    let q = binary32::quotient(of_int(v), of_int(120));
    lemma_of_int(120);
    crate::binary32::lemma_of_nonzero(v);
    assert(of_int(-v) == binary32::negated(of_int(v)));
    assert(binary32::quotient(of_int(-v), of_int(120)) == binary32::negated(q));
    assert(q.0 > 0) by {
        binary32::lemma_rounded_positive(
            of_int(v).0 as nat,
            of_int(120).0 as nat,
            of_int(v).1 - of_int(120).1,
        );
    }
    lemma_notches(v);
    assert(binary32::nearest(binary32::negated(q)) == -binary32::nearest(q));
}

/// A turn of the wheel is posted in lines, each wheel for itself; nothing is posted where
/// nothing moved.
pub proof fn law_mac_wheels(v: mac::InjectorView, dx: i32, dy: i32)
    requires
        -0x10_0000 <= dx <= 0x10_0000,
        -0x10_0000 <= dy <= 0x10_0000,
    ensures
        (v.scrolled(dx, dy) is None) == (dx == 0 && dy == 0),
        v.scrolled(dx, dy) matches Some(p) ==> p.flags == v.flags && (p.event matches MacEvent::Scroll {
            y,
            x,
        } && {
            &&& x as int == mac::lines_of(dx as int)
            &&& y as int == mac::lines_of(dy as int)
        }),
{
    lemma_lines(dx as int);
    lemma_lines(dy as int);
}

/// Both ways, a turn is some lines, and no turn is none.
proof fn lemma_lines(v: int)
    requires
        -0x10_0000 <= v <= 0x10_0000,
    ensures
        (mac::lines_of(v) == 0) == (v == 0),
        -0x1_0000 <= mac::lines_of(v) <= 0x1_0000,
        v % 120 == 0 ==> mac::lines_of(v) * 120 == v,
{
    if v > 0 {
        law_lines_are_the_nearest(v);
    } else if v < 0 {
        law_lines_are_the_nearest(-v);
        law_lines_are_symmetric(-v);
    }
}

/// A notch of a macOS wheel is captured as the units of a notch, and becomes a line again
/// where it is injected.
pub proof fn law_lines_come_back(st: macos::StateView, ev: TapEvent)
    requires
        ev.kind == macos::ET_SCROLL,
        -8000 <= ev.scroll_x <= 8000,
        -8000 <= ev.scroll_y <= 8000,
    ensures
        macos::event_of(st, ev) matches Some(InputEvent::Wheel { dx, dy }) && {
            &&& dx == 120 * ev.scroll_x && dy == 120 * ev.scroll_y
            &&& mac::lines_of(dx as int) == ev.scroll_x
            &&& mac::lines_of(dy as int) == ev.scroll_y
        },
{
    lemma_lines(ev.scroll_x * 120);
    lemma_lines(ev.scroll_y * 120);
}

/// A key goes to macOS as pressed or released as it is, and is held until it is released.
pub proof fn law_mac_keys(v: mac::InjectorView, hid: u16, pressed: bool)
    requires
        keymap::native_of(Os::MacOs, hid) is Some,
    ensures
        v.key_post(hid, pressed) matches Some(p) && p.flags == v.after_key(hid, pressed).flags && (
        p.event matches MacEvent::Key { vk, pressed: q } && q == pressed && keymap::native_of(
            Os::MacOs,
            hid,
        ) == Some(vk)),
        v.after_key(hid, pressed).down_keys == model::after_press(v.down_keys, hid, pressed),
{
}

/// The bit that macOS has for a modifier, by its place among the modifiers of a keyboard:
/// control, shift, option, command, on the left and on the right alike.
pub open spec fn mac_bit(hid: u16) -> Option<u64> {
    if hid == 0xE0 || hid == 0xE4 {
        Some(0x4_0000)
    } else if hid == 0xE1 || hid == 0xE5 {
        Some(0x2_0000)
    } else if hid == 0xE2 || hid == 0xE6 {
        Some(0x8_0000)
    } else if hid == 0xE3 || hid == 0xE7 {
        Some(0x10_0000)
    } else {
        None
    }
}

/// A modifier's bit is set exactly while it is held: its press sets it, its release clears
/// it, and neither touches another bit; no other key but caps lock touches any.
pub proof fn law_mac_modifiers(flags: u64, hid: u16, pressed: bool)
    ensures
        mac_bit(hid) matches Some(bit) ==> {
            let after = mac::flags_after(flags, hid, pressed);
            &&& (after & bit != 0) == pressed
            &&& after & !bit == flags & !bit
        },
        mac_bit(hid) is None && hid != keymap::HID_CAPSLOCK ==> mac::flags_after(
            flags,
            hid,
            pressed,
        ) == flags,
{
    match mac_bit(hid) {
        Some(bit) => {
            assert(bit != 0 ==> ((flags | bit) & bit != 0) && ((flags & !bit) & bit == 0) && ((flags
                | bit) & !bit == flags & !bit) && ((flags & !bit) & !bit == flags & !bit))
                by (bit_vector);
        },
        None => {},
    }
}

// ---------------------------------------------------------------- edges ----

/// A cursor touches an edge exactly if no pixel lies between it and the far side of it.
pub proof fn law_touching_is_being_at_the_edge(b: Rect, edge: Edge, x: int, y: int)
    ensures
        layout::at_edge(b, edge, x, y) == (inside_by(b, edge, x, y) <= 0),
{
}

proof fn lemma_touched(edges: Seq<Edge>, b: Rect, x: int, y: int)
    ensures
        match platform::touched_of(edges, b, x, y) {
            Some(e) => edges.contains(e) && inside_by(b, e, x, y) <= 0,
            None => forall|e: Edge| edges.contains(e) ==> #[trigger] inside_by(b, e, x, y) > 0,
        },
    decreases edges.len(),
{
    if edges.len() > 0 && !layout::at_edge(b, edges[0], x, y) {
        let rest = edges.skip(1);
        lemma_touched(rest, b, x, y);
        assert forall|e: Edge| edges.contains(e) && e != edges[0] implies rest.contains(e) by {
            let i = choose|i: int| 0 <= i < edges.len() && edges[i] == e;
            assert(rest[i - 1] == e);
        }
        match platform::touched_of(rest, b, x, y) {
            Some(e) => {
                let i = choose|i: int| 0 <= i < rest.len() && rest[i] == e;
                assert(edges[i + 1] == e);
            },
            None => {},
        }
    } else if edges.len() > 0 {
        assert(edges.contains(edges[0]));
    }
}

/// What is reported of a crossing is where it is: an armed edge that the cursor is at, and
/// the part of the way along it.
pub open spec fn is_where(ctl: CtlView, x: int, y: int, edge: Edge, ratio: binary32::F32) -> bool {
    let (offset, length) = if edge is Left || edge is Right {
        (y - ctl.bounds.y, ctl.bounds.h as int)
    } else {
        (x - ctl.bounds.x, ctl.bounds.w as int)
    };
    &&& ctl.portals.contains(edge)
    &&& inside_by(ctl.bounds, edge, x, y) <= 0
    &&& is_ratio(ratio)
    &&& 16777216real * size_of(ratio_value(ratio) * length as real - offset as real)
        <= offset as real
}

/// A cursor that moves against an armed edge crosses it, once the cooldown is over and it
/// has rested there if it has to; one that is at no armed edge does not.
pub proof fn law_mac_crossing(st: macos::StateView, ctl: CtlView, ev: TapEvent, now: u64)
    requires
        !ctl.forwarding,
        ev.kind == macos::ET_MOVED,
        is_desktop(ctl.bounds),
        ctl.bounds.holds(ev.x as int, ev.y as int),
    ensures
        ({
            let (after, c, reply) = macos::tapped(st, ctl, ev, now);
            let at_one = exists|e: Edge| #[trigger]
                ctl.portals.contains(e) && inside_by(ctl.bounds, e, ev.x as int, ev.y as int) <= 0;
            &&& reply.captured matches Some(r) ==> (r matches Captured::EdgeHit { edge, ratio }
                && is_where(ctl, ev.x as int, ev.y as int, edge, ratio))
            &&& reply.captured is Some ==> c.forwarding && now >= ctl.cooldown_until && at_one
                && reply.visuals == Some(true) && reply.warp == Some(after.park)
            &&& at_one && now >= ctl.cooldown_until && ctl.edge_dwell_ms == 0
                ==> reply.captured is Some
        }),
{
    lemma_touched(ctl.portals, ctl.bounds, ev.x as int, ev.y as int);
    law_ratio_is_the_part_of_the_length(ev.x - ctl.bounds.x, ctl.bounds.w as int);
    law_ratio_is_the_part_of_the_length(ev.y - ctl.bounds.y, ctl.bounds.h as int);
    match platform::touched_of(ctl.portals, ctl.bounds, ev.x as int, ev.y as int) {
        Some(e) => {
            assert(ctl.portals.contains(e));
        },
        None => {},
    }
}

/// A Windows cursor that moves against an armed edge crosses it once the cooldown is over;
/// one that is at no armed edge does not.
pub proof fn law_windows_crossing(st: CapState, ctl: CtlView, ev: MouseHook, now: u64)
    requires
        !ctl.forwarding,
        !ev.injected,
        ev.msg == windows::WM_MOUSEMOVE,
        is_desktop(ctl.bounds),
        ctl.bounds.holds(ev.x as int, ev.y as int),
    ensures
        ({
            let (after, c, reply) = windows::mouse_hooked(st, ctl, ev, now);
            let at_one = exists|e: Edge| #[trigger]
                ctl.portals.contains(e) && inside_by(ctl.bounds, e, ev.x as int, ev.y as int) <= 0;
            &&& reply.captured matches Some(r) ==> (r matches Captured::EdgeHit { edge, ratio }
                && is_where(ctl, ev.x as int, ev.y as int, edge, ratio))
            &&& reply.captured is Some ==> c.forwarding && reply.park == Some(after.park)
            &&& reply.captured is Some == (at_one && now >= ctl.cooldown_until)
        }),
{
    lemma_touched(ctl.portals, ctl.bounds, ev.x as int, ev.y as int);
    law_ratio_is_the_part_of_the_length(ev.x - ctl.bounds.x, ctl.bounds.w as int);
    law_ratio_is_the_part_of_the_length(ev.y - ctl.bounds.y, ctl.bounds.h as int);
    match platform::touched_of(ctl.portals, ctl.bounds, ev.x as int, ev.y as int) {
        Some(e) => {
            assert(ctl.portals.contains(e));
        },
        None => {},
    }
}

/// The parked cursor of a Windows machine is well inside the edge that was crossed, and
/// otherwise where it was; that of a Mac is where it was, a few pixels off every edge.
pub proof fn law_parked_off_the_edge(b: Rect, edge: Edge, x: int, y: int, e: Edge)
    requires
        b.solid(),
        b.w > windows::PARK_INSET && b.h > windows::PARK_INSET,
        b.holds(x, y),
    ensures
        ({
            let (px, py) = windows::park_of(b, edge, x, y);
            &&& inside_by(b, edge, px, py) == windows::PARK_INSET
            &&& edge is Left || edge is Right ==> py == y
            &&& edge is Top || edge is Bottom ==> px == x
        }),
        ({
            let (px, py) = macos::park_at(b, x, y);
            &&& inside_by(b, e, px as int, py as int) >= 4
            &&& inside_by(b, e, x, y) >= 4 && inside_by(b, edge, x, y) >= 4 && edge
                != e && inside_by(b, e.facing(), x, y) >= 4 && inside_by(b, edge.facing(), x, y)
                >= 4 && edge != e.facing() ==> px == x && py == y
        }),
{
}

// ----------------------------------------------------------------- keys ----

/// A key of a Windows keyboard is captured as what it is, pressed or released alike, with or
/// without alt.
pub proof fn law_windows_keys_are_captured(
    st: CapState,
    ctl: CtlView,
    ev: windows::KeyHook,
    now: u64,
    hid: u16,
    pressed: bool,
)
    requires
        ctl.forwarding,
        !ev.injected,
        pressed ==> ev.msg == 0x100 || ev.msg == 0x104,
        !pressed ==> ev.msg == 0x101 || ev.msg == 0x105,
        keymap::hid_of(Os::Windows, ev.vk) == Some(hid),
        ev.vk != windows::VK_ESCAPE,
    ensures
        ({
            let (after, c, reply) = windows::key_hooked(st, ctl, ev, now);
            &&& reply.captured == Some(Captured::Input(InputEvent::Key { key: hid, pressed }))
            &&& reply.swallow && c == ctl && after == st
        }),
{
}

/// A key of a Mac keyboard is captured as what it is, pressed or released alike.
pub proof fn law_mac_keys_are_captured(
    st: macos::StateView,
    ctl: CtlView,
    ev: TapEvent,
    now: u64,
    hid: u16,
)
    requires
        ctl.forwarding,
        ev.kind == 10 || ev.kind == 11,
        0 <= ev.keycode <= 0xFFFF,
        keymap::hid_of(Os::MacOs, ev.keycode as u16) == Some(hid),
        ev.keycode != 53,
        !macos::chord(ev, macos::VK_M) && !macos::chord(ev, macos::VK_T),
    ensures
        macos::tapped(st, ctl, ev, now).2.captured == Some(
            Captured::Input(InputEvent::Key { key: hid, pressed: ev.kind == 10 }),
        ),
{
}

/// A modifier of a Mac keyboard is captured as pressed when it was not held, and as released
/// when it was; then it is held, or no longer.
pub proof fn law_mac_modifiers_are_captured(
    st: macos::StateView,
    ctl: CtlView,
    ev: TapEvent,
    now: u64,
    hid: u16,
)
    requires
        ctl.forwarding,
        ev.kind == 12,
        0 <= ev.keycode <= 0xFFFF,
        keymap::hid_of(Os::MacOs, ev.keycode as u16) == Some(hid),
        st.mods_down.no_duplicates(),
    ensures
        ({
            let (after, _, reply) = macos::tapped(st, ctl, ev, now);
            let vk = ev.keycode as u16;
            let held = st.mods_down.contains(vk);
            &&& reply.captured == Some(
                Captured::Input(InputEvent::Key { key: hid, pressed: !held }),
            )
            &&& after.mods_down.contains(vk) == !held
        }),
{
    let vk = ev.keycode as u16;
    lemma_place(st.mods_down, vk);
    let i = macos::place_of(st.mods_down, vk);
    let after = macos::toggled(st.mods_down, vk);
    if i < st.mods_down.len() {
        assert(st.mods_down.contains(vk));
        if after.contains(vk) {
            let j = choose|j: int| 0 <= j < after.len() && after[j] == vk;
            if j < i {
                assert(st.mods_down[j] == vk);
            } else {
                assert(st.mods_down[j + 1] == vk);
            }
        }
    } else {
        assert(after[st.mods_down.len() as int] == vk);
    }
}

proof fn lemma_place(keys: Seq<u16>, vk: u16)
    ensures
        0 <= macos::place_of(keys, vk) <= keys.len(),
        macos::place_of(keys, vk) < keys.len() ==> keys[macos::place_of(keys, vk)] == vk,
        macos::place_of(keys, vk) == keys.len() ==> !keys.contains(vk),
    decreases keys.len(),
{
    if keys.len() > 0 && keys[0] != vk {
        let rest = keys.skip(1);
        lemma_place(rest, vk);
        if keys.contains(vk) {
            let j = choose|j: int| 0 <= j < keys.len() && keys[j] == vk;
            assert(rest[j - 1] == vk);
        }
    }
}

/// Command, option and M report the panel's hotkey where it is set, and command, option and
/// T the tablet's, wherever the cursor is; the keys end there.
pub proof fn law_hotkeys_work_everywhere(st: macos::StateView, ctl: CtlView, ev: TapEvent, now: u64)
    requires
        ev.kind == 10,
        ev.flags & 0x10_0000 != 0,
        ev.flags & 0x8_0000 != 0,
    ensures
        ({
            let (after, c, reply) = macos::tapped(st, ctl, ev, now);
            &&& ev.keycode == 46 && ctl.shared_hotkey ==> reply.captured == Some(
                Captured::SharedHotkey,
            ) && reply.swallow && c == ctl
            &&& ev.keycode == 17 ==> reply.captured == Some(Captured::TabletHotkey)
                && reply.swallow && c == ctl
        }),
{
}

/// A cursor that has rested against an armed edge for as long as it has to crosses it.
pub proof fn law_a_long_rest_crosses(
    st: macos::StateView,
    ctl: CtlView,
    ev: TapEvent,
    now: u64,
    edge: Edge,
)
    requires
        !ctl.forwarding,
        ev.kind == macos::ET_MOVED,
        now >= ctl.cooldown_until,
        ctl.portals == seq![edge],
        inside_by(ctl.bounds, edge, ev.x as int, ev.y as int) <= 0,
    ensures
        ({
            let (after, c, reply) = macos::tapped(st, ctl, ev, now);
            &&& (st.edge_pending matches Some(p) && p.edge == edge && now >= p.since && now
                - p.since >= ctl.edge_dwell_ms * 1_000_000) ==> reply.captured is Some
            &&& ctl.edge_dwell_ms > 0 && st.edge_pending is None ==> reply.captured is None && (
            after.edge_pending matches Some(p) && p.edge == edge && p.since == now)
        }),
{
    reveal_with_fuel(platform::touched_of, 2);
}

/// The capture side does as it is told.
pub proof fn law_the_control_does_as_it_is_told(
    ctl: CtlView,
    now: u64,
    portals: Seq<Edge>,
    rect: Option<Rect>,
    on: bool,
    ms: u64,
)
    ensures
        ctl.told(ActionView::EnterForwarding, now).forwarding,
        ({
            let c = ctl.told(ActionView::ExitForwarding, now);
            !c.forwarding && (now <= u64::MAX - 300_000_000 ==> c.cooldown_until == now
                + 300_000_000)
        }),
        now <= u64::MAX - 300_000_000 ==> ctl.told(ActionView::Cooldown, now).cooldown_until == now
            + 300_000_000,
        ctl.told(ActionView::Portals(portals), now).portals == portals,
        ctl.told(ActionView::Blocked(rect), now).blocked == rect,
        ctl.told(ActionView::Driven(on), now).driven == on,
        ctl.told(ActionView::SharedHotkey(on), now).shared_hotkey == on,
        ctl.told(ActionView::EdgeDwell(ms), now).edge_dwell_ms == ms,
        ctl.told(ActionView::Portals(portals), now).forwarding == ctl.forwarding,
        ctl.told(ActionView::Blocked(rect), now).portals == ctl.portals,
{
}

/// A press soon after another one, within four pixels of it, is the next click of a row;
/// any other press is a first click.
pub proof fn law_clicks_in_a_row(c: mac::LastClick, x: i32, y: i32, now: u64)
    requires
        c.at <= now,
        c.count < i64::MAX,
    ensures
        ({
            let soon = now - c.at < 500_000_000;
            let close = c.x - 4 <= x <= c.x + 4 && c.y - 4 <= y <= c.y + 4;
            &&& soon && close ==> mac::count_of(Some(c), x, y, now) == c.count + 1
            &&& !soon || !close ==> mac::count_of(Some(c), x, y, now) == 1
            &&& mac::count_of(None, x, y, now) == 1
        }),
{
}

/// While input is forwarded, every motion puts the Mac's own cursor back where it is parked,
/// and nothing else moves it.
pub proof fn law_a_forwarding_cursor_stays_parked(
    st: macos::StateView,
    ctl: CtlView,
    ev: TapEvent,
    now: u64,
)
    requires
        ctl.forwarding,
        ev.kind == 5 || ev.kind == 6 || ev.kind == 7 || ev.kind == 27 || ev.kind == 1 || ev.kind
            == 22,
    ensures
        ({
            let (after, c, reply) = macos::tapped(st, ctl, ev, now);
            let motion = ev.kind != 1 && ev.kind != 22;
            &&& reply.warp == if motion {
                Some(st.park)
            } else {
                None
            }
            &&& after.park == st.park && c.forwarding
        }),
{
}

/// Caps lock on a Mac goes on and off with its presses, whatever is released in between.
pub proof fn law_caps_lock_toggles(flags: u64)
    ensures
        ({
            let once = mac::flags_after(flags, 0x39, true);
            &&& once & 0x1_0000 != flags & 0x1_0000
            &&& mac::flags_after(once, 0x39, false) == once
            &&& mac::flags_after(once, 0x39, true) == flags
        }),
{
    assert((flags ^ 0x1_0000) & 0x1_0000 != flags & 0x1_0000) by (bit_vector);
    assert((flags ^ 0x1_0000) ^ 0x1_0000 == flags) by (bit_vector);
}

} // verus!
