//! Windows injection: the inputs that are sent.
//!
//! Motion is absolute and normalized to the virtual desktop; keys are sent as a virtual
//! key with its scan code.
use vstd::prelude::*;

use crate::engine::host::{press_button, press_key};
use crate::engine::model;
use crate::engine::panel::{self, to_coord};
use crate::keymap::{self, hid_to_native, Os};
use crate::proto::{MouseButton, Rect};

verus! {

pub const MOUSEEVENTF_LEFTDOWN: u32 = 0x0002;

pub const MOUSEEVENTF_LEFTUP: u32 = 0x0004;

pub const MOUSEEVENTF_RIGHTDOWN: u32 = 0x0008;

pub const MOUSEEVENTF_RIGHTUP: u32 = 0x0010;

pub const MOUSEEVENTF_MIDDLEDOWN: u32 = 0x0020;

pub const MOUSEEVENTF_MIDDLEUP: u32 = 0x0040;

pub const MOUSEEVENTF_XDOWN: u32 = 0x0080;

pub const MOUSEEVENTF_XUP: u32 = 0x0100;

pub const MOUSEEVENTF_WHEEL: u32 = 0x0800;

pub const MOUSEEVENTF_HWHEEL: u32 = 0x1000;

/// Move, absolute, over the whole virtual desktop.
pub const MOUSEEVENTF_TO: u32 = 0xC001;

/// An input to send.
#[derive(Clone, Copy, Debug, PartialEq, Eq, Structural)]
pub enum WinInput {
    Mouse { flags: u32, dx: i32, dy: i32, data: i32 },
    Key { vk: u16, up: bool, extended: bool },
}

#[derive(Debug)]
pub struct Injector {
    pub bounds: Rect,
    /// HID usages.
    pub down_keys: Vec<u16>,
    pub down_buttons: Vec<MouseButton>,
}

/// What an injector holds.
#[verifier::ext_equal]
pub ghost struct InjectorView {
    pub bounds: Rect,
    pub down_keys: Seq<u16>,
    pub down_buttons: Seq<MouseButton>,
}

impl View for Injector {
    type V = InjectorView;

    open spec fn view(&self) -> InjectorView {
        InjectorView {
            bounds: self.bounds,
            down_keys: self.down_keys@,
            down_buttons: self.down_buttons@,
        }
    }
}

/// A quotient, rounded toward zero.
pub open spec fn quot(a: int, b: int) -> int {
    if a >= 0 {
        a / b
    } else {
        -((-a) / b)
    }
}

/// An offset into a length, normalized to 0..=65535.
pub open spec fn normalized(offset: int, length: int) -> int {
    let span = if length - 1 > 1 {
        length - 1
    } else {
        1
    };
    quot(offset * 65535, span)
}

/// An offset into a length, normalized to 0..=65535.
fn normalize(offset: i64, length: i32) -> (r: i32)
    requires
        -0x1_0000_0000 <= offset <= 0x1_0000_0000,
    ensures
        r == panel::coord(normalized(offset as int, length as int)),
{
    let span: i64 = if length as i64 - 1 > 1 {
        length as i64 - 1
    } else {
        1
    };
    let n: i64 = if offset >= 0 {
        offset * 65535 / span
    } else {
        -((-offset) * 65535 / span)
    };
    proof {
        if offset < 0 {
            assert((-offset) * 65535 == -(offset * 65535));
        }
    }
    to_coord(n)
}

/// The whole desktop is reached and nothing beyond it: what lies on it is normalized to
/// 0..=65535, its first pixel to 0 and its last one to 65535.
pub proof fn law_normalized_spans_the_desktop(offset: int, length: int)
    requires
        0 <= offset < length,
    ensures
        0 <= normalized(offset, length) <= 65535,
        offset == 0 ==> normalized(offset, length) == 0,
        offset == length - 1 && length > 1 ==> normalized(offset, length) == 65535,
{
    let span = if length - 1 > 1 {
        length - 1
    } else {
        1
    };
    assert(offset <= span);
    assert(0 <= offset * 65535 / span <= 65535) by (nonlinear_arith)
        requires
            0 <= offset <= span,
            span >= 1,
    ;
    if offset == length - 1 && length > 1 {
        assert(offset == span);
        assert(offset * 65535 / span == 65535) by (nonlinear_arith)
            requires
                offset == span,
                span >= 1,
        ;
    }
}

/// What a motion to a point of the virtual desktop sends.
pub open spec fn motion_input(bounds: Rect, x: i32, y: i32) -> WinInput {
    WinInput::Mouse {
        flags: MOUSEEVENTF_TO,
        dx: panel::coord(normalized(x - bounds.x, bounds.w as int)) as i32,
        dy: panel::coord(normalized(y - bounds.y, bounds.h as int)) as i32,
        data: 0,
    }
}

/// What the wheels send, the vertical one first.
pub open spec fn wheel_inputs(dx: i32, dy: i32) -> Seq<WinInput> {
    (if dy != 0 {
        seq![WinInput::Mouse { flags: MOUSEEVENTF_WHEEL, dx: 0, dy: 0, data: dy }]
    } else {
        seq![]
    }) + (if dx != 0 {
        seq![WinInput::Mouse { flags: MOUSEEVENTF_HWHEEL, dx: 0, dy: 0, data: dx }]
    } else {
        seq![]
    })
}

/// The flags and the data of a button.
pub open spec fn native_button(b: MouseButton, pressed: bool) -> (u32, i32) {
    match b {
        MouseButton::Left => (
            if pressed {
                MOUSEEVENTF_LEFTDOWN
            } else {
                MOUSEEVENTF_LEFTUP
            },
            0,
        ),
        MouseButton::Right => (
            if pressed {
                MOUSEEVENTF_RIGHTDOWN
            } else {
                MOUSEEVENTF_RIGHTUP
            },
            0,
        ),
        MouseButton::Middle => (
            if pressed {
                MOUSEEVENTF_MIDDLEDOWN
            } else {
                MOUSEEVENTF_MIDDLEUP
            },
            0,
        ),
        MouseButton::X1 => (
            if pressed {
                MOUSEEVENTF_XDOWN
            } else {
                MOUSEEVENTF_XUP
            },
            1,
        ),
        MouseButton::X2 => (
            if pressed {
                MOUSEEVENTF_XDOWN
            } else {
                MOUSEEVENTF_XUP
            },
            2,
        ),
    }
}

/// What a button sends.
pub open spec fn button_input(b: MouseButton, pressed: bool) -> WinInput {
    let (flags, data) = native_button(b, pressed);
    WinInput::Mouse { flags, dx: 0, dy: 0, data }
}

/// HID usages that Windows wants marked as extended: print screen, the block above the
/// arrows, the arrows, the keypad's divide and enter, right control and alt, and the
/// Windows keys.
pub open spec fn is_extended(hid: u16) -> bool {
    ||| hid == 0x46
    ||| 0x49 <= hid <= 0x52
    ||| hid == 0x54
    ||| hid == 0x58
    ||| hid == keymap::HID_RCTRL
    ||| hid == keymap::HID_RALT
    ||| hid == keymap::HID_LGUI
    ||| hid == keymap::HID_RGUI
}

/// What a key sends.
pub open spec fn key_input(hid: u16, pressed: bool) -> Option<WinInput> {
    match keymap::native_of(Os::Windows, hid) {
        Some(vk) => Some(WinInput::Key { vk, up: !pressed, extended: is_extended(hid) }),
        None => None,
    }
}

/// What the release of some keys sends.
pub open spec fn key_releases(keys: Seq<u16>) -> Seq<WinInput>
    decreases keys.len(),
{
    if keys.len() == 0 {
        seq![]
    } else {
        let before = key_releases(keys.drop_last());
        match key_input(keys.last(), false) {
            Some(i) => before.push(i),
            None => before,
        }
    }
}

/// What the release of some buttons sends.
pub open spec fn button_releases(buttons: Seq<MouseButton>) -> Seq<WinInput> {
    buttons.map_values(|b: MouseButton| button_input(b, false))
}

/// Every held key is released: its release is among what releasing all sends.
pub proof fn law_each_held_key_is_released(keys: Seq<u16>, i: int)
    requires
        0 <= i < keys.len(),
        keymap::native_of(Os::Windows, keys[i]) is Some,
    ensures
        key_releases(keys).contains(key_input(keys[i], false)->0),
    decreases keys.len(),
{
    let want = key_input(keys[i], false)->0;
    let before = key_releases(keys.drop_last());
    if i == keys.len() - 1 {
        assert(before.push(want)[before.len() as int] == want);
    } else {
        law_each_held_key_is_released(keys.drop_last(), i);
        let j = choose|j: int| 0 <= j < before.len() && before[j] == want;
        assert(key_releases(keys)[j] == want);
    }
}

impl Injector {
    /// Nothing is held.
    pub fn new(bounds: Rect) -> (r: Injector)
        ensures
            r@ == (InjectorView { bounds, down_keys: seq![], down_buttons: seq![] }),
    {
        let r: Injector = Injector { bounds, down_keys: Vec::new(), down_buttons: Vec::new() };
        assert(r@.down_keys =~= seq![]);
        assert(r@.down_buttons =~= seq![]);
        r
    }

    /// Moves the cursor to a point of the virtual desktop.
    pub fn mouse_to(&self, x: i32, y: i32) -> (r: WinInput)
        ensures
            r == (WinInput::Mouse {
                flags: MOUSEEVENTF_TO,
                dx: panel::coord(normalized(x - self@.bounds.x, self@.bounds.w as int)) as i32,
                dy: panel::coord(normalized(y - self@.bounds.y, self@.bounds.h as int)) as i32,
                data: 0,
            }),
            r == motion_input(self@.bounds, x, y),
    {
        let dx: i32 = normalize(x as i64 - self.bounds.x as i64, self.bounds.w);
        let dy: i32 = normalize(y as i64 - self.bounds.y as i64, self.bounds.h);
        WinInput::Mouse { flags: MOUSEEVENTF_TO, dx, dy, data: 0 }
    }

    /// Presses or releases a button.
    pub fn button(&mut self, b: MouseButton, pressed: bool) -> (r: WinInput)
        ensures
            final(self)@ == (InjectorView {
                down_buttons: model::after_press(old(self)@.down_buttons, b, pressed),
                ..old(self)@
            }),
            r == button_input(b, pressed),
    {
        let mut held: Vec<MouseButton> = Vec::new();
        std::mem::swap(&mut held, &mut self.down_buttons);
        self.down_buttons = press_button(held, b, pressed);
        let (flags, data): (u32, i32) = match b {
            MouseButton::Left => (
                if pressed {
                    MOUSEEVENTF_LEFTDOWN
                } else {
                    MOUSEEVENTF_LEFTUP
                },
                0,
            ),
            MouseButton::Right => (
                if pressed {
                    MOUSEEVENTF_RIGHTDOWN
                } else {
                    MOUSEEVENTF_RIGHTUP
                },
                0,
            ),
            MouseButton::Middle => (
                if pressed {
                    MOUSEEVENTF_MIDDLEDOWN
                } else {
                    MOUSEEVENTF_MIDDLEUP
                },
                0,
            ),
            MouseButton::X1 => (
                if pressed {
                    MOUSEEVENTF_XDOWN
                } else {
                    MOUSEEVENTF_XUP
                },
                1,
            ),
            MouseButton::X2 => (
                if pressed {
                    MOUSEEVENTF_XDOWN
                } else {
                    MOUSEEVENTF_XUP
                },
                2,
            ),
        };
        WinInput::Mouse { flags, dx: 0, dy: 0, data }
    }

    /// Turns the wheels that moved, the vertical one first.
    pub fn wheel(&self, dx: i32, dy: i32) -> (r: Vec<WinInput>)
        ensures
            r@ == (if dy != 0 {
                seq![WinInput::Mouse { flags: MOUSEEVENTF_WHEEL, dx: 0, dy: 0, data: dy }]
            } else {
                seq![]
            }) + (if dx != 0 {
                seq![WinInput::Mouse { flags: MOUSEEVENTF_HWHEEL, dx: 0, dy: 0, data: dx }]
            } else {
                seq![]
            }),
            r@ == wheel_inputs(dx, dy),
    {
        let mut out: Vec<WinInput> = Vec::new();
        if dy != 0 {
            out.push(WinInput::Mouse { flags: MOUSEEVENTF_WHEEL, dx: 0, dy: 0, data: dy });
        }
        if dx != 0 {
            out.push(WinInput::Mouse { flags: MOUSEEVENTF_HWHEEL, dx: 0, dy: 0, data: dx });
        }
        assert(out@ =~= wheel_inputs(dx, dy));
        out
    }

    /// Presses or releases a key; one that Windows does not have does nothing.
    pub fn key(&mut self, hid: u16, pressed: bool) -> (r: Option<WinInput>)
        ensures
            r == key_input(hid, pressed),
            final(self)@ == if r is Some {
                InjectorView {
                    down_keys: model::after_press(old(self)@.down_keys, hid, pressed),
                    ..old(self)@
                }
            } else {
                old(self)@
            },
    {
        let vk: u16 = match hid_to_native(Os::Windows, hid) {
            Some(vk) => vk,
            None => {
                return None;
            },
        };
        let mut held: Vec<u16> = Vec::new();
        std::mem::swap(&mut held, &mut self.down_keys);
        self.down_keys = press_key(held, hid, pressed);
        let extended: bool = hid == 0x46 || (0x49 <= hid && hid <= 0x52) || hid == 0x54 || hid
            == 0x58 || hid == keymap::HID_RCTRL || hid == keymap::HID_RALT || hid
            == keymap::HID_LGUI || hid == keymap::HID_RGUI;
        Some(WinInput::Key { vk, up: !pressed, extended })
    }

    /// Releases everything that is held, keys before buttons.
    pub fn release_all(&mut self) -> (r: Vec<WinInput>)
        ensures
            r@ == key_releases(old(self)@.down_keys) + button_releases(old(self)@.down_buttons),
            final(self)@ == (InjectorView {
                down_keys: seq![],
                down_buttons: seq![],
                ..old(self)@
            }),
    {
        let mut out: Vec<WinInput> = Vec::new();
        let mut keys: Vec<u16> = Vec::new();
        std::mem::swap(&mut keys, &mut self.down_keys);
        let ghost start = InjectorView { down_keys: seq![], ..old(self)@ };
        proof {
            assert(self@.down_keys =~= seq![]);
            assert(self@ == start);
            assert(keys@.take(0) =~= seq![]);
            assert(out@ =~= seq![]);
        }
        for i in 0..keys.len()
            invariant
                self@ == start,
                start.down_keys == Seq::<u16>::empty(),
                out@ == key_releases(keys@.take(i as int)),
        {
            proof {
                assert(keys@.take(i + 1).drop_last() =~= keys@.take(i as int));
                assert(keys@.take(i + 1).last() == keys@[i as int]);
                reveal(Seq::filter);
            }
            match self.key(keys[i], false) {
                Some(k) => {
                    out.push(k);
                },
                None => {},
            }
            assert(self@ == start);
        }
        assert(keys@.take(keys@.len() as int) =~= keys@);
        let ghost sent = out@;
        let mut buttons: Vec<MouseButton> = Vec::new();
        std::mem::swap(&mut buttons, &mut self.down_buttons);
        let ghost from = InjectorView { down_buttons: seq![], ..start };
        proof {
            assert(self@.down_buttons =~= seq![]);
            assert(self@ == from);
            assert(out@ =~= sent + button_releases(buttons@.take(0)));
        }
        for i in 0..buttons.len()
            invariant
                self@ == from,
                from.down_buttons == Seq::<MouseButton>::empty(),
                out@ == sent + button_releases(buttons@.take(i as int)),
        {
            proof {
                reveal(Seq::filter);
            }
            let p: WinInput = self.button(buttons[i], false);
            out.push(p);
            assert(self@ == from);
            assert(out@ =~= sent + button_releases(buttons@.take(i + 1)));
        }
        assert(buttons@.take(buttons@.len() as int) =~= buttons@);
        out
    }
}

} // verus!
