//! macOS injection: the events that are posted.
//!
//! Modifier flags are tracked explicitly because synthetic modifier key events do not
//! implicitly flag subsequent events.
use vstd::prelude::*;

use crate::binary32::{self, Num};
use crate::engine::host::{press_button, press_key};
use crate::engine::model;
use crate::keymap::{self, hid_to_native, Os};
use crate::platform::macos::{
    ET_LEFT_DOWN, ET_LEFT_DRAG, ET_LEFT_UP, ET_MOVED, ET_OTHER_DOWN, ET_OTHER_DRAG, ET_OTHER_UP,
    ET_RIGHT_DOWN, ET_RIGHT_DRAG, ET_RIGHT_UP, FLAG_ALT, FLAG_CAPS, FLAG_CMD, FLAG_CTRL, FLAG_SHIFT,
};
use crate::platform::{self, elapsed};
use crate::proto::MouseButton;

verus! {

/// Two clicks closer together than this are a double click, in nanoseconds.
pub const CLICK_WINDOW: u64 = 500_000_000;

/// An event to post.
#[derive(Clone, Copy, Debug, PartialEq, Eq, Structural)]
pub enum MacEvent {
    /// The cursor moved; the raw deltas are kept for apps that read them.
    Motion { kind: u32, button: u32, x: i32, y: i32, dx: i32, dy: i32 },
    Click { kind: u32, button: u32, x: i32, y: i32, click_state: i64 },
    /// In lines.
    Scroll { y: i32, x: i32 },
    Key { vk: u16, pressed: bool },
}

/// An event with the modifier flags that it carries.
#[derive(Clone, Copy, Debug, PartialEq, Eq, Structural)]
pub struct Post {
    pub flags: u64,
    pub event: MacEvent,
}

/// The last click: when, where, and the how-many-eth it was in a row.
#[derive(Clone, Copy, Debug, PartialEq, Eq, Structural)]
pub struct LastClick {
    pub at: u64,
    pub x: i32,
    pub y: i32,
    pub count: i64,
}

#[derive(Debug)]
pub struct Injector {
    /// Native mouse button state, for choosing drag vs move event types.
    pub left_down: bool,
    pub right_down: bool,
    pub other_down: bool,
    pub flags: u64,
    /// HID usages.
    pub down_keys: Vec<u16>,
    pub down_buttons: Vec<MouseButton>,
    pub x: i32,
    pub y: i32,
    pub last_click: Option<LastClick>,
}

/// What an injector holds.
#[verifier::ext_equal]
pub ghost struct InjectorView {
    pub left_down: bool,
    pub right_down: bool,
    pub other_down: bool,
    pub flags: u64,
    pub down_keys: Seq<u16>,
    pub down_buttons: Seq<MouseButton>,
    pub x: i32,
    pub y: i32,
    pub last_click: Option<LastClick>,
}

impl View for Injector {
    type V = InjectorView;

    open spec fn view(&self) -> InjectorView {
        InjectorView {
            left_down: self.left_down,
            right_down: self.right_down,
            other_down: self.other_down,
            flags: self.flags,
            down_keys: self.down_keys@,
            down_buttons: self.down_buttons@,
            x: self.x,
            y: self.y,
            last_click: self.last_click,
        }
    }
}

/// Wheel units in lines: the nearest number of whole notches, at least one where there
/// was any motion.
pub open spec fn lines_of(v: int) -> int {
    let n = binary32::nearest(
        binary32::quotient(binary32::of_int(v), binary32::of_int(120)),
    );
    if v == 0 {
        0
    } else if n != 0 {
        n
    } else if v > 0 {
        1
    } else {
        -1
    }
}

/// Wheel units in lines.
pub fn to_lines(v: i32) -> (r: i32)
    ensures
        r == lines_of(v as int),
{
    if v == 0 {
        return 0;
    }
    proof {
        binary32::lemma_of_nonzero(120);
    }
    let n: i32 = Num::of(v as i64).over(Num::of(120)).round();
    if n != 0 {
        n
    } else if v > 0 {
        1
    } else {
        -1
    }
}

/// The flag of a modifier key; zero for any other key.
pub open spec fn flag_of(hid: u16) -> u64 {
    if hid == keymap::HID_LSHIFT || hid == keymap::HID_RSHIFT {
        FLAG_SHIFT
    } else if hid == keymap::HID_LCTRL || hid == keymap::HID_RCTRL {
        FLAG_CTRL
    } else if hid == keymap::HID_LALT || hid == keymap::HID_RALT {
        FLAG_ALT
    } else if hid == keymap::HID_LGUI || hid == keymap::HID_RGUI {
        FLAG_CMD
    } else if hid == keymap::HID_CAPSLOCK {
        FLAG_CAPS
    } else {
        0
    }
}

/// The flags after a key: caps lock toggles on its press, the others follow theirs.
pub open spec fn flags_after(flags: u64, hid: u16, pressed: bool) -> u64 {
    let mask = flag_of(hid);
    if mask == 0 {
        flags
    } else if hid == keymap::HID_CAPSLOCK {
        if pressed {
            flags ^ mask
        } else {
            flags
        }
    } else if pressed {
        flags | mask
    } else {
        flags & !mask
    }
}

/// The event type and the native number of a button.
pub open spec fn native_button(b: MouseButton, pressed: bool) -> (u32, u32) {
    match b {
        MouseButton::Left => (
            if pressed {
                ET_LEFT_DOWN
            } else {
                ET_LEFT_UP
            },
            0,
        ),
        MouseButton::Right => (
            if pressed {
                ET_RIGHT_DOWN
            } else {
                ET_RIGHT_UP
            },
            1,
        ),
        MouseButton::Middle => (
            if pressed {
                ET_OTHER_DOWN
            } else {
                ET_OTHER_UP
            },
            2,
        ),
        MouseButton::X1 => (
            if pressed {
                ET_OTHER_DOWN
            } else {
                ET_OTHER_UP
            },
            3,
        ),
        MouseButton::X2 => (
            if pressed {
                ET_OTHER_DOWN
            } else {
                ET_OTHER_UP
            },
            4,
        ),
    }
}

/// A click follows another one: soon after it and within a few pixels.
pub open spec fn follows(c: LastClick, x: i32, y: i32, now: u64) -> bool {
    platform::since(now, c.at) < CLICK_WINDOW && -5 < c.x - x < 5 && -5 < c.y - y < 5
}

/// The how-many-eth click in a row a press is.
pub open spec fn count_of(last: Option<LastClick>, x: i32, y: i32, now: u64) -> i64 {
    match last {
        Some(c) => if follows(c, x, y, now) {
            if c.count == i64::MAX {
                c.count
            } else {
                (c.count + 1) as i64
            }
        } else {
            1
        },
        None => 1,
    }
}

impl InjectorView {
    /// What is held and what was pressed agree.
    pub open spec fn wf(self) -> bool {
        &&& self.left_down == self.down_buttons.contains(MouseButton::Left)
        &&& self.right_down == self.down_buttons.contains(MouseButton::Right)
        &&& self.other_down ==> exists|i: int|
            0 <= i < self.down_buttons.len() && is_other(#[trigger] self.down_buttons[i])
        &&& forall|i: int|
            0 <= i < self.down_keys.len() ==> keymap::native_of(
                Os::MacOs,
                #[trigger] self.down_keys[i],
            ) is Some
    }

    /// The type of a motion event, and its button.
    pub open spec fn motion_kind(self) -> (u32, u32) {
        if self.left_down {
            (ET_LEFT_DRAG, 0)
        } else if self.right_down {
            (ET_RIGHT_DRAG, 1)
        } else if self.other_down {
            (ET_OTHER_DRAG, 2)
        } else {
            (ET_MOVED, 0)
        }
    }

    /// After a motion, and what it posts.
    pub open spec fn moved_to(self, x: i32, y: i32, dx: i32, dy: i32) -> (InjectorView, Post) {
        let (kind, button) = self.motion_kind();
        (
            InjectorView { x, y, ..self },
            Post { flags: self.flags, event: MacEvent::Motion { kind, button, x, y, dx, dy } },
        )
    }

    /// What the wheels post.
    pub open spec fn scrolled(self, dx: i32, dy: i32) -> Option<Post> {
        if lines_of(dx as int) == 0 && lines_of(dy as int) == 0 {
            None
        } else {
            Some(
                Post {
                    flags: self.flags,
                    event: MacEvent::Scroll {
                        y: lines_of(dy as int) as i32,
                        x: lines_of(dx as int) as i32,
                    },
                },
            )
        }
    }

    /// After a button.
    pub open spec fn after_button(self, b: MouseButton, pressed: bool, now: u64) -> InjectorView {
        InjectorView {
            left_down: if b is Left {
                pressed
            } else {
                self.left_down
            },
            right_down: if b is Right {
                pressed
            } else {
                self.right_down
            },
            other_down: if is_other(b) {
                pressed
            } else {
                self.other_down
            },
            down_buttons: model::after_press(self.down_buttons, b, pressed),
            last_click: if pressed {
                Some(
                    LastClick {
                        at: now,
                        x: self.x,
                        y: self.y,
                        count: count_of(self.last_click, self.x, self.y, now),
                    },
                )
            } else {
                self.last_click
            },
            ..self
        }
    }

    /// What a button posts. macOS relies on the click state to tell double clicks.
    pub open spec fn button_post(self, b: MouseButton, pressed: bool, now: u64) -> Post {
        let (kind, button) = native_button(b, pressed);
        Post {
            flags: self.flags,
            event: MacEvent::Click {
                kind,
                button,
                x: self.x,
                y: self.y,
                click_state: if pressed {
                    count_of(self.last_click, self.x, self.y, now)
                } else {
                    match self.last_click {
                        Some(c) => c.count,
                        None => 1,
                    }
                },
            },
        }
    }

    /// After a key. A key that macOS does not have changes nothing.
    pub open spec fn after_key(self, hid: u16, pressed: bool) -> InjectorView {
        if keymap::native_of(Os::MacOs, hid) is None {
            self
        } else {
            InjectorView {
                flags: flags_after(self.flags, hid, pressed),
                down_keys: model::after_press(self.down_keys, hid, pressed),
                ..self
            }
        }
    }

    /// What a key posts: an event with the flags that hold from it on.
    pub open spec fn key_post(self, hid: u16, pressed: bool) -> Option<Post> {
        match keymap::native_of(Os::MacOs, hid) {
            Some(vk) => Some(
                Post {
                    flags: flags_after(self.flags, hid, pressed),
                    event: MacEvent::Key { vk, pressed },
                },
            ),
            None => None,
        }
    }

    /// After some keys were released one after another, and what that posts.
    pub open spec fn released_keys(self, keys: Seq<u16>) -> (InjectorView, Seq<Post>)
        decreases keys.len(),
    {
        if keys.len() == 0 {
            (self, seq![])
        } else {
            let (v, posts) = self.released_keys(keys.drop_last());
            (
                v.after_key(keys.last(), false),
                match v.key_post(keys.last(), false) {
                    Some(p) => posts.push(p),
                    None => posts,
                },
            )
        }
    }

    /// After some buttons were released one after another, and what that posts.
    pub open spec fn released_buttons(
        self,
        buttons: Seq<MouseButton>,
        now: u64,
    ) -> (InjectorView, Seq<Post>)
        decreases buttons.len(),
    {
        if buttons.len() == 0 {
            (self, seq![])
        } else {
            let (v, posts) = self.released_buttons(buttons.drop_last(), now);
            (
                v.after_button(buttons.last(), false, now),
                posts.push(v.button_post(buttons.last(), false, now)),
            )
        }
    }

    /// After everything that is held was released, keys before buttons, and what that
    /// posts.
    pub open spec fn released(self, now: u64) -> (InjectorView, Seq<Post>) {
        let (v, k) = (InjectorView { down_keys: seq![], ..self }).released_keys(self.down_keys);
        let (w, b) = (InjectorView { down_buttons: seq![], ..v }).released_buttons(
            v.down_buttons,
            now,
        );
        (InjectorView { flags: 0, ..w }, k + b)
    }
}

/// Neither the left button nor the right one.
pub open spec fn is_other(b: MouseButton) -> bool {
    !(b is Left) && !(b is Right)
}

/// Releasing keys holds none, and touches no button.
proof fn lemma_released_keys(v: InjectorView, keys: Seq<u16>)
    requires
        v.down_keys.len() == 0,
    ensures
        v.released_keys(keys).0.down_keys.len() == 0,
        v.released_keys(keys).0 == (InjectorView {
            flags: v.released_keys(keys).0.flags,
            down_keys: seq![],
            ..v
        }),
    decreases keys.len(),
{
    assert(v.down_keys =~= seq![]);
    if keys.len() > 0 {
        lemma_released_keys(v, keys.drop_last());
        reveal(Seq::filter);
    }
}

/// Releasing buttons holds none; those that were released are up.
proof fn lemma_released_buttons(v: InjectorView, buttons: Seq<MouseButton>, now: u64)
    requires
        v.down_buttons.len() == 0,
    ensures
        ({
            let r = v.released_buttons(buttons, now).0;
            &&& r.down_buttons.len() == 0
            &&& r.down_keys == v.down_keys
            &&& r.left_down == (v.left_down && !buttons.contains(MouseButton::Left))
            &&& r.right_down == (v.right_down && !buttons.contains(MouseButton::Right))
            &&& r.other_down == (v.other_down && forall|i: int|
                0 <= i < buttons.len() ==> !is_other(#[trigger] buttons[i]))
        }),
    decreases buttons.len(),
{
    assert(v.down_buttons =~= seq![]);
    if buttons.len() > 0 {
        let rest = buttons.drop_last();
        lemma_released_buttons(v, rest, now);
        reveal(Seq::filter);
        assert(buttons =~= rest.push(buttons.last()));
        assert forall|b: MouseButton| #[trigger] buttons.contains(b) == (rest.contains(b) || b
            == buttons.last()) by {
            if rest.contains(b) {
                let i = choose|i: int| 0 <= i < rest.len() && rest[i] == b;
                assert(buttons[i] == b);
            }
            if b == buttons.last() {
                assert(buttons[buttons.len() - 1] == b);
            }
            if buttons.contains(b) {
                let i = choose|i: int| 0 <= i < buttons.len() && buttons[i] == b;
                if i < rest.len() {
                    assert(rest[i] == b);
                }
            }
        }
        if forall|i: int| 0 <= i < buttons.len() ==> !is_other(#[trigger] buttons[i]) {
            assert forall|i: int| 0 <= i < rest.len() implies !is_other(#[trigger] rest[i]) by {
                assert(rest[i] == buttons[i]);
            }
            assert(!is_other(buttons[buttons.len() - 1]));
        } else {
            let i = choose|i: int| 0 <= i < buttons.len() && is_other(#[trigger] buttons[i]);
            if i < rest.len() {
                assert(is_other(rest[i]));
            }
        }
    }
}

/// Nothing stays stuck down: once everything is released, no key, no button and no
/// modifier flag is held.
pub proof fn law_release_all_leaves_nothing_held(v: InjectorView, now: u64)
    requires
        v.wf(),
    ensures
        ({
            let r = v.released(now).0;
            &&& r.down_keys.len() == 0
            &&& r.down_buttons.len() == 0
            &&& !r.left_down && !r.right_down && !r.other_down
            &&& r.flags == 0
            &&& r.wf()
        }),
{
    let start = InjectorView { down_keys: seq![], ..v };
    lemma_released_keys(start, v.down_keys);
    let mid = start.released_keys(v.down_keys).0;
    let s = InjectorView { down_buttons: seq![], ..mid };
    lemma_released_buttons(s, mid.down_buttons, now);
    if v.other_down {
        let i = choose|i: int|
            0 <= i < v.down_buttons.len() && is_other(#[trigger] v.down_buttons[i]);
        assert(is_other(mid.down_buttons[i]));
    }
}

/// Held buttons and their counts stay in step, whatever is pressed or released.
pub proof fn law_injector_stays_in_step(
    v: InjectorView,
    b: MouseButton,
    hid: u16,
    pressed: bool,
    now: u64,
)
    requires
        v.wf(),
    ensures
        v.after_key(hid, pressed).wf(),
        v.after_button(b, pressed, now).wf(),
{
    let k = v.after_key(hid, pressed);
    lemma_pressed(v.down_keys, hid, pressed);
    lemma_pressed(v.down_buttons, b, pressed);
    assert forall|i: int| 0 <= i < k.down_keys.len() implies keymap::native_of(
        Os::MacOs,
        #[trigger] k.down_keys[i],
    ) is Some by {
        if keymap::native_of(Os::MacOs, hid) is Some {
            assert(model::after_press(v.down_keys, hid, pressed).contains(k.down_keys[i]));
            if k.down_keys[i] != hid {
                let j = choose|j: int|
                    0 <= j < v.down_keys.len() && v.down_keys[j] == k.down_keys[i];
                assert(keymap::native_of(Os::MacOs, v.down_keys[j]) is Some);
            }
        }
    }
    if v.other_down {
        let i = choose|i: int|
            0 <= i < v.down_buttons.len() && is_other(#[trigger] v.down_buttons[i]);
        assert(is_other(k.down_buttons[i]));
    }
    let after = v.after_button(b, pressed, now);
    let list = after.down_buttons;
    assert(list.contains(MouseButton::Left) == after.left_down);
    assert(list.contains(MouseButton::Right) == after.right_down);
    if after.other_down {
        if is_other(b) {
            assert(list.contains(b));
            let i = choose|i: int| 0 <= i < list.len() && list[i] == b;
            assert(is_other(list[i]));
        } else {
            let i = choose|i: int|
                0 <= i < v.down_buttons.len() && is_other(#[trigger] v.down_buttons[i]);
            assert(v.down_buttons.contains(v.down_buttons[i]));
            assert(list.contains(v.down_buttons[i]));
            let j = choose|j: int| 0 <= j < list.len() && list[j] == v.down_buttons[i];
            assert(is_other(list[j]));
        }
    }
}

/// What is held after a press or a release.
pub proof fn lemma_pressed<T>(held: Seq<T>, k: T, pressed: bool)
    ensures
        forall|x: T| #[trigger]
            model::after_press(held, k, pressed).contains(x) == if x == k {
                pressed
            } else {
                held.contains(x)
            },
    decreases held.len(),
{
    let after = model::after_press(held, k, pressed);
    if pressed {
        if !held.contains(k) {
            assert forall|x: T| #[trigger] after.contains(x) == (x == k || held.contains(x)) by {
                assert(after[held.len() as int] == k);
                if held.contains(x) {
                    let i = choose|i: int| 0 <= i < held.len() && held[i] == x;
                    assert(after[i] == x);
                }
                if after.contains(x) && x != k {
                    let i = choose|i: int| 0 <= i < after.len() && after[i] == x;
                    assert(held[i] == x);
                }
            }
        }
    } else {
        reveal(Seq::filter);
        if held.len() > 0 {
            let rest = held.drop_last();
            lemma_pressed(rest, k, false);
            let f = model::after_press(rest, k, false);
            let last = held.last();
            assert forall|x: T| #[trigger] after.contains(x) == (x != k && held.contains(x)) by {
                assert(held.contains(x) == (rest.contains(x) || x == last)) by {
                    if rest.contains(x) {
                        let i = choose|i: int| 0 <= i < rest.len() && rest[i] == x;
                        assert(held[i] == x);
                    }
                    if x == last {
                        assert(held[held.len() - 1] == x);
                    }
                    if held.contains(x) {
                        let i = choose|i: int| 0 <= i < held.len() && held[i] == x;
                        if i < rest.len() {
                            assert(rest[i] == x);
                        }
                    }
                }
                assert(f.contains(x) == (x != k && rest.contains(x)));
                if last != k {
                    assert(after =~= f.push(last));
                    if f.contains(x) {
                        let i = choose|i: int| 0 <= i < f.len() && f[i] == x;
                        assert(after[i] == x);
                    }
                    assert(after[f.len() as int] == last);
                    if after.contains(x) && x != last {
                        let i = choose|i: int| 0 <= i < after.len() && after[i] == x;
                        assert(f[i] == x);
                    }
                }
            }
        }
    }
}

impl Injector {
    /// Nothing is held.
    pub fn new() -> (r: Injector)
        ensures
            r@ == (InjectorView {
                left_down: false,
                right_down: false,
                other_down: false,
                flags: 0,
                down_keys: seq![],
                down_buttons: seq![],
                x: 0,
                y: 0,
                last_click: None,
            }),
            r@.wf(),
    {
        let r: Injector = Injector {
            left_down: false,
            right_down: false,
            other_down: false,
            flags: 0,
            down_keys: Vec::new(),
            down_buttons: Vec::new(),
            x: 0,
            y: 0,
            last_click: None,
        };
        assert(r@.down_keys =~= seq![]);
        assert(r@.down_buttons =~= seq![]);
        r
    }

    /// Moves the cursor.
    pub fn mouse_to(&mut self, x: i32, y: i32, dx: i32, dy: i32) -> (r: Post)
        ensures
            final(self)@ == (InjectorView { x, y, ..old(self)@ }),
            ({
                let (kind, button) = old(self)@.motion_kind();
                r == (Post {
                    flags: old(self)@.flags,
                    event: MacEvent::Motion { kind, button, x, y, dx, dy },
                })
            }),
            (final(self)@, r) == old(self)@.moved_to(x, y, dx, dy),
    {
        self.x = x;
        self.y = y;
        let (kind, button): (u32, u32) = if self.left_down {
            (ET_LEFT_DRAG, 0)
        } else if self.right_down {
            (ET_RIGHT_DRAG, 1)
        } else if self.other_down {
            (ET_OTHER_DRAG, 2)
        } else {
            (ET_MOVED, 0)
        };
        Post { flags: self.flags, event: MacEvent::Motion { kind, button, x, y, dx, dy } }
    }

    /// Presses or releases a button.
    pub fn button(&mut self, b: MouseButton, pressed: bool, now: u64) -> (r: Post)
        ensures
            final(self)@ == old(self)@.after_button(b, pressed, now),
            r == old(self)@.button_post(b, pressed, now),
    {
        let (kind, button): (u32, u32) = match b {
            MouseButton::Left => (
                if pressed {
                    ET_LEFT_DOWN
                } else {
                    ET_LEFT_UP
                },
                0,
            ),
            MouseButton::Right => (
                if pressed {
                    ET_RIGHT_DOWN
                } else {
                    ET_RIGHT_UP
                },
                1,
            ),
            MouseButton::Middle => (
                if pressed {
                    ET_OTHER_DOWN
                } else {
                    ET_OTHER_UP
                },
                2,
            ),
            MouseButton::X1 => (
                if pressed {
                    ET_OTHER_DOWN
                } else {
                    ET_OTHER_UP
                },
                3,
            ),
            MouseButton::X2 => (
                if pressed {
                    ET_OTHER_DOWN
                } else {
                    ET_OTHER_UP
                },
                4,
            ),
        };
        match b {
            MouseButton::Left => {
                self.left_down = pressed;
            },
            MouseButton::Right => {
                self.right_down = pressed;
            },
            _ => {
                self.other_down = pressed;
            },
        }
        let mut held: Vec<MouseButton> = Vec::new();
        std::mem::swap(&mut held, &mut self.down_buttons);
        self.down_buttons = press_button(held, b, pressed);
        let click_state: i64 = if pressed {
            let count: i64 = match self.last_click {
                Some(c) => {
                    let dx: i64 = c.x as i64 - self.x as i64;
                    let dy: i64 = c.y as i64 - self.y as i64;
                    if elapsed(now, c.at) < CLICK_WINDOW && -5 < dx && dx < 5 && -5 < dy && dy < 5 {
                        if c.count == i64::MAX {
                            c.count
                        } else {
                            c.count + 1
                        }
                    } else {
                        1
                    }
                },
                None => 1,
            };
            self.last_click = Some(LastClick { at: now, x: self.x, y: self.y, count });
            count
        } else {
            match self.last_click {
                Some(c) => c.count,
                None => 1,
            }
        };
        Post {
            flags: self.flags,
            event: MacEvent::Click { kind, button, x: self.x, y: self.y, click_state },
        }
    }

    /// Turns the wheel; less than nothing is not posted.
    pub fn wheel(&self, dx: i32, dy: i32) -> (r: Option<Post>)
        ensures
            r == if lines_of(dx as int) == 0 && lines_of(dy as int) == 0 {
                None
            } else {
                Some(
                    Post {
                        flags: self@.flags,
                        event: MacEvent::Scroll {
                            y: lines_of(dy as int) as i32,
                            x: lines_of(dx as int) as i32,
                        },
                    },
                )
            },
            r == self@.scrolled(dx, dy),
    {
        let y: i32 = to_lines(dy);
        let x: i32 = to_lines(dx);
        if x == 0 && y == 0 {
            None
        } else {
            Some(Post { flags: self.flags, event: MacEvent::Scroll { y, x } })
        }
    }

    /// Presses or releases a key.
    pub fn key(&mut self, hid: u16, pressed: bool) -> (r: Option<Post>)
        ensures
            final(self)@ == old(self)@.after_key(hid, pressed),
            r == old(self)@.key_post(hid, pressed),
    {
        let vk: u16 = match hid_to_native(Os::MacOs, hid) {
            Some(vk) => vk,
            None => {
                return None;
            },
        };
        let mask: u64 = if hid == keymap::HID_LSHIFT || hid == keymap::HID_RSHIFT {
            FLAG_SHIFT
        } else if hid == keymap::HID_LCTRL || hid == keymap::HID_RCTRL {
            FLAG_CTRL
        } else if hid == keymap::HID_LALT || hid == keymap::HID_RALT {
            FLAG_ALT
        } else if hid == keymap::HID_LGUI || hid == keymap::HID_RGUI {
            FLAG_CMD
        } else if hid == keymap::HID_CAPSLOCK {
            FLAG_CAPS
        } else {
            0
        };
        if mask != 0 {
            if hid == keymap::HID_CAPSLOCK {
                if pressed {
                    self.flags = self.flags ^ mask;
                }
            } else if pressed {
                self.flags = self.flags | mask;
            } else {
                self.flags = self.flags & !mask;
            }
        }
        let mut held: Vec<u16> = Vec::new();
        std::mem::swap(&mut held, &mut self.down_keys);
        self.down_keys = press_key(held, hid, pressed);
        Some(Post { flags: self.flags, event: MacEvent::Key { vk, pressed } })
    }

    /// Belt-and-braces: release anything still held (the driving side also sends
    /// explicit releases on focus change, but a dropped connection skips those).
    pub fn release_all(&mut self, now: u64) -> (r: Vec<Post>)
        ensures
            (final(self)@, r@) == old(self)@.released(now),
    {
        let mut posts: Vec<Post> = Vec::new();
        let mut keys: Vec<u16> = Vec::new();
        std::mem::swap(&mut keys, &mut self.down_keys);
        let ghost start = InjectorView { down_keys: seq![], ..old(self)@ };
        proof {
            assert(self@.down_keys =~= seq![]);
            assert(keys@.take(0) =~= seq![]);
            assert(posts@ =~= seq![]);
            assert(self@ == start);
        }
        for i in 0..keys.len()
            invariant
                (self@, posts@) == start.released_keys(keys@.take(i as int)),
        {
            proof {
                assert(keys@.take(i + 1).drop_last() =~= keys@.take(i as int));
                assert(keys@.take(i + 1).last() == keys@[i as int]);
            }
            match self.key(keys[i], false) {
                Some(p) => {
                    posts.push(p);
                },
                None => {},
            }
        }
        assert(keys@.take(keys@.len() as int) =~= keys@);
        let ghost mid = self@;
        let ghost sent = posts@;
        let mut buttons: Vec<MouseButton> = Vec::new();
        std::mem::swap(&mut buttons, &mut self.down_buttons);
        let ghost from = InjectorView { down_buttons: seq![], ..mid };
        proof {
            assert(self@.down_buttons =~= seq![]);
            assert(buttons@.take(0) =~= seq![]);
            assert(posts@ =~= sent + seq![]);
            assert(self@ == from);
        }
        for i in 0..buttons.len()
            invariant
                self@ == from.released_buttons(buttons@.take(i as int), now).0,
                posts@ == sent + from.released_buttons(buttons@.take(i as int), now).1,
        {
            proof {
                assert(buttons@.take(i + 1).drop_last() =~= buttons@.take(i as int));
                assert(buttons@.take(i + 1).last() == buttons@[i as int]);
            }
            let p: Post = self.button(buttons[i], false, now);
            let ghost before = posts@;
            posts.push(p);
            proof {
                let more = from.released_buttons(buttons@.take(i as int), now).1;
                assert((sent + more).push(p) =~= sent + more.push(p));
            }
        }
        assert(buttons@.take(buttons@.len() as int) =~= buttons@);
        self.flags = 0;
        posts
    }
}

} // verus!
