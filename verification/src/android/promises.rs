//! What the tablet is told, seen from its side: what the reports say together.
use vstd::prelude::*;

use crate::android::control::{self, CmdView, SinkView};
use crate::android::writer;

verus! {

/// A byte of a report as a signed number.
pub open spec fn signed(b: u8) -> int {
    if b < 0x80 {
        b as int
    } else {
        b - 0x100
    }
}

/// How far a mouse report moves the pointer: its seventh and eighth byte.
pub open spec fn shift_of(report: Seq<u8>) -> (int, int) {
    (signed(report[6]), signed(report[7]))
}

/// How far some mouse reports move the pointer together.
pub open spec fn drift(reports: Seq<Seq<u8>>) -> (int, int)
    decreases reports.len(),
{
    if reports.len() == 0 {
        (0, 0)
    } else {
        let d = shift_of(reports[0]);
        let rest = drift(reports.skip(1));
        (d.0 + rest.0, d.1 + rest.1)
    }
}

/// How far a command asks the pointer to move.
pub open spec fn asked(c: CmdView) -> (int, int) {
    match c {
        CmdView::Move { dx, dy, .. } => (dx, dy),
        _ => (0, 0),
    }
}

/// How far some commands ask the pointer to move together.
pub open spec fn all_asked(batch: Seq<CmdView>) -> (int, int)
    decreases batch.len(),
{
    if batch.len() == 0 {
        (0, 0)
    } else {
        let d = asked(batch[0]);
        let rest = all_asked(batch.skip(1));
        (d.0 + rest.0, d.1 + rest.1)
    }
}

/// The buttons that a command about the mouse speaks of.
pub open spec fn holds(c: CmdView) -> u8 {
    match c {
        CmdView::Move { buttons, .. } => buttons,
        CmdView::Buttons(b) => b,
        CmdView::Report(_) => 0,
    }
}

/// Every command is about the mouse.
pub open spec fn is_about_mouse(batch: Seq<CmdView>) -> bool {
    forall|i: int| 0 <= i < batch.len() ==> !((#[trigger] batch[i]) is Report)
}

/// A mouse report says the buttons, the motion and the wheels, each in a byte of its own.
pub proof fn law_a_mouse_report_says_it_all(buttons: u8, dx: int, dy: int, wheel: int, pan: int)
    requires
        -128 <= dx <= 127,
        -128 <= dy <= 127,
        -128 <= wheel <= 127,
        -128 <= pan <= 127,
    ensures
        ({
            let m = control::mouse_report(buttons, dx, dy, wheel, pan);
            &&& m.len() == 10
            &&& m[0] == 13 && m[1] == 0 && m[2] == 1 && m[3] == 0 && m[4] == 5
            &&& m[5] == buttons && shift_of(m) == (dx, dy)
            &&& signed(m[8]) == wheel && signed(m[9]) == pan
        }),
{
}

/// A keyboard report says the modifiers, and every key that is held.
pub proof fn law_a_keyboard_report_says_it_all(s: SinkView)
    requires
        s.wf(),
    ensures
        ({
            let m = control::kbd_report(s.mods, s.keys);
            &&& m.len() == 13
            &&& m[0] == 13 && m[1] == 0 && m[2] == 2 && m[3] == 0 && m[4] == 8
            &&& m[5] == s.mods && m[6] == 0
            &&& forall|i: int| 0 <= i < 6 ==> #[trigger] m[7 + i] == if i < s.keys.len() {
                s.keys[i]
            } else {
                0u8
            }
        }),
{
}

/// A key that is pressed is held, one that is released is not, and another one stays as it
/// is while there is room; a modifier has a bit of its own.
pub proof fn law_keys_are_held_while_pressed(s: SinkView, hid: u8, other: u8, pressed: bool)
    requires
        s.wf(),
        other != hid,
    ensures
        ({
            let t = s.after_key(hid, pressed);
            &&& !(0xE0 <= hid <= 0xE7) ==> t.keys.contains(hid) == pressed && t.mods == s.mods
            &&& !(0xE0 <= hid <= 0xE7) && (!pressed || s.keys.len() < 6) ==> t.keys.contains(other)
                == s.keys.contains(other)
            &&& 0xE0 <= hid <= 0xE7 ==> t.keys == s.keys && control::has_bit(
                t.mods,
                (hid - 0xE0) as u8,
            ) == pressed
            &&& t.buttons == s.buttons
        }),
{
    if 0xE0 <= hid <= 0xE7 {
        let i = (hid - 0xE0) as u8;
        control::law_buttons_are_independent(s.mods, i, i, pressed);
    } else if pressed {
        let t = s.after_key(hid, pressed);
        if !s.keys.contains(hid) {
            assert(t.keys.last() == hid);
            assert(t.keys[t.keys.len() - 1] == hid);
            if s.keys.len() < 6 && s.keys.contains(other) {
                let j = choose|j: int| 0 <= j < s.keys.len() && s.keys[j] == other;
                assert(t.keys[j] == other);
            }
        }
    } else {
        lemma_left(s.keys, hid, other);
    }
}

proof fn lemma_left(keys: Seq<u8>, hid: u8, other: u8)
    requires
        other != hid,
    ensures
        !keys.filter(control::not_key(hid)).contains(hid),
        keys.filter(control::not_key(hid)).contains(other) == keys.contains(other),
    decreases keys.len(),
{
    reveal(Seq::filter);
    if keys.len() > 0 {
        let rest = keys.drop_last();
        let f = rest.filter(control::not_key(hid));
        let k = keys.last();
        lemma_left(rest, hid, other);
        if k != hid {
            assert(keys.filter(control::not_key(hid)) == f.push(k));
            assert(f.push(k)[f.len() as int] == k);
            if f.contains(other) {
                let j = choose|j: int| 0 <= j < f.len() && f[j] == other;
                assert(f.push(k)[j] == other);
            }
        }
        if keys.contains(other) && k != other {
            let j = choose|j: int| 0 <= j < keys.len() && keys[j] == other;
            assert(rest[j] == other);
        }
        if rest.contains(other) {
            let j = choose|j: int| 0 <= j < rest.len() && rest[j] == other;
            assert(keys[j] == other);
        }
    }
}

proof fn lemma_drift_sum(a: Seq<Seq<u8>>, b: Seq<Seq<u8>>)
    ensures
        drift(a + b) == (drift(a).0 + drift(b).0, drift(a).1 + drift(b).1),
    decreases a.len(),
{
    if a.len() == 0 {
        assert(a + b =~= b);
    } else {
        assert((a + b).skip(1) =~= a.skip(1) + b);
        lemma_drift_sum(a.skip(1), b);
    }
}

proof fn lemma_asked_sum(a: Seq<CmdView>, b: Seq<CmdView>)
    ensures
        all_asked(a + b) == (all_asked(a).0 + all_asked(b).0, all_asked(a).1 + all_asked(b).1),
    decreases a.len(),
{
    if a.len() == 0 {
        assert(a + b =~= b);
    } else {
        assert((a + b).skip(1) =~= a.skip(1) + b);
        lemma_asked_sum(a.skip(1), b);
    }
}

proof fn lemma_run_asked(run: Seq<CmdView>)
    ensures
        writer::run_move(run) == all_asked(run),
    decreases run.len(),
{
    if run.len() > 0 {
        let one = seq![run.last()];
        lemma_run_asked(run.drop_last());
        lemma_asked_sum(run.drop_last(), one);
        assert(run.drop_last() + one =~= run);
        assert(one.skip(1) =~= seq![]);
        assert(all_asked(one.skip(1)) == (0int, 0int));
    }
}

proof fn lemma_reports_drift(buttons: u8, steps: Seq<(int, int)>)
    requires
        forall|i: int|
            0 <= i < steps.len() ==> -127 <= (#[trigger] steps[i]).0 <= 127 && -127 <= steps[i].1
                <= 127,
    ensures
        drift(writer::reports_of(buttons, steps)) == writer::total(steps),
        forall|i: int|
            0 <= i < steps.len() ==> (#[trigger] writer::reports_of(buttons, steps)[i])[5]
                == buttons,
    decreases steps.len(),
{
    let r = writer::reports_of(buttons, steps);
    if steps.len() > 0 {
        let s = steps[0];
        law_a_mouse_report_says_it_all(buttons, s.0, s.1, 0, 0);
        assert(r[0] == control::mouse_report(buttons, s.0, s.1, 0, 0));
        assert(r.skip(1) =~= writer::reports_of(buttons, steps.skip(1)));
        lemma_reports_drift(buttons, steps.skip(1));
        assert forall|i: int| 0 <= i < steps.len() implies (#[trigger] r[i])[5] == buttons by {
            if i > 0 {
                assert(r.skip(1)[i - 1] == r[i]);
            }
        }
    }
}

proof fn lemma_run(batch: Seq<CmdView>)
    ensures
        writer::run_len(batch) <= batch.len(),
        forall|i: int| 0 <= i < writer::run_len(batch) ==> (#[trigger] batch[i]) is Move,
    decreases batch.len(),
{
    if batch.len() > 0 && batch[0] is Move {
        lemma_run(batch.skip(1));
        assert forall|i: int| 0 <= i < writer::run_len(batch) implies (#[trigger] batch[i]) is Move
            by {
            if i > 0 {
                assert(batch.skip(1)[i - 1] == batch[i]);
            }
        }
    }
}

/// However a batch of mouse commands is coalesced, the pointer goes as far as they ask
/// together, and in the end the buttons are those of the last.
pub proof fn law_coalescing_preserves_the_motion(batch: Seq<CmdView>)
    requires
        is_about_mouse(batch),
    ensures
        drift(writer::written(batch)) == all_asked(batch),
        batch.len() > 0 ==> writer::written(batch).len() > 0 && writer::written(batch).last()[5]
            == holds(batch.last()),
    decreases batch.len(),
{
    let w = writer::written(batch);
    if batch.len() > 0 {
        lemma_run(batch);
        let n = if batch[0] is Move {
            writer::run_len(batch) as int
        } else {
            1
        };
        let run = batch.take(n);
        let tail = batch.skip(n);
        assert(run + tail =~= batch);
        lemma_asked_sum(run, tail);
        assert forall|i: int| 0 <= i < tail.len() implies !((#[trigger] tail[i]) is Report) by {
            assert(tail[i] == batch[n + i]);
        }
        law_coalescing_preserves_the_motion(tail);
        let head: Seq<Seq<u8>>;
        if batch[0] is Move {
            let m = writer::run_move(run);
            let steps = writer::steps_of(m.0, m.1);
            let held = writer::last_buttons_of(run, 0);
            lemma_run_asked(run);
            writer::law_steps_preserve_the_move(m.0, m.1);
            lemma_reports_drift(held, steps);
            head = writer::reports_of(held, steps);
            assert(run.last() == batch[n - 1]);
            assert(held == holds(run.last()));
            assert(head.last() == head[steps.len() - 1]);
        } else {
            let b = holds(batch[0]);
            law_a_mouse_report_says_it_all(b, 0, 0, 0, 0);
            head = seq![control::mouse_report(b, 0, 0, 0, 0)];
            assert(head.skip(1) =~= seq![]);
            assert(drift(head.skip(1)) == (0int, 0int));
            assert(run.skip(1) =~= seq![]);
            assert(all_asked(run.skip(1)) == (0int, 0int));
            assert(run[0] == batch[0]);
        }
        assert(w == head + writer::written(tail));
        lemma_drift_sum(head, writer::written(tail));
        if tail.len() == 0 {
            assert(writer::written(tail) =~= seq![]);
            assert(w =~= head);
        } else {
            assert(w.last() == writer::written(tail).last());
            assert(tail.last() == batch.last());
        }
    }
}

} // verus!
