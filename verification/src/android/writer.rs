//! The writer of the control socket: queued moves are coalesced into fewer reports.
use vstd::prelude::*;

use crate::android::control::{self, clamp, mouse_report_msg, Cmd};
use crate::text::has_char;
use crate::wire::push_all;

verus! {

/// Minimum gap between writes when input is flooding, in nanoseconds. A continuous
/// stream is capped to this rate, with everything in the gap coalesced into one
/// cumulative report.
pub const WRITE_MIN_GAP: u64 = 8_000_000;

/// Idle heartbeat interval, in nanoseconds: a steady no-op keeps the radio of a
/// wireless tablet awake, so real moves always land hot.
pub const KEEPALIVE_GAP: u64 = 6_000_000;

/// The most commands that are gathered into one batch while the gap lasts.
pub const BATCH_MAX: usize = 512;

/// The steps of a long move: each within what a report can say.
pub open spec fn steps_of(dx: int, dy: int) -> Seq<(int, int)>
    decreases magnitude(dx) + magnitude(dy),
{
    let sx = control::clamped(dx);
    let sy = control::clamped(dy);
    if dx - sx == 0 && dy - sy == 0 {
        seq![(sx, sy)]
    } else {
        seq![(sx, sy)] + steps_of(dx - sx, dy - sy)
    }
}

/// An absolute value.
pub open spec fn magnitude(v: int) -> nat {
    if v < 0 {
        (-v) as nat
    } else {
        v as nat
    }
}

/// How far some steps go together.
pub open spec fn total(steps: Seq<(int, int)>) -> (int, int)
    decreases steps.len(),
{
    if steps.len() == 0 {
        (0, 0)
    } else {
        let rest = total(steps.skip(1));
        (steps[0].0 + rest.0, steps[0].1 + rest.1)
    }
}

/// Deltas sum exactly, so the position is preserved: the steps of a move go together
/// as far as the move, and each fits in a report.
pub proof fn law_steps_preserve_the_move(dx: int, dy: int)
    ensures
        total(steps_of(dx, dy)) == (dx, dy),
        forall|i: int|
            0 <= i < steps_of(dx, dy).len() ==> -127 <= (#[trigger] steps_of(dx, dy)[i]).0 <= 127
                && -127 <= steps_of(dx, dy)[i].1 <= 127,
    decreases magnitude(dx) + magnitude(dy),
{
    let sx = control::clamped(dx);
    let sy = control::clamped(dy);
    let s = steps_of(dx, dy);
    if dx - sx == 0 && dy - sy == 0 {
        assert(s.skip(1) =~= seq![]);
        assert(total(s.skip(1)) == (0int, 0int));
    } else {
        law_steps_preserve_the_move(dx - sx, dy - sy);
        let rest = steps_of(dx - sx, dy - sy);
        assert(s.skip(1) =~= rest);
        assert forall|i: int| 0 <= i < s.len() implies -127 <= (#[trigger] s[i]).0 <= 127 && -127
            <= s[i].1 <= 127 by {
            if i > 0 {
                assert(s[i] == rest[i - 1]);
            }
        }
    }
}

/// The reports of some steps.
pub open spec fn reports_of(buttons: u8, steps: Seq<(int, int)>) -> Seq<Seq<u8>> {
    steps.map_values(|p: (int, int)| control::mouse_report(buttons, p.0, p.1, 0, 0))
}

/// How many moves a batch starts with.
pub open spec fn run_len(batch: Seq<control::CmdView>) -> nat
    decreases batch.len(),
{
    if batch.len() > 0 && batch[0] is Move {
        1 + run_len(batch.skip(1))
    } else {
        0
    }
}

/// How far some moves go together.
pub open spec fn run_move(batch: Seq<control::CmdView>) -> (int, int)
    decreases batch.len(),
{
    if batch.len() == 0 {
        (0, 0)
    } else {
        let before = run_move(batch.drop_last());
        match batch.last() {
            control::CmdView::Move { dx, dy, .. } => (before.0 + dx, before.1 + dy),
            _ => before,
        }
    }
}

/// The buttons that are held after a batch: those that its last command about the mouse
/// speaks of.
pub open spec fn last_buttons_of(batch: Seq<control::CmdView>, before: u8) -> u8
    decreases batch.len(),
{
    if batch.len() == 0 {
        before
    } else {
        match batch.last() {
            control::CmdView::Move { buttons, .. } => buttons,
            control::CmdView::Buttons(b) => b,
            _ => last_buttons_of(batch.drop_last(), before),
        }
    }
}

/// What a batch is written as: a run of moves as the steps of one move, with the
/// buttons of its last; everything else verbatim, in order.
pub open spec fn written(batch: Seq<control::CmdView>) -> Seq<Seq<u8>>
    decreases batch.len(),
{
    if batch.len() == 0 {
        seq![]
    } else {
        match batch[0] {
            control::CmdView::Move { .. } => {
                let n = run_len(batch) as int;
                if 0 < n <= batch.len() {
                    let run = batch.take(n);
                    let m = run_move(run);
                    reports_of(last_buttons_of(run, 0), steps_of(m.0, m.1)) + written(batch.skip(n))
                } else {
                    seq![]
                }
            },
            control::CmdView::Buttons(b) => seq![control::mouse_report(b, 0, 0, 0, 0)] + written(
                batch.skip(1),
            ),
            control::CmdView::Report(v) => seq![v] + written(batch.skip(1)),
        }
    }
}

/// A run is part of the batch, made of moves, and ends where they do.
proof fn lemma_run(batch: Seq<control::CmdView>)
    ensures
        run_len(batch) <= batch.len(),
        forall|i: int| 0 <= i < run_len(batch) ==> (#[trigger] batch[i]) is Move,
        run_len(batch) < batch.len() ==> !(batch[run_len(batch) as int] is Move),
    decreases batch.len(),
{
    if batch.len() > 0 && batch[0] is Move {
        lemma_run(batch.skip(1));
        assert forall|i: int| 0 <= i < run_len(batch) implies (#[trigger] batch[i]) is Move by {
            if i > 0 {
                assert(batch.skip(1)[i - 1] == batch[i]);
            }
        }
        if run_len(batch) < batch.len() {
            assert(batch.skip(1)[run_len(batch.skip(1)) as int] == batch[run_len(batch) as int]);
        }
    }
}

/// The heartbeat is a true no-op: the buttons that it repeats are those that the session
/// holds. It is so at the start, where both are none; it stays so whatever is queued for
/// the writer, `queue` being what waits and `held` what the writer last wrote.
pub proof fn law_heartbeat_repeats_what_is_held(
    s: control::SinkView,
    queue: Seq<control::CmdView>,
    held: u8,
    index: u8,
    pressed: bool,
    dx: int,
    dy: int,
    report: Seq<u8>,
)
    requires
        last_buttons_of(queue, held) == s.buttons,
    ensures
        ({
            let after = s.after_button(index, pressed);
            last_buttons_of(queue.push(control::CmdView::Buttons(after.buttons)), held)
                == after.buttons
        }),
        last_buttons_of(
            queue.push(control::CmdView::Move { buttons: s.buttons, dx, dy }),
            held,
        ) == s.buttons,
        last_buttons_of(queue.push(control::CmdView::Report(report)), held) == s.buttons,
        last_buttons_of(seq![], last_buttons_of(queue, held)) == s.buttons,
{
    assert(queue.push(control::CmdView::Report(report)).drop_last() =~= queue);
}

/// What several messages say.
pub open spec fn bytes_view(v: Seq<Vec<u8>>) -> Seq<Seq<u8>> {
    v.map_values(|m: Vec<u8>| m@)
}

/// The side that owns the control socket.
#[derive(Debug)]
pub struct Writer {
    /// Over wireless an idle heartbeat keeps the radio awake.
    pub wifi: bool,
    /// Held-button state, so an idle heartbeat never drops a drag.
    pub last_buttons: u8,
}

impl Writer {
    /// The writer of a fresh session: a `host:port` serial means that the transport is
    /// wireless.
    pub fn new(serial: &str) -> (r: Writer)
        ensures
            r.wifi == serial@.contains(':'),
            r.last_buttons == 0,
    {
        Writer { wifi: has_char(serial, ':'), last_buttons: 0 }
    }

    /// What is written when nothing came for a while: on wireless a report without
    /// motion, a true no-op for Android.
    pub fn idle(&self) -> (r: Option<Vec<u8>>)
        ensures
            match r {
                Some(m) => self.wifi && m@ == control::mouse_report(self.last_buttons, 0, 0, 0, 0),
                None => !self.wifi,
            },
    {
        if self.wifi {
            Some(mouse_report_msg(self.last_buttons, 0, 0, 0, 0))
        } else {
            None
        }
    }

    /// How long to gather more input before writing, given the time since the last
    /// write: the rest of the gap, if it still lasts.
    pub fn hold_for(since: u64) -> (r: Option<u64>)
        ensures
            r == if since < WRITE_MIN_GAP {
                Some((WRITE_MIN_GAP - since) as u64)
            } else {
                None
            },
    {
        if since < WRITE_MIN_GAP {
            Some(WRITE_MIN_GAP - since)
        } else {
            None
        }
    }

    /// Whether to gather on: the deadline has not come and the batch is not full.
    pub fn gathers(now: u64, deadline: u64, held: usize) -> (r: bool)
        ensures
            r == (now < deadline && held < BATCH_MAX),
    {
        now < deadline && held < BATCH_MAX
    }

    /// The messages that a batch is written as.
    pub fn flush(&mut self, batch: &Vec<Cmd>) -> (r: Vec<Vec<u8>>)
        ensures
            bytes_view(r@) == written(control::cmds_view(batch@)),
            final(self).wifi == old(self).wifi,
            final(self).last_buttons == last_buttons_of(
                control::cmds_view(batch@),
                old(self).last_buttons,
            ),
    {
        let mut out: Vec<Vec<u8>> = Vec::new();
        let ghost all = control::cmds_view(batch@);
        let ghost start = self.last_buttons;
        let mut i: usize = 0;
        proof {
            assert(bytes_view(out@) =~= seq![]);
            assert(all.skip(0) =~= all);
            assert(all.take(0) =~= seq![]);
            assert(seq![] + written(all) =~= written(all));
        }
        while i < batch.len()
            invariant
                i <= batch@.len(),
                all == control::cmds_view(batch@),
                bytes_view(out@) + written(all.skip(i as int)) == written(all),
                self.wifi == old(self).wifi,
                self.last_buttons == last_buttons_of(all.take(i as int), start),
            decreases batch@.len() - i,
        {
            let ghost tail = all.skip(i as int);
            proof {
                assert(tail[0] == batch@[i as int]@);
                lemma_run(tail);
            }
            match &batch[i] {
                Cmd::Move { .. } => {
                    let begin: usize = i;
                    let ghost n = run_len(tail) as int;
                    let mut buttons: u8 = 0;
                    let mut dx: i128 = 0;
                    let mut dy: i128 = 0;
                    let mut more: bool = true;
                    assert(tail.take(0) =~= seq![]);
                    while more
                        invariant
                            begin <= i <= batch@.len(),
                            i <= begin + n,
                            all == control::cmds_view(batch@),
                            tail == all.skip(begin as int),
                            n == run_len(tail),
                            n <= tail.len(),
                            forall|j: int| 0 <= j < n ==> (#[trigger] tail[j]) is Move,
                            n < tail.len() ==> !(tail[n] is Move),
                            (dx as int, dy as int) == run_move(tail.take(i - begin)),
                            buttons == last_buttons_of(tail.take(i - begin), 0),
                            -0x8000_0000 * (i - begin) <= dx <= 0x8000_0000 * (i - begin),
                            -0x8000_0000 * (i - begin) <= dy <= 0x8000_0000 * (i - begin),
                            !more ==> i == begin + n,
                        decreases batch@.len() - i,if more { 1int } else { 0int },
                    {
                        if i < batch.len() {
                            assert(tail[i - begin] == batch@[i as int]@);
                            match &batch[i] {
                                Cmd::Move { buttons: b, dx: x, dy: y } => {
                                    proof {
                                        let t = tail.take(i - begin + 1);
                                        assert(t.drop_last() =~= tail.take(i - begin));
                                        assert(t.last() == batch@[i as int]@);
                                        assert(0x8000_0000 * (i - begin) <= 0x8000_0000 * usize::MAX);
                                    }
                                    buttons = *b;
                                    dx = dx + *x as i128;
                                    dy = dy + *y as i128;
                                    i = i + 1;
                                },
                                Cmd::Buttons(_) => {
                                    more = false;
                                },
                                Cmd::Report(_) => {
                                    more = false;
                                },
                            }
                        } else {
                            more = false;
                        }
                    }
                    let ghost sent = bytes_view(out@);
                    self.last_buttons = buttons;
                    push_steps(&mut out, buttons, dx, dy);
                    proof {
                        let run = tail.take(n);
                        let m = run_move(run);
                        let r = reports_of(last_buttons_of(run, 0), steps_of(m.0, m.1));
                        assert(tail.skip(n) =~= all.skip(i as int));
                        assert(sent + (r + written(tail.skip(n))) =~= (sent + r) + written(
                            tail.skip(n),
                        ));
                        assert(run.last() is Move);
                        assert(all.take(i as int).last() == run.last());
                    }
                },
                Cmd::Buttons(b) => {
                    let m: Vec<u8> = mouse_report_msg(*b, 0, 0, 0, 0);
                    let ghost mv = m@;
                    let ghost sent = bytes_view(out@);
                    out.push(m);
                    self.last_buttons = *b;
                    proof {
                        assert(bytes_view(out@) =~= sent.push(mv));
                        assert(tail.skip(1) =~= all.skip(i + 1));
                        assert(sent + (seq![mv] + written(tail.skip(1))) =~= sent.push(mv)
                            + written(tail.skip(1)));
                        assert(all.take(i + 1).last() == batch@[i as int]@);
                    }
                    i = i + 1;
                },
                Cmd::Report(v) => {
                    let mut m: Vec<u8> = Vec::new();
                    push_all(&mut m, v.as_slice());
                    let ghost sent = bytes_view(out@);
                    assert(m@ =~= v@);
                    out.push(m);
                    proof {
                        assert(bytes_view(out@) =~= sent.push(v@));
                        assert(tail.skip(1) =~= all.skip(i + 1));
                        assert(sent + (seq![v@] + written(tail.skip(1))) =~= sent.push(v@)
                            + written(tail.skip(1)));
                        assert(all.take(i + 1).drop_last() =~= all.take(i as int));
                        assert(all.take(i + 1).last() == batch@[i as int]@);
                    }
                    i = i + 1;
                },
            }
        }
        proof {
            assert(all.skip(all.len() as int) =~= seq![]);
            assert(bytes_view(out@) + written(all.skip(all.len() as int)) =~= bytes_view(out@));
            assert(all.take(all.len() as int) =~= all);
        }
        out
    }
}

/// Appends the reports of a move.
fn push_steps(out: &mut Vec<Vec<u8>>, buttons: u8, dx: i128, dy: i128)
    requires
        -0x8000_0000_0000_0000_0000_0000 <= dx <= 0x8000_0000_0000_0000_0000_0000,
        -0x8000_0000_0000_0000_0000_0000 <= dy <= 0x8000_0000_0000_0000_0000_0000,
    ensures
        bytes_view(final(out)@) == bytes_view(old(out)@) + reports_of(
            buttons,
            steps_of(dx as int, dy as int),
        ),
{
    let mut x: i128 = dx;
    let mut y: i128 = dy;
    let mut more: bool = true;
    let ghost all = reports_of(buttons, steps_of(dx as int, dy as int));
    let ghost before = bytes_view(out@);
    while more
        invariant
            -0x8000_0000_0000_0000_0000_0000 <= x <= 0x8000_0000_0000_0000_0000_0000,
            -0x8000_0000_0000_0000_0000_0000 <= y <= 0x8000_0000_0000_0000_0000_0000,
            if more {
                bytes_view(out@) + reports_of(buttons, steps_of(x as int, y as int)) == before + all
            } else {
                bytes_view(out@) == before + all
            },
        decreases magnitude(x as int) + magnitude(y as int),if more { 1int } else { 0int },
    {
        let sx: i8 = clamp(x);
        let sy: i8 = clamp(y);
        let m: Vec<u8> = mouse_report_msg(buttons, sx, sy, 0, 0);
        let ghost sent = bytes_view(out@);
        let ghost mv = m@;
        out.push(m);
        let ghost steps = steps_of(x as int, y as int);
        let ghost rest = steps_of(x - sx, y - sy);
        x = x - sx as i128;
        y = y - sy as i128;
        proof {
            assert(bytes_view(out@) =~= sent.push(mv));
        }
        if x == 0 && y == 0 {
            more = false;
            assert(sent.push(mv) =~= sent + reports_of(buttons, steps));
        } else {
            assert(sent.push(mv) + reports_of(buttons, rest) =~= sent + reports_of(buttons, steps));
        }
    }
}

} // verus!