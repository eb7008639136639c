//! The displays of a machine: which one is meant, and whether it may be detached.
use vstd::prelude::*;

use crate::parse::{self, lines, parse_up_to, split_once, strip_prefix};
use crate::proto::{self, rects_match, Rect};
use crate::text::{self, decimal, joined, strip_ends, trim};

verus! {

/// The decimal text of a signed number.
pub open spec fn signed_of(n: int) -> Seq<char> {
    if n < 0 {
        "-"@ + text::decimal_of((-n) as nat)
    } else {
        text::decimal_of(n as nat)
    }
}

/// The decimal text of a signed number.
pub fn signed(n: i32) -> (r: String)
    ensures
        r@ == signed_of(n as int),
{
    if n < 0 {
        joined("-", decimal((-(n as i64)) as u64).as_str())
    } else {
        decimal(n as u64)
    }
}

/// A rect, as it stands in messages.
pub open spec fn rect_text_of(r: Rect) -> Seq<char> {
    "Rect { x: "@ + signed_of(r.x as int) + ", y: "@ + signed_of(r.y as int) + ", w: "@ + signed_of(
        r.w as int,
    ) + ", h: "@ + signed_of(r.h as int) + " }"@
}

/// A rect, as it stands in messages.
pub fn rect_text(r: Rect) -> (s: String)
    ensures
        s@ == rect_text_of(r),
{
    let a: String = joined("Rect { x: ", signed(r.x).as_str());
    let b: String = joined(joined(a.as_str(), ", y: ").as_str(), signed(r.y).as_str());
    let c: String = joined(joined(b.as_str(), ", w: ").as_str(), signed(r.w).as_str());
    let d: String = joined(joined(c.as_str(), ", h: ").as_str(), signed(r.h).as_str());
    joined(d.as_str(), " }")
}

/// A display in the list of active ones.
#[derive(Clone, Copy, Debug, PartialEq, Eq, Structural)]
pub struct ActiveDisplay {
    pub id: u32,
    pub bounds: Rect,
    /// It is mirrored away.
    pub mirrored: bool,
}

/// How a display is reconfigured: made to mirror another one, or none (zero).
#[derive(Clone, Copy, Debug, PartialEq, Eq, Structural)]
pub struct Mirroring {
    pub target: u32,
    pub master: u32,
}

/// The display that an index means. Indices count from one; zero means the first, too.
pub open spec fn display_at(list: Seq<ActiveDisplay>, index: u32) -> Option<ActiveDisplay> {
    let i = if index == 0 {
        0
    } else {
        index - 1
    };
    if i < list.len() {
        Some(list[i])
    } else {
        None
    }
}

/// The display that an index means.
fn find_display(list: &Vec<ActiveDisplay>, index: u32) -> (r: Option<ActiveDisplay>)
    ensures
        r == display_at(list@, index),
{
    let i: usize = if index == 0 {
        0
    } else {
        (index - 1) as usize
    };
    if i < list.len() {
        Some(list[i])
    } else {
        None
    }
}

/// The rect that a display is expected to have; one without a size is no expectation.
pub open spec fn expected(expect: Option<Rect>) -> Option<Rect> {
    match expect {
        Some(e) => if e.w != 0 && e.h != 0 {
            Some(e)
        } else {
            None
        },
        None => None,
    }
}

/// Two rects are those of the same display.
pub open spec fn same_display(a: Rect, b: Rect) -> bool {
    proto::within_8(a.x as int, b.x as int) && proto::within_8(a.y as int, b.y as int)
        && proto::within_8(a.w as int, b.w as int) && proto::within_8(a.h as int, b.h as int)
}

/// Disabling a display would hit another one than was meant.
pub open spec fn wrong_monitor(d: ActiveDisplay, expect: Option<Rect>, enabled: bool) -> bool {
    !enabled && (expected(expect) matches Some(e) && !same_display(d.bounds, e))
}

/// "Disables" an external display for cursor purposes: it mirrors the main display, so
/// it leaves the extended desktop and the pointer can no longer wander onto a panel that
/// is physically showing the other machine. Fully reversible. The main display is never
/// touched, and only the exact monitor that is meant is ever disabled.
pub fn set_display_enabled(
    list: &Vec<ActiveDisplay>,
    main: u32,
    index: u32,
    expect: Option<Rect>,
    enabled: bool,
) -> (r: Result<Mirroring, String>)
    ensures
        match display_at(list@, index) {
            None => r matches Err(e) && e@ == "display index "@ + text::decimal_of(index as nat)
                + " out of range"@,
            Some(d) => if d.id == main {
                r matches Err(e) && e@ == "refusing to disable the main display"@
            } else if wrong_monitor(d, expect, enabled) {
                r matches Err(e) && e@ == "safety: display "@ + text::decimal_of(index as nat)
                    + " is "@ + rect_text_of(d.bounds) + ", expected shared panel "@ + rect_text_of(
                    expect->0,
                ) + " — refusing to disable the wrong monitor"@
            } else {
                r == Ok::<Mirroring, String>(
                    Mirroring {
                        target: d.id,
                        master: if enabled {
                            0
                        } else {
                            main
                        },
                    },
                )
            },
        },
{
    let number: String = decimal(index as u64);
    let d: ActiveDisplay = match find_display(list, index) {
        Some(d) => d,
        None => {
            return Err(
                joined(joined("display index ", number.as_str()).as_str(), " out of range"),
            );
        },
    };
    if d.id == main {
        return Err("refusing to disable the main display".to_owned());
    }
    if !enabled {
        match expect {
            Some(e) => {
                if e.w != 0 && e.h != 0 && !rects_match(d.bounds, e) {
                    let a: String = joined(
                        joined("safety: display ", number.as_str()).as_str(),
                        " is ",
                    );
                    let b: String = joined(
                        joined(a.as_str(), rect_text(d.bounds).as_str()).as_str(),
                        ", expected shared panel ",
                    );
                    return Err(
                        joined(
                            joined(b.as_str(), rect_text(e).as_str()).as_str(),
                            " — refusing to disable the wrong monitor",
                        ),
                    );
                }
            },
            None => {},
        }
    }
    Ok(
        Mirroring {
            target: d.id,
            master: if enabled {
                0
            } else {
                main
            },
        },
    )
}

/// Is a display currently "disabled" (mirrored away)? None = can't tell.
pub fn display_disabled(list: &Vec<ActiveDisplay>, main: u32, index: u32) -> (r: Option<bool>)
    ensures
        r == match display_at(list@, index) {
            Some(d) => Some(d.id != main && d.mirrored),
            None => None,
        },
{
    match find_display(list, index) {
        Some(d) => Some(d.id != main && d.mirrored),
        None => None,
    }
}

/// How often a monitor is asked to switch its input: some intermittently ignore it.
pub const SWITCH_MAX: u32 = 3;

/// How long to rest before an attempt to switch a monitor's input, in milliseconds:
/// nothing where no further one is made.
pub fn switch_rest(attempt: u32) -> (r: Option<u64>)
    ensures
        r == (if attempt == 0 {
            Some(0u64)
        } else if attempt < SWITCH_MAX {
            Some(250u64)
        } else {
            None
        }),
{
    if attempt == 0 {
        Some(0)
    } else if attempt < SWITCH_MAX {
        Some(250)
    } else {
        None
    }
}

/// The monitor whose input is switched, among so many.
pub fn set_display_input(count: usize, index: u32) -> (r: Result<usize, String>)
    ensures
        if count == 0 {
            r matches Err(e) && e@ == "no physical monitors"@
        } else if index < count {
            r matches Ok(i) && i == index
        } else {
            r matches Err(e) && e@ == "display index "@ + text::decimal_of(index as nat)
                + " out of range"@
        },
{
    if count == 0 {
        Err("no physical monitors".to_owned())
    } else if (index as usize) < count {
        Ok(index as usize)
    } else {
        Err(
            joined(
                joined("display index ", decimal(index as u64).as_str()).as_str(),
                " out of range",
            ),
        )
    }
}

/// An external display: its index and its name.
#[derive(Debug)]
pub struct Listed {
    pub index: u32,
    pub name: String,
}

/// The display on a line such as `[1] LC32G5xT (UUID)`.
pub open spec fn listed_on(line: Seq<char>) -> Option<(int, Seq<char>)> {
    match parse::after(text::trimmed(line), "["@) {
        Some(rest) => match parse::parted(rest, ']') {
            Some((idx, name)) => match parse::parsed(text::trimmed(idx), 0, u32::MAX as int) {
                Some(i) => Some((i, text::trimmed(name))),
                None => None,
            },
            None => None,
        },
        None => None,
    }
}

/// What a list of displays says.
pub open spec fn listed_view(v: Seq<Listed>) -> Seq<(int, Seq<char>)> {
    v.map_values(|d: Listed| (d.index as int, d.name@))
}

/// The displays on some lines.
pub open spec fn all_listed(rows: Seq<Seq<char>>) -> Seq<(int, Seq<char>)>
    decreases rows.len(),
{
    if rows.len() == 0 {
        seq![]
    } else {
        let before = all_listed(rows.drop_last());
        match listed_on(rows.last()) {
            Some(d) => before.push(d),
            None => before,
        }
    }
}

/// The display on a line.
fn read_display(line: &str) -> (r: Option<Listed>)
    ensures
        match r {
            Some(d) => listed_on(line@) == Some((d.index as int, d.name@)),
            None => listed_on(line@) is None,
        },
{
    let rest: String = match strip_prefix(trim(line).as_str(), "[") {
        Some(s) => s,
        None => {
            return None;
        },
    };
    match split_once(rest.as_str(), ']') {
        Some((idx, name)) => {
            match parse_up_to(trim(idx.as_str()).as_str(), u32::MAX as u64) {
                Some(i) => Some(Listed { index: i as u32, name: trim(name.as_str()) }),
                None => None,
            }
        },
        None => None,
    }
}

/// The external displays in the output of the display helper's list.
pub fn displays(output: &str) -> (r: Vec<Listed>)
    ensures
        listed_view(r@) == all_listed(parse::lines_of(output@)),
{
    let rows: Vec<String> = lines(output);
    let ghost all = text::texts(rows@);
    let mut out: Vec<Listed> = Vec::new();
    proof {
        assert(listed_view(out@) =~= seq![]);
        assert(all.take(0) =~= seq![]);
    }
    for i in 0..rows.len()
        invariant
            all == text::texts(rows@),
            listed_view(out@) == all_listed(all.take(i as int)),
    {
        proof {
            assert(all.take(i + 1).drop_last() =~= all.take(i as int));
            assert(all.take(i + 1).last() == rows@[i as int]@);
        }
        match read_display(rows[i].as_str()) {
            Some(d) => {
                let ghost before = listed_view(out@);
                let ghost dv = (d.index as int, d.name@);
                out.push(d);
                assert(listed_view(out@) =~= before.push(dv));
            },
            None => {},
        }
    }
    assert(all.take(all.len() as int) =~= all);
    out
}

/// The input source in the display helper's answer.
pub fn input_source(answer: &str) -> (r: Option<u16>)
    ensures
        match r {
            Some(n) => parse::parsed(text::trimmed(answer@), 0, u16::MAX as int) == Some(n as int),
            None => parse::parsed(text::trimmed(answer@), 0, u16::MAX as int) is None,
        },
{
    match parse_up_to(trim(answer).as_str(), u16::MAX as u64) {
        Some(n) => Some(n as u16),
        None => None,
    }
}

/// The name of a monitor out of a fixed-size field: without the padding at its end and
/// the white space around it.
pub fn monitor_name(field: &str) -> (r: String)
    ensures
        r@ == text::trimmed(text::without_ends(field@, "\0"@)),
{
    trim(strip_ends(field, "\0").as_str())
}

} // verus!
