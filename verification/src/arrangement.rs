//! What arranging monitors and skipping a hidden one are for.
use vstd::prelude::*;

use crate::geometry::inside_by;
use crate::layout::{self, Edge};
use crate::platform::Guard;
use crate::proto::Rect;

verus! {

/// How far a point is from the first pixel past an edge.
pub open spec fn way_out(b: Rect, edge: Edge, x: int, y: int) -> int {
    inside_by(b, edge, x, y) + 1
}

/// A point is one pixel past an edge, straight out from another point.
pub open spec fn straight_out(b: Rect, edge: Edge, from: (int, int), to: (int, int)) -> bool {
    &&& inside_by(b, edge, to.0, to.1) == -1
    &&& edge is Left || edge is Right ==> to.1 == from.1
    &&& edge is Top || edge is Bottom ==> to.0 == from.0
}

/// Skipping over a hidden monitor goes straight out of it, one pixel past it, the way the
/// cursor travels most; without travel, past the nearest side.
pub proof fn law_skipping_goes_the_way_of_the_travel(b: Rect, x: int, y: int, dx: int, dy: int, e: Edge)
    requires
        b.solid(),
        b.holds(x, y),
    ensures
        ({
            let to = layout::skipped(b, x, y, dx, dy);
            let (ax, ay) = (
                if dx < 0 {
                    -dx
                } else {
                    dx
                },
                if dy < 0 {
                    -dy
                } else {
                    dy
                },
            );
            &&& ax > ay && dx > 0 ==> straight_out(b, Edge::Right, (x, y), to)
            &&& ax > ay && dx < 0 ==> straight_out(b, Edge::Left, (x, y), to)
            &&& ay > ax && dy > 0 ==> straight_out(b, Edge::Bottom, (x, y), to)
            &&& ay > ax && dy < 0 ==> straight_out(b, Edge::Top, (x, y), to)
            &&& !b.holds(to.0, to.1)
            &&& dx == 0 && dy == 0 ==> {
                let gone = (if to.0 < x {
                    x - to.0
                } else {
                    to.0 - x
                }) + (if to.1 < y {
                    y - to.1
                } else {
                    to.1 - y
                });
                gone <= way_out(b, e, x, y) + 1
            }
        }),
{
}

/// A cursor that moves onto the hidden panel is handed over, once: at the point of the side
/// where it came in, and is put back the way it came.
pub proof fn law_an_entry_is_handed_over(g: Guard, b: Rect, cur: (i32, i32))
    requires
        !g.inside,
        g.last_block == Some(b),
        b.holds(cur.0 as int, cur.1 as int),
    ensures
        ({
            let (after, h) = g.looked(false, Some(b), cur);
            &&& h matches Some(k) && (k.fx, k.fy) == layout::entry_fractions(b, g.prev, cur)
                && after.prev == k.park
            &&& after.inside
            &&& after.looked(false, Some(b), cur).1 is None
        }),
{
}

/// The rects that monitors are matched to are distinct ones of those that are desired, each
/// of its monitor's size.
pub open spec fn picks(desired: Seq<Rect>, out: Seq<Rect>, at: Seq<int>) -> bool {
    &&& at.len() == out.len()
    &&& forall|i: int|
        0 <= i < at.len() ==> 0 <= #[trigger] at[i] < desired.len() && out[i] == desired[at[i]]
    &&& forall|i: int, j: int| 0 <= i < j < at.len() ==> #[trigger] at[i] != #[trigger] at[j]
}

proof fn lemma_matched(
    current: Seq<Rect>,
    desired: Seq<Rect>,
    taken: Seq<bool>,
    at: int,
) -> (idx: Seq<int>)
    requires
        0 <= at <= current.len(),
        taken.len() == desired.len(),
    ensures
        layout::matched(current, desired, taken, at) matches Some(out) ==> picks(
            desired,
            out,
            idx,
        ) && out.len() == current.len() - at && (forall|i: int|
            0 <= i < idx.len() ==> !taken[#[trigger] idx[i]]) && (forall|i: int|
            0 <= i < out.len() ==> (#[trigger] out[i]).w == current[at + i].w && out[i].h
                == current[at + i].h),
    decreases current.len() - at,
{
    if at >= current.len() {
        seq![]
    } else {
        let c = current[at];
        lemma_free(desired, taken, c.w, c.h, 0);
        match layout::free_match(desired, taken, c.w, c.h, 0) {
            None => seq![],
            Some(k) => {
                let after = taken.update(k, true);
                let rest = lemma_matched(current, desired, after, at + 1);
                let idx = seq![k] + rest;
                match layout::matched(current, desired, after, at + 1) {
                    Some(r) => {
                        let out = seq![desired[k]] + r;
                        assert forall|i: int| 0 <= i < idx.len() implies 0 <= #[trigger] idx[i]
                            < desired.len() && out[i] == desired[idx[i]] && !taken[idx[i]] by {
                            if i > 0 {
                                assert(idx[i] == rest[i - 1]);
                                assert(!after[rest[i - 1]]);
                            }
                        }
                        assert forall|i: int, j: int| 0 <= i < j < idx.len() implies #[trigger] idx[i]
                            != #[trigger] idx[j] by {
                            assert(idx[j] == rest[j - 1]);
                            if i > 0 {
                                assert(idx[i] == rest[i - 1]);
                            } else {
                                assert(!after[rest[j - 1]]);
                            }
                        }
                        assert forall|i: int| 0 <= i < out.len() implies (#[trigger] out[i]).w
                            == current[at + i].w && out[i].h == current[at + i].h by {
                            if i > 0 {
                                assert(out[i] == r[i - 1]);
                                assert(current[at + i] == current[at + 1 + (i - 1)]);
                            }
                        }
                    },
                    None => {},
                }
                idx
            },
        }
    }
}

proof fn lemma_free(desired: Seq<Rect>, taken: Seq<bool>, w: i32, h: i32, from: int)
    requires
        0 <= from,
    ensures
        layout::free_match(desired, taken, w, h, from) matches Some(i) ==> from <= i < desired.len()
            && !taken[i] && desired[i].w == w && desired[i].h == h,
    decreases desired.len() - from,
{
    if from < desired.len() && !(!taken[from] && desired[from].w == w && desired[from].h == h) {
        lemma_free(desired, taken, w, h, from + 1);
    }
}

/// The desk comes to look as desired: each monitor takes a rect of its size from the desired
/// ones, no two the same one, and all keep their places to each other; the primary monitor
/// stays at the origin.
pub proof fn law_the_desk_looks_as_desired(current: Seq<Rect>, desired: Seq<Rect>)
    requires
        layout::pairing(current, desired) is Some,
        layout::can_pin(current, layout::pairing(current, desired)->0),
    ensures
        ({
            let out = layout::pairing(current, desired)->0;
            let now = layout::pinned(current, out);
            &&& exists|at: Seq<int>| picks(desired, out, at)
            &&& now.len() == current.len() == out.len()
            &&& forall|i: int|
                0 <= i < now.len() ==> (#[trigger] now[i]).w == current[i].w && now[i].h
                    == current[i].h
            &&& forall|i: int, j: int|
                0 <= i < now.len() && 0 <= j < now.len() ==> (#[trigger] now[i]).x - (
                #[trigger] now[j]).x == out[i].x - out[j].x && now[i].y - now[j].y == out[i].y
                    - out[j].y
            &&& exists|i: int| 0 <= i < now.len() && (#[trigger] now[i]).x == 0 && now[i].y == 0
        }),
{
    let taken = Seq::new(desired.len(), |i: int| false);
    let at = lemma_matched(current, desired, taken, 0);
    let out = layout::pairing(current, desired)->0;
    assert(picks(desired, out, at));
    lemma_primary(current, 0);
    let p = layout::primary_from(current, 0);
    let now = layout::pinned(current, out);
    assert(now[p].x == 0 && now[p].y == 0);
}

proof fn lemma_primary(current: Seq<Rect>, from: int)
    requires
        current.len() > 0,
        0 <= from,
    ensures
        ({
            let p = layout::primary_from(current, from);
            &&& 0 <= p < current.len()
            &&& (exists|i: int|
                from <= i < current.len() && (#[trigger] current[i]).x == 0 && current[i].y == 0)
                ==> current[p].x == 0 && current[p].y == 0
        }),
    decreases current.len() - from,
{
    if from < current.len() && !(current[from].x == 0 && current[from].y == 0) {
        lemma_primary(current, from + 1);
    }
}

/// The monitor that stays at the origin is the one that is there, if any is.
pub proof fn law_the_primary_stays(current: Seq<Rect>, i: int)
    requires
        0 <= i < current.len(),
        current[i].x == 0 && current[i].y == 0,
    ensures
        ({
            let p = layout::primary_from(current, 0);
            0 <= p < current.len() && current[p].x == 0 && current[p].y == 0
        }),
{
    lemma_primary(current, 0);
}

} // verus!
