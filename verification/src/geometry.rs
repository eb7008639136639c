//! What the edge math is for: a cursor that crosses keeps its place, and what is moved
//! between monitors keeps its relative spot, to within a pixel.
//!
//! The laws hold for desktops up to 2^20 pixels wide and high, where rounding to 24 bits
//! stays below a pixel.
use vstd::prelude::*;

use crate::binary32::{self, of_int, F32};
use crate::layout::{self, Edge};
use crate::proto::Rect;
use crate::reals::{
    lemma_below_real, lemma_clamped_real, lemma_difference_real, lemma_divided, lemma_of_int,
    lemma_power, lemma_power_monotone, lemma_power_sum, lemma_product_real, lemma_quotient_real,
    lemma_real_product, lemma_round24, lemma_sum_real, lemma_truncated_real, normal, power,
    real_of, size_of,
};

verus! {

/// Coordinates and lengths up to this many pixels.
pub const WIDEST: i32 = 0x10_0000;

/// The value of a ratio.
pub open spec fn ratio_value(r: F32) -> real {
    real_of(r.value())
}

/// A ratio is a number from 0 to 1.
pub open spec fn is_ratio(r: F32) -> bool {
    r.exponent() != 255 && 0real <= ratio_value(r) <= 1real
}

/// The value of a quotient of integers.
pub open spec fn over(a: int, b: int) -> real {
    a as real / b as real
}

/// A product that is within a factor stays within it.
proof fn lemma_scaled(a: real, b: real, c: real)
    requires
        a <= b,
        c >= 0real,
    ensures
        a * c <= b * c,
{
    assert(a * c <= b * c) by (nonlinear_arith)
        requires
            a <= b,
            c >= 0real,
    ;
}

proof fn lemma_size_product(a: real, b: real)
    ensures
        size_of(a * b) == size_of(a) * size_of(b),
{
    assert((-a) * b == -(a * b) && a * (-b) == -(a * b) && (-a) * (-b) == a * b)
        by (nonlinear_arith);
    assert(a >= 0real && b >= 0real ==> a * b >= 0real) by (nonlinear_arith);
    assert(a < 0real && b >= 0real ==> a * b <= 0real) by (nonlinear_arith);
    assert(a >= 0real && b < 0real ==> a * b <= 0real) by (nonlinear_arith);
    assert(a < 0real && b < 0real ==> a * b >= 0real) by (nonlinear_arith);
}

/// A number that is not too small is stored as it is.
proof fn lemma_encoded(x: (int, int))
    requires
        normal(x),
        x.0 >= 0,
        x.0 > 0 ==> -149 <= x.1 <= 104,
    ensures
        binary32::encoded(x).value() == x,
        binary32::encoded(x).exponent() != 255,
        !binary32::encoded(x).negative(),
{
    if x.0 == 0 {
        assert(0int / 0x80_0000 == 0 && 0int % 0x80_0000 == 0);
    } else {
        let f = x.0 - 0x80_0000;
        let e = x.1 + 150;
        let n = e * 0x80_0000 + f;
        assert(n / 0x80_0000 == e && n % 0x80_0000 == f) by (nonlinear_arith)
            requires
                n == e * 0x80_0000 + f,
                0 <= f < 0x80_0000,
        ;
        assert(0 <= n < 0x8000_0000) by (nonlinear_arith)
            requires
                n == e * 0x80_0000 + f,
                0 <= f < 0x80_0000,
                1 <= e <= 254,
        ;
    }
}

/// The exponent of a number from 2^-24 up to 1.
proof fn lemma_exponent(x: (int, int))
    requires
        normal(x),
        power(-24) <= real_of(x) <= 1real,
    ensures
        x.0 > 0,
        -149 <= x.1 <= 104,
{
    let (n, p) = (x.0 as real, power(x.1));
    lemma_power(x.1);
    lemma_power(-24);
    assert(n > 0real) by (nonlinear_arith)
        requires
            n * p > 0real,
            p > 0real,
    ;
    if x.1 > 104 {
        lemma_power_monotone(0, x.1);
        assert(n * p > 1real) by (nonlinear_arith)
            requires
                n >= 8388608real,
                p >= 1real,
        ;
    }
    if x.1 < -149 {
        lemma_power_monotone(x.1, -149);
        lemma_power_sum(-125, -24);
        lemma_power_sum(-24, 24);
        lemma_power_monotone(-125, -25);
        lemma_power_sum(-25, 24);
        lemma_power(-1);
        assert(power(24) == 16777216real) by {
            reveal_with_fuel(power, 25);
        }
        let (q, r) = (power(-125), power(-24));
        assert(n * p < 16777216real * (q * r)) by (nonlinear_arith)
            requires
                0real < n < 16777216real,
                0real < p <= q * r,
        ;
        assert(16777216real * (q * r) == (q * 16777216real) * r) by (nonlinear_arith);
        let k = power(-25) * 16777216real;
        lemma_scaled(q, power(-25), 16777216real);
        assert((q * 16777216real) * r <= k * r) by (nonlinear_arith)
            requires
                q * 16777216real <= k,
                r > 0real,
        ;
        assert(k == power(-1));
        assert(power(-1) == 1real / 2real) by {
            reveal_with_fuel(power, 2);
        }
        assert(k * r < r) by (nonlinear_arith)
            requires
                k == 1real / 2real,
                r > 0real,
        ;
    }
}

/// A share of a length is the quotient, to within a 2^24th of it.
pub(crate) proof fn lemma_share(offset: int, length: int)
    requires
        -2 * WIDEST <= offset <= 2 * WIDEST,
        0 < length <= WIDEST,
    ensures
        normal(layout::share_of(offset, length)),
        16777216real * size_of(real_of(layout::share_of(offset, length)) - over(offset, length))
            <= size_of(over(offset, length)),
        offset >= 0 ==> real_of(layout::share_of(offset, length)) >= 0real,
        offset <= 0 ==> real_of(layout::share_of(offset, length)) <= 0real,
        offset <= length ==> real_of(layout::share_of(offset, length)) <= 1real,
        over(offset, length) * length as real == offset as real,
        offset >= 0 ==> over(offset, length) >= 0real,
        offset <= 0 ==> over(offset, length) <= 0real,
        offset <= length ==> over(offset, length) <= 1real,
{
    reveal(layout::share_of);
    lemma_of_int(offset);
    lemma_of_int(length);
    lemma_of_int(0);
    lemma_of_int(1);
    lemma_quotient_real(of_int(offset), of_int(length), of_int(0));
    lemma_quotient_real(of_int(offset), of_int(length), of_int(1));
    let (a, b, q) = (offset as real, length as real, over(offset, length));
    lemma_divided(a, b, q);
    assert(a >= 0real ==> q >= 0real) by (nonlinear_arith)
        requires
            q * b == a,
            b > 0real,
    ;
    assert(a <= 0real ==> q <= 0real) by (nonlinear_arith)
        requires
            q * b == a,
            b > 0real,
    ;
    assert(a <= b ==> q <= 1real) by (nonlinear_arith)
        requires
            q * b == a,
            b > 0real,
    ;
}

/// The ratio of a place along an edge is a ratio, and its value is the part of the length,
/// to within a 2^24th of it.
pub proof fn law_ratio_is_the_part_of_the_length(offset: int, length: int)
    requires
        0 <= offset <= length <= WIDEST,
        0 < length,
    ensures
        is_ratio(layout::unit_fraction(offset, length)),
        16777216real * size_of(
            ratio_value(layout::unit_fraction(offset, length)) * length as real - offset as real,
        ) <= offset as real,
{
    reveal(layout::unit_fraction);
    lemma_share(offset, length);
    let s = layout::share_of(offset, length);
    lemma_clamped_real(s);
    let c = layout::unit_share(offset, length);
    let (q, v, l) = (over(offset, length), real_of(s), length as real);
    assert(real_of(c) == v);
    if offset == 0 {
        lemma_power(c.1);
        let (n, p) = (c.0 as real, power(c.1));
        assert(n == 0real) by (nonlinear_arith)
            requires
                n * p == 0real,
                p > 0real,
        ;
        lemma_encoded(c);
    } else {
        lemma_power_sum(-24, 24);
        lemma_power(-24);
        assert(power(24) == 16777216real) by {
            reveal_with_fuel(power, 25);
        }
        let r = power(-24);
        assert(q >= 2real * r) by (nonlinear_arith)
            requires
                q * l >= 1real,
                0real < l <= 1048576real,
                r * 16777216real == 1real,
        ;
        assert(v >= r);
        lemma_exponent(c);
        lemma_encoded(c);
    }
    lemma_size_product(v - q, l);
    assert((v - q) * l == v * l - q * l) by (nonlinear_arith);
    let d = size_of(v - q);
    assert(16777216real * (d * l) <= q * l) by (nonlinear_arith)
        requires
            16777216real * d <= q,
            l > 0real,
    ;
}

/// The part of a length that a ratio takes is that much of it, to within a pixel.
pub proof fn law_part_is_that_much_of_the_length(ratio: F32, length: int)
    requires
        is_ratio(ratio),
        0 < length <= WIDEST,
    ensures
        0 <= layout::part_of(ratio, length) <= length,
        8real * (layout::part_of(ratio, length) as real - ratio_value(ratio) * length as real)
            <= 1real,
        8real * (ratio_value(ratio) * length as real - layout::part_of(ratio, length) as real)
            < 9real,
{
    reveal(layout::part_of);
    let x = ratio.value();
    lemma_value_normal(ratio);
    lemma_clamped_real(x);
    let u = ratio.unit_value();
    lemma_of_int(length);
    lemma_of_int(0);
    lemma_product_real(u, of_int(length), of_int(0));
    lemma_product_real(u, of_int(length), of_int(length));
    let p = binary32::product(u, of_int(length));
    let (v, l) = (ratio_value(ratio), length as real);
    assert(real_of(u) == v);
    assert(0real <= v * l <= l) by (nonlinear_arith)
        requires
            0real <= v <= 1real,
            l > 0real,
    ;
    lemma_truncated_real(p);
}

/// A ratio of a length, without being held to 0 and 1, is that much of it too.
pub proof fn law_ratio_of_a_length(ratio: F32, length: int)
    requires
        is_ratio(ratio),
        0 < length <= WIDEST,
    ensures
        0 <= ratio.of_length(length) <= length,
        at_part(ratio.of_length(length), length, ratio_value(ratio)),
{
    reveal(F32::of_length);
    reveal(layout::part_of);
    law_part_is_that_much_of_the_length(ratio, length);
    lemma_value_normal(ratio);
    lemma_kept(ratio.value());
}

/// What the bits of a finite number stand for is a number.
proof fn lemma_value_normal(r: F32)
    requires
        r.exponent() != 255,
    ensures
        normal(r.value()),
{
    if r.exponent() == 0 {
        lemma_round24(r.fraction(), 1, -149, (0int, 0int));
    }
}

/// A place along an edge maps proportionally between lengths, to within a pixel; on the
/// same length it comes back to where it was, or a pixel before.
pub proof fn law_places_map_proportionally(offset: int, length: int, other: int)
    requires
        0 <= offset <= length <= WIDEST,
        0 < length,
        0 < other <= WIDEST,
    ensures
        ({
            let p = layout::part_of(layout::unit_fraction(offset, length), other);
            &&& 0 <= p <= other
            &&& (4 * p - 1) * length <= 4 * (offset * other)
            &&& 4 * (offset * other) < (4 * p + 5) * length
            &&& length == other ==> offset - 1 <= p <= offset
        }),
{
    let r = layout::unit_fraction(offset, length);
    law_ratio_is_the_part_of_the_length(offset, length);
    law_part_is_that_much_of_the_length(r, other);
    let p = layout::part_of(r, other);
    let (v, o, l, m, q) = (
        ratio_value(r),
        offset as real,
        length as real,
        other as real,
        p as real,
    );
    lemma_real_product(offset, other);
    lemma_real_product(4 * p - 1, length);
    lemma_real_product(4 * p + 5, length);
    let d = v * l - o;
    assert(-l <= 16777216real * d <= l);
    assert((v * m) * l == (v * l) * m) by (nonlinear_arith);
    assert((v * l) * m == o * m + d * m) by (nonlinear_arith)
        requires
            d == v * l - o,
    ;
    assert(-l <= 16real * (d * m) <= l) by (nonlinear_arith)
        requires
            -l <= 16777216real * d <= l,
            0real < m <= 1048576real,
            l > 0real,
    ;
    assert(8real * q * l <= 8real * (v * m) * l + l) by (nonlinear_arith)
        requires
            8real * (q - v * m) <= 1real,
            l > 0real,
    ;
    assert(8real * (v * m) * l < 8real * q * l + 9real * l) by (nonlinear_arith)
        requires
            8real * (v * m - q) < 9real,
            l > 0real,
    ;
    assert((4real * q - 1real) * l == 4real * (q * l) - l) by (nonlinear_arith);
    assert((4real * q + 5real) * l == 4real * (q * l) + 5real * l) by (nonlinear_arith);
    assert(8real * q * l == 8real * (q * l)) by (nonlinear_arith);
    assert(8real * (v * m) * l == 8real * ((v * m) * l)) by (nonlinear_arith);
    if length == other {
        assert(p <= offset) by (nonlinear_arith)
            requires
                (4 * p - 1) * length <= 4 * (offset * length),
                length > 0,
        ;
        assert(offset - 1 <= p) by (nonlinear_arith)
            requires
                4 * (offset * length) < (4 * p + 5) * length,
                length > 0,
        ;
    }
}

/// The sides of a desktop, in pixels from its own side: how far a point lies inside.
pub open spec fn inside_by(b: Rect, edge: Edge, x: int, y: int) -> int {
    match edge {
        Edge::Left => x - b.x,
        Edge::Right => b.end_x() - 1 - x,
        Edge::Top => y - b.y,
        Edge::Bottom => b.end_y() - 1 - y,
    }
}

/// A desktop with at least one pixel, of a size that the laws speak of.
pub open spec fn is_desktop(b: Rect) -> bool {
    b.solid() && b.w <= WIDEST && b.h <= WIDEST
}

/// The side of the next desktop that lies against an edge of this one.
pub open spec fn against(edge: Edge, other: Edge) -> bool {
    match edge {
        Edge::Left => other is Right,
        Edge::Right => other is Left,
        Edge::Top => other is Bottom,
        Edge::Bottom => other is Top,
    }
}

/// Every edge has one facing side: the one that lies against it.
pub proof fn law_facing_sides_lie_against_each_other(edge: Edge)
    ensures
        against(edge, edge.facing()),
        edge.facing().facing() == edge,
        edge.facing() != edge,
{
}

/// A place at `offset` of `length` and one at `p` of `other` are at the same part of the
/// way, to within a pixel.
pub open spec fn same_part(offset: int, length: int, p: int, other: int) -> bool {
    (4 * p - 1) * length <= 4 * (offset * other) < (4 * p + 5) * length
}

/// A place is at the part `v` of the way along a length, to within a pixel.
pub open spec fn at_part(along: int, length: int, v: real) -> bool {
    8real * (along as real - v * length as real) <= 1real && 8real * (v * length as real
        - along as real) < 9real
}

/// A point is `inset` pixels inside `edge` of a desktop, at the part `v` of the way along
/// it.
pub open spec fn beside(b: Rect, edge: Edge, v: real, inset: int, x: int, y: int) -> bool {
    &&& b.holds(x, y)
    &&& inside_by(b, edge, x, y) == inset
    &&& edge is Left || edge is Right ==> at_part(y - b.y, b.h as int, v)
    &&& edge is Top || edge is Bottom ==> at_part(x - b.x, b.w as int, v)
}

/// A ratio on an edge puts the cursor on the desktop, `inset` pixels inside that edge, at
/// that part of the way along it.
pub proof fn law_point_is_beside_its_edge(b: Rect, edge: Edge, ratio: F32, inset: int)
    requires
        is_desktop(b),
        is_ratio(ratio),
        0 <= inset < b.w,
        0 <= inset < b.h,
    ensures
        ({
            let (x, y) = layout::edge_point(b, edge, ratio, inset);
            beside(b, edge, ratio_value(ratio), inset, x, y)
        }),
{
    reveal(layout::edge_point);
    law_part_is_that_much_of_the_length(ratio, b.w as int);
    law_part_is_that_much_of_the_length(ratio, b.h as int);
    let v = ratio_value(ratio);
    let (w, h) = (b.w as real, b.h as real);
    assert(v * w <= w && v * h <= h) by (nonlinear_arith)
        requires
            v <= 1real,
            w > 0real,
            h > 0real,
    ;
}

/// A cursor that crosses keeps its place: it leaves a desktop through an edge and arrives
/// just inside the facing side of the next one, at the same part of the way along it.
pub proof fn law_crossing_keeps_the_place(
    here: Rect,
    there: Rect,
    edge: Edge,
    entry: Edge,
    x: int,
    y: int,
    inset: int,
)
    requires
        is_desktop(here),
        is_desktop(there),
        here.holds(x, y),
        against(edge, entry),
        0 <= inset < there.w,
        0 <= inset < there.h,
    ensures
        ({
            let (p, q) = layout::edge_point(
                there,
                entry,
                layout::edge_ratio(here, edge, x, y),
                inset,
            );
            &&& there.holds(p, q)
            &&& inside_by(there, entry, p, q) == inset
            &&& edge is Left || edge is Right ==> same_part(
                y - here.y,
                here.h as int,
                q - there.y,
                there.h as int,
            )
            &&& edge is Top || edge is Bottom ==> same_part(
                x - here.x,
                here.w as int,
                p - there.x,
                there.w as int,
            )
        }),
{
    reveal(layout::edge_point);
    let (o, l, m) = if edge is Left || edge is Right {
        (y - here.y, here.h as int, there.h as int)
    } else {
        (x - here.x, here.w as int, there.w as int)
    };
    law_places_map_proportionally(o, l, m);
    let p = layout::part_of(layout::unit_fraction(o, l), m);
    if p == m {
        assert(o * m < l * m) by (nonlinear_arith)
            requires
                o < l,
                m > 0,
        ;
        assert((4 * (p - 1) + 5) * l == 4 * (m * l) + l) by (nonlinear_arith)
            requires
                p == m,
        ;
        assert(l * m == m * l) by (nonlinear_arith);
        assert((4 * (p - 1) - 1) * l <= (4 * p - 1) * l) by (nonlinear_arith)
            requires
                l > 0,
        ;
    }
}

/// A window that is rescued keeps its relative spot: unless it is held at an end of the
/// span, it comes to lie at the same part of the way along it, to within a pixel.
pub proof fn law_rescued_window_keeps_its_spot(
    pos: int,
    len: int,
    b0: int,
    bw: int,
    t0: int,
    tw: int,
)
    requires
        0 < bw <= WIDEST,
        0 < tw <= WIDEST,
        len > 0,
        -WIDEST <= pos - b0 <= bw,
    ensures
        ({
            let r = layout::relocated(pos, len, b0, bw, t0, tw) - t0;
            let room = if len < tw {
                tw - len
            } else {
                0
            };
            &&& 0 <= r <= room
            &&& r > 0 ==> (4 * r - 1) * bw <= 4 * ((pos - b0) * tw)
            &&& r < room ==> 4 * ((pos - b0) * tw) < (4 * r + 5) * bw
            &&& pos <= b0 ==> r == 0
        }),
{
    let o = pos - b0;
    lemma_share(o, bw);
    lemma_of_int(tw);
    lemma_of_int(0);
    let s = layout::share_of(o, bw);
    let f = binary32::product(s, of_int(tw));
    lemma_product_real(s, of_int(tw), of_int(0));
    let (q, v, t, w, k) = (over(o, bw), real_of(s), tw as real, real_of(f), bw as real);
    let u = binary32::truncated(f);
    let x = u as real;
    assert(size_of(q) <= 1048576real) by {
        if o >= 0 {
        } else {
            assert(q >= -1048576real) by (nonlinear_arith)
                requires
                    q * k == o as real,
                    o as real >= -1048576real,
                    k >= 1real,
            ;
        }
    }
    if o < 0 {
        assert(v * t <= 0real) by (nonlinear_arith)
            requires
                v <= 0real,
                t > 0real,
        ;
        lemma_negative_part(f);
        assert(o * tw <= 0) by (nonlinear_arith)
            requires
                o < 0,
                tw > 0,
        ;
        assert(5 * bw > 0);
    } else {
        assert(0real <= v * t <= t) by (nonlinear_arith)
            requires
                0real <= v <= 1real,
                t > 0real,
        ;
        lemma_truncated_real(f);
        let d = v - q;
        assert(v * t == q * t + d * t) by (nonlinear_arith)
            requires
                d == v - q,
        ;
        assert(-1real <= 16real * (d * t) <= 1real) by (nonlinear_arith)
            requires
                -1real <= 16777216real * d <= 1real,
                0real < t <= 1048576real,
        ;
        assert(-1real <= 8real * (w - q * t) <= 1real);
        assert((q * t) * k == (q * k) * t) by (nonlinear_arith);
        lemma_real_product(o, tw);
        lemma_real_product(4 * u - 1, bw);
        lemma_real_product(4 * u + 5, bw);
        let g = q * t;
        assert((4real * x - 1real) * k <= 4real * (g * k)) by (nonlinear_arith)
            requires
                4real * x - 1real <= 4real * g,
                k > 0real,
        ;
        assert(4real * (g * k) < (4real * x + 5real) * k) by (nonlinear_arith)
            requires
                4real * g < 4real * x + 5real,
                k > 0real,
        ;
        let r = layout::relocated(pos, len, b0, bw, t0, tw) - t0;
        if r < u {
            assert((4 * r - 1) * bw <= (4 * u - 1) * bw) by (nonlinear_arith)
                requires
                    r < u,
                    bw > 0,
            ;
        }
        if o == 0 {
            assert(q == 0real) by (nonlinear_arith)
                requires
                    q * k == 0real,
                    k > 0real,
            ;
            assert(v == 0real);
            assert(v * t == 0real) by (nonlinear_arith)
                requires
                    v == 0real,
            ;
        }
    }
}

/// The integer part of a number below zero is not above zero.
proof fn lemma_negative_part(x: (int, int))
    requires
        real_of(x) <= 0real,
    ensures
        binary32::truncated(x) <= 0,
{
    lemma_power(x.1);
    let (n, p) = (x.0 as real, power(x.1));
    assert(n <= 0real) by (nonlinear_arith)
        requires
            n * p <= 0real,
            p > 0real,
    ;
    if x.0 == 0 {
        assert(n * p == 0real) by (nonlinear_arith)
            requires
                n == 0real,
        ;
        lemma_truncated_real(x);
    } else if x.1 >= 0 {
        crate::reals::lemma_shifted_real(-x.0, x.1);
        assert((-n) * p >= 0real) by (nonlinear_arith)
            requires
                n <= 0real,
                p > 0real,
        ;
    }
}

/// The difference of two coordinates is exact.
proof fn lemma_int_difference(i: int, j: int)
    requires
        -4 * WIDEST <= i <= 4 * WIDEST,
        -4 * WIDEST <= j <= 4 * WIDEST,
    ensures
        real_of(binary32::difference(of_int(i), of_int(j))) == i as real - j as real,
        normal(binary32::difference(of_int(i), of_int(j))),
        binary32::difference(of_int(i), of_int(j)).0 == 0 <==> i == j,
{
    lemma_of_int(i);
    lemma_of_int(j);
    lemma_of_int(i - j);
    let d = binary32::difference(of_int(i), of_int(j));
    lemma_difference_real(of_int(i), of_int(j), of_int(i - j));
    lemma_power(d.1);
    let (n, p) = (d.0 as real, power(d.1));
    assert((n == 0real) == (n * p == 0real)) by (nonlinear_arith)
        requires
            p > 0real,
    ;
}

/// Where a travel from `(p, a)` to `(q, c)` crosses the line at `s`, on a span of `len` that
/// starts at `o`.
pub open spec fn crossing_place(s: int, p: int, q: int, a: int, c: int, o: int) -> real {
    (a - o) as real + over(s - p, q - p) * (c - a) as real
}

proof fn lemma_crossing(s: int, p: int, q: int, a: int, c: int, o: int, len: int)
    requires
        -2 * WIDEST <= s <= 2 * WIDEST,
        -WIDEST <= p <= WIDEST,
        -WIDEST <= q <= WIDEST,
        -WIDEST <= a <= WIDEST,
        -WIDEST <= c <= WIDEST,
        -WIDEST <= o <= WIDEST,
        0 < len <= WIDEST,
        p < s <= q || q < s <= p,
        o <= a <= o + len,
        o <= c <= o + len,
    ensures
        ({
            let t = layout::time_to(
                of_int(s),
                of_int(p),
                binary32::difference(of_int(q), of_int(p)),
            );
            let f = layout::place_at(
                t,
                of_int(a),
                binary32::difference(of_int(c), of_int(a)),
                of_int(o),
                of_int(len),
            );
            &&& normal(t) && 0real <= real_of(t) <= 1real
            &&& normal(f) && 0real <= real_of(f) <= 1real
            &&& 2real * size_of(real_of(f) * len as real - crossing_place(s, p, q, a, c, o))
                <= 1real
        }),
{
    lemma_int_difference(s, p);
    lemma_int_difference(q, p);
    lemma_int_difference(c, a);
    lemma_of_int(0);
    lemma_of_int(1);
    lemma_of_int(a);
    lemma_of_int(o);
    lemma_of_int(len);
    lemma_of_int(a - o);
    lemma_of_int(c - o);
    lemma_of_int(c);
    lemma_of_int(c - a);
    let up = binary32::difference(of_int(s), of_int(p));
    let dx = binary32::difference(of_int(q), of_int(p));
    let dy = binary32::difference(of_int(c), of_int(a));
    let t = layout::time_to(of_int(s), of_int(p), dx);
    lemma_quotient_real(up, dx, of_int(0));
    lemma_quotient_real(up, dx, of_int(1));
    let (n, d, k, y, tv) = (
        (s - p) as real,
        (q - p) as real,
        over(s - p, q - p),
        (c - a) as real,
        real_of(t),
    );
    lemma_divided(n, d, k);
    assert(0real <= k <= 1real) by (nonlinear_arith)
        requires
            k * d == n,
            (0real < n <= d) || (d < n <= 0real),
    ;
    let m = binary32::product(t, dy);
    lemma_product_real(t, dy, of_int(0));
    lemma_product_real(t, dy, of_int(c - a));
    assert(y >= 0real ==> 0real <= tv * y <= y) by (nonlinear_arith)
        requires
            0real <= tv <= 1real,
    ;
    assert(y <= 0real ==> y <= tv * y <= 0real) by (nonlinear_arith)
        requires
            0real <= tv <= 1real,
    ;
    let mv = real_of(m);
    assert(-1048576real <= y <= 1048576real);
    let e = tv - k;
    assert(tv * y == k * y + e * y) by (nonlinear_arith)
        requires
            e == tv - k,
    ;
    assert(-1real <= 16real * (e * y) <= 1real) by (nonlinear_arith)
        requires
            -1real <= 16777216real * e <= 1real,
            -1048576real <= y <= 1048576real,
    ;
    let z = binary32::sum(of_int(a), m);
    lemma_sum_real(of_int(a), m, of_int(a));
    lemma_sum_real(of_int(a), m, of_int(c));
    let g = binary32::difference(z, of_int(o));
    lemma_difference_real(z, of_int(o), of_int(0));
    lemma_difference_real(z, of_int(o), of_int(len));
    lemma_difference_real(z, of_int(o), of_int(a - o));
    lemma_difference_real(z, of_int(o), of_int(c - o));
    let f = binary32::quotient(g, of_int(len));
    lemma_quotient_real(g, of_int(len), of_int(0));
    lemma_quotient_real(g, of_int(len), of_int(1));
    let (gv, l, fv) = (real_of(g), len as real, real_of(f));
    let h = gv / l;
    lemma_divided(gv, l, h);
    assert(0real <= h <= 1real) by (nonlinear_arith)
        requires
            h * l == gv,
            0real <= gv <= l,
            l > 0real,
    ;
    let b = fv - h;
    assert(fv * l == gv + b * l) by (nonlinear_arith)
        requires
            h * l == gv,
            b == fv - h,
    ;
    assert(-1real <= 16real * (b * l) <= 1real) by (nonlinear_arith)
        requires
            -1real <= 16777216real * b <= 1real,
            0real < l <= 1048576real,
    ;
    let zv = real_of(z);
    assert(-1048576real <= zv <= 1048576real);
    assert(-1real <= 16real * (zv - (a as real + mv)) <= 1real);
    assert(-1real <= 16real * (gv - (zv - o as real)) <= 1real);
    assert(-1real <= 16real * (mv - tv * y) <= 1real);
}

/// Both fractions of an entry, as values.
pub open spec fn entry_value(b: Rect, from: (i32, i32), to: (i32, i32)) -> (real, real) {
    let (fx, fy) = layout::entry_fractions(b, from, to);
    (ratio_value(fx), ratio_value(fy))
}

/// A coordinate that the laws speak of.
pub open spec fn is_near(v: int) -> bool {
    -WIDEST <= v <= WIDEST
}

/// A number from 0 to 1 is stored as it is, or as zero where it is next to nothing.
proof fn lemma_stored(x: (int, int))
    requires
        normal(x),
        0real <= real_of(x) <= 1real,
    ensures
        ({
            let v = ratio_value(binary32::encoded(layout::stored(x)));
            &&& 0real <= v <= real_of(x)
            &&& 16777216real * (real_of(x) - v) <= 1real
            &&& x == of_int(1) || x == of_int(0) ==> v == real_of(x)
        }),
{
    lemma_power(x.1);
    lemma_of_int(0);
    lemma_of_int(1);
    binary32::lemma_one();
    let (n, p) = (x.0 as real, power(x.1));
    assert(n >= 0real) by (nonlinear_arith)
        requires
            n * p >= 0real,
            p > 0real,
    ;
    if x.0 > 0 && x.1 > 104 {
        lemma_power_monotone(0, x.1);
        assert(n * p > 1real) by (nonlinear_arith)
            requires
                n >= 8388608real,
                p >= 1real,
        ;
    }
    lemma_encoded(layout::stored(x));
    if x.0 > 0 && x.1 < -149 {
        lemma_power_monotone(x.1, -48);
        lemma_power_sum(-24, -24);
        lemma_power_sum(-24, 24);
        lemma_power(-24);
        assert(power(24) == 16777216real) by {
            reveal_with_fuel(power, 25);
        }
        let r = power(-24);
        assert(16777216real * (n * p) <= 1real) by (nonlinear_arith)
            requires
                0real < n < 16777216real,
                0real < p <= r * r,
                r * 16777216real == 1real,
        ;
    }
}

/// What comes onto the shared panel across one side of it enters at that side, at the point
/// where the travel crosses it, to within a pixel: from the left at fraction 0 across, from
/// the right at 1, from above at 0 down, from below at 1.
pub proof fn law_entry_is_where_the_side_is_crossed(b: Rect, from: (i32, i32), to: (i32, i32))
    requires
        is_desktop(b),
        is_near(b.x as int) && is_near(b.y as int),
        is_near(from.0 as int) && is_near(from.1 as int),
        is_near(to.0 as int) && is_near(to.1 as int),
        b.holds(to.0 as int, to.1 as int),
    ensures
        ({
            let (fx, fy) = entry_value(b, from, to);
            let level = b.y <= from.1 < b.end_y();
            let upright = b.x <= from.0 < b.end_x();
            let down = crossing_down(b, from, to);
            let across = crossing_across(b, from, to);
            &&& level && from.0 < b.x ==> fx == 0real && size_of(
                fy * b.h as real - down(b.x as int),
            ) < 1real
            &&& level && from.0 >= b.end_x() ==> fx == 1real && size_of(
                fy * b.h as real - down(b.end_x()),
            ) < 1real
            &&& upright && from.1 < b.y ==> fy == 0real && size_of(
                fx * b.w as real - across(b.y as int),
            ) < 1real
            &&& upright && from.1 >= b.end_y() ==> fy == 1real && size_of(
                fx * b.w as real - across(b.end_y()),
            ) < 1real
        }),
{
    let v = layout::travel(b, from, to);
    lemma_sides();
    lemma_of_int(0);
    lemma_of_int(1);
    lemma_int_difference(to.0 as int, from.0 as int);
    lemma_int_difference(to.1 as int, from.1 as int);
    lemma_below_real(layout::zero(), v.dx);
    lemma_below_real(v.dx, layout::zero());
    lemma_below_real(layout::zero(), v.dy);
    lemma_below_real(v.dy, layout::zero());
    lemma_below_real(v.px, v.x0);
    lemma_below_real(v.px, v.x1);
    lemma_below_real(v.py, v.y0);
    lemma_below_real(v.py, v.y1);
    lemma_of_int(from.0 as int);
    lemma_of_int(from.1 as int);
    lemma_of_int(b.x as int);
    lemma_of_int(b.y as int);
    lemma_of_int(b.end_x());
    lemma_of_int(b.end_y());
    let level = b.y <= from.1 < b.end_y();
    let upright = b.x <= from.0 < b.end_x();
    if level && (from.0 < b.x || from.0 >= b.end_x()) {
        let s = if from.0 < b.x {
            b.x as int
        } else {
            b.end_x()
        };
        lemma_crossing(
            s,
            from.0 as int,
            to.0 as int,
            from.1 as int,
            to.1 as int,
            b.y as int,
            b.h as int,
        );
        let h = if from.0 < b.x {
            layout::left_hit(v)->0
        } else {
            layout::right_hit(v)->0
        };
        lemma_counts(h);
        assert(layout::first_hit(v) == Some(h));
        lemma_kept(h.fx);
        lemma_kept(h.fy);
        lemma_stored(h.fx);
        lemma_stored(h.fy);
        lemma_half_pixel(h.fy, b.h as int);
    }
    if upright && (from.1 < b.y || from.1 >= b.end_y()) {
        let s = if from.1 < b.y {
            b.y as int
        } else {
            b.end_y()
        };
        lemma_crossing(
            s,
            from.1 as int,
            to.1 as int,
            from.0 as int,
            to.0 as int,
            b.x as int,
            b.w as int,
        );
        let h = if from.1 < b.y {
            layout::top_hit(v)->0
        } else {
            layout::bottom_hit(v)->0
        };
        lemma_counts(h);
        assert(layout::first_hit(v) == Some(h));
        lemma_kept(h.fx);
        lemma_kept(h.fy);
        lemma_stored(h.fx);
        lemma_stored(h.fy);
        lemma_half_pixel(h.fx, b.w as int);
    }
}

/// How far down the panel a travel crosses an upright line.
pub open spec fn crossing_down(b: Rect, from: (i32, i32), to: (i32, i32)) -> spec_fn(int) -> real {
    |s: int|
        crossing_place(
            s,
            from.0 as int,
            to.0 as int,
            from.1 as int,
            to.1 as int,
            b.y as int,
        )
}

/// How far across the panel a travel crosses a level line.
pub open spec fn crossing_across(b: Rect, from: (i32, i32), to: (i32, i32)) -> spec_fn(int) -> real {
    |s: int|
        crossing_place(
            s,
            from.1 as int,
            to.1 as int,
            from.0 as int,
            to.0 as int,
            b.x as int,
        )
}

/// What is stored of a fraction is within a hundredth of a pixel of it.
proof fn lemma_half_pixel(x: (int, int), len: int)
    requires
        normal(x),
        0real <= real_of(x) <= 1real,
        0 < len <= WIDEST,
    ensures
        ({
            let v = ratio_value(binary32::encoded(layout::stored(x)));
            0real <= 16real * (real_of(x) * len as real - v * len as real) <= 1real
        }),
{
    lemma_stored(x);
    let (v, u, l) = (
        ratio_value(binary32::encoded(layout::stored(x))),
        real_of(x),
        len as real,
    );
    assert(0real <= 16real * (u * l - v * l) <= 1real) by (nonlinear_arith)
        requires
            0real <= u - v,
            16777216real * (u - v) <= 1real,
            0real < l <= 1048576real,
    ;
}

/// A number from 0 to 1 is kept by holding it there.
proof fn lemma_kept(x: (int, int))
    requires
        normal(x),
        0real <= real_of(x) <= 1real,
    ensures
        binary32::unit_clamped(x) == x,
{
    lemma_of_int(1);
    lemma_below_real(of_int(1), x);
    lemma_power(x.1);
    let (n, p) = (x.0 as real, power(x.1));
    assert(n >= 0real) by (nonlinear_arith)
        requires
            n * p >= 0real,
            p > 0real,
    ;
}

/// The tolerances lie outside of `[0, 1]`.
proof fn lemma_sides()
    ensures
        real_of(layout::side_low()) < 0real,
        real_of(layout::side_high()) > 1real,
{
    lemma_power(-30);
    lemma_power(-23);
    lemma_of_int(1);
    binary32::lemma_one();
    let (p, q) = (power(-30), power(-23));
    assert((-10737418real) * p < 0real) by (nonlinear_arith)
        requires
            p > 0real,
    ;
    assert(8472494real * q > 8388608real * q) by (nonlinear_arith)
        requires
            q > 0real,
    ;
}

/// A crossing during the travel and on the rect counts.
proof fn lemma_counts(h: layout::Hit)
    requires
        0real <= real_of(h.t) <= 1real,
        0real <= real_of(h.fx) <= 1real,
        0real <= real_of(h.fy) <= 1real,
    ensures
        layout::counts(h),
{
    lemma_sides();
    lemma_of_int(0);
    lemma_of_int(1);
    lemma_below_real(h.t, layout::zero());
    lemma_below_real(layout::one(), h.t);
    lemma_below_real(h.fx, layout::side_low());
    lemma_below_real(layout::side_high(), h.fx);
    lemma_below_real(h.fy, layout::side_low());
    lemma_below_real(layout::side_high(), h.fy);
}

/// A travel that crosses several sides of the panel enters by the one that it crosses first.
pub proof fn law_the_first_crossing_counts(v: layout::Travel, c: layout::Hit)
    requires
        layout::left_hit(v) == Some(c) || layout::right_hit(v) == Some(c) || layout::top_hit(v)
            == Some(c) || layout::bottom_hit(v) == Some(c),
        layout::counts(c),
    ensures
        layout::first_hit(v) matches Some(h) && layout::counts(h) && real_of(h.t) <= real_of(c.t),
{
    let (l, r, t, b) = (
        layout::left_hit(v),
        layout::right_hit(v),
        layout::top_hit(v),
        layout::bottom_hit(v),
    );
    let one = layout::earlier(None, l);
    let two = layout::earlier(one, r);
    let three = layout::earlier(two, t);
    lemma_earlier(None, l);
    lemma_earlier(one, r);
    lemma_earlier(two, t);
    lemma_earlier(three, b);
}

proof fn lemma_earlier(best: Option<layout::Hit>, c: Option<layout::Hit>)
    requires
        best matches Some(p) ==> layout::counts(p),
    ensures
        ({
            let r = layout::earlier(best, c);
            &&& r matches Some(h) ==> layout::counts(h)
            &&& best matches Some(p) ==> (r matches Some(h) && real_of(h.t) <= real_of(p.t))
            &&& (c matches Some(q) && layout::counts(q)) ==> (r matches Some(h) && real_of(h.t)
                <= real_of(c->0.t))
        }),
{
    if let (Some(p), Some(q)) = (best, c) {
        lemma_below_real(q.t, p.t);
    }
}

/// A point that did not come across a side enters by the side that it is nearest to, as
/// parts of the panel go: where one side is nearer by a thousandth than every other.
pub proof fn law_a_resting_point_enters_by_the_nearest_side(
    b: Rect,
    from: (i32, i32),
    to: (i32, i32),
)
    requires
        is_desktop(b),
        is_near(b.x as int) && is_near(b.y as int),
        b.holds(from.0 as int, from.1 as int),
        b.holds(to.0 as int, to.1 as int),
        is_near(b.end_x()) && is_near(b.end_y()),
    ensures
        ({
            let (fx, fy) = entry_value(b, from, to);
            let left = over(to.0 - b.x, b.w as int);
            let top = over(to.1 - b.y, b.h as int);
            let (right, bottom) = (1real - left, 1real - top);
            let level = size_of(fy * b.h as real - (to.1 - b.y) as real) < 1real;
            let upright = size_of(fx * b.w as real - (to.0 - b.x) as real) < 1real;
            &&& is_least(left, right, top, bottom) ==> fx == 0real && level
            &&& is_least(right, left, top, bottom) ==> fx == 1real && level
            &&& is_least(top, left, right, bottom) ==> fy == 0real && upright
            &&& is_least(bottom, left, right, top) ==> fy == 1real && upright
        }),
{
    let v = layout::travel(b, from, to);
    lemma_of_int(0);
    lemma_of_int(1);
    lemma_of_int(from.0 as int);
    lemma_of_int(from.1 as int);
    lemma_of_int(b.x as int);
    lemma_of_int(b.y as int);
    lemma_of_int(b.end_x());
    lemma_of_int(b.end_y());
    lemma_below_real(v.px, v.x0);
    lemma_below_real(v.px, v.x1);
    lemma_below_real(v.py, v.y0);
    lemma_below_real(v.py, v.y1);
    assert(layout::first_hit(v) is None);
    let (fx, fy) = (
        layout::unit_share(to.0 - b.x, b.w as int),
        layout::unit_share(to.1 - b.y, b.h as int),
    );
    lemma_unit_share(to.0 - b.x, b.w as int);
    lemma_unit_share(to.1 - b.y, b.h as int);
    let dr = binary32::difference(layout::one(), fx);
    let db = binary32::difference(layout::one(), fy);
    lemma_difference_real(layout::one(), fx, of_int(0));
    lemma_difference_real(layout::one(), fy, of_int(0));
    lemma_below_real(dr, fx);
    lemma_below_real(fy, fx);
    lemma_below_real(db, fx);
    lemma_below_real(fy, dr);
    lemma_below_real(db, dr);
    lemma_below_real(db, fy);
    lemma_half_pixel(fx, b.w as int);
    lemma_half_pixel(fy, b.h as int);
    lemma_stored(of_int(0));
    lemma_stored(of_int(1));
    assert(layout::zero() == of_int(0));
}

/// A part is smaller than three others by more than a thousandth.
pub open spec fn is_least(p: real, q: real, r: real, s: real) -> bool {
    1000real * (q - p) > 1real && 1000real * (r - p) > 1real && 1000real * (s - p) > 1real
}

/// An offset into a length, as a part of it, is the exact one but for its rounding.
proof fn lemma_unit_share(offset: int, length: int)
    requires
        0 <= offset < length <= WIDEST,
    ensures
        ({
            let x = layout::unit_share(offset, length);
            &&& normal(x)
            &&& 0real <= real_of(x) <= 1real
            &&& 0real <= over(offset, length) <= 1real
            &&& 16777216real * size_of(real_of(x) - over(offset, length)) <= 1real
            &&& 16real * size_of(real_of(x) * length as real - offset as real) <= 1real
        }),
{
    lemma_share(offset, length);
    let s = layout::share_of(offset, length);
    lemma_kept(s);
    let (x, q, l, o) = (real_of(s), over(offset, length), length as real, offset as real);
    assert(-1real <= 16real * (x * l - o) <= 1real) by (nonlinear_arith)
        requires
            q * l == o,
            -1real <= 16777216real * (x - q) <= 1real,
            0real < l <= 1048576real,
    ;
}

} // verus!
