//! What the numbers of binary32 arithmetic stand for: their values, and how far rounding
//! takes a result from the value it stands for.
use vstd::prelude::*;

use crate::binary32::{
    below, difference, halved, lemma_rounded_positive, min, nearest_even, negated, of_int, packed,
    product, quotient, round24, rounded, shifted, sum, truncated, unit_clamped, SIG_LOW, SIG_TOP,
};

verus! {

/// `2^k`.
pub open spec fn power(k: int) -> real
    decreases
            if k < 0 {
                -k
            } else {
                k
            },
{
    if k == 0 {
        1real
    } else if k > 0 {
        2real * power(k - 1)
    } else {
        power(k + 1) / 2real
    }
}

/// The value of a number.
pub open spec fn real_of(x: (int, int)) -> real {
    x.0 as real * power(x.1)
}

/// Zero, or a significand with its top bit set.
pub open spec fn normal(x: (int, int)) -> bool {
    if x.0 == 0 {
        x.1 == 0
    } else {
        SIG_LOW <= x.0 < SIG_TOP || -SIG_TOP < x.0 <= -SIG_LOW
    }
}

/// The size of a value.
pub open spec fn size_of(v: real) -> real {
    if v < 0real {
        -v
    } else {
        v
    }
}

/// A product of integers is that of their values.
pub proof fn lemma_real_product(a: int, b: int)
    ensures
        (a * b) as real == a as real * b as real,
    decreases
            if b < 0 {
                -b
            } else {
                b
            },
{
    let (x, y) = (a as real, b as real);
    if b > 0 {
        lemma_real_product(a, b - 1);
        assert(a * b == a * (b - 1) + a) by (nonlinear_arith);
        let z = y - 1real;
        assert(x * y == x * z + x) by (nonlinear_arith)
            requires
                z == y - 1real,
        ;
    } else if b < 0 {
        lemma_real_product(a, b + 1);
        assert(a * b == a * (b + 1) - a) by (nonlinear_arith);
        let z = y + 1real;
        assert(x * y == x * z - x) by (nonlinear_arith)
            requires
                z == y + 1real,
        ;
    } else {
        assert(a * b == 0) by (nonlinear_arith)
            requires
                b == 0,
        ;
        assert(x * y == 0real) by (nonlinear_arith)
            requires
                y == 0real,
        ;
    }
}

/// A quotient is what gives back the dividend.
pub proof fn lemma_divided(a: real, b: real, q: real)
    requires
        b != 0real,
    ensures
        (q == a / b) == (q * b == a),
{
    let k = a / b;
    assert(k * b == a) by (nonlinear_arith)
        requires
            k == a / b,
            b != 0real,
    ;
    if q * b == a {
        lemma_equal_factor(q, k, b);
    }
}

/// What is equal after being multiplied was equal before.
proof fn lemma_equal_factor(a: real, b: real, c: real)
    requires
        c != 0real,
        a * c == b * c,
    ensures
        a == b,
{
    let d = a - b;
    assert(d * c == a * c - b * c) by (nonlinear_arith)
        requires
            d == a - b,
    ;
    assert(d == 0real) by (nonlinear_arith)
        requires
            d * c == 0real,
            c != 0real,
    ;
}

/// Multiplying by what is above zero keeps the order.
pub proof fn lemma_order(a: real, b: real, c: real)
    requires
        c > 0real,
    ensures
        (a <= b) == (a * c <= b * c),
        (a < b) == (a * c < b * c),
{
    let d = b - a;
    assert(d * c == b * c - a * c) by (nonlinear_arith)
        requires
            d == b - a,
    ;
    lemma_sign(d, c);
}

/// The sign of a product with what is above zero.
pub proof fn lemma_sign(a: real, c: real)
    requires
        c > 0real,
    ensures
        (a > 0real) == (a * c > 0real),
        (a < 0real) == (a * c < 0real),
        (a == 0real) == (a * c == 0real),
{
    if a > 0real {
        assert(a * c > 0real) by (nonlinear_arith)
            requires
                a > 0real,
                c > 0real,
        ;
    } else if a < 0real {
        assert(a * c < 0real) by (nonlinear_arith)
            requires
                a < 0real,
                c > 0real,
        ;
    } else {
        assert(0real * c == 0real) by (nonlinear_arith);
    }
}

pub proof fn lemma_power(k: int)
    ensures
        power(k) > 0real,
        power(k + 1) == 2real * power(k),
    decreases
            if k < 0 {
                -k
            } else {
                k
            },
{
    if k > 0 {
        lemma_power(k - 1);
    } else if k < 0 {
        lemma_power(k + 1);
    }
}

pub proof fn lemma_power_sum(j: int, k: int)
    ensures
        power(j + k) == power(j) * power(k),
    decreases
            if k < 0 {
                -k
            } else {
                k
            },
{
    let a = power(j);
    if k > 0 {
        lemma_power_sum(j, k - 1);
        lemma_power(j + k - 1);
        let b = power(k - 1);
        assert(a * (2real * b) == 2real * (a * b)) by (nonlinear_arith);
    } else if k < 0 {
        lemma_power_sum(j, k + 1);
        lemma_power(j + k);
        let b = power(k + 1);
        assert(a * (b / 2real) == (a * b) / 2real) by (nonlinear_arith);
    } else {
        assert(a * 1real == a) by (nonlinear_arith);
    }
}

pub proof fn lemma_power_monotone(j: int, k: int)
    requires
        j <= k,
    ensures
        power(j) <= power(k),
    decreases k - j,
{
    if j < k {
        lemma_power_monotone(j, k - 1);
        lemma_power(k - 1);
    }
}

/// Shifting multiplies by a power of two.
pub proof fn lemma_shifted_real(n: int, k: int)
    requires
        k >= 0,
    ensures
        shifted(n, k) as real == n as real * power(k),
    decreases k,
{
    if k > 0 {
        lemma_shifted_real(n, k - 1);
        let (a, b) = (n as real, power(k - 1));
        assert(2real * (a * b) == a * (2real * b)) by (nonlinear_arith);
    } else {
        let a = n as real;
        assert(a * 1real == a) by (nonlinear_arith);
    }
}

/// The order of numbers is that of their values.
pub proof fn lemma_below_real(x: (int, int), y: (int, int))
    ensures
        below(x, y) == (real_of(x) < real_of(y)),
{
    let e = min(x.1, y.1);
    lemma_shifted_real(x.0, x.1 - e);
    lemma_shifted_real(y.0, y.1 - e);
    lemma_power_sum(x.1 - e, e);
    lemma_power_sum(y.1 - e, e);
    lemma_power(e);
    let (a, b, p) = (x.0 as real * power(x.1 - e), y.0 as real * power(y.1 - e), power(e));
    let (u, v) = (power(x.1 - e), power(y.1 - e));
    assert(x.0 as real * (u * p) == a * p) by (nonlinear_arith)
        requires
            a == x.0 as real * u,
    ;
    assert(y.0 as real * (v * p) == b * p) by (nonlinear_arith)
        requires
            b == y.0 as real * v,
    ;
    lemma_order(a, b, p);
}

/// The nearest integer is within a half, and on the same side of every integer.
proof fn lemma_nearest_even(a: nat, d: nat, n: int)
    requires
        d > 0,
    ensures
        2 * nearest_even(a, d) * d <= 2 * a + d,
        2 * a <= 2 * nearest_even(a, d) * d + d,
        a <= n * d ==> nearest_even(a, d) <= n,
        n * d <= a ==> n <= nearest_even(a, d),
{
    let q = a / d;
    let r = a % d;
    assert(a == q * d + r && 0 <= r < d) by (nonlinear_arith)
        requires
            q == a / d,
            r == a % d,
            d > 0,
    ;
    assert(2 * (q + 1) * d == 2 * (q * d) + 2 * d) by (nonlinear_arith);
    assert(2 * q * d == 2 * (q * d)) by (nonlinear_arith);
    if a <= n * d {
        assert(q <= n) by (nonlinear_arith)
            requires
                q * d + r <= n * d,
                r >= 0,
                d > 0,
        ;
        if r > 0 {
            assert(q < n) by (nonlinear_arith)
                requires
                    q * d + r <= n * d,
                    r > 0,
                    d > 0,
            ;
        }
    }
    if n * d <= a {
        assert(n <= q) by (nonlinear_arith)
            requires
                n * d <= q * d + r,
                r < d,
                d > 0,
        ;
    }
}

/// The value `a / d * 2^e`.
pub open spec fn exactly(a: int, d: nat, e: int) -> real {
    (a as real / d as real) * power(e)
}

/// Rounding keeps a value to within half a unit of its 24th bit, and on the same side of
/// every number of 24 bits.
proof fn lemma_rounded_real(a: nat, d: nat, e: int, y: (int, int))
    requires
        a > 0,
        d > 0,
    ensures
        ({
            let (m, f) = rounded(a, d, e);
            let (v, r) = (exactly(a as int, d, e), m as real * power(f));
            &&& SIG_LOW <= m <= SIG_TOP
            &&& v >= SIG_LOW as real * power(f)
            &&& -power(f) <= 2real * (r - v) <= power(f)
            &&& SIG_LOW <= y.0 < SIG_TOP && v <= real_of(y) ==> r <= real_of(y)
            &&& SIG_LOW <= y.0 < SIG_TOP && real_of(y) <= v ==> real_of(y) <= r
        }),
    decreases
            if a >= d * SIG_TOP {
                1int
            } else {
                0int
            },
            if a >= d * SIG_TOP {
                a - d * SIG_TOP
            } else if a < d * SIG_LOW {
                d * SIG_LOW - a
            } else {
                0
            },
{
    let (x, z, p) = (a as real, d as real, power(e));
    if a >= d * SIG_TOP {
        lemma_rounded_real(a, 2 * d, e + 1, y);
        lemma_power(e);
        let u = x / z;
        lemma_divided(x, z, u);
        assert((u / 2real) * (2real * z) == u * z) by (nonlinear_arith);
        lemma_divided(x, 2real * z, u / 2real);
        assert((u / 2real) * (2real * p) == u * p) by (nonlinear_arith);
        assert((2 * d) as real == 2real * z);
    } else if a < d * SIG_LOW {
        lemma_rounded_real(2 * a, d, e - 1, y);
        lemma_power(e - 1);
        let q = power(e - 1);
        let u = x / z;
        lemma_divided(x, z, u);
        assert((2real * u) * z == 2real * (u * z)) by (nonlinear_arith);
        lemma_divided(2real * x, z, 2real * u);
        assert((2real * u) * q == u * (2real * q)) by (nonlinear_arith);
        assert((2 * a) as real == 2real * x);
    } else {
        lemma_power(e);
        lemma_nearest_even(a, d, SIG_LOW as int);
        lemma_nearest_even(a, d, SIG_TOP as int);
        let m = nearest_even(a, d);
        let w = m as real;
        let v = (x / z) * p;
        assert(SIG_LOW * d == d * SIG_LOW && SIG_TOP * d == d * SIG_TOP) by (nonlinear_arith);
        assert(x >= SIG_LOW as real * z) by {
            lemma_real_product(SIG_LOW as int, d as int);
            assert(d * SIG_LOW == SIG_LOW * d) by (nonlinear_arith);
        }
        let u = x / z;
        lemma_divided(x, z, u);
        lemma_order(SIG_LOW as real, u, z);
        lemma_order(SIG_LOW as real, u, p);
        assert(2real * w * z <= 2real * x + z && 2real * x <= 2real * w * z + z) by {
            lemma_real_product(m as int, d as int);
            assert(2 * m * d == 2 * (m * d)) by (nonlinear_arith);
            assert(2real * w * z == 2real * (w * z)) by (nonlinear_arith);
        }
        let g = 2real * (w - u);
        assert(g * z == 2real * w * z - 2real * (u * z)) by (nonlinear_arith)
            requires
                g == 2real * (w - u),
        ;
        assert(1real * z == z && (-1real) * z == -z && 1real * p == p && (-1real) * p == -p);
        lemma_order(g, 1real, z);
        lemma_order(-1real, g, z);
        lemma_order(g, 1real, p);
        lemma_order(-1real, g, p);
        assert(g * p == 2real * (w * p - u * p)) by (nonlinear_arith)
            requires
                g == 2real * (w - u),
        ;
        if SIG_LOW <= y.0 < SIG_TOP {
            lemma_same_side(a, d, e, y);
        }
    }
}

/// The nearest integer at a scale is on the same side of every number of 24 bits.
proof fn lemma_same_side(a: nat, d: nat, e: int, y: (int, int))
    requires
        d > 0,
        d * SIG_LOW <= a < d * SIG_TOP,
        SIG_LOW <= y.0 < SIG_TOP,
    ensures
        exactly(a as int, d, e) <= real_of(y) ==> nearest_even(a, d) as real * power(e) <= real_of(y),
        real_of(y) <= exactly(a as int, d, e) ==> real_of(y) <= nearest_even(a, d) as real * power(e),
{
    let (x, z, p) = (a as real, d as real, power(e));
    let u = x / z;
    let v = u * p;
    let m = nearest_even(a, d);
    let w = m as real;
    lemma_power(e);
    lemma_divided(x, z, u);
    lemma_nearest_even(a, d, SIG_LOW as int);
    assert(SIG_LOW * d == d * SIG_LOW) by (nonlinear_arith);
    assert(m >= SIG_LOW);
    if y.1 >= e {
        let n = shifted(y.0, y.1 - e);
        lemma_shifted_real(y.0, y.1 - e);
        lemma_power_sum(y.1 - e, e);
        let g = power(y.1 - e);
        assert(real_of(y) == n as real * p) by {
            assert(y.0 as real * (g * p) == (y.0 as real * g) * p) by (nonlinear_arith);
        }
        lemma_nearest_even(a, d, n);
        lemma_real_product(n, d as int);
        if v <= real_of(y) {
            lemma_order(u, n as real, p);
            lemma_order(u, n as real, z);
            lemma_order(w, n as real, p);
        }
        if real_of(y) <= v {
            lemma_order(n as real, u, p);
            lemma_order(n as real, u, z);
            lemma_order(n as real, w, p);
        }
    } else {
        lemma_power_monotone(y.1 + 1, e);
        lemma_power(y.1);
        let h = power(y.1);
        let c = y.0 as real;
        lemma_order(c, 16777216real, h);
        assert(16777216real * h == 8388608real * (2real * h));
        assert(SIG_LOW as real == 8388608real);
        assert(x >= SIG_LOW as real * z) by {
            lemma_real_product(SIG_LOW as int, d as int);
            assert(d * SIG_LOW == SIG_LOW * d) by (nonlinear_arith);
        }
        lemma_order(SIG_LOW as real, u, z);
        lemma_order(SIG_LOW as real, u, p);
        lemma_order(SIG_LOW as real, w, p);
    }
}

/// Packing keeps the value.
proof fn lemma_packed(neg: bool, m: nat, f: int)
    requires
        SIG_LOW <= m <= SIG_TOP,
    ensures
        normal(packed(neg, (m, f))),
        real_of(packed(neg, (m, f))) == if neg {
            -(m as real * power(f))
        } else {
            m as real * power(f)
        },
{
    lemma_power(f);
    let (p, w) = (power(f), m as real);
    assert((-w) * p == -(w * p)) by (nonlinear_arith);
    if m == SIG_TOP {
        let h = SIG_LOW as real;
        assert(h * (2real * p) == (2real * h) * p) by (nonlinear_arith);
        assert((-h) * (2real * p) == -((2real * h) * p)) by (nonlinear_arith);
    }
}

/// Rounding keeps a value to within a 2^24th of it, and on the same side of every number.
pub proof fn lemma_round24(a: int, d: nat, e: int, y: (int, int))
    requires
        d > 0,
    ensures
        normal(round24(a, d, e)),
        16777216real * size_of(real_of(round24(a, d, e)) - exactly(a, d, e)) <= size_of(
            exactly(a, d, e),
        ),
        normal(y) && exactly(a, d, e) <= real_of(y) ==> real_of(round24(a, d, e)) <= real_of(y),
        normal(y) && real_of(y) <= exactly(a, d, e) ==> real_of(y) <= real_of(round24(a, d, e)),
{
    let z = d as real;
    let p = power(e);
    lemma_power(e);
    lemma_power(y.1);
    let (c, h) = (y.0 as real, power(y.1));
    lemma_sign(c, h);
    if a == 0 {
        lemma_sign(0real, z);
        lemma_divided(0real, z, 0real);
        lemma_sign(0real, p);
        lemma_sign(0real, power(0));
    } else {
        let b: int = if a > 0 {
            a
        } else {
            -a
        };
        let w = if a > 0 {
            y
        } else {
            negated(y)
        };
        lemma_rounded_real(b as nat, d, e, w);
        let (m, f) = rounded(b as nat, d, e);
        lemma_packed(a < 0, m, f);
        lemma_power(f);
        let x = b as real;
        let u = x / z;
        lemma_divided(x, z, u);
        assert((-u) * z == -(u * z)) by (nonlinear_arith);
        lemma_divided(-x, z, -u);
        assert((-u) * p == -(u * p)) by (nonlinear_arith);
        assert((-c) * h == -(c * h)) by (nonlinear_arith);
        lemma_sign(u, z);
        lemma_sign(u, p);
        let (g, n) = (power(f), m as real);
        lemma_sign(n, g);
        assert(SIG_LOW as real == 8388608real);
        assert(8388608real * g == SIG_LOW as real * g);
        assert(16777216real * size_of(n * g - u * p) <= u * p);
    }
}

/// The sum of two numbers is that of their values, rounded.
pub proof fn lemma_sum_real(x: (int, int), y: (int, int), b: (int, int))
    ensures
        normal(sum(x, y)),
        16777216real * size_of(real_of(sum(x, y)) - (real_of(x) + real_of(y))) <= size_of(
            real_of(x) + real_of(y),
        ),
        normal(b) && real_of(x) + real_of(y) <= real_of(b) ==> real_of(sum(x, y)) <= real_of(b),
        normal(b) && real_of(b) <= real_of(x) + real_of(y) ==> real_of(b) <= real_of(sum(x, y)),
{
    let e = min(x.1, y.1);
    let a = shifted(x.0, x.1 - e) + shifted(y.0, y.1 - e);
    lemma_round24(a, 1, e, b);
    lemma_shifted_real(x.0, x.1 - e);
    lemma_shifted_real(y.0, y.1 - e);
    lemma_power_sum(x.1 - e, e);
    lemma_power_sum(y.1 - e, e);
    let (u, v, p) = (power(x.1 - e), power(y.1 - e), power(e));
    let (m, n) = (x.0 as real, y.0 as real);
    assert((m * u + n * v) * p == m * (u * p) + n * (v * p)) by (nonlinear_arith);
    lemma_divided(a as real, 1real, a as real);
}

/// The difference of two numbers is that of their values, rounded.
pub proof fn lemma_difference_real(x: (int, int), y: (int, int), b: (int, int))
    ensures
        normal(difference(x, y)),
        16777216real * size_of(real_of(difference(x, y)) - (real_of(x) - real_of(y)))
            <= size_of(real_of(x) - real_of(y)),
        normal(b) && real_of(x) - real_of(y) <= real_of(b) ==> real_of(difference(x, y))
            <= real_of(b),
        normal(b) && real_of(b) <= real_of(x) - real_of(y) ==> real_of(b) <= real_of(
            difference(x, y),
        ),
{
    lemma_sum_real(x, negated(y), b);
    let (n, p) = (y.0 as real, power(y.1));
    assert((-n) * p == -(n * p)) by (nonlinear_arith);
}

/// The product of two numbers is that of their values, rounded.
pub proof fn lemma_product_real(x: (int, int), y: (int, int), b: (int, int))
    ensures
        normal(product(x, y)),
        16777216real * size_of(real_of(product(x, y)) - real_of(x) * real_of(y)) <= size_of(
            real_of(x) * real_of(y),
        ),
        normal(b) && real_of(x) * real_of(y) <= real_of(b) ==> real_of(product(x, y))
            <= real_of(b),
        normal(b) && real_of(b) <= real_of(x) * real_of(y) ==> real_of(b) <= real_of(
            product(x, y),
        ),
{
    lemma_round24(x.0 * y.0, 1, x.1 + y.1, b);
    lemma_real_product(x.0, y.0);
    lemma_power_sum(x.1, y.1);
    let (m, n, p, q) = (x.0 as real, y.0 as real, power(x.1), power(y.1));
    assert((m * n) * (p * q) == (m * p) * (n * q)) by (nonlinear_arith);
    lemma_divided((x.0 * y.0) as real, 1real, (x.0 * y.0) as real);
}

/// The quotient of two numbers is that of their values, rounded.
pub proof fn lemma_quotient_real(x: (int, int), y: (int, int), b: (int, int))
    requires
        y.0 != 0,
    ensures
        real_of(y) != 0real,
        normal(quotient(x, y)),
        16777216real * size_of(real_of(quotient(x, y)) - real_of(x) / real_of(y)) <= size_of(
            real_of(x) / real_of(y),
        ),
        normal(b) && real_of(x) / real_of(y) <= real_of(b) ==> real_of(quotient(x, y))
            <= real_of(b),
        normal(b) && real_of(b) <= real_of(x) / real_of(y) ==> real_of(b) <= real_of(
            quotient(x, y),
        ),
{
    lemma_power(x.1);
    lemma_power(y.1);
    lemma_power_sum(x.1 - y.1, y.1);
    let (m, n, p, q) = (x.0 as real, y.0 as real, power(x.1 - y.1), power(y.1));
    let k = m / n;
    lemma_sign(n, q);
    lemma_divided(m, n, k);
    assert((k * p) * (n * q) == (k * n) * (p * q)) by (nonlinear_arith);
    lemma_divided(m * (p * q), n * q, k * p);
    assert(k * (-n) == -(k * n)) by (nonlinear_arith);
    lemma_divided(-m, -n, k);
    if y.0 > 0 {
        lemma_round24(x.0, y.0 as nat, x.1 - y.1, b);
    } else {
        lemma_round24(-x.0, (-y.0) as nat, x.1 - y.1, b);
    }
}

/// A small integer is rounded to itself.
proof fn lemma_rounded_small(a: nat, e: int)
    requires
        0 < a < SIG_TOP,
    ensures
        rounded(a, 1, e).0 < SIG_TOP,
        rounded(a, 1, e).0 as real * power(rounded(a, 1, e).1) == a as real * power(e),
    decreases SIG_TOP - a,
{
    if a < SIG_LOW {
        lemma_rounded_small(2 * a, e - 1);
        lemma_power(e - 1);
        let (x, p) = (a as real, power(e - 1));
        assert((2real * x) * p == x * (2real * p)) by (nonlinear_arith);
    } else {
        assert(a / 1 == a && a % 1 == 0);
    }
}

/// An integer below 2^24 is a number.
pub proof fn lemma_of_int(i: int)
    requires
        -SIG_TOP < i < SIG_TOP,
    ensures
        normal(of_int(i)),
        real_of(of_int(i)) == i as real,
        of_int(i).0 == 0 <==> i == 0,
        of_int(i).0 > 0 <==> i > 0,
{
    if i == 0 {
        assert(0real * power(0) == 0real) by (nonlinear_arith);
    } else {
        let b: int = if i > 0 {
            i
        } else {
            -i
        };
        lemma_rounded_small(b as nat, 0);
        lemma_rounded_positive(b as nat, 1, 0);
        let (m, f) = rounded(b as nat, 1, 0);
        lemma_packed(i < 0, m, f);
        let x = b as real;
        assert(x * 1real == x) by (nonlinear_arith);
    }
}

/// Halving rounds down.
proof fn lemma_halved_real(n: nat, k: int)
    requires
        k >= 0,
    ensures
        halved(n, k) as real <= n as real * power(-k) < halved(n, k) as real + 1real,
    decreases k,
{
    if k > 0 {
        lemma_halved_real(n / 2, k - 1);
        lemma_power(-k);
        let (h, x, p, t) = ((n / 2) as real, n as real, power(-k), halved(n / 2, k - 1));
        assert(2real * h <= x <= 2real * h + 1real);
        assert(power(-k + 1) == 2real * p);
        assert(h * (2real * p) == (2real * h) * p) by (nonlinear_arith);
        lemma_halved_next(n / 2, k - 1);
        lemma_order(2real * h, x, p);
        lemma_order(x, 2real * h + 1real, p);
        lemma_order(2real * h + 1real, 2real * h + 2real, p);
        assert((2real * h + 2real) * p == (h + 1real) * (2real * p)) by (nonlinear_arith);
    } else {
        let x = n as real;
        assert(x * 1real == x) by (nonlinear_arith);
    }
}

/// What is halved is less than one more, halved, by a unit at most.
proof fn lemma_halved_next(n: nat, k: int)
    requires
        k >= 0,
    ensures
        (n as real + 1real) * power(-k) <= halved(n, k) as real + 1real,
    decreases k,
{
    if k > 0 {
        lemma_halved_next(n / 2, k - 1);
        lemma_power(-k);
        let (h, x, p) = ((n / 2) as real, n as real, power(-k));
        assert(x <= 2real * h + 1real);
        lemma_order(x + 1real, 2real * h + 2real, p);
        assert((2real * h + 2real) * p == (h + 1real) * (2real * p)) by (nonlinear_arith);
    } else {
        let x = n as real;
        assert((x + 1real) * 1real == x + 1real) by (nonlinear_arith);
    }
}

/// The integer part is rounded toward zero.
pub proof fn lemma_truncated_real(x: (int, int))
    requires
        size_of(real_of(x)) < 2147483647real,
    ensures
        real_of(x) >= 0real ==> truncated(x) as real <= real_of(x) < truncated(x) as real + 1real
            && truncated(x) >= 0,
        real_of(x) <= 0real ==> truncated(x) as real - 1real < real_of(x) <= truncated(x) as real
            && truncated(x) <= 0,
{
    let m = if x.0 < 0 {
        -x.0
    } else {
        x.0
    };
    lemma_power(x.1);
    let (n, p) = (x.0 as real, power(x.1));
    assert((-n) * p == -(n * p)) by (nonlinear_arith);
    lemma_sign(n, p);
    if x.1 >= 0 {
        lemma_shifted_real(m, x.1);
    } else {
        lemma_halved_real(m as nat, -x.1);
    }
}

/// Holding a number to `[0, 1]` holds its value.
pub proof fn lemma_clamped_real(x: (int, int))
    requires
        normal(x),
    ensures
        normal(unit_clamped(x)),
        real_of(unit_clamped(x)) == if real_of(x) < 0real {
            0real
        } else if real_of(x) > 1real {
            1real
        } else {
            real_of(x)
        },
{
    lemma_of_int(1);
    lemma_of_int(0);
    lemma_below_real(of_int(1), x);
    lemma_power(x.1);
    let (n, p) = (x.0 as real, power(x.1));
    lemma_sign(n, p);
}

/// A number of halves, rounded up, is within a half.
proof fn lemma_half_up(h: int, t: int, v: real)
    requires
        2 * t == h || 2 * t == h + 1,
        h as real <= 2real * v < h as real + 1real,
    ensures
        -1real <= 2real * (t as real - v) <= 1real,
{
}

/// The nearest integer to a number from zero up.
proof fn lemma_nearest_size(m: nat, e: int)
    requires
        e < 0,
    ensures
        -1real <= 2real * (((halved(m, -e - 1) + 1) / 2) as real - m as real * power(e)) <= 1real,
{
    let h = halved(m, -e - 1);
    let t = (h + 1) / 2;
    lemma_halved_real(m, -e - 1);
    lemma_power(e);
    let (w, p) = (m as real, power(e));
    assert(w * (2real * p) == 2real * (w * p)) by (nonlinear_arith);
    assert(2 * t == h || 2 * t == h + 1);
    lemma_half_up(h as int, t as int, w * p);
}

/// The nearest integer to a number that has places after the point, in parts.
pub proof fn lemma_nearest_parts(x: (int, int), t: int)
    requires
        x.1 < 0,
        x.0 >= 0,
        t == (halved(x.0 as nat, -x.1 - 1) + 1) / 2,
    ensures
        -1real <= 2real * (t as real - real_of(x)) <= 1real,
{
    lemma_nearest_size(x.0 as nat, x.1);
}

} // verus!
