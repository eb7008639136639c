//! Single-precision arithmetic on integers.
//!
//! Positions along an edge travel between machines as IEEE 754 binary32
//! numbers, so the geometry that produces and consumes them has to round
//! exactly as every other machine does. A [`Num`] is such a number, `n * 2^e`
//! with a 24-bit significand; each operation computes the exact result and
//! rounds it once, to nearest, ties to even.
//!
//! The exponent of a `Num` is not limited to binary32's own range. The
//! quantities that the geometry handles are pixel counts and quotients of pixel
//! counts, which stay far inside it.
use vstd::prelude::*;

verus! {

/// Significands lie below this bound.
pub const SIG_TOP: i32 = 0x100_0000;

/// Nonzero significands are at least this large.
pub const SIG_LOW: i32 = 0x80_0000;

/// A binary floating-point number with 24 significant bits: `n * 2^e`.
#[derive(Clone, Copy, Debug, PartialEq, Eq, Structural)]
pub struct Num {
    pub n: i32,
    pub e: i32,
}

/// The quotient `a / d` rounded to an integer, ties to even.
pub open spec fn nearest_even(a: nat, d: nat) -> nat {
    let q = a / d;
    let r = a % d;
    if 2 * r < d || (2 * r == d && q % 2 == 0) {
        q
    } else {
        q + 1
    }
}

/// `a / d * 2^e` rounded to 24 significant bits: the quotient is scaled by
/// powers of two into `[2^23, 2^24)` and rounded to an integer there. The first
/// component is the rounded significand (2^24 when the rounding carried), the
/// second its exponent.
pub open spec fn rounded(a: nat, d: nat, e: int) -> (nat, int)
    decreases
            if a >= d * SIG_TOP {
                1int
            } else {
                0int
            },
            if a >= d * SIG_TOP {
                a - d * SIG_TOP
            } else if a < d * SIG_LOW {
                d * SIG_LOW - a
            } else {
                0
            },
    when a > 0 && d > 0
{
    if a >= d * SIG_TOP {
        rounded(a, 2 * d, e + 1)
    } else if a < d * SIG_LOW {
        rounded(2 * a, d, e - 1)
    } else {
        (nearest_even(a, d), e)
    }
}

/// The `Num` of a sign and a rounded significand.
pub open spec fn packed(neg: bool, m: (nat, int)) -> (int, int) {
    let (n, e) = if m.0 == SIG_TOP {
        (SIG_LOW as int, m.1 + 1)
    } else {
        (m.0 as int, m.1)
    };
    if neg {
        (-n, e)
    } else {
        (n, e)
    }
}

/// `a / d * 2^e` as a significand and an exponent, for `d > 0`. Zero is `(0, 0)`.
pub open spec fn round24(a: int, d: nat, e: int) -> (int, int) {
    if a == 0 {
        (0, 0)
    } else if a > 0 {
        packed(false, rounded(a as nat, d, e))
    } else {
        packed(true, rounded((-a) as nat, d, e))
    }
}

/// `n * 2^k`.
pub open spec fn shifted(n: int, k: int) -> int
    decreases k,
{
    if k <= 0 {
        n
    } else {
        2 * shifted(n, k - 1)
    }
}

/// `n / 2^k`, rounded down.
pub open spec fn halved(n: nat, k: int) -> nat
    decreases k,
{
    if k <= 0 {
        n
    } else {
        halved(n / 2, k - 1)
    }
}

pub open spec fn min(a: int, b: int) -> int {
    if a <= b {
        a
    } else {
        b
    }
}

impl Num {
    /// The pair that the rounding functions speak of.
    pub open spec fn pair(self) -> (int, int) {
        (self.n as int, self.e as int)
    }

    /// Zero has one form, and every other significand has its top bit set.
    pub open spec fn wf(self) -> bool {
        if self.n == 0 {
            self.e == 0
        } else {
            SIG_LOW <= self.n < SIG_TOP || -SIG_TOP < self.n <= -SIG_LOW
        }
    }

    /// The exponent lies within `k` of zero.
    pub open spec fn within(self, k: int) -> bool {
        -k <= self.e <= k
    }
}

/// The number with the value of `i`, rounded.
pub open spec fn of_int(i: int) -> (int, int) {
    round24(i, 1, 0)
}

/// `x * y`, rounded.
pub open spec fn product(x: (int, int), y: (int, int)) -> (int, int) {
    round24(x.0 * y.0, 1, x.1 + y.1)
}

/// `x / y`, rounded, for `y` other than zero.
pub open spec fn quotient(x: (int, int), y: (int, int)) -> (int, int) {
    if y.0 > 0 {
        round24(x.0, y.0 as nat, x.1 - y.1)
    } else {
        round24(-x.0, (-y.0) as nat, x.1 - y.1)
    }
}

/// `x + y`, rounded.
pub open spec fn sum(x: (int, int), y: (int, int)) -> (int, int) {
    let e = min(x.1, y.1);
    round24(shifted(x.0, x.1 - e) + shifted(y.0, y.1 - e), 1, e)
}

/// `-x`.
pub open spec fn negated(x: (int, int)) -> (int, int) {
    (-x.0, x.1)
}

/// `x - y`, rounded.
pub open spec fn difference(x: (int, int), y: (int, int)) -> (int, int) {
    sum(x, negated(y))
}

/// `x < y`.
pub open spec fn below(x: (int, int), y: (int, int)) -> bool {
    let e = min(x.1, y.1);
    shifted(x.0, x.1 - e) < shifted(y.0, y.1 - e)
}

/// The integer part of `x`, held to the range of `i32`.
pub open spec fn truncated(x: (int, int)) -> int {
    let m = if x.0 < 0 {
        -x.0
    } else {
        x.0
    };
    let t = if x.1 >= 0 {
        shifted(m, x.1)
    } else {
        halved(m as nat, -x.1) as int
    };
    if x.0 < 0 {
        if t > 0x8000_0000 {
            -0x8000_0000
        } else {
            -t
        }
    } else if t > 0x7fff_ffff {
        0x7fff_ffff
    } else {
        t
    }
}

/// The integer nearest to `x`, halves away from zero, held to the range of `i32`.
pub open spec fn nearest(x: (int, int)) -> int {
    let m = if x.0 < 0 {
        -x.0
    } else {
        x.0
    };
    if x.1 >= 0 {
        truncated(x)
    } else {
        let t = (halved(m as nat, -x.1 - 1) + 1) / 2;
        if x.0 < 0 {
            -(t as int)
        } else {
            t as int
        }
    }
}

/// `x`, held to the range `[0, 1]`.
pub open spec fn unit_clamped(x: (int, int)) -> (int, int) {
    if x.0 < 0 {
        (0, 0)
    } else if below(of_int(1), x) {
        of_int(1)
    } else {
        x
    }
}

/// Shifting is linear.
proof fn lemma_shifted_linear(n: int, k: int)
    ensures
        shifted(n, k) == n * shifted(1, k),
    decreases k,
{
    if k > 0 {
        lemma_shifted_linear(n, k - 1);
        assert(2 * (n * shifted(1, k - 1)) == n * (2 * shifted(1, k - 1))) by (nonlinear_arith);
    }
}

/// A larger shift gives a larger power of two.
proof fn lemma_shifted_monotone(j: int, k: int)
    requires
        0 <= j <= k,
    ensures
        1 <= shifted(1, j) <= shifted(1, k),
    decreases k,
{
    if j < k {
        lemma_shifted_monotone(j, k - 1);
    } else if k > 0 {
        lemma_shifted_monotone(j - 1, k - 1);
    }
}

proof fn lemma_shifted_values()
    ensures
        shifted(1, 23) == 0x80_0000,
        shifted(1, 24) == 0x100_0000,
        shifted(1, 60) == 0x1000_0000_0000_0000,
        shifted(1, 100) == 0x10_0000_0000_0000_0000_0000_0000,
{
    assert(shifted(1, 24) == 0x100_0000) by {
        reveal_with_fuel(shifted, 25);
    }
    assert(shifted(1, 60) == 0x10_0000_0000 * shifted(1, 24)) by {
        reveal_with_fuel(shifted, 37);
    }
    assert(shifted(1, 100) == 0x100_0000_0000 * shifted(1, 60)) by {
        reveal_with_fuel(shifted, 41);
    }
}

/// Rounds `a / d * 2^e` to 24 significant bits, with the given sign.
fn round_to_num(neg: bool, a: u128, d: u128, e: i32) -> (r: Num)
    requires
        0 < a < 0x10_0000_0000_0000_0000_0000_0000,
        0 < d < 0x1_0000_0000,
        -1_000_000 <= e <= 1_000_000,
    ensures
        r.wf(),
        r.n != 0,
        r.pair() == packed(neg, rounded(a as nat, d as nat, e as int)),
        e - 61 <= r.e <= e + 101,
        d == 1 ==> e - 23 <= r.e,
        d < SIG_TOP && SIG_LOW <= a ==> e - 24 <= r.e,
{
    let mut a1: u128 = a;
    let mut d1: u128 = d;
    let mut e1: i32 = e;
    let ghost mut k: int = 0;
    proof {
        lemma_shifted_values();
    }
    while a1 >= d1 * 0x100_0000
        invariant
            a1 == a,
            0 < a < 0x10_0000_0000_0000_0000_0000_0000,
            0 < d1 <= 0x10_0000_0000_0000_0000_0000_0000,
            rounded(a as nat, d as nat, e as int) == rounded(a1 as nat, d1 as nat, e1 as int),
            -1_000_000 <= e <= 1_000_000,
            k >= 0,
            e1 == e + k,
            k <= 100,
            k > 0 ==> shifted(1, k) <= a,
            d1 >= shifted(1, k),
            k > 0 ==> a1 >= d1 * SIG_LOW,
            shifted(1, 100) == 0x10_0000_0000_0000_0000_0000_0000,
            k == 0 ==> d1 == d,
        decreases a1 - d1,
    {
        proof {
            k = k + 1;
            assert(shifted(1, k) == 2 * shifted(1, k - 1));
            if k > 100 {
                lemma_shifted_monotone(100, k);
            }
        }
        d1 = d1 * 2;
        e1 = e1 + 1;
    }
    let ghost k1 = k;
    let ghost mut j: int = 0;
    while a1 < d1 * 0x80_0000
        invariant
            0 < a1,
            a1 < d1 * 0x100_0000,
            0 < d1 <= 0x10_0000_0000_0000_0000_0000_0000,
            rounded(a as nat, d as nat, e as int) == rounded(a1 as nat, d1 as nat, e1 as int),
            -1_000_000 <= e <= 1_000_000,
            0 <= k1 <= 100,
            j >= 0,
            k1 > 0 ==> j == 0,
            k1 > 0 ==> a1 >= d1 * SIG_LOW,
            k1 == 0 ==> d1 == d,
            d < 0x1_0000_0000,
            e1 == e + k1 - j,
            j <= 60,
            a1 >= shifted(1, j),
            d == 1 ==> j <= 23,
            d < SIG_TOP && SIG_LOW <= a ==> j <= 24,
            SIG_LOW <= a ==> a1 >= SIG_LOW * shifted(1, j),
            shifted(1, 23) == 0x80_0000,
            shifted(1, 24) == 0x100_0000,
            shifted(1, 60) == 0x1000_0000_0000_0000,
        decreases d1 * 0x100_0000 - a1,
    {
        proof {
            j = j + 1;
            assert(shifted(1, j) == 2 * shifted(1, j - 1));
            if j > 60 {
                lemma_shifted_monotone(60, j);
            }
            if j > 23 {
                lemma_shifted_monotone(23, j - 1);
            }
            if j > 24 {
                lemma_shifted_monotone(24, j - 1);
            }
        }
        a1 = a1 * 2;
        e1 = e1 - 1;
    }
    let q: u128 = a1 / d1;
    let r: u128 = a1 % d1;
    assert(0x80_0000 <= q < 0x100_0000) by (nonlinear_arith)
        requires
            d1 * 0x80_0000 <= a1 < d1 * 0x100_0000,
            d1 > 0,
            q == a1 / d1,
    ;
    let m: u128 = if 2 * r < d1 || (2 * r == d1 && q % 2 == 0) {
        q
    } else {
        q + 1
    };
    let (n, ex): (i32, i32) = if m == 0x100_0000 {
        (0x80_0000, e1 + 1)
    } else {
        (m as i32, e1)
    };
    if neg {
        Num { n: -n, e: ex }
    } else {
        Num { n: n, e: ex }
    }
}

/// A multiple of a 24-bit significand by a power of two rounds to itself.
proof fn lemma_rounded_exact(m: nat, d: nat, k: nat, e: int)
    requires
        SIG_LOW <= m < SIG_TOP,
        d > 0,
    ensures
        rounded((m * (d * shifted(1, k as int))) as nat, d, e) == (m, e + k),
    decreases k,
{
    lemma_shifted_monotone(0, k as int);
    let p = shifted(1, k as int);
    let a = m * (d * p);
    if k == 0 {
        assert(d * p == d) by (nonlinear_arith)
            requires
                p == 1,
        ;
        assert(m * d >= d * SIG_LOW && m * d < d * SIG_TOP && (m * d) / d == m && (m * d)
            % d == 0) by (nonlinear_arith)
            requires
                SIG_LOW <= m < SIG_TOP,
                d > 0,
        ;
        assert(m * d > 0);
        assert(nearest_even((m * d) as nat, d) == m);
    } else {
        let h = shifted(1, k - 1);
        lemma_shifted_monotone(0, k - 1);
        assert(p == 2 * h);
        assert(a >= d * SIG_TOP && a == m * ((2 * d) * h)) by (nonlinear_arith)
            requires
                a == m * (d * p),
                p == 2 * h,
                h >= 1,
                m >= SIG_LOW,
                d > 0,
        ;
        lemma_rounded_exact(m, 2 * d, (k - 1) as nat, e + 1);
    }
}

/// Scaling steps may be taken together while the quotient stays large.
proof fn lemma_rounded_skip(a: nat, d: nat, e: int, g: nat)
    requires
        d > 0,
        a >= d * shifted(1, g as int) * SIG_LOW,
    ensures
        rounded(a, d, e) == rounded(a, (d * shifted(1, g as int)) as nat, e + g),
    decreases g,
{
    lemma_shifted_monotone(0, g as int);
    if g > 0 {
        let h = shifted(1, g - 1);
        lemma_shifted_monotone(0, g - 1);
        assert(shifted(1, g as int) == 2 * h);
        assert(d * (2 * h) == (2 * d) * h && (2 * d) * h * SIG_LOW >= d * SIG_TOP)
            by (nonlinear_arith)
            requires
                h >= 1,
                d > 0,
        ;
        lemma_rounded_skip(a, 2 * d, e + 1, (g - 1) as nat);
    } else {
        assert(d * 1 == d);
    }
}

/// Adding a number that is smaller by 26 binary places leaves a significand as it is.
proof fn lemma_rounded_absorbs(b: nat, s: int, g: nat, e: int)
    requires
        SIG_LOW <= b < SIG_TOP,
        -SIG_TOP < s < SIG_TOP,
        g >= 26,
    ensures
        b * shifted(1, g as int) + s > 0,
        packed(false, rounded((b * shifted(1, g as int) + s) as nat, 1, e)) == (b as int, e + g),
{
    let p = shifted(1, g as int);
    let h = shifted(1, g - 1);
    assert(p == 2 * h);
    lemma_shifted_monotone(25, g - 1);
    assert(shifted(1, 25) == 0x200_0000) by {
        reveal_with_fuel(shifted, 26);
    }
    let a = b * p + s;
    assert(b * p >= SIG_LOW * p) by (nonlinear_arith)
        requires
            b >= SIG_LOW,
            p >= 0,
    ;
    if s >= 0 || b > SIG_LOW {
        assert(a >= p * SIG_LOW && a < p * SIG_TOP) by (nonlinear_arith)
            requires
                a == b * p + s,
                SIG_LOW <= b < SIG_TOP,
                s >= 0 || b > SIG_LOW,
                -SIG_TOP < s < SIG_TOP,
                p >= 0x400_0000,
        ;
        assert(1 * p == p);
        lemma_rounded_skip(a as nat, 1, e, g);
        if s >= 0 {
            assert(a / p == b && a % p == s) by (nonlinear_arith)
                requires
                    a == b * p + s,
                    0 <= s < p,
            ;
        } else {
            assert(a / p == b - 1 && a % p == p + s) by (nonlinear_arith)
                requires
                    a == b * p + s,
                    -p < s < 0,
            ;
        }
        assert(nearest_even(a as nat, p as nat) == b);
    } else {
        assert(a == h * SIG_TOP + s) by (nonlinear_arith)
            requires
                a == b * p + s,
                b == SIG_LOW,
                p == 2 * h,
        ;
        assert(1 * h == h);
        lemma_rounded_skip(a as nat, 1, e, (g - 1) as nat);
        assert(a / h == SIG_TOP - 1 && a % h == h + s) by (nonlinear_arith)
            requires
                a == h * SIG_TOP + s,
                -h < s < 0,
        ;
        assert(nearest_even(a as nat, h as nat) == SIG_TOP);
    }
}

/// A number in its one form is what it rounds to.
proof fn lemma_round24_exact(x: Num, k: int)
    requires
        x.wf(),
        k >= 0,
    ensures
        round24(shifted(x.n as int, k), 1, x.e - k) == x.pair(),
{
    lemma_shifted_linear(x.n as int, k);
    lemma_shifted_monotone(0, k);
    let p = shifted(1, k);
    let m: nat = if x.n < 0 {
        (-x.n) as nat
    } else {
        x.n as nat
    };
    if x.n != 0 {
        lemma_rounded_exact(m, 1, k as nat, x.e - k);
        assert(m * (1 * p) == m * p);
        assert((-x.n) * p == -(x.n * p)) by (nonlinear_arith);
        assert(m * p > 0) by (nonlinear_arith)
            requires
                m > 0,
                p > 0,
        ;
    } else {
        assert(0 * p == 0);
    }
}

impl Num {
    /// Zero.
    pub fn zero() -> (r: Num)
        ensures
            r.wf(),
            r.pair() == (0int, 0int),
    {
        Num { n: 0, e: 0 }
    }

    /// The number with the value of an integer, rounded.
    pub fn of(i: i64) -> (r: Num)
        requires
            -0x10_0000_0000 <= i <= 0x10_0000_0000,
        ensures
            r.wf(),
            r.pair() == of_int(i as int),
            -23 <= r.e <= 101,
    {
        if i == 0 {
            Num::zero()
        } else if i > 0 {
            round_to_num(false, i as u128, 1, 0)
        } else {
            round_to_num(true, (-i) as u128, 1, 0)
        }
    }

    /// `self * other`, rounded.
    pub fn times(self, other: Num) -> (r: Num)
        requires
            self.wf(),
            other.wf(),
            self.within(500_000),
            other.within(500_000),
        ensures
            r.wf(),
            r.pair() == product(self.pair(), other.pair()),
            self.e + other.e - 61 <= r.e <= self.e + other.e + 101 || r.e == 0,
    {
        proof {
            let a = self.n as int;
            let b = other.n as int;
            assert(-0x1_0000_0000_0000 <= a * b <= 0x1_0000_0000_0000) by (nonlinear_arith)
                requires
                    -0x100_0000 <= a <= 0x100_0000,
                    -0x100_0000 <= b <= 0x100_0000,
            ;
        }
        let p: i64 = self.n as i64 * other.n as i64;
        if p == 0 {
            Num::zero()
        } else if p > 0 {
            round_to_num(false, p as u128, 1, self.e + other.e)
        } else {
            round_to_num(true, (-p) as u128, 1, self.e + other.e)
        }
    }

    /// `self / other`, rounded.
    pub fn over(self, other: Num) -> (r: Num)
        requires
            self.wf(),
            other.wf(),
            other.n != 0,
            self.within(500_000),
            other.within(500_000),
        ensures
            r.wf(),
            r.pair() == quotient(self.pair(), other.pair()),
            self.e - other.e - 24 <= r.e <= self.e - other.e + 101 || r.e == 0,
    {
        let neg: bool = (self.n < 0) != (other.n < 0);
        let a: i32 = if self.n < 0 {
            -self.n
        } else {
            self.n
        };
        let d: i32 = if other.n < 0 {
            -other.n
        } else {
            other.n
        };
        if a == 0 {
            Num::zero()
        } else {
            round_to_num(neg, a as u128, d as u128, self.e - other.e)
        }
    }

    /// `-self`.
    pub fn negate(self) -> (r: Num)
        requires
            self.wf(),
        ensures
            r.wf(),
            r.pair() == negated(self.pair()),
            r.e == self.e,
    {
        Num { n: -self.n, e: self.e }
    }

    /// `self + other`, rounded.
    pub fn plus(self, other: Num) -> (r: Num)
        requires
            self.wf(),
            other.wf(),
            self.within(500_000),
            other.within(500_000),
        ensures
            r.wf(),
            r.pair() == sum(self.pair(), other.pair()),
            (self.e - 61 <= r.e || other.e - 61 <= r.e) && (r.e <= self.e + 101 || r.e <= other.e
                + 101) || r.e == 0,
    {
        let ghost e = min(self.e as int, other.e as int);
        if self.n == 0 {
            proof {
                lemma_shifted_linear(0, self.e - e);
                lemma_round24_exact(other, other.e - e);
            }
            return other;
        }
        if other.n == 0 {
            proof {
                lemma_shifted_linear(0, other.e - e);
                lemma_round24_exact(self, self.e - e);
            }
            return self;
        }
        let (hi, lo): (Num, Num) = if self.e >= other.e {
            (self, other)
        } else {
            (other, self)
        };
        let gap: i32 = hi.e - lo.e;
        proof {
            lemma_shifted_linear(hi.n as int, gap as int);
            lemma_shifted_monotone(0, gap as int);
        }
        if gap >= 26 {
            proof {
                let p = shifted(1, gap as int);
                if hi.n > 0 {
                    lemma_rounded_absorbs(hi.n as nat, lo.n as int, gap as nat, lo.e as int);
                } else {
                    lemma_rounded_absorbs((-hi.n) as nat, -lo.n, gap as nat, lo.e as int);
                    assert((-hi.n) * p == -(hi.n * p)) by (nonlinear_arith);
                }
            }
            return hi;
        }
        let v: i64 = shift_up(hi.n, gap) + lo.n as i64;
        if v == 0 {
            Num::zero()
        } else if v > 0 {
            round_to_num(false, v as u128, 1, lo.e)
        } else {
            round_to_num(true, (-v) as u128, 1, lo.e)
        }
    }

    /// `self - other`, rounded.
    pub fn minus(self, other: Num) -> (r: Num)
        requires
            self.wf(),
            other.wf(),
            self.within(500_000),
            other.within(500_000),
        ensures
            r.wf(),
            r.pair() == difference(self.pair(), other.pair()),
            (self.e - 61 <= r.e || other.e - 61 <= r.e) && (r.e <= self.e + 101 || r.e <= other.e
                + 101) || r.e == 0,
    {
        self.plus(other.negate())
    }

    /// `self < other`.
    pub fn lt(self, other: Num) -> (r: bool)
        requires
            self.wf(),
            other.wf(),
            self.within(1_000_000),
            other.within(1_000_000),
        ensures
            r == below(self.pair(), other.pair()),
    {
        let ghost e = min(self.e as int, other.e as int);
        proof {
            lemma_shifted_linear(self.n as int, self.e - e);
            lemma_shifted_linear(other.n as int, other.e - e);
            lemma_shifted_monotone(0, self.e - e);
            lemma_shifted_monotone(0, other.e - e);
            assert(shifted(1, 25) == 0x200_0000) by {
                reveal_with_fuel(shifted, 26);
            }
        }
        let ghost p = shifted(1, self.e - e);
        let ghost q = shifted(1, other.e - e);
        if self.n == 0 {
            assert(self.n * p == 0) by (nonlinear_arith)
                requires
                    self.n == 0,
            ;
            assert(other.n > 0 <==> other.n * q > 0) by (nonlinear_arith)
                requires
                    q >= 1,
            ;
            return other.n > 0;
        }
        if other.n == 0 {
            assert(other.n * q == 0) by (nonlinear_arith)
                requires
                    other.n == 0,
            ;
            assert(self.n < 0 <==> self.n * p < 0) by (nonlinear_arith)
                requires
                    p >= 1,
            ;
            return self.n < 0;
        }
        if self.e - other.e >= 25 {
            proof {
                lemma_shifted_monotone(25, self.e - e);
                assert(self.n < 0 <==> self.n * p < other.n * q) by (nonlinear_arith)
                    requires
                        p >= 0x200_0000,
                        q == 1,
                        -SIG_TOP < other.n < SIG_TOP,
                        SIG_LOW <= self.n || self.n <= -SIG_LOW,
                ;
            }
            return self.n < 0;
        }
        if other.e - self.e >= 25 {
            proof {
                lemma_shifted_monotone(25, other.e - e);
                assert(other.n > 0 <==> self.n * p < other.n * q) by (nonlinear_arith)
                    requires
                        q >= 0x200_0000,
                        p == 1,
                        -SIG_TOP < self.n < SIG_TOP,
                        SIG_LOW <= other.n || other.n <= -SIG_LOW,
                ;
            }
            return other.n > 0;
        }
        if self.e >= other.e {
            shift_up(self.n, self.e - other.e) < other.n as i64
        } else {
            (self.n as i64) < shift_up(other.n, other.e - self.e)
        }
    }

    /// `self`, held to the range `[0, 1]`.
    pub fn clamp_unit(self) -> (r: Num)
        requires
            self.wf(),
            self.within(1_000_000),
        ensures
            r.wf(),
            r.pair() == unit_clamped(self.pair()),
            r == self || r.within(101),
    {
        if self.n < 0 {
            return Num::zero();
        }
        let one: Num = Num::of(1);
        if one.lt(self) {
            one
        } else {
            self
        }
    }

    /// The integer part, held to the range of `i32`.
    pub fn trunc(self) -> (r: i32)
        requires
            self.wf(),
        ensures
            r == truncated(self.pair()),
    {
        let m: i32 = if self.n < 0 {
            -self.n
        } else {
            self.n
        };
        let t: i64 = if self.e >= 0 {
            if m == 0 {
                proof {
                    lemma_shifted_linear(0, self.e as int);
                    assert(0 * shifted(1, self.e as int) == 0);
                }
                0
            } else if self.e >= 9 {
                proof {
                    lemma_shifted_linear(m as int, self.e as int);
                    lemma_shifted_monotone(9, self.e as int);
                    assert(shifted(1, 9) == 0x200) by {
                        reveal_with_fuel(shifted, 10);
                    }
                    let p = shifted(1, self.e as int);
                    assert(m * p >= 0x1_0000_0000) by (nonlinear_arith)
                        requires
                            m >= 0x80_0000,
                            p >= 0x200,
                    ;
                }
                return if self.n < 0 {
                    i32::MIN
                } else {
                    i32::MAX
                };
            } else {
                proof {
                    lemma_shifted_linear(m as int, self.e as int);
                    lemma_shifted_monotone(0, self.e as int);
                    assert(m * shifted(1, self.e as int) >= 0) by (nonlinear_arith)
                        requires
                            m >= 0,
                            shifted(1, self.e as int) >= 0,
                    ;
                }
                shift_up(m, self.e)
            }
        } else {
            let mut k: i32 = self.e;
            let mut h: i32 = m;
            while k < 0 && h > 0
                invariant
                    k <= 0,
                    0 <= h <= m,
                    halved(m as nat, -self.e) == halved(h as nat, -k),
                decreases h,
            {
                h = h / 2;
                k = k + 1;
            }
            proof {
                if k < 0 {
                    lemma_halved_zero(-k);
                }
            }
            h as i64
        };
        if self.n < 0 {
            if t > 0x8000_0000 {
                i32::MIN
            } else {
                (-t) as i32
            }
        } else if t > 0x7fff_ffff {
            i32::MAX
        } else {
            t as i32
        }
    }
}

impl Num {
    /// The nearest integer, halves away from zero, held to the range of `i32`.
    pub fn round(self) -> (r: i32)
        requires
            self.wf(),
        ensures
            r == nearest(self.pair()),
    {
        if self.e >= 0 {
            return self.trunc();
        }
        let m: i32 = if self.n < 0 {
            -self.n
        } else {
            self.n
        };
        let mut k: i32 = self.e + 1;
        let mut h: i32 = m;
        while k < 0 && h > 0
            invariant
                k <= 0,
                0 <= h <= m < 0x100_0000,
                halved(m as nat, -self.e - 1) == halved(h as nat, -k),
            decreases h,
        {
            h = h / 2;
            k = k + 1;
        }
        proof {
            if k < 0 {
                lemma_halved_zero(-k);
            }
        }
        let t: i32 = (h + 1) / 2;
        if self.n < 0 {
            -t
        } else {
            t
        }
    }
}

proof fn lemma_halved_zero(k: int)
    ensures
        halved(0, k) == 0,
    decreases k,
{
    if k > 0 {
        lemma_halved_zero(k - 1);
    }
}

/// `n * 2^k` for a short shift.
fn shift_up(n: i32, k: i32) -> (r: i64)
    requires
        -SIG_TOP <= n <= SIG_TOP,
        0 <= k <= 26,
    ensures
        r == shifted(n as int, k as int),
        -0x4_0000_0000_0000 <= r <= 0x4_0000_0000_0000,
{
    let mut v: i64 = n as i64;
    let mut i: i32 = 0;
    proof {
        assert(shifted(1, 26) == 0x400_0000) by {
            reveal_with_fuel(shifted, 27);
        }
    }
    while i < k
        invariant
            0 <= i <= k <= 26,
            -SIG_TOP <= n <= SIG_TOP,
            v == shifted(n as int, i as int),
            -0x4_0000_0000_0000 <= v <= 0x4_0000_0000_0000,
            shifted(1, 26) == 0x400_0000,
        decreases k - i,
    {
        v = v * 2;
        i = i + 1;
        proof {
            let p = shifted(1, i as int);
            lemma_shifted_linear(n as int, i as int);
            lemma_shifted_monotone(i as int, 26);
            assert(-0x4_0000_0000_0000 <= n * p <= 0x4_0000_0000_0000) by (nonlinear_arith)
                requires
                    -0x100_0000 <= n <= 0x100_0000,
                    1 <= p <= 0x400_0000,
            ;
        }
    }
    v
}

/// A binary32 number as it travels between machines: its 32 bits.
#[derive(Clone, Copy, Debug, PartialEq, Eq, Structural)]
pub struct F32 {
    pub bits: u32,
}

impl F32 {
    pub open spec fn negative(self) -> bool {
        self.bits >= 0x8000_0000
    }

    /// The exponent field.
    pub open spec fn exponent(self) -> int {
        (self.bits as int / 0x80_0000) % 256
    }

    /// The fraction field.
    pub open spec fn fraction(self) -> int {
        self.bits as int % 0x80_0000
    }

    pub open spec fn is_nan(self) -> bool {
        self.exponent() == 255 && self.fraction() != 0
    }

    pub open spec fn is_infinite(self) -> bool {
        self.exponent() == 255 && self.fraction() == 0
    }

    /// The number that the bits of a finite value stand for.
    pub open spec fn value(self) -> (int, int) {
        let m = if self.exponent() == 0 {
            round24(self.fraction(), 1, -149)
        } else {
            (0x80_0000 + self.fraction(), self.exponent() - 150)
        };
        if self.negative() {
            negated(m)
        } else {
            m
        }
    }

    /// The value held to the range `[0, 1]`; what is not a number counts as 0,
    /// which is what a pixel count times it truncates to.
    pub open spec fn unit_value(self) -> (int, int) {
        if self.is_nan() {
            (0, 0)
        } else if self.is_infinite() {
            if self.negative() {
                (0, 0)
            } else {
                of_int(1)
            }
        } else {
            unit_clamped(self.value())
        }
    }

    /// The integer part of this value times `w`, held to the range of `i32`.
    #[verifier::opaque]
    pub open spec fn of_length(self, w: int) -> int {
        if self.is_nan() || (self.is_infinite() && w == 0) {
            0
        } else if self.is_infinite() {
            if self.negative() == (w < 0) {
                0x7fff_ffff
            } else {
                -0x8000_0000
            }
        } else {
            truncated(product(self.value(), of_int(w)))
        }
    }

    /// The finite number that the bits stand for.
    fn finite(self) -> (r: Num)
        requires
            self.exponent() != 255,
        ensures
            r.wf(),
            r.within(300),
            r.pair() == self.value(),
    {
        let ex: u32 = (self.bits / 0x80_0000) % 256;
        let frac: u32 = self.bits % 0x80_0000;
        let m: Num = if ex == 0 {
            if frac == 0 {
                Num::zero()
            } else {
                round_to_num(false, frac as u128, 1, -149)
            }
        } else {
            Num { n: 0x80_0000 + frac as i32, e: ex as i32 - 150 }
        };
        if self.bits >= 0x8000_0000 {
            m.negate()
        } else {
            m
        }
    }

    /// The value held to the range `[0, 1]`.
    pub fn unit(self) -> (r: Num)
        ensures
            r.wf(),
            r.within(300),
            r.pair() == self.unit_value(),
    {
        if (self.bits / 0x80_0000) % 256 == 255 {
            if self.bits % 0x80_0000 != 0 || self.bits >= 0x8000_0000 {
                Num::zero()
            } else {
                Num::of(1)
            }
        } else {
            self.finite().clamp_unit()
        }
    }

    /// The integer part of this value times `w`, held to the range of `i32`.
    pub fn along(self, w: i32) -> (r: i32)
        ensures
            r == self.of_length(w as int),
    {
        proof {
            reveal(F32::of_length);
        }
        if (self.bits / 0x80_0000) % 256 == 255 {
            if self.bits % 0x80_0000 != 0 || w == 0 {
                0
            } else if (self.bits >= 0x8000_0000) == (w < 0) {
                i32::MAX
            } else {
                i32::MIN
            }
        } else {
            self.finite().times(Num::of(w as i64)).trunc()
        }
    }
}

/// The binary32 of a number from zero up that it can hold.
pub open spec fn encoded(x: (int, int)) -> F32 {
    if x.0 == 0 {
        F32 { bits: 0 }
    } else {
        F32 { bits: ((x.1 + 150) * 0x80_0000 + (x.0 - 0x80_0000)) as u32 }
    }
}

/// The bits of a number from zero up that binary32 can hold.
pub fn to_f32(x: Num) -> (r: F32)
    requires
        x.wf(),
        x.n >= 0,
        x.n > 0 ==> -149 <= x.e <= 104,
    ensures
        r == encoded(x.pair()),
        r.exponent() != 255,
        r.value() == x.pair(),
        !r.negative(),
{
    if x.n == 0 {
        F32 { bits: 0 }
    } else {
        F32 { bits: (x.e + 150) as u32 * 0x80_0000 + (x.n - 0x80_0000) as u32 }
    }
}

/// A number of at most 1 has an exponent of at most -23.
pub proof fn lemma_unit_exponent(x: Num)
    requires
        x.wf(),
        x.n > 0,
        !below(of_int(1), x.pair()),
    ensures
        x.e <= -23,
{
    lemma_one();
    if x.e > -23 {
        lemma_shifted_linear(x.n as int, x.e + 23);
        lemma_shifted_monotone(1, x.e + 23);
        assert(shifted(1, 1) == 2) by {
            reveal_with_fuel(shifted, 2);
        }
        assert(x.n * shifted(1, x.e + 23) > 0x80_0000) by (nonlinear_arith)
            requires
                x.n >= 0x80_0000,
                shifted(1, x.e + 23) >= 2,
        ;
        assert(below((0x80_0000int, -23int), x.pair()));
    }
}

/// One, written out.
pub proof fn lemma_one()
    ensures
        of_int(1) == (0x80_0000int, -23int),
{
    lemma_shifted_values();
    reveal_with_fuel(rounded, 25);
}

/// A nonzero integer does not round to zero.
pub proof fn lemma_of_nonzero(i: int)
    requires
        i > 0,
    ensures
        of_int(i).0 > 0,
{
    lemma_rounded_positive(i as nat, 1, 0);
}

/// A rounded significand is never zero.
pub(crate) proof fn lemma_rounded_positive(a: nat, d: nat, e: int)
    requires
        a > 0,
        d > 0,
    ensures
        rounded(a, d, e).0 >= SIG_LOW,
    decreases
            if a >= d * SIG_TOP {
                1int
            } else {
                0int
            },
            if a >= d * SIG_TOP {
                a - d * SIG_TOP
            } else if a < d * SIG_LOW {
                d * SIG_LOW - a
            } else {
                0
            },
{
    if a >= d * SIG_TOP {
        lemma_rounded_positive(a, 2 * d, e + 1);
    } else if a < d * SIG_LOW {
        lemma_rounded_positive(2 * a, d, e - 1);
    } else {
        assert(a / d >= SIG_LOW) by (nonlinear_arith)
            requires
                a >= d * SIG_LOW,
                d > 0,
        ;
    }
}

/// Nothing that is held to `[0, 1]` exceeds 1.
pub proof fn lemma_clamped_unit(x: (int, int))
    ensures
        !below(of_int(1), unit_clamped(x)),
        unit_clamped(x).0 >= 0,
{
    lemma_one();
    lemma_shifted_linear(0x80_0000, 0);
    let z = (0int, 0int);
    lemma_shifted_linear(0, 23);
    assert(0 * shifted(1, 23) == 0);
    assert(!below(of_int(1), z));
}

/// Only a number other than zero is above or below zero.
pub proof fn lemma_below_zero(x: Num)
    ensures
        below((0int, 0int), x.pair()) ==> x.n != 0,
        below(x.pair(), (0int, 0int)) ==> x.n != 0,
{
    let e = min(0, x.e as int);
    lemma_shifted_linear(0, 0 - e);
    lemma_shifted_linear(0, x.e - e);
    assert(0 * shifted(1, 0 - e) == 0);
    assert(0 * shifted(1, x.e - e) == 0);
}

/// A number whose significand is not negative is not below zero.
pub proof fn lemma_nonnegative(x: (int, int))
    requires
        x.0 >= 0,
    ensures
        !below(x, (0int, 0int)),
{
    let e = min(0, x.1);
    lemma_shifted_linear(0, 0 - e);
    lemma_shifted_linear(x.0, x.1 - e);
    lemma_shifted_monotone(0, x.1 - e);
    let p = shifted(1, x.1 - e);
    assert(0 * shifted(1, 0 - e) == 0);
    assert(x.0 * p >= 0) by (nonlinear_arith)
        requires
            x.0 >= 0,
            p >= 0,
    ;
}

/// Zero and one lie in `[0, 1]`, and holding them there changes nothing.
pub proof fn lemma_unit_bounds()
    ensures
        unit_clamped((0int, 0int)) == (0int, 0int),
        unit_clamped(of_int(1)) == of_int(1),
        !below(of_int(1), of_int(1)),
        !below(of_int(1), (0int, 0int)),
        !below((0int, 0int), (0int, 0int)),
{
    lemma_one();
    lemma_shifted_linear(0, 23);
    assert(0 * shifted(1, 23) == 0);
}

/// The integer part of zero is zero.
pub proof fn lemma_truncated_zero()
    ensures
        truncated((0int, 0int)) == 0,
{
    assert(shifted(0, 0) == 0);
}

} // verus!
