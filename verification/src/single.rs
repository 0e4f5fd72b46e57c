//! Single-precision numbers, carried by their bit patterns.
//!
//! A patch, a command and a voice all hold single-precision numbers that the
//! control core never computes with: it compares them, clamps them, rounds
//! them to a count and hands them on. Every finite one is a whole multiple
//! of the smallest, so its exact value is a mathematical integer, counted in
//! units of two to the minus 149, and what each operation here does is said
//! of that integer.

use vstd::prelude::*;
use vstd::arithmetic::power2::*;
use vstd::arithmetic::div_mod::*;

verus! {

/// The pattern of positive infinity; patterns past it are not numbers.
pub const INFINITE: u32 = 0x7f80_0000;

/// The sign bit.
pub const SIGN: u32 = 0x8000_0000;

/// One step of the exponent field.
pub const BINADE: u32 = 0x0080_0000;

/// A single-precision number by its bit pattern.
#[derive(Clone, Copy, Debug, PartialEq, Eq, Structural)]
pub struct Single {
    pub bits: u32,
}

/// How many units a pattern without its sign stands for. Infinity reads as
/// the number its pattern continues to, which is past every finite one.
pub open spec fn steps(m: int) -> int {
    let e = m / BINADE as int;
    let f = m % BINADE as int;
    if e <= 0 {
        f
    } else {
        (BINADE + f) * pow2((e - 1) as nat)
    }
}

/// The number of units in one.
pub open spec fn one() -> int {
    pow2(149) as int
}

impl Single {
    /// The pattern without its sign.
    pub open spec fn low(self) -> int {
        if self.bits < SIGN {
            self.bits as int
        } else {
            self.bits - SIGN
        }
    }

    pub open spec fn negative(self) -> bool {
        self.bits >= SIGN
    }

    /// Whether the pattern stands for a number, the infinities among them.
    pub open spec fn number(self) -> bool {
        self.low() <= INFINITE
    }

    /// Whether the pattern stands for a finite number.
    pub open spec fn finite(self) -> bool {
        self.low() < INFINITE
    }

    /// The exact value, in units.
    pub open spec fn units(self) -> int {
        if self.negative() {
            -steps(self.low())
        } else {
            steps(self.low())
        }
    }
}

/// Each pattern stands for more than the one before it, by the unit of its
/// binade.
pub proof fn lemma_steps_next(m: int)
    requires
        0 <= m,
    ensures
        steps(m) >= 0,
        steps(m + 1) == steps(m) + (if m < BINADE { 1 } else { pow2((m / BINADE as int - 1) as nat) as int }),
        steps(m + 1) > steps(m),
{
    let e = m / BINADE as int;
    let f = m % BINADE as int;
    if e > 0 {
        lemma_pow2_pos((e - 1) as nat);
    }
    if f + 1 < BINADE {
        assert((m + 1) / BINADE as int == e);
        assert((m + 1) % BINADE as int == f + 1);
        if e > 0 {
            let p = pow2((e - 1) as nat) as int;
            assert((BINADE + (f + 1)) * p == (BINADE + f) * p + p) by (nonlinear_arith);
            assert((BINADE + f) * p >= 0) by (nonlinear_arith)
                requires f >= 0, p > 0;
        }
    } else {
        assert((m + 1) / BINADE as int == e + 1);
        assert((m + 1) % BINADE as int == 0);
        lemma_pow2_pos(e as nat);
        if e == 0 {
            lemma2_to64();
        } else {
            let p = pow2((e - 1) as nat) as int;
            lemma_pow2_unfold(e as nat);
            assert(pow2(e as nat) == 2 * p);
            assert(BINADE * (2 * p) == (BINADE + f) * p + p) by (nonlinear_arith)
                requires f + 1 == BINADE;
            assert((BINADE + f) * p >= 0) by (nonlinear_arith)
                requires f >= 0, p > 0;
        }
    }
}

/// Patterns order as the numbers they stand for.
pub proof fn lemma_steps_ordered(a: int, b: int)
    requires
        0 <= a < b,
    ensures
        0 <= steps(a) < steps(b),
    decreases b - a,
{
    lemma_steps_next(a);
    if a + 1 < b {
        lemma_steps_ordered(a + 1, b);
    }
}

/// Only the zero pattern stands for nothing.
pub proof fn lemma_steps_zero(m: int)
    requires
        0 <= m,
    ensures
        steps(m) >= 0,
        steps(m) == 0 <==> m == 0,
{
    assert(steps(0) == 0);
    lemma_steps_next(m);
    if m > 0 {
        lemma_steps_ordered(0, m);
    }
}

impl Single {
    /// The pattern without its sign.
    fn low_bits(self) -> (r: u32)
        ensures
            r == self.low(),
    {
        if self.bits < SIGN {
            self.bits
        } else {
            self.bits - SIGN
        }
    }

    /// Whether this is a number at all.
    pub fn is_number(self) -> (r: bool)
        ensures
            r == self.number(),
    {
        self.low_bits() <= INFINITE
    }

    /// `self < other`; false wherever either is not a number.
    pub fn lt(self, other: Single) -> (r: bool)
        ensures
            r == (self.number() && other.number() && self.units() < other.units()),
    {
        let a: u32 = self.low_bits();
        let b: u32 = other.low_bits();
        proof {
            lemma_steps_zero(a as int);
            lemma_steps_zero(b as int);
            if a < b {
                lemma_steps_ordered(a as int, b as int);
            } else if b < a {
                lemma_steps_ordered(b as int, a as int);
            }
        }
        if a > INFINITE || b > INFINITE {
            false
        } else if self.bits < SIGN {
            if other.bits < SIGN {
                a < b
            } else {
                false
            }
        } else if other.bits < SIGN {
            a > 0 || b > 0
        } else {
            b < a
        }
    }

    /// `self > other`; false wherever either is not a number.
    pub fn gt(self, other: Single) -> (r: bool)
        ensures
            r == (self.number() && other.number() && self.units() > other.units()),
    {
        other.lt(self)
    }

    /// `self >= other`; false wherever either is not a number.
    pub fn ge(self, other: Single) -> (r: bool)
        ensures
            r == (self.number() && other.number() && self.units() >= other.units()),
    {
        self.is_number() && other.is_number() && !self.lt(other)
    }

    /// `self <= other`; false wherever either is not a number.
    pub fn le(self, other: Single) -> (r: bool)
        ensures
            r == (self.number() && other.number() && self.units() <= other.units()),
    {
        other.ge(self)
    }
}

/// How far a number lies from `n / d`, scaled so that it is whole.
pub open spec fn distance(s: Single, n: int, d: int) -> int {
    let diff = s.units() * d - n * one();
    if diff < 0 {
        -diff
    } else {
        diff
    }
}

/// Whether `s` is the positive number nearest to `n / d`, the even pattern
/// where two are equally near.
pub open spec fn is_nearest(s: Single, n: int, d: int) -> bool {
    &&& s.finite()
    &&& !s.negative()
    &&& forall|o: Single| #[trigger]
        o.finite() && o.units() != s.units() ==> {
            ||| distance(s, n, d) < distance(o, n, d)
            ||| distance(s, n, d) == distance(o, n, d) && s.bits % 2 == 0
        }
}

impl Single {
    /// The number nearest to `n / d`.
    pub open spec fn nearest(n: int, d: int) -> Single {
        choose|s: Single| is_nearest(s, n, d)
    }
}

/// There is one nearest number at most.
pub proof fn lemma_nearest_unique(s: Single, t: Single, n: int, d: int)
    requires
        is_nearest(s, n, d),
        is_nearest(t, n, d),
        d > 0,
    ensures
        s == t,
{
    if s != t {
        let (a, b) = if s.bits < t.bits { (s, t) } else { (t, s) };
        lemma_steps_ordered(a.low(), b.low());
        assert(a.units() < b.units());
        // Each is at least as near as the other, so both patterns are even
        // and the one between them is nearer still.
        assert(a.finite() && b.finite());
        assert(a.bits % 2 == 0 && b.bits % 2 == 0);
        let mid = Single { bits: (a.bits + 1) as u32 };
        lemma_steps_ordered(a.low(), mid.low());
        lemma_steps_ordered(mid.low(), b.low());
        let x = n * one();
        let (ua, um, ub) = (a.units(), mid.units(), b.units());
        assert(ua * d < um * d && um * d < ub * d) by (nonlinear_arith)
            requires ua < um < ub, d > 0;
        assert(mid.finite());
        assert(distance(mid, n, d) < distance(a, n, d));
    }
}

/// A pattern whose neighbours lie half a step away on either side of
/// `n / d` is the nearest.
pub proof fn lemma_nearest_by_neighbours(s: Single, n: int, d: int)
    requires
        s.finite(),
        !s.negative(),
        0 < s.bits,
        d > 0,
        (steps(s.bits - 1) + steps(s.bits as int)) * d <= 2 * (n * one()),
        2 * (n * one()) <= (steps(s.bits as int) + steps(s.bits + 1)) * d,
        (steps(s.bits - 1) + steps(s.bits as int)) * d == 2 * (n * one()) ==> s.bits % 2 == 0,
        2 * (n * one()) == (steps(s.bits as int) + steps(s.bits + 1)) * d ==> s.bits % 2 == 0,
    ensures
        is_nearest(s, n, d),
        s == Single::nearest(n, d),
{
    let m = s.bits as int;
    let (lo, v, hi) = (steps(m - 1), steps(m), steps(m + 1));
    let x = n * one();
    lemma_steps_next(m - 1);
    lemma_steps_next(m);
    assert((lo + v) * d == lo * d + v * d) by (nonlinear_arith);
    assert((v + hi) * d == v * d + hi * d) by (nonlinear_arith);
    assert(lo * d < v * d && v * d < hi * d) by (nonlinear_arith)
        requires lo < v < hi, d > 0;
    assert forall|o: Single| #[trigger] o.finite() && o.units() != s.units() implies {
        ||| distance(s, n, d) < distance(o, n, d)
        ||| distance(s, n, d) == distance(o, n, d) && s.bits % 2 == 0
    } by {
        let u = o.units();
        lemma_steps_zero(o.low());
        if o.negative() || o.low() < m {
            if !o.negative() && o.low() < m - 1 {
                lemma_steps_ordered(o.low(), m - 1);
            }
            assert(u <= lo);
            assert(u * d <= lo * d) by (nonlinear_arith)
                requires u <= lo, d > 0;
            if u < lo {
                assert(u * d < lo * d) by (nonlinear_arith)
                    requires u < lo, d > 0;
            }
        } else {
            if o.low() > m + 1 {
                lemma_steps_ordered(m + 1, o.low());
            }
            assert(o.low() != m);
            assert(u >= hi);
            assert(u * d >= hi * d) by (nonlinear_arith)
                requires u >= hi, d > 0;
            if u > hi {
                assert(u * d > hi * d) by (nonlinear_arith)
                    requires u > hi, d > 0;
            }
        }
    }
    assert(is_nearest(s, n, d));
    lemma_nearest_unique(s, Single::nearest(n, d), n, d);
}

/// Nothing is nearest to nothing.
pub proof fn lemma_nearest_zero(d: int)
    requires
        d > 0,
    ensures
        Single::nearest(0, d) == (Single { bits: 0 }),
        is_nearest(Single { bits: 0 }, 0, d),
{
    let z = Single { bits: 0 };
    assert(z.units() == 0);
    assert(0 * one() == 0) by (nonlinear_arith);
    assert(0 * d == 0) by (nonlinear_arith);
    assert forall|o: Single| #[trigger] o.finite() && o.units() != z.units() implies distance(z, 0, d)
        < distance(o, 0, d) by {
        let u = o.units();
        assert(u * d != 0) by (nonlinear_arith)
            requires u != 0, d > 0;
    }
    assert(is_nearest(z, 0, d));
    lemma_nearest_unique(z, Single::nearest(0, d), 0, d);
}

impl Single {
    /// The number nearest to `n / d`, as a decimal literal reads.
    pub fn ratio(n: u32, d: u32) -> (r: Single)
        requires
            n < 0x100_0000,
            0 < d < 0x8000_0000,
        ensures
            r == Single::nearest(n as int, d as int),
            r.finite(),
            !r.negative(),
            d == 1 ==> r.units() == n * one(),
            d == 2 ==> 2 * r.units() == n * one(),
    {
        if n == 0 {
            proof {
                lemma_nearest_zero(d as int);
                assert(0 * one() == 0) by (nonlinear_arith);
            }
            return Single { bits: 0 };
        }
        let floor: u64 = d as u64 * 0x80_0000;
        let mut num: u64 = n as u64;
        let mut k: u32 = 0;
        proof {
            lemma2_to64();
            assert(n * pow2(0) == n) by (nonlinear_arith)
                requires pow2(0) == 1;
        }
        while num < floor
            invariant
                floor == d * 0x80_0000,
                0 < n < 0x100_0000,
                0 < d < 0x8000_0000,
                num == n * pow2(k as nat),
                k == 0 ==> num == n,
                num < 2 * floor,
                k <= 55,
                0 < num,
                pow2(k as nat) <= num,
            decreases 2 * floor - num,
        {
            proof {
                lemma_pow2_unfold((k + 1) as nat);
                assert(n * (2 * pow2(k as nat)) == 2 * (n * pow2(k as nat))) by (nonlinear_arith);
                if k >= 55 {
                    lemma2_to64_rest();
                    assert(floor <= 0x40_0000_0000_0000);
                }
            }
            num = num * 2;
            k = k + 1;
        }
        let q0: u64 = num / d as u64;
        let r0: u64 = num % d as u64;
        proof {
            assert(num == q0 * d + r0) by {
                lemma_fundamental_div_mod(num as int, d as int);
                assert(d * q0 == q0 * d) by (nonlinear_arith);
            }
            assert(q0 >= 0x80_0000) by (nonlinear_arith)
                requires num == q0 * d + r0, num >= d * 0x80_0000, 0 <= r0 < d;
            assert(q0 < 0x100_0000) by (nonlinear_arith)
                requires num == q0 * d + r0, num < 2 * (d * 0x80_0000), 0 <= r0 < d;
        }
        let up: bool = 2 * r0 > d as u64 || (2 * r0 == d as u64 && q0 % 2 == 1);
        let q: u64 = if up {
            q0 + 1
        } else {
            q0
        };
        let bits: u32 = (150 - k) * BINADE + (q - 0x80_0000) as u32;
        let r: Single = Single { bits };
        proof {
            lemma_ratio(n as int, d as int, k as int, num as int, q0 as int, r0 as int, q as int, bits as int);
            lemma_nearest_by_neighbours(r, n as int, d as int);
            if d == 2 {
                assert(k > 0) by {
                    if k == 0 {
                        assert(num == n);
                    }
                }
                lemma_pow2_unfold(k as nat);
                let half = pow2((k - 1) as nat) as int;
                assert(num == 2 * (n * half)) by (nonlinear_arith)
                    requires num == n * (2 * half);
                assert(q0 * d == 2 * q0) by (nonlinear_arith)
                    requires d == 2;
                assert(r0 == 0);
                assert(steps(bits as int) * d == 2 * steps(bits as int)) by (nonlinear_arith)
                    requires d == 2;
            }
        }
        r
    }
}

/// The neighbours of a quotient rounded to the nearest, ties to even, in
/// binade `e`.
#[verifier::spinoff_prover]
#[verifier::rlimit(40)]
proof fn lemma_rounded(e: int, d: int, num: int, q0: int, r0: int, q: int, m: int)
    requires
        0 < e,
        0 < d,
        num == q0 * d + r0,
        0 <= r0 < d,
        0x80_0000 <= q0 < 0x100_0000,
        q == (if 2 * r0 > d || (2 * r0 == d && q0 % 2 == 1) { q0 + 1 } else { q0 }),
        m == e * BINADE + (q - 0x80_0000),
    ensures
        ({
            let x = 2 * (num * pow2((e - 1) as nat));
            &&& (steps(m - 1) + steps(m)) * d <= x
            &&& x <= (steps(m) + steps(m + 1)) * d
            &&& (steps(m - 1) + steps(m)) * d == x ==> m % 2 == 0
            &&& x == (steps(m) + steps(m + 1)) * d ==> m % 2 == 0
        }),
        r0 == 0 ==> steps(m) * d == num * pow2((e - 1) as nat),
{
    let p = pow2((e - 1) as nat) as int;
    lemma_pow2_pos((e - 1) as nat);
    let v = steps(m);
    lemma_steps_next(m - 1);
    lemma_steps_next(m);
    if q < 0x100_0000 {
        assert(m / BINADE as int == e);
        assert(m % BINADE as int == q - 0x80_0000);
        assert(v == q * p);
        assert(steps(m + 1) == v + p);
        if q > 0x80_0000 {
            assert((m - 1) / BINADE as int == e);
            assert(steps(m - 1) == v - p);
            assert((steps(m - 1) + v) * d == ((2 * q - 1) * d) * p) by (nonlinear_arith)
                requires v == q * p, steps(m - 1) == v - p;
        } else {
            assert(steps(m - 1) < v);
            assert((steps(m - 1) + v) * d < (2 * q * d) * p) by (nonlinear_arith)
                requires v == q * p, steps(m - 1) < v, d > 0;
        }
        assert((v + steps(m + 1)) * d == ((2 * q + 1) * d) * p) by (nonlinear_arith)
            requires v == q * p, steps(m + 1) == v + p;
    } else {
        assert(m / BINADE as int == e + 1);
        assert(m % BINADE as int == 0);
        lemma_pow2_unfold(e as nat);
        assert(v == 0x80_0000 * (2 * p));
        assert(v == q * p) by (nonlinear_arith)
            requires v == 0x80_0000 * (2 * p), q == 0x100_0000;
        assert(steps(m + 1) > v);
        assert((m - 1) / BINADE as int == e);
        assert(steps(m - 1) == v - p);
        assert((steps(m - 1) + v) * d == ((2 * q - 1) * d) * p) by (nonlinear_arith)
            requires v == q * p, steps(m - 1) == v - p;
        assert((v + steps(m + 1)) * d > (2 * q * d) * p) by (nonlinear_arith)
            requires v == q * p, steps(m + 1) > v, d > 0;
    }
    // With the power of two cancelled, what is left is the rounding.
    assert((2 * q - 1) * d <= 2 * num) by (nonlinear_arith)
        requires num == q0 * d + r0, q == q0 || (q == q0 + 1 && 2 * r0 >= d), 0 <= r0, d > 0;
    assert(2 * num <= (2 * q + 1) * d) by (nonlinear_arith)
        requires num == q0 * d + r0, q == q0 + 1 || (q == q0 && 2 * r0 <= d), r0 < d, d > 0;
    let (a, b, c) = ((2 * q - 1) * d, 2 * num, (2 * q + 1) * d);
    assert(a * p <= b * p && b * p <= c * p) by (nonlinear_arith)
        requires a <= b <= c, p > 0;
    assert(2 * (num * p) == b * p) by (nonlinear_arith)
        requires b == 2 * num;
    if a != b {
        assert(a * p < b * p) by (nonlinear_arith)
            requires a < b, p > 0;
    } else {
        assert(q == q0 + 1 && 2 * r0 == d) by (nonlinear_arith)
            requires (2 * q - 1) * d == 2 * num, num == q0 * d + r0, q == q0 || q == q0 + 1, 0 <= r0 < d, d > 0;
    }
    if b != c {
        assert(b * p < c * p) by (nonlinear_arith)
            requires b < c, p > 0;
    } else {
        assert(q == q0 && 2 * r0 == d) by (nonlinear_arith)
            requires (2 * q + 1) * d == 2 * num, num == q0 * d + r0, q == q0 || q == q0 + 1, 0 <= r0 < d, d > 0;
    }
    if q0 * d == q * d && q == 0x80_0000 {
        assert((2 * q * d) * p <= b * p) by (nonlinear_arith)
            requires b == 2 * num, num >= q * d, p > 0;
    }
    if q == 0x100_0000 {
        assert(num < q * d) by (nonlinear_arith)
            requires num == q0 * d + r0, r0 < d, q == q0 + 1;
        assert(b * p < (2 * q * d) * p) by (nonlinear_arith)
            requires b == 2 * num, num < q * d, p > 0;
    }
    assert(m % 2 == q % 2);
    if r0 == 0 {
        assert(v * d == num * p) by (nonlinear_arith)
            requires v == q * p, num == q * d;
    }
}

/// The neighbours of a quotient rounded to the nearest, ties to even.
proof fn lemma_ratio(n: int, d: int, k: int, num: int, q0: int, r0: int, q: int, m: int)
    requires
        0 < n,
        0 < d,
        0 <= k <= 55,
        num == n * pow2(k as nat),
        num == q0 * d + r0,
        0 <= r0 < d,
        0x80_0000 <= q0 < 0x100_0000,
        q == (if 2 * r0 > d || (2 * r0 == d && q0 % 2 == 1) { q0 + 1 } else { q0 }),
        m == (150 - k) * BINADE + (q - 0x80_0000),
    ensures
        (steps(m - 1) + steps(m)) * d <= 2 * (n * one()),
        2 * (n * one()) <= (steps(m) + steps(m + 1)) * d,
        (steps(m - 1) + steps(m)) * d == 2 * (n * one()) ==> m % 2 == 0,
        2 * (n * one()) == (steps(m) + steps(m + 1)) * d ==> m % 2 == 0,
        r0 == 0 ==> steps(m) * d == n * one(),
{
    let p = pow2((149 - k) as nat) as int;
    lemma_pow2_adds(k as nat, (149 - k) as nat);
    let pk = pow2(k as nat) as int;
    assert(n * one() == num * p) by (nonlinear_arith)
        requires one() == pk * p, num == n * pk;
    lemma_rounded(150 - k, d, num, q0, r0, q, m);
}

/// A whole number too long for a pattern is rounded at its last `k` places.
proof fn lemma_long(n: int, k: int, q0: int, r0: int, q: int, m: int)
    requires
        0 < k,
        n == q0 * pow2(k as nat) + r0,
        0 <= r0 < pow2(k as nat),
        0x80_0000 <= q0 < 0x100_0000,
        q == (if 2 * r0 > pow2(k as nat) || (2 * r0 == pow2(k as nat) && q0 % 2 == 1) { q0 + 1 } else { q0 }),
        m == (150 + k) * BINADE + (q - 0x80_0000),
    ensures
        steps(m - 1) + steps(m) <= 2 * (n * one()),
        2 * (n * one()) <= steps(m) + steps(m + 1),
        steps(m - 1) + steps(m) == 2 * (n * one()) ==> m % 2 == 0,
        2 * (n * one()) == steps(m) + steps(m + 1) ==> m % 2 == 0,
{
    let d = pow2(k as nat) as int;
    lemma_pow2_pos(k as nat);
    lemma_pow2_adds(149, k as nat);
    lemma_rounded(150 + k, d, n, q0, r0, q, m);
    let (a, x, c) = (steps(m - 1) + steps(m), 2 * (n * one()), steps(m) + steps(m + 1));
    let y = 2 * (n * pow2((149 + k) as nat));
    assert(y == x * d) by (nonlinear_arith)
        requires y == 2 * (n * (one() * d)), x == 2 * (n * one());
    assert(a * d <= x * d ==> a <= x) by (nonlinear_arith)
        requires d > 0;
    assert(x * d <= c * d ==> x <= c) by (nonlinear_arith)
        requires d > 0;
}

/// One half.
pub const HALF: u32 = 0x3f00_0000;

/// One.
pub const ONE: u32 = 0x3f80_0000;

/// One and a half.
pub const ONE_AND_HALF: u32 = 0x3fc0_0000;

/// Two.
pub const TWO: u32 = 0x4000_0000;

/// One thousandth.
pub const THOUSANDTH: u32 = 0x3a83_126f;

/// One ten-thousandth.
pub const TEN_THOUSANDTH: u32 = 0x38d1_b717;

/// What the whole and half landmarks stand for.
pub proof fn lemma_landmarks()
    ensures
        one() > 0,
        (Single { bits: 0 }).units() == 0,
        2 * (Single { bits: HALF }).units() == one(),
        (Single { bits: ONE }).units() == one(),
        2 * (Single { bits: ONE_AND_HALF }).units() == 3 * one(),
        (Single { bits: TWO }).units() == 2 * one(),
{
    lemma_pow2_pos(149);
    lemma_pow2_adds(23, 126);
    lemma2_to64();
    lemma_pow2_unfold(126);
    lemma_pow2_unfold(127);
    let p = pow2(125) as int;
    assert(steps(HALF as int) == 0x80_0000 * p);
    assert(steps(ONE as int) == 0x80_0000 * (2 * p));
    assert(steps(ONE_AND_HALF as int) == 0xc0_0000 * (2 * p));
    assert(steps(TWO as int) == 0x80_0000 * (4 * p));
    assert(one() == 0x80_0000 * (2 * p));
}

/// What the two small landmarks stand for.
pub proof fn lemma_small_landmarks()
    ensures
        Single::nearest(1, 1_000) == (Single { bits: THOUSANDTH }),
        Single::nearest(1, 10_000) == (Single { bits: TEN_THOUSANDTH }),
        0 < (Single { bits: TEN_THOUSANDTH }).units() < (Single { bits: THOUSANDTH }).units() < one(),
{
    lemma2_to64();
    lemma2_to64_rest();
    lemma_ratio(1, 1_000, 33, 8_589_934_592, 8_589_934, 592, 8_589_935, THOUSANDTH as int);
    lemma_nearest_by_neighbours(Single { bits: THOUSANDTH }, 1, 1_000);
    lemma_ratio(1, 10_000, 37, 137_438_953_472, 13_743_895, 3_472, 13_743_895, TEN_THOUSANDTH as int);
    lemma_nearest_by_neighbours(Single { bits: TEN_THOUSANDTH }, 1, 10_000);
    lemma_landmarks();
    lemma_steps_zero(TEN_THOUSANDTH as int);
    lemma_steps_ordered(TEN_THOUSANDTH as int, THOUSANDTH as int);
    lemma_steps_ordered(THOUSANDTH as int, ONE as int);
}

impl Single {
    /// The largest whole number not past the value, kept within `0..=cap`; zero where
    /// the value is no number.
    pub open spec fn whole_part(self, cap: int) -> int {
        if !self.number() || self.units() < 0 {
            0
        } else if self.units() >= cap * one() {
            cap
        } else {
            self.units() / one()
        }
    }

    /// The whole number nearest to the value, halves going away from zero, kept within
    /// `0..=cap`; zero where the value is no number.
    pub open spec fn round_part(self, cap: int) -> int {
        if !self.number() || self.units() < 0 {
            0
        } else if self.units() >= cap * one() {
            cap
        } else {
            (2 * self.units() + one()) / (2 * one())
        }
    }
}

impl Single {
    /// The whole part of the value, as a count of `cap` at most.
    pub fn whole(self, cap: u32) -> (r: u32)
        requires
            cap < 0x80_0000,
        ensures
            r == self.whole_part(cap as int),
            r <= cap,
    {
        let mut k: u32 = 0;
        proof {
            lemma_landmarks();
            assert(0 * one() == 0) by (nonlinear_arith);
        }
        while k < cap && self.ge(Single::ratio(k + 1, 1))
            invariant
                k <= cap < 0x80_0000,
                one() > 0,
                0 < k ==> self.number() && self.units() >= k * one(),
            decreases cap - k,
        {
            k = k + 1;
        }
        proof {
            let u = self.units();
            if self.number() && u >= 0 {
                if k < cap {
                    assert(u < (k + 1) * one());
                    lemma_quotient(u, one(), k as int);
                    assert(u < cap * one()) by (nonlinear_arith)
                        requires u < (k + 1) * one(), k + 1 <= cap, one() > 0;
                } else {
                    assert(k == cap);
                }
            } else if k > 0 {
                assert(k * one() > 0) by (nonlinear_arith)
                    requires k > 0, one() > 0;
            } else if cap > 0 && self.number() {
                assert(u < cap * one()) by (nonlinear_arith)
                    requires u < 0, cap > 0, one() > 0;
            }
        }
        k
    }

    /// The value rounded to a whole count of `cap` at most.
    pub fn rounded(self, cap: u32) -> (r: u32)
        requires
            cap < 0x40_0000,
        ensures
            r == self.round_part(cap as int),
            r <= cap,
    {
        let mut k: u32 = 0;
        proof {
            lemma_landmarks();
        }
        while k < cap && self.ge(Single::ratio(2 * k + 1, 2))
            invariant
                k <= cap < 0x40_0000,
                one() > 0,
                0 < k ==> self.number() && 2 * self.units() >= (2 * k - 1) * one(),
            decreases cap - k,
        {
            k = k + 1;
        }
        proof {
            let u = self.units();
            let o = one();
            if self.number() && u >= 0 {
                assert((2 * k + 1) * o == k * (2 * o) + o) by (nonlinear_arith);
                assert((k + 1) * (2 * o) == k * (2 * o) + 2 * o) by (nonlinear_arith);
                assert(0 < k ==> (2 * k - 1) * o == k * (2 * o) - o) by (nonlinear_arith);
                assert(0 * (2 * o) == 0) by (nonlinear_arith);
                if k < cap {
                    assert(2 * u < (2 * k + 1) * o);
                    lemma_quotient(2 * u + o, 2 * o, k as int);
                    assert(u < cap * o) by (nonlinear_arith)
                        requires 2 * u < (2 * k + 1) * o, k + 1 <= cap, o > 0;
                } else if u < cap * o {
                    assert(cap * o * 2 == k * (2 * o)) by (nonlinear_arith)
                        requires k == cap;
                    lemma_quotient(2 * u + o, 2 * o, k as int);
                }
            } else if k > 0 {
                assert((2 * k - 1) * o > 0) by (nonlinear_arith)
                    requires k > 0, o > 0;
            } else if cap > 0 && self.number() {
                assert(u < cap * o) by (nonlinear_arith)
                    requires u < 0, cap > 0, o > 0;
            }
        }
        k
    }

    /// The value held within `lo..=hi`; what is no number stays as it is.
    pub fn clamp(self, lo: Single, hi: Single) -> (r: Single)
        requires
            lo.number(),
            hi.number(),
            lo.units() <= hi.units(),
        ensures
            r == self.clamped(lo, hi),
    {
        if self.lt(lo) {
            lo
        } else if self.gt(hi) {
            hi
        } else {
            self
        }
    }
}

impl Single {
    /// The value held within `lo..=hi`.
    pub open spec fn clamped(self, lo: Single, hi: Single) -> Single {
        if !self.number() {
            self
        } else if self.units() < lo.units() {
            lo
        } else if self.units() > hi.units() {
            hi
        } else {
            self
        }
    }
}

proof fn lemma_quotient(a: int, b: int, q: int)
    requires
        b > 0,
        q * b <= a < (q + 1) * b,
    ensures
        a / b == q,
{
    assert((q + 1) * b == q * b + b) by (nonlinear_arith);
    lemma_fundamental_div_mod_converse(a, b, q, a - q * b);
}

/// Every decimal has a nearest number.
pub proof fn lemma_nearest_exists(n: int, d: int)
    requires
        0 <= n < 0x100_0000,
        0 < d < 0x8000_0000,
    ensures
        is_nearest(Single::nearest(n, d), n, d),
{
    if n == 0 {
        lemma_nearest_zero(d);
    } else {
        lemma2_to64();
        assert(n * pow2(0) == n) by (nonlinear_arith)
            requires pow2(0) == 1;
        lemma_nearest_search(n, d, 0);
    }
}

proof fn lemma_nearest_search(n: int, d: int, k: int)
    requires
        0 < n < 0x100_0000,
        0 < d < 0x8000_0000,
        0 <= k <= 55,
        n * pow2(k as nat) < 2 * (d * 0x80_0000),
    ensures
        is_nearest(Single::nearest(n, d), n, d),
    decreases 55 - k,
{
    let pk = pow2(k as nat) as int;
    let num = n * pk;
    lemma_pow2_pos(k as nat);
    assert(num >= pk) by (nonlinear_arith)
        requires num == n * pk, n >= 1, pk > 0;
    if num < d * 0x80_0000 {
        lemma2_to64_rest();
        assert(k < 55);
        lemma_pow2_unfold((k + 1) as nat);
        assert(n * (2 * pk) == 2 * (n * pk)) by (nonlinear_arith);
        lemma_nearest_search(n, d, k + 1);
    } else {
        let (q0, r0) = (num / d, num % d);
        lemma_fundamental_div_mod(num, d);
        assert(d * q0 == q0 * d) by (nonlinear_arith);
        assert(q0 >= 0x80_0000) by (nonlinear_arith)
            requires num == q0 * d + r0, num >= d * 0x80_0000, 0 <= r0 < d;
        assert(q0 < 0x100_0000) by (nonlinear_arith)
            requires num == q0 * d + r0, num < 2 * (d * 0x80_0000), 0 <= r0 < d;
        let q = if 2 * r0 > d || (2 * r0 == d && q0 % 2 == 1) { q0 + 1 } else { q0 };
        let m = (150 - k) * BINADE + (q - 0x80_0000);
        lemma_ratio(n, d, k, num, q0, r0, q, m);
        lemma_nearest_by_neighbours(Single { bits: m as u32 }, n, d);
    }
}

/// Two different tenths under 4096 read as two different numbers: they lie
/// further apart than the numbers do there.
pub proof fn lemma_tenths_apart(a: int, b: int)
    requires
        0 < a < b <= 40_960,
    ensures
        Single::nearest(a, 10).units() < Single::nearest(b, 10).units(),
{
    law_nearest_is_monotone(a, 10, b, 10);
    lemma_nearest_exists(a, 10);
    lemma_nearest_exists(b, 10);
    let (s, t) = (Single::nearest(a, 10), Single::nearest(b, 10));
    if s.units() == t.units() {
        let m = s.bits as int;
        if s.bits < t.bits {
            lemma_steps_ordered(m, t.bits as int);
        } else if t.bits < s.bits {
            lemma_steps_ordered(t.bits as int, m);
        }
        // The pattern of 4096 lies above what is no further than 4096.
        let top = 139 * BINADE as int;
        lemma_pow2_adds(11, 138);
        lemma_pow2_adds(12, 138);
        lemma_pow2_adds(12, 149);
        lemma_pow2_adds(23, 138);
        lemma2_to64();
        let p = pow2(138) as int;
        lemma_pow2_pos(138);
        assert(one() == 2048 * p);
        assert(top / BINADE as int == 139 && top % BINADE as int == 0);
        assert(steps(top) == BINADE * p);
        assert(steps(top) == 4096 * one());
        let up = Single { bits: (m + 1) as u32 };
        lemma_steps_next(m);
        if m == 0 {
            assert(s.units() == 0);
            let next = Single { bits: 1 };
            assert(next.finite() && next.units() == 1);
            assert(distance(s, a, 10) <= distance(next, a, 10));
            assert(0 * 10 == 0);
            assert(a * one() >= one()) by (nonlinear_arith)
                requires a >= 1, one() > 0;
            assert(one() > 10);
        } else {
            let down = Single { bits: (m - 1) as u32 };
            lemma_steps_next(m - 1);
            let (lo, v) = (steps(m - 1), steps(m));
            assert(down.finite() && down.units() == lo);
            assert(distance(s, a, 10) <= distance(down, a, 10));
            let x = a * one();
            assert((lo + v) * 10 <= 2 * x);
            assert(x <= 40_960 * one()) by (nonlinear_arith)
                requires x == a * one(), a <= 40_960, one() > 0;
            assert(lo <= 4096 * one());
            if m - 1 > top {
                lemma_steps_ordered(top, m - 1);
            }
            assert(m - 1 <= top);
            assert(up.finite());
            let hi = steps(m + 1);
            assert(up.units() == hi);
            assert(distance(s, b, 10) <= distance(up, b, 10));
            let y = b * one();
            assert(2 * y <= (v + hi) * 10);
            assert(y - x >= one()) by (nonlinear_arith)
                requires x == a * one(), y == b * one(), b >= a + 1, one() > 0;
            lemma_step_bound(m - 1);
            lemma_step_bound(m);
            assert(hi - lo <= 4 * p);
        }
    }
}

/// Up to the pattern after that of 4096 a step is no longer than two of the
/// steps below 4096.
proof fn lemma_step_bound(m: int)
    requires
        0 <= m <= 139 * BINADE + 1,
    ensures
        steps(m + 1) - steps(m) <= 2 * pow2(138),
{
    lemma_steps_next(m);
    lemma_pow2_pos(138);
    lemma_pow2_unfold(139);
    if m >= BINADE {
        let e = m / BINADE as int - 1;
        assert(0 <= e <= 138);
        if e < 138 {
            lemma_pow2_strictly_increases(e as nat, 138);
        }
    }
}

/// Rounding keeps order: of two numbers, each the nearest to a quotient, that
/// of the larger quotient is no smaller.
pub proof fn lemma_nearest_ordered(s: Single, a: int, d: int, t: Single, b: int, e: int)
    requires
        is_nearest(s, a, d),
        is_nearest(t, b, e),
        0 < d,
        0 < e,
        a * e <= b * d,
    ensures
        s.units() <= t.units(),
{
    let (us, ut) = (s.units(), t.units());
    if us > ut {
        lemma_landmarks();
        let o = one();
        let (x, y) = (a * o, b * o);
        assert(us * d > ut * d && us * e > ut * e) by (nonlinear_arith)
            requires us > ut, d > 0, e > 0;
        assert(s.finite() && t.finite());
        assert(us * d + ut * d <= 2 * x);
        assert(us * e + ut * e >= 2 * y);
        // Both decimals lie on the midpoint, so both patterns are even and
        // the one between them is nearer still.
        assert(us * d + ut * d == 2 * x) by (nonlinear_arith)
            requires
                us * d + ut * d <= 2 * x,
                us * e + ut * e >= 2 * y,
                x == a * o,
                y == b * o,
                a * e <= b * d,
                o > 0,
                d > 0,
                e > 0;
        assert(us * e + ut * e == 2 * y) by (nonlinear_arith)
            requires
                us * d + ut * d == 2 * x,
                us * e + ut * e >= 2 * y,
                x == a * o,
                y == b * o,
                a * e <= b * d,
                o > 0,
                d > 0,
                e > 0;
        assert(s.bits % 2 == 0 && t.bits % 2 == 0);
        if s.bits < t.bits {
            lemma_steps_ordered(s.low(), t.low());
        }
        let mid = Single { bits: (t.bits + 1) as u32 };
        lemma_steps_ordered(t.low(), mid.low());
        lemma_steps_ordered(mid.low(), s.low());
        let um = mid.units();
        assert(ut * d < um * d && um * d < us * d) by (nonlinear_arith)
            requires ut < um < us, d > 0;
        assert(mid.finite());
        assert(distance(mid, a, d) < distance(s, a, d));
    }
}

/// A number is the nearest to itself.
pub proof fn lemma_nearest_itself(s: Single)
    requires
        s.finite(),
        !s.negative(),
    ensures
        is_nearest(s, s.units(), one()),
{
    lemma_landmarks();
    let u = s.units();
    assert forall|o: Single| #[trigger] o.finite() && o.units() != u implies distance(s, u, one()) < distance(
        o,
        u,
        one(),
    ) by {
        let v = o.units();
        assert(v * one() != u * one()) by (nonlinear_arith)
            requires v != u, one() > 0;
    }
}

/// Rounding at most doubles: nought is never nearer.
pub proof fn lemma_nearest_doubles(s: Single, n: int, d: int)
    requires
        is_nearest(s, n, d),
        0 <= n,
        0 < d,
    ensures
        0 <= s.units(),
        s.units() * d <= 2 * (n * one()),
{
    lemma_landmarks();
    lemma_steps_zero(s.low());
    let z = Single { bits: 0 };
    assert(n * one() >= 0) by (nonlinear_arith)
        requires n >= 0, one() > 0;
    assert(0 * d == 0) by (nonlinear_arith);
    if s.units() != 0 {
        assert(z.finite() && z.units() == 0);
        assert(distance(s, n, d) <= distance(z, n, d));
    }
}

/// A decimal reads the same however it is written out.
pub proof fn lemma_same_ratio(n: int, d: int, k: int)
    requires
        0 <= n,
        n * k < 0x100_0000,
        0 < d,
        0 < k,
        d * k < 0x8000_0000,
    ensures
        Single::nearest(n * k, d * k) == Single::nearest(n, d),
{
    assert(n <= n * k && d <= d * k && 0 <= n * k && 0 < d * k) by (nonlinear_arith)
        requires n >= 0, d > 0, k >= 1;
    assert(n * (d * k) == (n * k) * d) by (nonlinear_arith);
    law_nearest_is_monotone(n, d, n * k, d * k);
    law_nearest_is_monotone(n * k, d * k, n, d);
    lemma_nearest_exists(n, d);
    lemma_nearest_exists(n * k, d * k);
    let (s, t) = (Single::nearest(n, d), Single::nearest(n * k, d * k));
    if s.bits < t.bits {
        lemma_steps_ordered(s.low(), t.low());
    } else if t.bits < s.bits {
        lemma_steps_ordered(t.low(), s.low());
    }
}

/// Reading decimals keeps their order.
pub proof fn law_nearest_is_monotone(a: int, d: int, b: int, e: int)
    requires
        0 <= a < 0x100_0000,
        0 < d < 0x8000_0000,
        0 <= b < 0x100_0000,
        0 < e < 0x8000_0000,
        a * e <= b * d,
    ensures
        Single::nearest(a, d).finite(),
        Single::nearest(b, e).finite(),
        Single::nearest(a, d).units() <= Single::nearest(b, e).units(),
{
    lemma_nearest_exists(a, d);
    lemma_nearest_exists(b, e);
    lemma_nearest_ordered(Single::nearest(a, d), a, d, Single::nearest(b, e), b, e);
}

impl Single {
    /// The value without its sign.
    pub open spec fn magnitude(self) -> Single {
        Single { bits: self.low() as u32 }
    }

    /// The value with its sign turned.
    pub open spec fn negated(self) -> Single {
        if self.negative() {
            Single { bits: (self.bits - SIGN) as u32 }
        } else {
            Single { bits: (self.bits + SIGN) as u32 }
        }
    }

    /// The number nearest to a whole count, with its sign.
    pub open spec fn counted(n: int) -> Single {
        if n < 0 {
            Single::nearest(-n, 1).negated()
        } else {
            Single::nearest(n, 1)
        }
    }

    /// The larger of two values; what is no number gives way.
    pub open spec fn larger(self, other: Single) -> Single {
        if !self.number() {
            other
        } else if other.number() && other.units() > self.units() {
            other
        } else {
            self
        }
    }

    /// The value without its sign.
    pub fn abs(self) -> (r: Single)
        ensures
            r == self.magnitude(),
            r.number() == self.number(),
            r.units() == (if self.units() < 0 { -self.units() } else { self.units() }),
    {
        let r = Single { bits: self.low_bits() };
        proof {
            lemma_steps_zero(self.low());
        }
        r
    }

    /// The value with its sign turned.
    pub fn neg(self) -> (r: Single)
        ensures
            r == self.negated(),
            r.number() == self.number(),
            r.units() == -self.units(),
    {
        if self.bits >= SIGN {
            Single { bits: self.bits - SIGN }
        } else {
            Single { bits: self.bits + SIGN }
        }
    }

    /// The number nearest to a whole one, ties to even.
    pub fn of_size(n: u32) -> (r: Single)
        ensures
            r == Single::nearest(n as int, 1),
            is_nearest(r, n as int, 1),
            n < 0x100_0000 ==> r.units() == n * one(),
    {
        if n < 0x100_0000 {
            proof {
                lemma_nearest_exists(n as int, 1);
            }
            return Single::ratio(n, 1);
        }
        let mut d: u64 = 2;
        let mut k: u32 = 1;
        proof {
            lemma2_to64();
            assert(d as int / 2 == 1);
            assert(n as int / 1 == n);
        }
        while n as u64 / d >= 0x100_0000
            invariant
                0x100_0000 <= n,
                1 <= k <= 8,
                d == pow2(k as nat),
                2 <= d <= 256,
                n as int / (d as int / 2) >= 0x100_0000,
            decreases 256 - d,
        {
            proof {
                lemma_pow2_unfold((k + 1) as nat);
                lemma2_to64();
                assert(d < 256) by (nonlinear_arith)
                    requires n <= 0xffff_ffff, n as u64 / d >= 0x100_0000, d <= 256;
                assert(k < 8);
            }
            d = d * 2;
            k = k + 1;
        }
        let q0: u64 = n as u64 / d;
        let r0: u64 = n as u64 % d;
        proof {
            lemma_fundamental_div_mod(n as int, d as int);
            assert(d * q0 == q0 * d) by (nonlinear_arith);
            lemma_pow2_unfold(k as nat);
            let h = (d / 2) as int;
            lemma_fundamental_div_mod(n as int, h);
            assert(q0 >= 0x80_0000) by (nonlinear_arith)
                requires
                    n == q0 * d + r0,
                    r0 < d,
                    d == 2 * h,
                    n == h * (n as int / h) + n as int % h,
                    n as int / h >= 0x100_0000,
                    n as int % h >= 0,
                    h > 0;
        }
        let up: bool = 2 * r0 > d || (2 * r0 == d && q0 % 2 == 1);
        let q: u64 = if up {
            q0 + 1
        } else {
            q0
        };
        let bits: u32 = (150 + k) * BINADE + (q - 0x80_0000) as u32;
        let r: Single = Single { bits };
        proof {
            lemma_long(n as int, k as int, q0 as int, r0 as int, q as int, bits as int);
            let (a, c) = (steps(bits - 1) + steps(bits as int), steps(bits as int) + steps(bits + 1));
            assert(a * 1 == a && c * 1 == c) by (nonlinear_arith);
            lemma_nearest_by_neighbours(r, n as int, 1);
        }
        r
    }

    /// The number nearest to a whole count, ties to even.
    pub fn of_count(n: i32) -> (r: Single)
        ensures
            r == Single::counted(n as int),
            -0x100_0000 < n < 0x100_0000 ==> r.units() == n * one(),
    {
        if n < 0 {
            let up: Single = Single::of_size((-(n as i64)) as u32);
            assert(-((-n) * one()) == n * one()) by (nonlinear_arith);
            up.neg()
        } else {
            Single::of_size(n as u32)
        }
    }

    /// The larger of two values; what is no number gives way.
    pub fn max(self, other: Single) -> (r: Single)
        ensures
            r == self.larger(other),
    {
        if !self.is_number() {
            other
        } else if other.gt(self) {
            other
        } else {
            self
        }
    }

    /// Whether two values are equal as numbers; what is no number equals
    /// nothing.
    pub open spec fn equals(self, other: Single) -> bool {
        self.number() && other.number() && self.units() == other.units()
    }

    /// Whether two values are equal as numbers.
    pub fn same(self, other: Single) -> (r: bool)
        ensures
            r == self.equals(other),
    {
        self.le(other) && other.le(self)
    }

    /// Whether the value is below zero.
    pub fn is_below_zero(self) -> (r: bool)
        ensures
            r == (self.number() && self.units() < 0),
    {
        proof {
            lemma_landmarks();
        }
        self.lt(Single { bits: 0 })
    }
}

/// No decimal reads as less than nought.
pub proof fn lemma_nearest_floor(n: int, d: int)
    requires
        0 <= n < 0x100_0000,
        0 < d < 0x8000_0000,
    ensures
        Single::nearest(0, 1).number(),
        Single::nearest(n, d).number(),
        Single::nearest(0, 1).units() <= Single::nearest(n, d).units(),
{
    lemma_nearest_zero(1);
    lemma_nearest_exists(n, d);
    lemma_landmarks();
    lemma_steps_zero(Single::nearest(n, d).low());
}

/// A whole number reads as itself.
pub proof fn lemma_whole(n: int)
    requires
        0 <= n < 0x100_0000,
    ensures
        Single::nearest(n, 1).finite(),
        !Single::nearest(n, 1).negative(),
        Single::nearest(n, 1).units() == n * one(),
{
    lemma_nearest_exists(n, 1);
    if n == 0 {
        lemma_nearest_zero(1);
        lemma_landmarks();
        assert(0 * one() == 0) by (nonlinear_arith);
    } else {
        lemma2_to64();
        assert(n * pow2(0) == n) by (nonlinear_arith)
            requires pow2(0) == 1;
        lemma_whole_search(n, 0);
    }
}

/// A whole count, with its sign, is carried exactly.
pub proof fn lemma_counted(n: int)
    requires
        -0x100_0000 < n < 0x100_0000,
    ensures
        Single::counted(n).units() == n * one(),
        one() > 0,
{
    lemma_landmarks();
    if n < 0 {
        lemma_whole(-n);
        assert(-((-n) * one()) == n * one()) by (nonlinear_arith);
    } else {
        lemma_whole(n);
    }
}

proof fn lemma_whole_search(n: int, k: int)
    requires
        0 < n < 0x100_0000,
        0 <= k <= 55,
        n * pow2(k as nat) < 0x100_0000,
    ensures
        Single::nearest(n, 1).units() == n * one(),
    decreases 55 - k,
{
    let pk = pow2(k as nat) as int;
    let num = n * pk;
    lemma_pow2_pos(k as nat);
    assert(num >= pk) by (nonlinear_arith)
        requires num == n * pk, n >= 1, pk > 0;
    if num < 0x80_0000 {
        lemma2_to64_rest();
        assert(k < 55);
        lemma_pow2_unfold((k + 1) as nat);
        assert(n * (2 * pk) == 2 * (n * pk)) by (nonlinear_arith);
        lemma_whole_search(n, k + 1);
    } else {
        let m = (150 - k) * BINADE + (num - 0x80_0000);
        lemma_ratio(n, 1, k, num, num, 0, num, m);
        lemma_nearest_by_neighbours(Single { bits: m as u32 }, n, 1);
    }
}

} // verus!
