//! How closely decimals are read.

use vstd::prelude::*;
use vstd::arithmetic::power2::*;
use crate::single::{
    distance, lemma_landmarks, lemma_nearest_exists, lemma_nearest_zero, lemma_steps_next, lemma_steps_ordered, one,
    steps, Single, BINADE, INFINITE,
};

verus! {

/// A decimal is read to within one part in sixteen million.
pub proof fn lemma_nearest_is_close(n: int, d: int)
    requires
        0 < n < 0x100_0000,
        0 < d < 0x8000_0000,
    ensures
        Single::nearest(n, d).finite(),
        !Single::nearest(n, d).negative(),
        0 < Single::nearest(n, d).units(),
        -(Single::nearest(n, d).units() * d) <= 0x100_0000 * (Single::nearest(n, d).units() * d - n * one())
            <= Single::nearest(n, d).units() * d,
{
    lemma_nearest_exists(n, d);
    lemma_landmarks();
    let s = Single::nearest(n, d);
    let m = s.bits as int;
    let x = n * one();
    lemma_pow2_adds(75, 74);
    lemma_pow2_adds(60, 14);
    lemma_pow2_adds(60, 15);
    lemma2_to64();
    lemma2_to64_rest();
    assert(one() >= 0x1000_0000_0000_0000) by (nonlinear_arith)
        requires one() == pow2(75) * pow2(74), pow2(75) == pow2(60) * pow2(15), pow2(74) == pow2(60) * pow2(14),
            pow2(60) == 0x1000_0000_0000_0000, pow2(14) == 16384, pow2(15) == 32768;
    assert(x >= one()) by (nonlinear_arith)
        requires x == n * one(), n >= 1, one() > 0;
    let up = Single { bits: (m + 1) as u32 };
    lemma_steps_next(m);
    let (v, hi) = (steps(m), steps(m + 1));
    if m < BINADE {
        assert(up.finite() && up.units() == hi);
        assert(v == m && hi == m + 1);
        assert(distance(s, n, d) <= distance(up, n, d));
        assert(v * d <= 0x80_0000 * 0x8000_0000) by (nonlinear_arith)
            requires 0 <= v <= 0x80_0000, 0 < d < 0x8000_0000;
        assert(hi * d <= 0x80_0001 * 0x8000_0000) by (nonlinear_arith)
            requires 0 <= hi <= 0x80_0001, 0 < d < 0x8000_0000;
        assert(v * d < hi * d) by (nonlinear_arith)
            requires v < hi, d > 0;
        assert(false);
    }
    let e = m / BINADE as int;
    let p = pow2((e - 1) as nat) as int;
    lemma_pow2_pos((e - 1) as nat);
    assert(v >= 0x80_0000 * p) by (nonlinear_arith)
        requires v == (BINADE + m % BINADE as int) * p, p > 0, BINADE == 0x80_0000, m % BINADE as int >= 0;
    assert(hi - v == p);
    let down = Single { bits: (m - 1) as u32 };
    lemma_steps_next(m - 1);
    let lo = steps(m - 1);
    assert(v - lo <= p) by {
        let e1 = (m - 1) / BINADE as int;
        if m - 1 >= BINADE && e1 < e {
            lemma_pow2_strictly_increases((e1 - 1) as nat, (e - 1) as nat);
        }
    }
    assert(down.finite() && down.units() == lo);
    assert(distance(s, n, d) <= distance(down, n, d));
    let (vd, lod, hid, pd) = (v * d, lo * d, hi * d, p * d);
    assert(lod < vd && vd - lod <= pd && vd >= 0x80_0000 * pd && hid == vd + pd && pd > 0) by (nonlinear_arith)
        requires vd == v * d, lod == lo * d, hid == hi * d, pd == p * d, d > 0, p > 0, lo < v, v - lo <= p,
            v >= 0x80_0000 * p, hi - v == p;
    assert(lod + vd <= 2 * x);
    if up.finite() {
        assert(distance(s, n, d) <= distance(up, n, d));
        assert(2 * x <= vd + hid);
    } else {
        // The last pattern stands for far more than any decimal does.
        assert(m + 1 == INFINITE);
        let top = 151 * BINADE as int;
        let w = Single { bits: top as u32 };
        lemma_pow2_adds(23, 150);
        lemma_pow2_adds(24, 149);
        assert(top / BINADE as int == 151 && top % BINADE as int == 0);
        lemma_steps_ordered(top, m);
        let wd = w.units() * d;
        assert(w.units() == 0x100_0000 * one());
        assert(x <= wd && wd < vd) by (nonlinear_arith)
            requires x == n * one(), wd == w.units() * d, vd == v * d, w.units() == 0x100_0000 * one(),
                w.units() < v, n < 0x100_0000, d >= 1, one() > 0;
        assert(w.finite());
        assert(distance(s, n, d) <= distance(w, n, d));
    }
}

/// Two decimals of one scale that are not too fine are read apart.
pub proof fn lemma_apart(a: int, b: int, d: int)
    requires
        0 <= a < b < 0x10_0000,
        0 < d < 0x8000_0000,
    ensures
        Single::nearest(a, d).units() < Single::nearest(b, d).units(),
        0 <= Single::nearest(a, d).units(),
{
    lemma_landmarks();
    lemma_nearest_is_close(b, d);
    let (t, o) = (Single::nearest(b, d).units() * d, one());
    if a == 0 {
        lemma_nearest_zero(d);
    } else {
        lemma_nearest_is_close(a, d);
        let s = Single::nearest(a, d).units() * d;
        let (x, y) = (a * o, b * o);
        assert(y - x >= o) by (nonlinear_arith)
            requires x == a * o, y == b * o, b >= a + 1, o > 0;
        assert(y < 0x10_0000 * o && x < 0x10_0000 * o) by (nonlinear_arith)
            requires x == a * o, y == b * o, a < b, b < 0x10_0000, o > 0;
        assert(s < t);
        assert(Single::nearest(a, d).units() < Single::nearest(b, d).units()) by (nonlinear_arith)
            requires s == Single::nearest(a, d).units() * d, t == Single::nearest(b, d).units() * d, s < t, d > 0;
    }
}

/// The whole part of a number is the largest whole number not past it, within
/// its cap.
pub proof fn law_a_whole_part_is_just_below(x: Single, cap: int)
    requires
        x.number(),
        0 <= cap,
    ensures
        x.units() < 0 ==> x.whole_part(cap) == 0,
        x.units() >= cap * one() ==> x.whole_part(cap) == cap || x.units() < 0,
        0 <= x.units() < cap * one() ==> x.whole_part(cap) * one() <= x.units() < (x.whole_part(cap) + 1) * one(),
        0 <= x.whole_part(cap) <= cap,
{
    lemma_landmarks();
    let (u, o) = (x.units(), one());
    if 0 <= u < cap * o {
        let q = u / o;
        assert(q * o <= u < (q + 1) * o && 0 <= q <= cap) by (nonlinear_arith)
            requires q == u / o, o > 0, 0 <= u, u < cap * o;
    }
}

/// The rounded part of a number is the whole number nearest to it, within its
/// cap; half-way it is the larger.
pub proof fn law_a_rounded_part_is_nearest(x: Single, cap: int)
    requires
        x.number(),
        0 <= cap,
    ensures
        x.units() < 0 ==> x.round_part(cap) == 0,
        x.units() >= cap * one() ==> x.round_part(cap) == cap || x.units() < 0,
        0 <= x.units() < cap * one() ==> (2 * x.round_part(cap) - 1) * one() <= 2 * x.units() < (2 * x.round_part(cap)
            + 1) * one(),
{
    lemma_landmarks();
    let (u, o) = (x.units(), one());
    if 0 <= u < cap * o {
        let q = (2 * u + o) / (2 * o);
        assert(q * (2 * o) <= 2 * u + o < (q + 1) * (2 * o)) by (nonlinear_arith)
            requires q == (2 * u + o) / (2 * o), o > 0, u >= 0;
        assert((2 * q - 1) * o <= 2 * u < (2 * q + 1) * o) by (nonlinear_arith)
            requires q * (2 * o) <= 2 * u + o, 2 * u + o < (q + 1) * (2 * o);
    }
}

/// A number kept between two others is itself where it lies there, and the
/// nearer of the two where it does not.
pub proof fn law_a_clamped_number_lies_between(x: Single, lo: Single, hi: Single)
    requires
        x.number(),
        lo.number(),
        hi.number(),
        lo.units() <= hi.units(),
    ensures
        lo.units() <= x.clamped(lo, hi).units() <= hi.units(),
        lo.units() <= x.units() <= hi.units() ==> x.clamped(lo, hi) == x,
        x.units() < lo.units() ==> x.clamped(lo, hi) == lo,
        x.units() > hi.units() ==> x.clamped(lo, hi) == hi,
{
}

/// Of two numbers the larger is the one above; a magnitude is a number
/// without its sign, and a number negated is as far on the other side.
pub proof fn law_signs_and_sizes(x: Single, y: Single)
    requires
        x.number(),
        y.number(),
    ensures
        x.larger(y).units() >= x.units() && x.larger(y).units() >= y.units(),
        x.larger(y) == x || x.larger(y) == y,
        x.magnitude().units() == (if x.units() < 0 { -x.units() } else { x.units() }),
        x.magnitude().number(),
        x.negated().units() == -x.units(),
        x.negated().number(),
        x.negated().negated() == x,
{
    crate::single::lemma_steps_zero(x.low());
    crate::single::lemma_steps_zero(y.low());
}

/// A whole count is read as itself, on either side of nought.
pub proof fn law_a_count_is_read_as_itself(n: int)
    requires
        -0x100_0000 < n < 0x100_0000,
    ensures
        Single::counted(n).number(),
        Single::counted(n).units() == n * one(),
{
    crate::single::lemma_counted(n);
    lemma_nearest_exists(if n < 0 { -n } else { n }, 1);
}

/// The next step of the exponent doubles a number, the next pattern is a
/// larger one, and the sign turns it over; the pattern of one is one.
pub proof fn law_patterns_read_as_binary(m: u32)
    requires
        BINADE <= m < INFINITE - BINADE,
    ensures
        (Single { bits: (m + BINADE) as u32 }).units() == 2 * (Single { bits: m }).units(),
        (Single { bits: m }).units() < (Single { bits: (m + 1) as u32 }).units(),
        (Single { bits: (m + 0x8000_0000) as u32 }).units() == -(Single { bits: m }).units(),
        (Single { bits: 0x3f80_0000 }).units() == one(),
        (Single { bits: 0 }).units() == 0,
        (Single { bits: 1 }).units() == 1,
        (Single { bits: m }).finite(),
        !(Single { bits: INFINITE }).finite() && (Single { bits: INFINITE }).number(),
        !(Single { bits: (INFINITE + 1) as u32 }).number(),
{
    lemma_landmarks();
    let e = m as int / BINADE as int;
    let f = m as int % BINADE as int;
    assert((m + BINADE) / BINADE as int == e + 1);
    assert((m + BINADE) % BINADE as int == f);
    lemma_pow2_unfold(e as nat);
    let p = pow2((e - 1) as nat) as int;
    assert((BINADE + f) * (2 * p) == 2 * ((BINADE + f) * p)) by (nonlinear_arith);
    lemma_steps_next(m as int);
}

/// What is no number counts as nought, stays as it is between two others, and
/// gives way to any number.
pub proof fn law_what_is_no_number_counts_as_nought(x: Single, lo: Single, hi: Single, cap: int)
    requires
        !x.number(),
    ensures
        x.whole_part(cap) == 0,
        x.round_part(cap) == 0,
        x.clamped(lo, hi) == x,
        x.larger(lo) == lo,
        lo.number() ==> lo.larger(x) == lo,
        !x.equals(x),
{
}

} // verus!
