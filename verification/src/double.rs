//! Double-precision numbers, carried by their bit patterns.
//!
//! The modal string sums some ninety modes in double precision, and what the
//! bow does turns on comparing those sums. A value is a whole number of units
//! of two to the minus 1074, as a single's is of its own unit.

use vstd::prelude::*;
use vstd::arithmetic::power2::*;

verus! {

/// The pattern of positive infinity; patterns past it are not numbers.
pub const INFINITE: u64 = 0x7ff0_0000_0000_0000;

/// The sign bit.
pub const SIGN: u64 = 0x8000_0000_0000_0000;

/// One step of the exponent field.
pub const BINADE: u64 = 0x0010_0000_0000_0000;

/// A double-precision number by its bit pattern.
#[derive(Clone, Copy, Debug, PartialEq, Eq, Structural)]
pub struct Double {
    pub bits: u64,
}

/// How many units a pattern without its sign stands for, infinity reading as
/// the number its pattern continues to.
pub open spec fn steps(m: int) -> int {
    let e = m / BINADE as int;
    let f = m % BINADE as int;
    if e <= 0 {
        f
    } else {
        (BINADE + f) * pow2((e - 1) as nat)
    }
}

impl Double {
    /// The pattern without its sign.
    pub open spec fn low(self) -> int {
        if self.bits < SIGN {
            self.bits as int
        } else {
            self.bits - SIGN
        }
    }

    pub open spec fn negative(self) -> bool {
        self.bits >= SIGN
    }

    /// Whether the pattern stands for a number, the infinities among them.
    pub open spec fn number(self) -> bool {
        self.low() <= INFINITE
    }

    /// The exact value, in units.
    pub open spec fn units(self) -> int {
        if self.negative() {
            -steps(self.low())
        } else {
            steps(self.low())
        }
    }
}

proof fn lemma_steps_next(m: int)
    requires
        0 <= m,
    ensures
        steps(m) >= 0,
        steps(m + 1) > steps(m),
{
    let e = m / BINADE as int;
    let f = m % BINADE as int;
    if e > 0 {
        lemma_pow2_pos((e - 1) as nat);
    }
    if f + 1 < BINADE {
        assert((m + 1) / BINADE as int == e);
        assert((m + 1) % BINADE as int == f + 1);
        if e > 0 {
            let p = pow2((e - 1) as nat) as int;
            assert((BINADE + (f + 1)) * p == (BINADE + f) * p + p) by (nonlinear_arith);
            assert((BINADE + f) * p >= 0) by (nonlinear_arith)
                requires f >= 0, p > 0;
        }
    } else {
        assert((m + 1) / BINADE as int == e + 1);
        assert((m + 1) % BINADE as int == 0);
        lemma_pow2_pos(e as nat);
        if e == 0 {
            lemma2_to64();
        } else {
            let p = pow2((e - 1) as nat) as int;
            lemma_pow2_unfold(e as nat);
            assert(BINADE * (2 * p) == (BINADE + f) * p + p) by (nonlinear_arith)
                requires f + 1 == BINADE;
            assert((BINADE + f) * p >= 0) by (nonlinear_arith)
                requires f >= 0, p > 0;
        }
    }
}

/// Patterns order as the numbers they stand for.
pub proof fn lemma_steps_ordered(a: int, b: int)
    requires
        0 <= a < b,
    ensures
        0 <= steps(a) < steps(b),
    decreases b - a,
{
    lemma_steps_next(a);
    if a + 1 < b {
        lemma_steps_ordered(a + 1, b);
    }
}

/// Only the zero pattern stands for nothing.
pub proof fn lemma_steps_zero(m: int)
    requires
        0 <= m,
    ensures
        steps(m) >= 0,
        steps(m) == 0 <==> m == 0,
{
    assert(steps(0) == 0);
    lemma_steps_next(m);
    if m > 0 {
        lemma_steps_ordered(0, m);
    }
}

impl Double {
    fn low_bits(self) -> (r: u64)
        ensures
            r == self.low(),
    {
        if self.bits < SIGN {
            self.bits
        } else {
            self.bits - SIGN
        }
    }

    /// `self < other`; false wherever either is not a number.
    pub fn lt(self, other: Double) -> (r: bool)
        ensures
            r == (self.number() && other.number() && self.units() < other.units()),
    {
        let a: u64 = self.low_bits();
        let b: u64 = other.low_bits();
        proof {
            lemma_steps_zero(a as int);
            lemma_steps_zero(b as int);
            if a < b {
                lemma_steps_ordered(a as int, b as int);
            } else if b < a {
                lemma_steps_ordered(b as int, a as int);
            }
        }
        if a > INFINITE || b > INFINITE {
            false
        } else if self.bits < SIGN {
            if other.bits < SIGN {
                a < b
            } else {
                false
            }
        } else if other.bits < SIGN {
            a > 0 || b > 0
        } else {
            b < a
        }
    }

    /// `self <= other`; false wherever either is not a number.
    pub fn le(self, other: Double) -> (r: bool)
        ensures
            r == (self.number() && other.number() && self.units() <= other.units()),
    {
        self.low_bits() <= INFINITE && other.low_bits() <= INFINITE && !other.lt(self)
    }
}

/// Patterns order as the numbers they stand for: a larger pattern without a
/// sign is a larger number, and the sign turns it over.
pub proof fn law_doubles_order_as_their_patterns(a: u64, b: u64)
    requires
        a < b <= INFINITE,
    ensures
        0 <= (Double { bits: a }).units() < (Double { bits: b }).units(),
        (Double { bits: (b + 0x8000_0000_0000_0000) as u64 }).units() == -(Double { bits: b }).units(),
        (Double { bits: 0 }).units() == 0,
        (Double { bits: a }).number(),
        !(Double { bits: 0x7ff0_0000_0000_0001 }).number(),
        (Double { bits: 0x7ff0_0000_0000_0000 }).number(),
{
    lemma_steps_ordered(a as int, b as int);
    lemma_steps_zero(a as int);
}

} // verus!
