//! The section diffuser's line and draws: a string-ensemble chorus whose extra
//! players are copies read from a delay line at slowly wandering ages.

use vstd::prelude::*;
use vstd::arithmetic::power2::*;
use crate::noise::Noise;
use crate::ring::Ring;
use crate::single::{Single, TEN_THOUSANDTH};

verus! {

/// Detuned copies, perceived as players.
pub const N_TAPS: usize = 8;

/// Draws each copy takes: a rate and a phase for each of three wanderings.
pub const TAP_DRAWS: usize = 6;

/// What the draws start from.
pub const TAP_SEED: u32 = 0x2545_F491;

/// The `n`th state of a generator.
pub open spec fn nth_state(seed: u32, n: nat) -> u32
    decreases n,
{
    if n == 0 {
        seed
    } else {
        crate::noise::turned(nth_state(seed, (n - 1) as nat))
    }
}

/// The draws of every copy, rate and phase in turn: deterministic, and no two
/// copies share one.
pub fn tap_draws() -> (r: Vec<u32>)
    ensures
        r.len() == N_TAPS * TAP_DRAWS,
        forall|i: int| 0 <= i < r.len() ==> #[trigger] r@[i] == nth_state(TAP_SEED, (i + 1) as nat),
{
    let mut rng = Noise { state: TAP_SEED };
    let mut r: Vec<u32> = Vec::new();
    let mut i: usize = 0;
    while i < N_TAPS * TAP_DRAWS
        invariant
            i <= N_TAPS * TAP_DRAWS,
            r.len() == i,
            rng.state == nth_state(TAP_SEED, i as nat),
            forall|j: int| 0 <= j < i ==> #[trigger] r@[j] == nth_state(TAP_SEED, (j + 1) as nat),
        decreases N_TAPS * TAP_DRAWS - i,
    {
        r.push(rng.next());
        i = i + 1;
    }
    r
}

/// The least power of two that is at least `n`.
pub open spec fn is_ceiling(r: int, n: int) -> bool {
    &&& exists|k: nat| r == #[trigger] pow2(k)
    &&& n <= r
    &&& r == 1 || r < 2 * n
}

/// The least power of two that holds `n` samples.
pub fn power_of_two_for(n: usize) -> (r: usize)
    requires
        1 <= n <= 0x4000_0000,
    ensures
        is_ceiling(r as int, n as int),
        r <= 0x4000_0000,
{
    let mut r: usize = 1;
    let ghost mut k: nat = 0;
    proof {
        lemma2_to64();
    }
    while r < n
        invariant
            1 <= n <= 0x4000_0000,
            r == pow2(k),
            1 <= r <= 0x4000_0000,
            k <= 30,
            r == 1 || r < 2 * n,
        decreases 2 * n - r,
    {
        proof {
            lemma2_to64();
            lemma_pow2_unfold(k + 1);
            if k == 30 {
                assert(pow2(30) == 0x4000_0000);
            } else if k < 29 {
                lemma_pow2_strictly_increases(k + 1, 30);
            }
        }
        r = r * 2;
        proof {
            k = k + 1;
        }
    }
    r
}

/// What a copy `age` samples behind the newest lies between.
pub open spec fn tapped(line: Seq<Single>, age: int) -> (Single, Single) {
    crate::ring::between(line, age + 1)
}

/// Whether a section of this fill is too thin to be heard.
pub open spec fn too_thin(fill: Single) -> bool {
    fill.number() && fill.units() < Single::nearest(1, 10_000).units()
}

/// The diffuser's history of the middle of the image.
pub struct SectionDiffuser {
    pub line: Ring<Single>,
}

impl SectionDiffuser {
    pub open spec fn wf(&self) -> bool {
        self.line.wf() && self.line@.len() >= 8
    }

    /// A silent line long enough for copies up to `longest` samples old.
    pub fn new(longest: usize) -> (r: SectionDiffuser)
        requires
            longest <= 0x3fff_fff8,
        ensures
            r.wf(),
            is_ceiling(r.line@.len() as int, longest + 8),
            r.line@ == Seq::new(r.line@.len(), |k: int| Single { bits: 0 }),
    {
        SectionDiffuser { line: Ring::new(power_of_two_for(longest + 8), Single { bits: 0 }) }
    }

    /// Silence the line.
    pub fn reset(&mut self)
        requires
            old(self).wf(),
        ensures
            final(self).wf(),
            final(self).line@ == Seq::new(old(self).line@.len(), |k: int| Single { bits: 0 }),
            final(self).line.spot() == 0,
    {
        self.line.prime(&Vec::new(), Single { bits: 0 });
        assert(self.line@ =~= Seq::new(old(self).line@.len(), |k: int| Single { bits: 0 }));
    }

    /// Whether a section of this fill leaves the input as it is.
    pub fn bypassed(fill: Single) -> (r: bool)
        ensures
            r == too_thin(fill),
    {
        proof {
            crate::single::lemma_small_landmarks();
        }
        fill.lt(Single { bits: TEN_THOUSANDTH })
    }

    /// Write the middle of the image.
    pub fn push(&mut self, mid: Single)
        requires
            old(self).wf(),
        ensures
            final(self).wf(),
            final(self).line@ == crate::ring::written(old(self).line@, mid),
    {
        let _ = self.line.write(mid);
    }

    /// The two samples a copy `age` samples behind the newest lies between.
    pub fn tap(&self, age: usize) -> (r: (Single, Single))
        requires
            self.wf(),
            1 <= age,
            age + 2 <= self.line@.len(),
        ensures
            r == tapped(self.line@, age as int),
    {
        proof {
            self.line.lemma_len();
        }
        self.line.pair(age + 1)
    }
}

/// A section is left as it is under a ten-thousandth.
pub proof fn law_a_thin_section_is_left(fill: Single)
    requires
        fill.number(),
    ensures
        9_999 * fill.units() >= crate::single::one() ==> !too_thin(fill),
        10_001 * fill.units() <= crate::single::one() ==> too_thin(fill),
        fill == Single::nearest(1, 10_000) ==> !too_thin(fill),
{
    crate::single::lemma_landmarks();
    crate::reading::lemma_nearest_is_close(1, 10_000);
}

/// A line is as long as it has to be, and no shorter power of two would do.
pub proof fn law_a_line_is_no_longer_than_it_has_to_be(r: int, n: int, k: nat)
    requires
        is_ceiling(r, n),
        1 <= n,
        n <= pow2(k),
    ensures
        n <= r <= pow2(k),
{
    let j = choose|j: nat| r == #[trigger] pow2(j);
    lemma_pow2_pos(k);
    if k < j {
        lemma_pow2_unfold(j);
        lemma2_to64();
        if k < j - 1 {
            lemma_pow2_strictly_increases(k, (j - 1) as nat);
        }
    } else if j < k {
        lemma_pow2_strictly_increases(j, k);
    }
}

/// A copy is read as many samples behind the newest as it is old: what is
/// tapped at an age is tapped at the next age a sample later.
pub proof fn law_a_copy_keeps_its_age(line: Seq<Single>, mid: Single, age: int)
    requires
        1 <= age,
        age + 3 <= line.len(),
    ensures
        tapped(line, age).0 == line[age],
        tapped(line, age).1 == line[age + 1],
        tapped(crate::ring::written(line, mid), age + 1) == tapped(line, age),
        crate::ring::written(line, mid)[0] == mid,
{
    crate::ring::law_a_value_ages_by_a_write(line, mid, age + 1);
}

/// Eight copies draw six numbers each, every number the one before it turned
/// once, from the same start.
pub proof fn law_copies_draw_in_turn(n: nat)
    ensures
        N_TAPS == 8,
        TAP_DRAWS == 6,
        TAP_SEED == 625341585,
        nth_state(TAP_SEED, 0) == 625341585,
        crate::noise::unturned(nth_state(TAP_SEED, n + 1)) == nth_state(TAP_SEED, n),
{
    crate::noise::law_a_turn_can_be_taken_back(nth_state(TAP_SEED, n));
}

} // verus!
