//! The engine's safety: a fader ride on the summed output.
//!
//! The gain is one until the sum passes full scale, then whatever brings the
//! peak back to it, reached over a short slope that a lookahead of the same
//! length hides. The peak is held for a while, so the gain never moves inside
//! a cycle, and then falls at a walking pace. What is decided here is when
//! the peak is raised, held or let fall, whether it is over full scale, and
//! which sample leaves the lookahead; the products are the caller's.

use vstd::prelude::*;
use crate::ring::Ring;
use crate::single::{Single, ONE};

verus! {

/// Samples the output runs behind the gain.
pub const LOOKAHEAD: usize = 32;

/// The fader's state.
#[derive(Clone, Debug)]
pub struct Fader {
    /// The gain applied now.
    pub gain: Single,
    /// The highest peak seen since the hold began.
    pub held: Single,
    /// Samples the held peak is kept before it starts to fall.
    pub hold_left: usize,
    /// How many samples a new peak is held.
    pub hold: usize,
    /// The stereo pairs in flight.
    pub line: Ring<(Single, Single)>,
}

/// What a fader holds, as its contracts speak of it.
#[verifier::ext_equal]
pub struct FaderView {
    pub gain: Single,
    pub held: Single,
    pub hold_left: int,
    pub hold: int,
    pub line: Seq<(Single, Single)>,
}

impl View for Fader {
    type V = FaderView;

    open spec fn view(&self) -> FaderView {
        FaderView {
            gain: self.gain,
            held: self.held,
            hold_left: self.hold_left as int,
            hold: self.hold as int,
            line: self.line@,
        }
    }
}

/// Whether `a` is at least `b`, both being numbers.
pub open spec fn reaches(a: Single, b: Single) -> bool {
    a.number() && b.number() && a.units() >= b.units()
}

impl FaderView {
    /// A new peak raises the held one and starts the hold again; a lower one
    /// runs the hold down, and then lets the held peak fall to `fallen`.
    pub open spec fn followed(self, peak: Single, fallen: Single) -> FaderView {
        if reaches(peak, self.held) {
            FaderView { held: peak, hold_left: self.hold, ..self }
        } else if self.hold_left > 0 {
            FaderView { hold_left: self.hold_left - 1, ..self }
        } else {
            FaderView { held: fallen, ..self }
        }
    }

    /// Whether the held peak is over full scale.
    pub open spec fn over(self) -> bool {
        self.held.number() && self.held.units() > crate::single::one()
    }

    /// The fader with a new peak held for so many samples.
    pub open spec fn holding(self, samples: int) -> FaderView {
        FaderView { hold: samples, ..self }
    }

    /// The fader with one more pair in flight.
    pub open spec fn ran(self, l: Single, r: Single) -> FaderView {
        FaderView { line: crate::ring::written(self.line, (l, r)), ..self }
    }

    /// The gain comes back to its target at once, and goes down to it by the
    /// slope.
    pub open spec fn moved(self, target: Single, sloped: Single) -> FaderView {
        FaderView {
            gain: if target.number() && self.gain.number() && target.units() < self.gain.units() {
                sloped
            } else {
                target
            },
            ..self
        }
    }
}

impl Fader {
    pub open spec fn wf(&self) -> bool {
        self.line.wf() && self.line@.len() == LOOKAHEAD
    }

    /// A fader at rest, its line silent.
    pub fn new() -> (r: Fader)
        ensures
            r.wf(),
            r@ == at_rest(),
    {
        Fader {
            gain: Single::ratio(1, 1),
            held: Single { bits: 0 },
            hold_left: 0,
            hold: 0,
            line: Ring::new(LOOKAHEAD, (Single { bits: 0 }, Single { bits: 0 })),
        }
    }

    /// Set how many samples a new peak is held.
    pub fn hold_for(&mut self, samples: usize)
        ensures
            final(self)@ == old(self)@.holding(samples as int),
            old(self).wf() ==> final(self).wf(),
    {
        self.hold = samples;
    }

    /// Follow a peak. `fallen` is the held peak one sample further down.
    pub fn follow(&mut self, peak: Single, fallen: Single)
        ensures
            final(self)@ == old(self)@.followed(peak, fallen),
            old(self).wf() ==> final(self).wf(),
    {
        if peak.ge(self.held) {
            self.held = peak;
            self.hold_left = self.hold;
        } else if self.hold_left > 0 {
            self.hold_left = self.hold_left - 1;
        } else {
            self.held = fallen;
        }
    }

    /// Whether the held peak is over full scale, so that the target is its
    /// inverse rather than one.
    pub fn is_over(&self) -> (r: bool)
        ensures
            r == self@.over(),
    {
        proof {
            crate::single::lemma_landmarks();
        }
        self.held.gt(Single { bits: ONE })
    }

    /// Move the gain towards a target. `sloped` is the gain one step of the
    /// slope nearer to it.
    pub fn move_to(&mut self, target: Single, sloped: Single)
        ensures
            final(self)@ == old(self)@.moved(target, sloped),
            old(self).wf() ==> final(self).wf(),
    {
        if target.lt(self.gain) {
            self.gain = sloped;
        } else {
            self.gain = target;
        }
    }

    /// A stereo pair in, the pair from `LOOKAHEAD` samples ago out.
    pub fn run(&mut self, l: Single, r: Single) -> (out: (Single, Single))
        requires
            old(self).wf(),
        ensures
            final(self).wf(),
            out == old(self)@.line.last(),
            final(self)@ == old(self)@.ran(l, r),
    {
        self.line.write((l, r))
    }
}

/// Under full scale the fader leaves the sound alone: while no peak passes
/// one, the held peak stays within one and the gain stays one.
pub proof fn law_under_full_scale_the_gain_is_one(f: FaderView, peak: Single, fallen: Single, sloped: Single)
    requires
        f.held.number(),
        f.held.units() <= crate::single::one(),
        f.gain == Single::nearest(1, 1),
        peak.number() ==> peak.units() <= crate::single::one(),
        fallen.number(),
        fallen.units() <= f.held.units(),
    ensures
        f.followed(peak, fallen).held.number(),
        f.followed(peak, fallen).held.units() <= crate::single::one(),
        !f.followed(peak, fallen).over(),
        f.followed(peak, fallen).moved(Single::nearest(1, 1), sloped).gain == Single::nearest(1, 1),
{
}

/// A fader at rest.
pub open spec fn at_rest() -> FaderView {
    FaderView {
        gain: Single::nearest(1, 1),
        held: Single { bits: 0 },
        hold_left: 0,
        hold: 0,
        line: Seq::new(LOOKAHEAD as nat, |k: int| (Single { bits: 0 }, Single { bits: 0 })),
    }
}

/// What the caller hands a fader for one sample: how long a peak is held, the
/// sample's peak, and the three products.
pub struct Sample {
    pub hold: int,
    pub peak: Single,
    pub fallen: Single,
    pub target: Single,
    pub sloped: Single,
}

impl FaderView {
    /// The peak of a sample followed.
    pub open spec fn heard(self, s: Sample) -> FaderView {
        FaderView { hold: s.hold, ..self }.followed(s.peak, s.fallen)
    }

    /// One sample: its peak followed, and the gain moved to its target, which
    /// is one unless the held peak is over full scale.
    pub open spec fn rode(self, s: Sample) -> FaderView {
        self.heard(s).moved(self.goal(s), s.sloped)
    }

    /// A run of samples.
    pub open spec fn ridden(self, run: Seq<Sample>) -> FaderView
        decreases run.len(),
    {
        if run.len() == 0 {
            self
        } else {
            self.ridden(run.drop_last()).rode(run.last())
        }
    }

    /// What the gain goes towards on a sample.
    pub open spec fn goal(self, s: Sample) -> Single {
        if self.heard(s).over() {
            s.target
        } else {
            Single::nearest(1, 1)
        }
    }

    /// Whether the products of a sample are what they stand for: a held peak
    /// does not rise by falling, the target over full scale is the number
    /// nearest to what brings the held peak back to it, and the slope ends
    /// between the target and the gain.
    pub open spec fn fair(self, s: Sample) -> bool {
        let goal = self.goal(s);
        &&& s.fallen.finite() && s.fallen.units() <= self.held.units()
        &&& self.heard(s).over() ==> crate::single::is_nearest(
            s.target,
            crate::single::one(),
            self.heard(s).held.units(),
        )
        &&& goal.units() < self.gain.units() ==> s.sloped.number() && goal.units() <= s.sloped.units()
            <= self.gain.units()
    }
}

/// Whether every sample of a run has fair products and no peak above `most`.
pub open spec fn fair_run(f: FaderView, run: Seq<Sample>, most: int) -> bool {
    forall|k: int|
        0 <= k < run.len() ==> {
            &&& (#[trigger] run[k]).peak.finite()
            &&& run[k].peak.units() <= most
            &&& f.ridden(run.take(k)).fair(run[k])
        }
}

/// The fader never boosts, and never cuts below what brings the highest peak
/// to full scale: on any run from rest the held peak is no higher than the
/// highest one, and the gain is one where that is within full scale, and
/// otherwise no higher than one and no lower than the number nearest to the
/// peak's inverse.
pub proof fn law_the_gain_never_boosts(run: Seq<Sample>, most: int, low: Single)
    requires
        0 <= most,
        most > crate::single::one() ==> crate::single::is_nearest(low, crate::single::one(), most),
        fair_run(at_rest(), run, most),
    ensures
        at_rest().ridden(run).held.finite(),
        at_rest().ridden(run).held.units() <= most,
        most <= crate::single::one() ==> at_rest().ridden(run).gain == Single::nearest(1, 1),
        most > crate::single::one() ==> at_rest().ridden(run).gain.number() && low.units() <= at_rest().ridden(
            run,
        ).gain.units() <= crate::single::one(),
    decreases run.len(),
{
    crate::single::lemma_landmarks();
    crate::single::lemma_whole(1);
    crate::single::lemma_nearest_exists(1, 1);
    let o = crate::single::one();
    if most > o {
        assert(o * 1 <= 1 * most);
        crate::single::lemma_nearest_ordered(low, o, most, Single::nearest(1, 1), 1, 1);
    }
    if run.len() > 0 {
        let d = run.drop_last();
        assert forall|k: int| 0 <= k < d.len() implies {
            &&& (#[trigger] d[k]).peak.finite()
            &&& d[k].peak.units() <= most
            &&& at_rest().ridden(d.take(k)).fair(d[k])
        } by {
            assert(d[k] == run[k]);
            assert(d.take(k) =~= run.take(k));
        }
        law_the_gain_never_boosts(d, most, low);
        let l = run.len() - 1;
        assert(run.take(l) =~= d);
        assert(run[l] == run.last());
        let (f, s) = (at_rest().ridden(d), run.last());
        assert(f.fair(s));
        let h = f.heard(s).held.units();
        assert(h <= most);
        if f.heard(s).over() {
            assert(o * h <= o * most) by (nonlinear_arith)
                requires h <= most, o > 0;
            crate::single::lemma_nearest_ordered(low, o, most, s.target, o, h);
            assert(o * 1 <= 1 * h);
            crate::single::lemma_nearest_ordered(s.target, o, h, Single::nearest(1, 1), 1, 1);
        }
    }
}

/// Products that are rounded to the nearest number are fair ones: the held
/// peak times no more than one, and the gain less a quarter or less of its
/// way to the target, the way and the part of it rounded first.
pub proof fn law_rounded_products_are_fair(
    f: FaderView,
    s: Sample,
    fall: Single,
    slope: Single,
    way: Single,
    part: Single,
)
    requires
        f.held.finite() && !f.held.negative(),
        f.gain.finite() && !f.gain.negative(),
        fall.finite() && 0 <= fall.units() <= crate::single::one(),
        slope.finite() && 0 <= 4 * slope.units() <= crate::single::one(),
        crate::single::is_nearest(
            s.fallen,
            f.held.units() * fall.units(),
            crate::single::one() * crate::single::one(),
        ),
        f.heard(s).over() ==> crate::single::is_nearest(
            s.target,
            crate::single::one(),
            f.heard(s).held.units(),
        ),
        f.goal(s).units() < f.gain.units() ==> {
            &&& crate::single::is_nearest(way, f.gain.units() - f.goal(s).units(), crate::single::one())
            &&& crate::single::is_nearest(
                part,
                way.units() * slope.units(),
                crate::single::one() * crate::single::one(),
            )
            &&& crate::single::is_nearest(s.sloped, f.gain.units() - part.units(), crate::single::one())
        },
    ensures
        f.fair(s),
{
    crate::single::lemma_landmarks();
    crate::single::lemma_whole(1);
    let o = crate::single::one();
    let (h, p) = (f.held.units(), fall.units());
    crate::single::lemma_steps_zero(f.held.low());
    crate::single::lemma_nearest_itself(f.held);
    assert(o * o > 0) by (nonlinear_arith)
        requires o > 0;
    assert((h * p) * o <= h * (o * o)) by (nonlinear_arith)
        requires h >= 0, 0 <= p <= o, o > 0;
    crate::single::lemma_nearest_ordered(s.fallen, h * p, o * o, f.held, h, o);
    let goal = f.goal(s);
    let (g, t) = (f.gain.units(), goal.units());
    if t < g {
        let (x, w, c, q) = (g - t, way.units(), slope.units(), part.units());
        crate::single::lemma_nearest_doubles(way, x, o);
        assert(w <= 2 * x) by (nonlinear_arith)
            requires w * o <= 2 * (x * o), o > 0;
        assert(w * c >= 0) by (nonlinear_arith)
            requires w >= 0, c >= 0;
        crate::single::lemma_nearest_doubles(part, w * c, o * o);
        assert(q <= x) by (nonlinear_arith)
            requires q * (o * o) <= 2 * ((w * c) * o), 0 <= w <= 2 * x, 0 <= 4 * c <= o, o > 0;
        crate::single::lemma_nearest_itself(goal);
        crate::single::lemma_nearest_itself(f.gain);
        assert(t * o <= (g - q) * o && (g - q) * o <= g * o) by (nonlinear_arith)
            requires t <= g - q, q >= 0, o > 0;
        crate::single::lemma_nearest_ordered(goal, t, o, s.sloped, g - q, o);
        crate::single::lemma_nearest_ordered(s.sloped, g - q, o, f.gain, g, o);
    }
}

/// A fader after `n` samples under its held peak.
pub open spec fn quiet_samples(f: FaderView, peaks: Seq<Single>, fallen: Seq<Single>, n: nat) -> FaderView
    decreases n,
{
    if n == 0 {
        f
    } else {
        quiet_samples(f, peaks, fallen, (n - 1) as nat).followed(peaks[n - 1], fallen[n - 1])
    }
}

/// A peak is held for exactly the hold: while lower peaks follow it nothing
/// moves, and on the sample after the hold it starts to fall.
pub proof fn law_a_peak_is_held(f: FaderView, peak: Single, peaks: Seq<Single>, fallen: Seq<Single>, n: nat)
    requires
        reaches(peak, f.held),
        0 <= f.hold,
        n <= f.hold + 1,
        peaks.len() >= n,
        fallen.len() >= n,
        forall|i: int| 0 <= i < n ==> !reaches(#[trigger] peaks[i], peak),
    ensures
        n <= f.hold ==> quiet_samples(f.followed(peak, peak), peaks, fallen, n) == (FaderView {
            held: peak,
            hold_left: f.hold - n,
            ..f
        }),
        n == f.hold + 1 ==> quiet_samples(f.followed(peak, peak), peaks, fallen, n) == (FaderView {
            held: fallen[n - 1],
            hold_left: 0,
            ..f
        }),
    decreases n,
{
    if n > 0 {
        law_a_peak_is_held(f, peak, peaks, fallen, (n - 1) as nat);
    }
}

/// A peak as high as the held one is held in its place for the whole hold; a
/// lower one lets the hold run down, and then the held peak fall. The gain
/// and the line are not touched.
pub proof fn law_a_higher_peak_is_held(f: FaderView, peak: Single, fallen: Single)
    requires
        peak.number(),
        f.held.number(),
        0 <= f.hold_left,
    ensures
        f.held.units() <= peak.units() ==> f.followed(peak, fallen).held == peak && f.followed(peak, fallen).hold_left
            == f.hold,
        peak.units() < f.held.units() && f.hold_left > 0 ==> f.followed(peak, fallen).held == f.held && f.followed(
            peak,
            fallen,
        ).hold_left == f.hold_left - 1,
        peak.units() < f.held.units() && f.hold_left == 0 ==> f.followed(peak, fallen).held == fallen && f.followed(
            peak,
            fallen,
        ).hold_left == 0,
        f.followed(peak, fallen).gain == f.gain,
        f.followed(peak, fallen).hold == f.hold,
        f.followed(peak, fallen).line == f.line,
{
}

/// The gain goes down by the slope and up at once, and the fader is over when
/// its held peak is above one.
pub proof fn law_the_gain_goes_down_by_the_slope(f: FaderView, target: Single, sloped: Single)
    requires
        target.number(),
        f.gain.number(),
        f.held.number(),
    ensures
        target.units() < f.gain.units() ==> f.moved(target, sloped).gain == sloped,
        f.gain.units() <= target.units() ==> f.moved(target, sloped).gain == target,
        f.moved(target, sloped).held == f.held,
        f.moved(target, sloped).hold_left == f.hold_left,
        f.moved(target, sloped).hold == f.hold,
        f.moved(target, sloped).line == f.line,
        f.over() <==> f.held.units() > crate::single::one(),
{
}

/// A fader at rest leaves the sound as it is: its gain is one, it holds no
/// peak, and thirty-two silent pairs are in flight.
pub proof fn law_a_fader_rests_at_one(i: int)
    requires
        0 <= i < 32,
    ensures
        at_rest().gain.units() == crate::single::one(),
        at_rest().held.units() == 0,
        at_rest().hold_left == 0,
        at_rest().hold == 0,
        at_rest().line.len() == 32,
        at_rest().line[i].0.units() == 0,
        at_rest().line[i].1.units() == 0,
        !at_rest().over(),
{
    crate::single::lemma_landmarks();
    crate::single::lemma_whole(1);
}

/// A pair that goes into the line comes out again on the thirty-third sample,
/// left as left and right as right.
pub proof fn law_a_pair_comes_out_after_the_lookahead(line: Seq<(Single, Single)>, pairs: Seq<(Single, Single)>)
    requires
        line.len() == 32,
        pairs.len() == 32,
    ensures
        crate::ring::after_writes(line, pairs).last() == pairs[0],
{
    crate::ring::law_a_value_comes_back(line, pairs, 31);
}

/// A fader is shown as it is.
pub proof fn law_a_fader_is_shown_as_it_is(f: Fader)
    ensures
        f@.gain == f.gain,
        f@.held == f.held,
        f@.hold_left == f.hold_left,
        f@.hold == f.hold,
        f@.line == f.line@,
{
}

/// A pair run through a fader is the newest in flight, left as left, and the
/// others are one sample older; a hold set is the hold of the next peak.
/// Neither moves the gain.
pub proof fn law_a_pair_is_taken_in_flight(f: FaderView, l: Single, r: Single, samples: int, i: int)
    requires
        f.line.len() == 32,
        0 <= i < 31,
    ensures
        f.ran(l, r).line.len() == 32,
        f.ran(l, r).line[0].0 == l,
        f.ran(l, r).line[0].1 == r,
        f.ran(l, r).line[i + 1] == f.line[i],
        f.ran(l, r).gain == f.gain && f.ran(l, r).held == f.held,
        f.ran(l, r).hold == f.hold && f.ran(l, r).hold_left == f.hold_left,
        f.holding(samples).hold == samples,
        f.holding(samples).hold_left == f.hold_left,
        f.holding(samples).held == f.held && f.holding(samples).gain == f.gain && f.holding(samples).line == f.line,
{
}

} // verus!
