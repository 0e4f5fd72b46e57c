//! What a bowed voice decides at a control tick, and what a fresh note decides
//! about its body and its pluck.
//!
//! The levels, times and phases are measured by the player; which way each
//! goes is decided here.

use vstd::prelude::*;
use crate::single::{Single, HALF, ONE};
use crate::voice::ArchetVoice;

verus! {

/// The part of a bow stroke a note is in.
#[derive(Clone, Copy, Debug, PartialEq, Eq, Structural)]
pub enum Stroke {
    /// The bow accelerates from rest.
    Rise,
    /// A held note is held: the bow keeps its speed and force for as long as
    /// the key is down.
    Hold,
    /// The bow decelerates off the string.
    Fall,
}

/// Whether `a` is less than `b`, both being numbers.
pub open spec fn less(a: Single, b: Single) -> bool {
    a.number() && b.number() && a.units() < b.units()
}

/// Whether `a` is more than `n / d`.
pub open spec fn more_than(a: Single, n: int, d: int) -> bool {
    less(Single::nearest(n, d), a)
}

/// The part of a stroke, given how long the note has sounded and how long it
/// rises.
pub open spec fn stroke_of(releasing: bool, time: Single, rise: Single) -> Stroke {
    if releasing {
        Stroke::Fall
    } else if less(time, rise) {
        Stroke::Rise
    } else {
        Stroke::Hold
    }
}

/// Whether the string of a voice is damped further than its own losses.
pub open spec fn off_string(releasing: bool, stroke: Single) -> bool {
    releasing && less(stroke, Single::nearest(12, 100))
}

/// Whether a body is laid out again.
pub open spec fn laid_again(body: int, laid: int, detune_by: Single, bridge_by: Single) -> bool {
    body != laid || more_than(detune_by, 1, 1_000_000_000) || more_than(bridge_by, 1, 1_000_000_000)
}

/// Whether a body is the cello's or the bass's.
pub open spec fn low_body(body: int) -> bool {
    body >= 2
}

/// Whether a phase has come round.
pub open spec fn cycle_over(phase: Single) -> bool {
    phase.number() && phase.units() >= crate::single::one()
}

/// Whether a value lies under nought.
pub open spec fn under_zero(x: Single) -> bool {
    x.number() && x.units() < 0
}

/// Whether a pitch this far off still glides.
pub open spec fn glides(distance: Single) -> bool {
    more_than(distance, 5, 100)
}

/// Whether a spot lies past the middle of the string.
pub open spec fn past_the_middle(spot: Single) -> bool {
    spot.number() && 2 * spot.units() > crate::single::one()
}

/// Whether a player this far from the middle is seated to one side.
pub open spec fn aside(pan_by: Single) -> bool {
    !less(pan_by, Single::nearest(1, 10_000))
}

impl ArchetVoice {
    /// The part of the stroke this note is in. A short note whose key comes
    /// up during the rise goes straight to the fall.
    pub fn stroke(&self, time: Single, rise: Single) -> (r: Stroke)
        ensures
            r == stroke_of(self.releasing, time, rise),
    {
        if self.releasing {
            Stroke::Fall
        } else if time.lt(rise) {
            Stroke::Rise
        } else {
            Stroke::Hold
        }
    }

    /// Whether the string is damped further than its own losses: only once
    /// the shaped fall has played out, with the stroke under twelve
    /// hundredths.
    pub fn bow_is_off(&self, stroke: Single) -> (r: bool)
        ensures
            r == off_string(self.releasing, stroke),
    {
        self.releasing && stroke.lt(Single::ratio(12, 100))
    }

    /// Whether the body is laid out again for a note: on another instrument,
    /// or where its detune or its bridge hill moved by more than a billionth.
    /// `laid` is the body it was last laid out for.
    pub fn lays_out(&self, laid: usize, detune_by: Single, bridge_by: Single) -> (r: bool)
        ensures
            r == laid_again(self.inst_idx as int, laid as int, detune_by, bridge_by),
    {
        let least: Single = Single::ratio(1, 1_000_000_000);
        self.inst_idx != laid || detune_by.gt(least) || bridge_by.gt(least)
    }

    /// Whether the instrument is a low one, whose strings take longer to let
    /// go and breathe more.
    pub fn is_low(&self) -> (r: bool)
        ensures
            r == low_body(self.inst_idx as int),
    {
        self.inst_idx >= 2
    }
}

/// Whether a vibrato cycle is over, and the next one is drawn.
pub fn cycle_is_over(phase: Single) -> (r: bool)
    ensures
        r == cycle_over(phase),
{
    proof {
        crate::single::lemma_landmarks();
    }
    phase.ge(Single { bits: ONE })
}

/// Whether the vibrato has not set in yet.
pub fn is_before(since: Single) -> (r: bool)
    ensures
        r == under_zero(since),
{
    since.is_below_zero()
}

/// Whether the bow is turning: its speed is against where it is going.
pub fn is_turning(product: Single) -> (r: bool)
    ensures
        r == under_zero(product),
{
    product.is_below_zero()
}

/// Whether the pitch still glides: it is more than five hundredths of a hertz
/// from where it is going.
pub fn is_gliding(distance: Single) -> (r: bool)
    ensures
        r == glides(distance),
{
    distance.gt(Single::ratio(5, 100))
}

/// Whether a plucking point past the middle of the string folds about it,
/// where the comb is symmetric.
pub fn folds(spot: Single) -> (r: bool)
    ensures
        r == past_the_middle(spot),
{
    proof {
        crate::single::lemma_landmarks();
    }
    spot.gt(Single { bits: HALF })
}

/// Whether a player is seated to one side: a ten-thousandth of the way or
/// more.
pub fn is_seated_aside(pan_by: Single) -> (r: bool)
    ensures
        r == aside(pan_by),
{
    !pan_by.lt(Single::ratio(1, 10_000))
}

/// A stroke only goes on: a note that is held never falls back from the hold
/// to the rise, and one that is let go only falls.
pub proof fn law_a_stroke_goes_on(time: Single, later: Single, rise: Single)
    requires
        time.number(),
        later.number(),
        time.units() <= later.units(),
    ensures
        stroke_of(false, time, rise) == Stroke::Hold ==> stroke_of(false, later, rise) == Stroke::Hold,
        stroke_of(true, time, rise) == Stroke::Fall,
{
}

/// A note rises until it has sounded as long as it rises, holds from then on
/// for as long as its key is down, and falls from the moment it comes up.
pub proof fn law_a_stroke_rises_holds_and_falls(releasing: bool, time: Single, rise: Single)
    requires
        time.number(),
        rise.number(),
    ensures
        stroke_of(releasing, time, rise) is Fall <==> releasing,
        stroke_of(releasing, time, rise) is Rise <==> !releasing && time.units() < rise.units(),
        stroke_of(releasing, time, rise) is Hold <==> !releasing && time.units() >= rise.units(),
{
}

/// The string is damped further once the key is up and the fall is under
/// twelve hundredths, and not before.
pub proof fn law_a_string_is_left_after_the_fall(releasing: bool, stroke: Single)
    requires
        stroke.number(),
    ensures
        !releasing ==> !off_string(releasing, stroke),
        releasing && 1_000 * stroke.units() <= 119 * crate::single::one() ==> off_string(releasing, stroke),
        1_000 * stroke.units() >= 121 * crate::single::one() ==> !off_string(releasing, stroke),
        stroke == Single::nearest(12, 100) ==> !off_string(releasing, stroke),
{
    crate::single::lemma_landmarks();
    crate::reading::lemma_nearest_is_close(12, 100);
}

/// A body is laid out again for another instrument, and for a detune or a
/// bridge hill that moved by more than a billionth; for nothing else.
pub proof fn law_a_body_is_laid_out_when_it_moved(body: int, laid: int, detune_by: Single, bridge_by: Single)
    requires
        detune_by.number(),
        bridge_by.number(),
    ensures
        body != laid ==> laid_again(body, laid, detune_by, bridge_by),
        body == laid && detune_by == Single::nearest(1, 1_000_000_000) && bridge_by == detune_by ==> !laid_again(
            body,
            laid,
            detune_by,
            bridge_by,
        ),
        999_000_000 * detune_by.units() >= crate::single::one() ==> laid_again(body, laid, detune_by, bridge_by),
        999_000_000 * bridge_by.units() >= crate::single::one() ==> laid_again(body, laid, detune_by, bridge_by),
        body == laid && 1_001_000_000 * detune_by.units() <= crate::single::one() && 1_001_000_000
            * bridge_by.units() <= crate::single::one() ==> !laid_again(body, laid, detune_by, bridge_by),
        !low_body(0) && !low_body(1),
        low_body(2) && low_body(3),
{
    crate::single::lemma_landmarks();
    crate::reading::lemma_nearest_is_close(1, 1_000_000_000);
}

/// A cycle is over at one; a pitch glides while it is more than a twentieth
/// of a hertz away; a spot folds past the middle; a player sits aside from a
/// ten-thousandth on.
pub proof fn law_each_threshold_is_where_it_is(x: Single)
    requires
        x.number(),
    ensures
        cycle_over(x) <==> x.units() >= crate::single::one(),
        under_zero(x) <==> x.units() < 0,
        1_000 * x.units() >= 51 * crate::single::one() ==> glides(x),
        1_000 * x.units() <= 49 * crate::single::one() ==> !glides(x),
        x == Single::nearest(5, 100) ==> !glides(x),
        x == Single::nearest(1, 10_000) ==> aside(x),
        past_the_middle(x) <==> 2 * x.units() > crate::single::one(),
        9_999 * x.units() >= crate::single::one() ==> aside(x),
        10_001 * x.units() <= crate::single::one() ==> !aside(x),
{
    crate::single::lemma_landmarks();
    crate::reading::lemma_nearest_is_close(5, 100);
    crate::reading::lemma_nearest_is_close(1, 10_000);
}

/// What is no number is past no threshold: a note of no age holds, nothing
/// glides, turns or folds by it; only a seat that is none is not the middle.
pub proof fn law_what_is_no_number_passes_no_threshold(x: Single, y: Single, laid: int)
    requires
        !x.number(),
    ensures
        stroke_of(false, x, y) is Hold,
        stroke_of(false, y, x) is Hold,
        !off_string(true, x),
        !laid_again(laid, laid, x, x),
        !cycle_over(x),
        !under_zero(x),
        !glides(x),
        !past_the_middle(x),
        aside(x),
{
}

} // verus!
