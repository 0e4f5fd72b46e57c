//! Which friction law grips the string, and where on it a bristle stands.

use vstd::prelude::*;
use crate::single::{Single, HALF, ONE, THOUSANDTH};

verus! {

/// The friction model a bowed string runs.
#[derive(Clone, Copy, Debug, PartialEq, Eq, Structural)]
pub enum FrictionMode {
    /// A static table of friction against slip speed.
    Static,
    /// Bristles that stretch before they slip.
    ElastoPlastic,
}

/// What a bow does to the string on one sample.
#[derive(Clone, Copy, Debug, PartialEq, Eq, Structural)]
pub enum Grip {
    /// The bow is off the string: nothing is injected and the bristles let go.
    Lifted,
    /// The static table decides.
    Table,
    /// The bristle solver decides.
    Bristles,
}

/// What grips the string at this force: nothing under one thousandth, and
/// otherwise the model.
pub open spec fn grip_of(mode: FrictionMode, force: Single) -> Grip {
    if force.number() && force.units() < Single::nearest(1, 1_000).units() {
        Grip::Lifted
    } else {
        match mode {
            FrictionMode::Static => Grip::Table,
            FrictionMode::ElastoPlastic => Grip::Bristles,
        }
    }
}

/// What grips the string at this force.
pub fn grip(mode: FrictionMode, force: Single) -> (r: Grip)
    ensures
        r == grip_of(mode, force),
{
    proof {
        crate::single::lemma_small_landmarks();
    }
    if force.lt(Single { bits: THOUSANDTH }) {
        Grip::Lifted
    } else {
        match mode {
            FrictionMode::Static => Grip::Table,
            FrictionMode::ElastoPlastic => Grip::Bristles,
        }
    }
}

/// Where a bristle stands on the adhesion map (Dupont et al. 2002).
#[derive(Clone, Copy, Debug, PartialEq, Eq, Structural)]
pub enum Adhesion {
    /// Pure stick: the bristle still stretches.
    Stick,
    /// The smooth transition between the two.
    Blend,
    /// Pure slip.
    Slip,
}

/// A bristle sticks up to half its steady stretch, slips from all of it, and
/// blends between. `settled` says that the steady stretch is large enough to
/// divide by; where it is not, the bristle sticks.
pub open spec fn adhesion_of(settled: bool, stretch: Single) -> Adhesion {
    if !settled {
        Adhesion::Stick
    } else if stretch.number() && 2 * stretch.units() <= crate::single::one() {
        Adhesion::Stick
    } else if stretch.number() && stretch.units() >= crate::single::one() {
        Adhesion::Slip
    } else {
        Adhesion::Blend
    }
}

/// Where a bristle stretched to this share of its steady stretch stands.
pub fn adhesion(settled: bool, stretch: Single) -> (r: Adhesion)
    ensures
        r == adhesion_of(settled, stretch),
{
    proof {
        crate::single::lemma_landmarks();
    }
    if !settled {
        Adhesion::Stick
    } else if stretch.le(Single { bits: HALF }) {
        Adhesion::Stick
    } else if stretch.ge(Single { bits: ONE }) {
        Adhesion::Slip
    } else {
        Adhesion::Blend
    }
}

/// A bow under a thousandth is off the string whatever the model, and one
/// that presses is gripped as the model has it.
pub proof fn law_a_pressed_bow_is_gripped_by_its_model(mode: FrictionMode, force: Single)
    requires
        force.number(),
    ensures
        1_001 * force.units() <= crate::single::one() ==> grip_of(mode, force) is Lifted,
        force == Single::nearest(1, 1_000) ==> !(grip_of(mode, force) is Lifted),
        999 * force.units() >= crate::single::one() && mode is Static ==> grip_of(mode, force) is Table,
        999 * force.units() >= crate::single::one() && mode is ElastoPlastic ==> grip_of(mode, force) is Bristles,
{
    crate::single::lemma_landmarks();
    crate::reading::lemma_nearest_is_close(1, 1_000);
}

/// A bristle only ever goes from stick over blend to slip as it stretches:
/// it sticks to half its steady stretch and slips from all of it.
pub proof fn law_a_bristle_slips_as_it_stretches(stretch: Single, further: Single)
    requires
        stretch.number(),
        further.number(),
        stretch.units() <= further.units(),
    ensures
        adhesion_of(false, stretch) is Stick,
        2 * stretch.units() <= crate::single::one() ==> adhesion_of(true, stretch) is Stick,
        crate::single::one() < 2 * stretch.units() && stretch.units() < crate::single::one() ==> adhesion_of(
            true,
            stretch,
        ) is Blend,
        crate::single::one() <= stretch.units() ==> adhesion_of(true, stretch) is Slip,
        adhesion_of(true, stretch) is Slip ==> adhesion_of(true, further) is Slip,
        adhesion_of(true, further) is Stick ==> adhesion_of(true, stretch) is Stick,
{
    crate::single::lemma_landmarks();
}

/// A force that is no number lifts no bow, and a stretch that is none blends.
pub proof fn law_what_is_no_number_lifts_nothing(mode: FrictionMode, x: Single)
    requires
        !x.number(),
    ensures
        mode is Static ==> grip_of(mode, x) is Table,
        mode is ElastoPlastic ==> grip_of(mode, x) is Bristles,
        adhesion_of(true, x) is Blend,
        adhesion_of(false, x) is Stick,
{
}

} // verus!
