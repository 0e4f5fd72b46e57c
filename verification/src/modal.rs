//! The modal string's decisions: how many modes a note has, and whether the
//! bow grips the string, slips on it or is off it.

use vstd::prelude::*;
use crate::double::Double;
use crate::noise::Noise;
use crate::single::Single;

verus! {

/// The most modes a string is built of.
pub const MAX_MODES: usize = 90;

/// The fewest.
pub const MIN_MODES: usize = 4;

/// The number of modes of a note.
pub open spec fn modes_for(ceiling: int, band: int) -> int {
    if ceiling < MIN_MODES || band < MIN_MODES {
        MIN_MODES as int
    } else if ceiling > MAX_MODES && band > MAX_MODES {
        MAX_MODES as int
    } else if ceiling <= band {
        ceiling
    } else {
        band
    }
}

/// Whether friction is roughened on a sample.
pub open spec fn roughens(contact: Contact, amount: Single) -> bool {
    contact == Contact::Slip && amount.number() && amount.units() > 0
}

/// Whether a string is pushed off a fret.
pub open spec fn pushed_off(armed: bool, displacement: Double, barrier_below: Double) -> bool {
    armed && displacement.number() && barrier_below.number() && displacement.units() < barrier_below.units()
}

/// The number of modes of a note with `ceiling` partials under the highest
/// frequency modelled and `band` under the sampling limit.
pub fn mode_count(ceiling: usize, band: usize) -> (r: usize)
    ensures
        MIN_MODES <= r <= MAX_MODES,
        r == modes_for(ceiling as int, band as int),
{
    let n: usize = if ceiling <= band {
        ceiling
    } else {
        band
    };
    if n < MIN_MODES {
        MIN_MODES
    } else if n > MAX_MODES {
        MAX_MODES
    } else {
        n
    }
}

/// What the bow does to the string on one sample.
#[derive(Clone, Copy, Debug, PartialEq, Eq, Structural)]
pub enum Contact {
    /// The bow is off the string, which is exactly free of force.
    Free,
    /// The string moves with the bow.
    Stick,
    /// The string slips under the bow.
    Slip,
}

/// What the bow does, given the force it presses with, the force it would
/// take to hold the string and the most friction gives, the discriminant of
/// the slipping solution, and that solution's speed against the bow times the
/// bow's own: a solution that overtakes the bow is on the wrong branch.
pub open spec fn contact_of(press: Single, hold: Double, grip: Double, disc: Double, along: Double) -> Contact {
    if !press.number() || press.units() <= 0 {
        Contact::Free
    } else if hold.number() && grip.number() && hold.units() <= grip.units() {
        Contact::Stick
    } else if disc.number() && disc.units() < 0 {
        Contact::Stick
    } else if along.number() && along.units() > 0 {
        Contact::Stick
    } else {
        Contact::Slip
    }
}

/// The stick-slip decision (Friedlander's construction in modal form).
pub fn contact(press: Single, hold: Double, grip: Double, disc: Double, along: Double) -> (r: Contact)
    ensures
        r == contact_of(press, hold, grip, disc, along),
{
    let zero = Double { bits: 0 };
    proof {
        crate::single::lemma_landmarks();
        crate::double::lemma_steps_zero(0);
    }
    if !press.gt(Single { bits: 0 }) {
        Contact::Free
    } else if hold.le(grip) {
        Contact::Stick
    } else if disc.lt(zero) {
        Contact::Stick
    } else if zero.lt(along) {
        Contact::Stick
    } else {
        Contact::Slip
    }
}

/// Friction is roughened only while the string slips, and only where the
/// instrument asks for it: one draw then, and none otherwise.
pub fn slip_draw(contact: Contact, amount: Single, rng: &mut Noise) -> (r: Option<u32>)
    ensures
        r is Some <==> roughens(contact, amount),
        r matches Some(x) ==> x == crate::noise::turned(old(rng).state) && final(rng).state == x,
        r is None ==> *final(rng) == *old(rng),
{
    proof {
        crate::single::lemma_landmarks();
    }
    if contact == Contact::Slip && amount.gt(Single { bits: 0 }) {
        Some(rng.next())
    } else {
        None
    }
}

/// Whether a plucked string in contact with a fret is pushed off it: the
/// contact is armed and the string is further down than the barrier.
pub fn touches(armed: bool, displacement: Double, barrier_below: Double) -> (r: bool)
    ensures
        r == pushed_off(armed, displacement, barrier_below),
{
    armed && displacement.lt(barrier_below)
}

/// A bow that does not press leaves the string free, whatever it would take
/// to hold it; and a bow that presses grips it wherever friction can.
pub proof fn law_a_lifted_bow_is_free(press: Single, hold: Double, grip: Double, disc: Double, along: Double)
    ensures
        press.units() <= 0 ==> contact_of(press, hold, grip, disc, along) == Contact::Free,
        press.number() && press.units() > 0 && hold.number() && grip.number() && hold.units() <= grip.units()
            ==> contact_of(press, hold, grip, disc, along) == Contact::Stick,
{
}

/// A note has no more modes than lie under either limit, four at least and
/// ninety at most, and as many as that allows.
pub proof fn law_a_note_has_the_modes_that_fit(ceiling: int, band: int, n: int)
    requires
        4 <= n <= 90,
    ensures
        4 <= modes_for(ceiling, band) <= 90,
        n <= ceiling && n <= band ==> n <= modes_for(ceiling, band),
        n > 4 && (n > ceiling || n > band) ==> modes_for(ceiling, band) < n,
        modes_for(ceiling, band) == modes_for(band, ceiling),
{
}

/// A string that the bow presses slips only where friction cannot hold it,
/// the slipping solution is real, and it does not overtake the bow; it then
/// does slip.
pub proof fn law_a_string_slips_where_nothing_holds_it(
    press: Single,
    hold: Double,
    grip: Double,
    disc: Double,
    along: Double,
)
    requires
        press.number() && hold.number() && grip.number() && disc.number() && along.number(),
    ensures
        contact_of(press, hold, grip, disc, along) is Slip <==> press.units() > 0 && grip.units() < hold.units()
            && disc.units() >= 0 && along.units() <= 0,
        contact_of(press, hold, grip, disc, along) is Free <==> press.units() <= 0,
{
}

/// Friction is roughened only while the string slips and where the body asks
/// for it; a fret pushes a string only where its contact is armed and the
/// string is under it.
pub proof fn law_roughness_and_frets_are_asked_for(contact: Contact, amount: Single, armed: bool, x: Double, b: Double)
    ensures
        contact is Free || contact is Stick ==> !roughens(contact, amount),
        amount.units() <= 0 ==> !roughens(contact, amount),
        contact is Slip && amount.number() && amount.units() > 0 ==> roughens(contact, amount),
        !armed ==> !pushed_off(armed, x, b),
        x.units() >= b.units() ==> !pushed_off(armed, x, b),
        armed && x.number() && b.number() && x.units() < b.units() ==> pushed_off(armed, x, b),
{
}

/// Where something is no number the bow does what it does without it: one
/// that presses with none is off the string, and a hold, a discriminant or a
/// speed that is none holds nothing.
pub proof fn law_what_is_no_number_holds_nothing(press: Single, hold: Double, grip: Double, disc: Double, along: Double)
    ensures
        !press.number() ==> contact_of(press, hold, grip, disc, along) is Free,
        press.number() && press.units() > 0 ==> (contact_of(press, hold, grip, disc, along) is Stick <==> (
        hold.number() && grip.number() && hold.units() <= grip.units()) || (disc.number() && disc.units() < 0) || (
        along.number() && along.units() > 0)),
{
}

} // verus!
