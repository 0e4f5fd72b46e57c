//! The sympathetic open strings: which are free to ring, and for how long.

use vstd::prelude::*;
use crate::single::Single;
use crate::strings::measured_pizz_t60;

verus! {

/// One open string.
#[derive(Clone, Copy, Debug, PartialEq, Eq, Structural)]
pub struct OpenString {
    /// Its pitch, in hertz.
    pub hz: Single,
    /// Seconds to sixty dB down: as long as it rings when plucked, since it
    /// is the same string.
    pub t60: Single,
    /// Whether a finger or a pluck is on it right now.
    pub held: bool,
}

/// The four open strings of a body, and what they radiate together.
pub struct SympStrings {
    pub strings: Vec<OpenString>,
    pub energy: Single,
}

/// The pitches of a body's open strings, in hundredths of a hertz. A body
/// that is none of the lower three is a violin.
pub open spec fn open_pitches(inst: int) -> Seq<int> {
    if inst == 1 {
        seq![13081int, 19600, 29366, 44000]
    } else if inst == 2 {
        seq![6541int, 9800, 14683, 22000]
    } else if inst == 3 {
        seq![4120int, 5500, 7342, 9800]
    } else {
        seq![19600int, 29366, 44000, 65925]
    }
}

/// Open string `s` of a body, free and silent.
pub open spec fn fresh_string(inst: int, s: int) -> OpenString {
    OpenString {
        hz: Single::nearest(open_pitches(inst)[s], 100),
        t60: crate::strings::measured_curve(inst, s)[0].1,
        held: false,
    }
}

/// An open string with a finger on it, or off it.
pub open spec fn fingered(string: OpenString, held: bool) -> OpenString {
    OpenString { held, ..string }
}

/// Whether strings that radiate this much still ring.
pub open spec fn rings(energy: Single) -> bool {
    energy.number() && energy.units() > Single::nearest(1, 100_000).units()
}

/// What drives an open string that is held, or is not.
pub open spec fn driven(held: bool) -> Drive {
    if held {
        Drive::Damped
    } else {
        Drive::Free
    }
}

/// What drives an open string on one sample.
#[derive(Clone, Copy, Debug, PartialEq, Eq, Structural)]
pub enum Drive {
    /// The instrument, and its own loop.
    Free,
    /// Nothing, and what it holds dies under the finger.
    Damped,
}

impl SympStrings {
    pub open spec fn wf(&self) -> bool {
        self.strings.len() == 4
    }

    /// The open strings of a body, all free and silent.
    pub fn new(inst: usize) -> (r: SympStrings)
        ensures
            r.wf(),
            r.energy == (Single { bits: 0 }),
            forall|s: int|
                0 <= s < 4 ==> #[trigger] r.strings@[s] == fresh_string(inst as int, s),
    {
        let pitches: [u32; 4] = if inst == 1 {
            [13081, 19600, 29366, 44000]
        } else if inst == 2 {
            [6541, 9800, 14683, 22000]
        } else if inst == 3 {
            [4120, 5500, 7342, 9800]
        } else {
            [19600, 29366, 44000, 65925]
        };
        let mut strings: Vec<OpenString> = Vec::new();
        let mut s: usize = 0;
        while s < 4
            invariant
                s <= 4,
                strings.len() == s,
                forall|k: int| 0 <= k < 4 ==> #[trigger] pitches@[k] == open_pitches(inst as int)[k],
                forall|k: int| 0 <= k < 4 ==> #[trigger] pitches@[k] < 0x100_0000,
                forall|k: int|
                    0 <= k < s ==> #[trigger] strings@[k] == fresh_string(inst as int, k),
            decreases 4 - s,
        {
            let curve = measured_pizz_t60(inst, s);
            strings.push(OpenString { hz: Single::ratio(pitches[s], 100), t60: curve[0].1, held: false });
            s = s + 1;
        }
        SympStrings { strings, energy: Single { bits: 0 } }
    }

    /// Which open strings are not free to ring in sympathy, being the very
    /// strings sounding.
    pub fn set_held(&mut self, held: [bool; 4])
        requires
            old(self).wf(),
        ensures
            final(self).wf(),
            final(self).energy == old(self).energy,
            forall|s: int|
                0 <= s < 4 ==> #[trigger] final(self).strings@[s] == fingered(old(self).strings@[s], held@[s]),
    {
        let mut s: usize = 0;
        while s < 4
            invariant
                s <= 4,
                self.strings.len() == 4,
                self.energy == old(self).energy,
                forall|k: int|
                    0 <= k < s ==> #[trigger] self.strings@[k] == fingered(old(self).strings@[k], held@[k]),
                forall|k: int| s <= k < 4 ==> #[trigger] self.strings@[k] == old(self).strings@[k],
            decreases 4 - s,
        {
            let mut string = self.strings[s];
            string.held = held[s];
            self.strings.set(s, string);
            s = s + 1;
        }
    }

    /// What drives open string `s` on this sample.
    pub fn drive(&self, s: usize) -> (r: Drive)
        requires
            self.wf(),
            s < 4,
        ensures
            r == driven(self.strings@[s as int].held),
    {
        if self.strings[s].held {
            Drive::Damped
        } else {
            Drive::Free
        }
    }

    /// Still ringing? Keeps an engine running through rests, so the halo does
    /// not cut off when every voice is idle.
    pub fn active(&self) -> (r: bool)
        ensures
            r == rings(self.energy),
    {
        proof {
            crate::single::lemma_nearest_exists(1, 100_000);
        }
        self.energy.gt(Single::ratio(1, 100_000))
    }
}

/// The open strings ring at the pitches they are tuned to: each to within a
/// twentieth of a hertz of its note's, and each as high as the string that
/// was measured plucked, to within two parts in a hundred. Two strings of one
/// note ring alike, whatever the body.
pub proof fn law_open_strings_ring_as_tuned(body: int, string: int, other: int, there: int)
    requires
        0 <= body < 4,
        0 <= string < 4,
        0 <= other < 4,
        0 <= there < 4,
    ensures
        open_pitches(body).len() == 4,
        -5 <= open_pitches(body)[string] - 10 * crate::strings::tuned_to(
            crate::strings::open_strings(body)[string],
        ) <= 5,
        -2 * open_pitches(body)[string] <= 1000 * crate::strings::measured(body, string)[0].0 - 100 * open_pitches(
            body,
        )[string] <= 2 * open_pitches(body)[string],
        crate::strings::open_strings(body)[string] == crate::strings::open_strings(other)[there] ==> open_pitches(
            body,
        )[string] == open_pitches(other)[there],
        crate::strings::open_strings(body)[string] == crate::strings::open_strings(other)[there] + 12 ==> -1
            <= open_pitches(body)[string] - 2 * open_pitches(other)[there] <= 1,
{
}

/// A body without strings of its own has the violin's.
pub proof fn law_any_other_body_is_a_violin(body: int)
    requires
        body < 0 || body > 3,
    ensures
        open_pitches(body) == open_pitches(0),
{
}

/// The halo is heard down to a hundred-thousandth.
pub proof fn law_a_halo_rings_out(energy: Single)
    requires
        energy.number(),
    ensures
        99_999 * energy.units() >= crate::single::one() ==> rings(energy),
        100_001 * energy.units() <= crate::single::one() ==> !rings(energy),
        energy == Single::nearest(1, 100_000) ==> !rings(energy),
        driven(true) is Damped,
        driven(false) is Free,
{
    crate::single::lemma_landmarks();
    crate::reading::lemma_nearest_is_close(1, 100_000);
}

/// A fresh open string is free, at its pitch in hertz, and rings as long as
/// its lowest partial was measured to; a finger on it changes nothing else.
pub proof fn law_a_fresh_string_is_free(inst: int, s: int, held: bool)
    requires
        0 <= inst < 4,
        0 <= s < 4,
    ensures
        !fresh_string(inst, s).held,
        fresh_string(inst, s).hz == Single::nearest(open_pitches(inst)[s], 100),
        fresh_string(inst, s).t60 == Single::nearest(crate::strings::measured(inst, s)[0].1 as int, 100),
        fingered(fresh_string(inst, s), held).held == held,
        fingered(fresh_string(inst, s), held).hz == fresh_string(inst, s).hz,
        fingered(fresh_string(inst, s), held).t60 == fresh_string(inst, s).t60,
{
}

} // verus!
