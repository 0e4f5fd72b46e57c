//! The lines of the bowed waveguide: the nut side and the bridge side of the
//! string, its torsion, and its second plane.

use vstd::prelude::*;
use crate::ring::Ring;
use crate::single::Single;

verus! {

/// Samples each line keeps.
pub const MAX_DELAY: usize = 4096;

/// The four lines.
pub struct BowedWaveguide {
    pub neck: Ring<Single>,
    pub bridge: Ring<Single>,
    pub tor: Ring<Single>,
    pub vert: Ring<Single>,
}

/// What a line read at a whole and a fractional age lies between.
pub open spec fn around(line: Seq<Single>, age: int) -> (Single, Single) {
    crate::ring::between(line, age)
}

/// The four lines, as their contracts speak of them.
#[verifier::ext_equal]
pub struct LinesView {
    pub neck: Seq<Single>,
    pub bridge: Seq<Single>,
    pub tor: Seq<Single>,
    pub vert: Seq<Single>,
}

impl View for BowedWaveguide {
    type V = LinesView;

    open spec fn view(&self) -> LinesView {
        LinesView { neck: self.neck@, bridge: self.bridge@, tor: self.tor@, vert: self.vert@ }
    }
}

impl LinesView {
    /// The lines with one sample's outgoing waves written.
    pub open spec fn written(self, bridge: Single, neck: Single, tor: Single, vert: Single) -> LinesView {
        LinesView {
            neck: crate::ring::written(self.neck, neck),
            bridge: crate::ring::written(self.bridge, bridge),
            tor: crate::ring::written(self.tor, tor),
            vert: crate::ring::written(self.vert, vert),
        }
    }

    /// What the bridge side, the nut side, the torsion and the second plane
    /// read at these ages.
    pub open spec fn read_at(self, bridge: int, neck: int, tor: int, vert: int) -> Seq<(Single, Single)> {
        seq![
            around(self.bridge, bridge),
            around(self.neck, neck),
            around(self.tor, tor),
            around(self.vert, vert),
        ]
    }

    /// Whether the lines hold these shapes, the torsion silent.
    pub open spec fn shaped(self, bridge: Seq<Single>, neck: Seq<Single>, vert: Seq<Single>) -> bool {
        &&& primed(self.bridge, bridge)
        &&& primed(self.neck, neck)
        &&& primed(self.vert, vert)
        &&& primed(self.tor, Seq::empty())
    }
}

/// Whether a line holds these values, the last the newest, and silence before.
pub open spec fn primed(line: Seq<Single>, values: Seq<Single>) -> bool {
    &&& line.len() == MAX_DELAY
    &&& forall|k: int| 0 <= k < values.len() ==> #[trigger] line[k] == values[values.len() - 1 - k]
    &&& forall|k: int| values.len() <= k < MAX_DELAY ==> #[trigger] line[k] == (Single { bits: 0 })
}

impl BowedWaveguide {
    pub open spec fn wf(&self) -> bool {
        &&& self.neck.wf() && self.neck@.len() == MAX_DELAY
        &&& self.bridge.wf() && self.bridge@.len() == MAX_DELAY
        &&& self.tor.wf() && self.tor@.len() == MAX_DELAY
        &&& self.vert.wf() && self.vert@.len() == MAX_DELAY
    }

    /// A silent string.
    pub fn new() -> (r: BowedWaveguide)
        ensures
            r.wf(),
            r@.shaped(Seq::empty(), Seq::empty(), Seq::empty()),
    {
        BowedWaveguide {
            neck: Ring::new(MAX_DELAY, Single { bits: 0 }),
            bridge: Ring::new(MAX_DELAY, Single { bits: 0 }),
            tor: Ring::new(MAX_DELAY, Single { bits: 0 }),
            vert: Ring::new(MAX_DELAY, Single { bits: 0 }),
        }
    }

    /// A fresh note: both sides of the string and its second plane start full
    /// of the shape they are given, the torsion silent, and the next read
    /// falls on the shape.
    pub fn note_on(&mut self, bridge: &Vec<Single>, neck: &Vec<Single>, vert: &Vec<Single>)
        requires
            old(self).wf(),
            bridge.len() <= MAX_DELAY,
            neck.len() <= MAX_DELAY,
            vert.len() <= MAX_DELAY,
        ensures
            final(self).wf(),
            final(self)@.shaped(bridge@, neck@, vert@),
    {
        let rest = Single { bits: 0 };
        self.bridge.prime(bridge, rest);
        self.neck.prime(neck, rest);
        self.vert.prime(vert, rest);
        self.tor.prime(&Vec::new(), rest);
    }

    /// What the bridge side, the nut side, the torsion and the second plane
    /// read at these ages.
    pub fn read(&self, bridge: usize, neck: usize, tor: usize, vert: usize) -> (r: [(Single, Single); 4])
        requires
            self.wf(),
            1 <= bridge < MAX_DELAY,
            1 <= neck < MAX_DELAY,
            1 <= tor < MAX_DELAY,
            1 <= vert < MAX_DELAY,
        ensures
            r@ == self@.read_at(bridge as int, neck as int, tor as int, vert as int),
    {
        let r = [self.bridge.pair(bridge), self.neck.pair(neck), self.tor.pair(tor), self.vert.pair(vert)];
        assert(r@ =~= self@.read_at(bridge as int, neck as int, tor as int, vert as int));
        r
    }

    /// Write the outgoing waves of one sample.
    pub fn write(&mut self, bridge: Single, neck: Single, tor: Single, vert: Single)
        requires
            old(self).wf(),
        ensures
            final(self).wf(),
            final(self)@ == old(self)@.written(bridge, neck, tor, vert),
    {
        let _ = self.bridge.write(bridge);
        let _ = self.neck.write(neck);
        let _ = self.tor.write(tor);
        let _ = self.vert.write(vert);
    }

    /// Silence every line.
    pub fn reset(&mut self)
        requires
            old(self).wf(),
        ensures
            final(self).wf(),
            final(self)@.shaped(Seq::empty(), Seq::empty(), Seq::empty()),
    {
        let none: Vec<Single> = Vec::new();
        self.note_on(&none, &none, &none);
    }
}

/// A line read at an age lies between the wave written that many samples ago
/// and the one before it: a fresh wave is the newer of the two at age one,
/// and a sample later every wave is one sample older.
pub proof fn law_a_wave_ages_by_a_sample(line: Seq<Single>, wave: Single, age: int)
    requires
        line.len() == 4096,
        1 <= age < 4095,
    ensures
        around(crate::ring::written(line, wave), 1) == (wave, line[0]),
        around(crate::ring::written(line, wave), age + 1) == around(line, age),
        around(line, age).0 == line[age - 1],
        around(line, age).1 == line[age],
{
}

/// A line primed with a shape is read newest first: at age one its last
/// value, and silence once the shape is over.
pub proof fn law_a_primed_line_is_read_backwards(line: Seq<Single>, values: Seq<Single>, age: int)
    requires
        primed(line, values),
        1 <= age < 4096,
    ensures
        line.len() == 4096,
        age <= values.len() ==> around(line, age).0 == values[values.len() - age],
        age > values.len() ==> around(line, age).0.units() == 0,
        age < values.len() ==> around(line, age).1 == values[values.len() - age - 1],
        age >= values.len() ==> around(line, age).1.units() == 0,
{
    crate::single::lemma_landmarks();
}

/// Each wave goes down its own line: what is written on one is read from that
/// one at age one, in the order bridge, nut, torsion, second plane, and what
/// was there is read a sample later.
pub proof fn law_each_wave_keeps_to_its_line(w: LinesView, b: Single, n: Single, t: Single, v: Single, age: int)
    requires
        w.bridge.len() == 4096,
        w.neck.len() == 4096,
        w.tor.len() == 4096,
        w.vert.len() == 4096,
        1 <= age < 4095,
    ensures
        ({
            let a = w.written(b, n, t, v);
            let now = a.read_at(1, 1, 1, 1);
            &&& now.len() == 4
            &&& now[0] == (b, w.bridge[0])
            &&& now[1] == (n, w.neck[0])
            &&& now[2] == (t, w.tor[0])
            &&& now[3] == (v, w.vert[0])
            &&& a.read_at(age + 1, age + 1, age + 1, age + 1) == w.read_at(age, age, age, age)
        }),
{
    law_a_wave_ages_by_a_sample(w.bridge, b, age);
    law_a_wave_ages_by_a_sample(w.neck, n, age);
    law_a_wave_ages_by_a_sample(w.tor, t, age);
    law_a_wave_ages_by_a_sample(w.vert, v, age);
    let a = w.written(b, n, t, v);
    assert(a.read_at(age + 1, age + 1, age + 1, age + 1) =~= w.read_at(age, age, age, age));
}

/// A fresh note starts on its shapes, each read back from its own line newest
/// first, and without torsion.
pub proof fn law_a_fresh_note_starts_on_its_shapes(
    w: LinesView,
    bridge: Seq<Single>,
    neck: Seq<Single>,
    vert: Seq<Single>,
    age: int,
)
    requires
        w.shaped(bridge, neck, vert),
        1 <= age < 4096,
    ensures
        age <= bridge.len() ==> w.read_at(age, 1, 1, 1)[0].0 == bridge[bridge.len() - age],
        age <= neck.len() ==> w.read_at(1, age, 1, 1)[1].0 == neck[neck.len() - age],
        w.read_at(1, 1, age, 1)[2].0.units() == 0,
        age <= vert.len() ==> w.read_at(1, 1, 1, age)[3].0 == vert[vert.len() - age],
        age > bridge.len() ==> w.read_at(age, 1, 1, 1)[0].0.units() == 0,
        age > neck.len() ==> w.read_at(1, age, 1, 1)[1].0.units() == 0,
        age > vert.len() ==> w.read_at(1, 1, 1, age)[3].0.units() == 0,
{
    law_a_primed_line_is_read_backwards(w.bridge, bridge, age);
    law_a_primed_line_is_read_backwards(w.neck, neck, age);
    law_a_primed_line_is_read_backwards(w.vert, vert, age);
    law_a_primed_line_is_read_backwards(w.tor, Seq::empty(), age);
}

} // verus!
