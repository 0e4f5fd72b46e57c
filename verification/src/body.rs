//! The four bodies: their measured signature modes, and the envelope the
//! statistical bank above them is built against.
//!
//! Nothing here is a scaled violin. Frequencies are published measurements
//! (Gough 2016; Woodhouse 2014; Coffey 2013; Bynum and Rossing; Askenfelt
//! 1982); levels, the hill and the roll-offs are calibrated against the
//! spectral envelope of the recordings the strings were calibrated on. Every
//! figure is a whole number of its unit but the hill's share, in tenths.

use vstd::prelude::*;
use crate::single::Single;

verus! {

/// A signature mode: hertz, Q, and dB.
pub type Mode = (i32, i32, i32);

/// One instrument's body.
#[derive(Clone, Debug)]
pub struct BodySpec {
    /// The signature modes.
    pub sig: Vec<Mode>,
    /// Where the statistical bank starts, in hertz.
    pub bank_from: i32,
    /// Where it ends.
    pub bank_to: i32,
    /// The mode spacing its level was calibrated at, in hertz.
    pub level_spacing: i32,
    /// Its level.
    pub bank_db: i32,
    /// The bridge hill, in hertz.
    pub hill_f: i32,
    /// Its share of the patch's bridge-hill presence, in tenths.
    pub hill_gain: i32,
    /// The first roll-off, in hertz.
    pub roll_f: i32,
    /// Its slope, in dB per octave.
    pub roll_db_oct: i32,
    /// The second roll-off, in hertz.
    pub roll2_f: i32,
    /// Its slope, in dB per octave.
    pub roll2_db_oct: i32,
    /// Below this the body cannot radiate, in hertz.
    pub hp_f: i32,
    /// Above this its output rolls off, in hertz.
    pub lp_f: i32,
}

/// What a [`BodySpec`] says.
#[verifier::ext_equal]
pub struct BodyView {
    pub sig: Seq<Mode>,
    pub bank_from: i32,
    pub bank_to: i32,
    pub level_spacing: i32,
    pub bank_db: i32,
    pub hill_f: i32,
    pub hill_gain: i32,
    pub roll_f: i32,
    pub roll_db_oct: i32,
    pub roll2_f: i32,
    pub roll2_db_oct: i32,
    pub hp_f: i32,
    pub lp_f: i32,
}

impl View for BodySpec {
    type V = BodyView;

    open spec fn view(&self) -> BodyView {
        BodyView {
            sig: self.sig@,
            bank_from: self.bank_from,
            bank_to: self.bank_to,
            level_spacing: self.level_spacing,
            bank_db: self.bank_db,
            hill_f: self.hill_f,
            hill_gain: self.hill_gain,
            roll_f: self.roll_f,
            roll_db_oct: self.roll_db_oct,
            roll2_f: self.roll2_f,
            roll2_db_oct: self.roll2_db_oct,
            hp_f: self.hp_f,
            lp_f: self.lp_f,
        }
    }
}

/// The violin's signature modes: A0 the main air, CBR, B1-, A1, B1+, a
/// transitional one, the two of the nasality dip, and the rise out of it.
pub const SIG_VIOLIN: [(i32, i32, i32); 9] = [
    (275, 10, 6),
    (405, 14, 4),
    (460, 16, 2),
    (485, 25, -8),
    (550, 18, 4),
    (640, 20, -6),
    (820, 12, -3),
    (1010, 12, -3),
    (1220, 15, 4),
];

/// The viola's: A0, CBR, B1-, A1, B1+, the strong mode above it, and the air
/// modes.
pub const SIG_VIOLA: [(i32, i32, i32); 10] = [
    (224, 38, -14),
    (305, 40, -18),
    (350, 36, -12),
    (390, 40, -12),
    (450, 42, -2),
    (560, 30, 4),
    (720, 24, -2),
    (950, 22, 0),
    (1078, 20, 0),
    (1504, 20, 2),
];

/// The cello's: A0, B1-, CBR, C4, A1, B1+, A3, A2, and up to the formant.
pub const SIG_CELLO: [(i32, i32, i32); 12] = [
    (100, 20, 3),
    (155, 30, 3),
    (170, 40, -12),
    (195, 40, -6),
    (203, 30, -8),
    (219, 42, 4),
    (277, 25, 8),
    (302, 25, 8),
    (400, 24, 8),
    (550, 22, 6),
    (900, 20, -4),
    (1100, 20, -5),
];

/// The double bass's: A0, B1-, C4, the equally spaced plate modes, the lowest
/// bridge resonance, and the maximum before the roll-off.
pub const SIG_BASS: [(i32, i32, i32); 9] = [
    (65, 20, 0),
    (100, 28, 8),
    (130, 30, -10),
    (150, 25, -8),
    (200, 25, 6),
    (250, 25, 5),
    (300, 25, -9),
    (400, 22, -11),
    (600, 20, -16),
];

/// The body of an index; what is none of the lower three is a violin.
pub open spec fn body_of(inst: int) -> BodyView {
    if inst == 1 {
        BodyView {
            sig: SIG_VIOLA@,
            bank_from: 1300,
            bank_to: 11000,
            level_spacing: 150,
            bank_db: (-2int) as i32,
            hill_f: 1900,
            hill_gain: 4,
            roll_f: 2000,
            roll_db_oct: (-14int) as i32,
            roll2_f: 2400,
            roll2_db_oct: (-16int) as i32,
            hp_f: 300,
            lp_f: 3700,
        }
    } else if inst == 2 {
        BodyView {
            sig: SIG_CELLO@,
            bank_from: 1200,
            bank_to: 8000,
            level_spacing: 120,
            bank_db: (-8int) as i32,
            hill_f: 1500,
            hill_gain: 5,
            roll_f: 1800,
            roll_db_oct: (-12int) as i32,
            roll2_f: 2600,
            roll2_db_oct: (-14int) as i32,
            hp_f: 40,
            lp_f: 2500,
        }
    } else if inst == 3 {
        BodyView {
            sig: SIG_BASS@,
            bank_from: 700,
            bank_to: 2500,
            level_spacing: 80,
            bank_db: (-20int) as i32,
            hill_f: 700,
            hill_gain: 2,
            roll_f: 800,
            roll_db_oct: (-18int) as i32,
            roll2_f: 1200,
            roll2_db_oct: (-12int) as i32,
            hp_f: 40,
            lp_f: 1500,
        }
    } else {
        BodyView {
            sig: SIG_VIOLIN@,
            bank_from: 1320,
            bank_to: 11000,
            level_spacing: 170,
            bank_db: (-9int) as i32,
            hill_f: 2800,
            hill_gain: 5,
            roll_f: 3600,
            roll_db_oct: (-10int) as i32,
            roll2_f: 4200,
            roll2_db_oct: (-16int) as i32,
            hp_f: 320,
            lp_f: 4200,
        }
    }
}

/// A list of signature modes.
fn modes(table: &[(i32, i32, i32)]) -> (r: Vec<Mode>)
    ensures
        r@ == table@,
{
    let mut r: Vec<Mode> = Vec::new();
    let mut i: usize = 0;
    while i < table.len()
        invariant
            i <= table.len(),
            r@ == table@.take(i as int),
        decreases table.len() - i,
    {
        r.push(table[i]);
        assert(table@.take(i + 1) =~= table@.take(i as int).push(table@[i as int]));
        i = i + 1;
    }
    assert(table@.take(i as int) =~= table@);
    r
}

/// The body of an index.
pub fn spec_for(inst: usize) -> (r: BodySpec)
    ensures
        r@ == body_of(inst as int),
{
    if inst == 1 {
        BodySpec {
            sig: modes(&SIG_VIOLA),
            bank_from: 1300,
            bank_to: 11000,
            level_spacing: 150,
            bank_db: -2,
            hill_f: 1900,
            hill_gain: 4,
            roll_f: 2000,
            roll_db_oct: -14,
            roll2_f: 2400,
            roll2_db_oct: -16,
            hp_f: 300,
            lp_f: 3700,
        }
    } else if inst == 2 {
        BodySpec {
            sig: modes(&SIG_CELLO),
            bank_from: 1200,
            bank_to: 8000,
            level_spacing: 120,
            bank_db: -8,
            hill_f: 1500,
            hill_gain: 5,
            roll_f: 1800,
            roll_db_oct: -12,
            roll2_f: 2600,
            roll2_db_oct: -14,
            hp_f: 40,
            lp_f: 2500,
        }
    } else if inst == 3 {
        BodySpec {
            sig: modes(&SIG_BASS),
            bank_from: 700,
            bank_to: 2500,
            level_spacing: 80,
            bank_db: -20,
            hill_f: 700,
            hill_gain: 2,
            roll_f: 800,
            roll_db_oct: -18,
            roll2_f: 1200,
            roll2_db_oct: -12,
            hp_f: 40,
            lp_f: 1500,
        }
    } else {
        BodySpec {
            sig: modes(&SIG_VIOLIN),
            bank_from: 1320,
            bank_to: 11000,
            level_spacing: 170,
            bank_db: -9,
            hill_f: 2800,
            hill_gain: 5,
            roll_f: 3600,
            roll_db_oct: -10,
            roll2_f: 4200,
            roll2_db_oct: -16,
            hp_f: 320,
            lp_f: 4200,
        }
    }
}

/// What the draws of a voice's own statistical bank start from: the body, and
/// the detune that is the voice's, so no two players share a body.
pub open spec fn bank_seed_of(inst: u32, detune: Single) -> u32 {
    (0x9E37_79B9u32 ^ inst.wrapping_add(1).wrapping_mul(2654435761)) ^ detune.bits
}

/// The seed of a voice's statistical bank.
pub fn bank_seed(inst: u32, detune: Single) -> (r: u32)
    ensures
        r == bank_seed_of(inst, detune),
{
    (0x9E37_79B9 ^ inst.wrapping_add(1).wrapping_mul(2654435761)) ^ detune.bits
}

/// Two players on one body share a bank only where they share a detune.
pub proof fn law_no_two_players_share_a_body(inst: u32, a: Single, b: Single)
    requires
        bank_seed_of(inst, a) == bank_seed_of(inst, b),
    ensures
        a == b,
{
    let k = 0x9E37_79B9u32 ^ inst.wrapping_add(1).wrapping_mul(2654435761);
    let (x, y) = (a.bits, b.bits);
    assert(k ^ x == k ^ y ==> x == y) by (bit_vector);
}

/// The signature modes of a body ascend, and the statistical bank has room
/// above where it starts.
pub proof fn law_signature_modes_ascend(inst: int, i: int, j: int)
    requires
        0 <= i < j < body_of(inst).sig.len(),
    ensures
        body_of(inst).sig[i].0 < body_of(inst).sig[j].0,
        0 < body_of(inst).bank_from < body_of(inst).bank_to,
        body_of(inst).roll_f < body_of(inst).roll2_f,
{
}

/// The figures of each body, in hertz, dB and tenths.
pub proof fn law_each_body_is_laid_out_so(inst: int)
    ensures
        body_of(inst).bank_from == (if inst == 1 {
            1300int
        } else if inst == 2 {
            1200int
        } else if inst == 3 {
            700int
        } else {
            1320int
        }),
        body_of(inst).bank_to == (if inst == 1 {
            11000int
        } else if inst == 2 {
            8000int
        } else if inst == 3 {
            2500int
        } else {
            11000int
        }),
        body_of(inst).level_spacing == (if inst == 1 {
            150int
        } else if inst == 2 {
            120int
        } else if inst == 3 {
            80int
        } else {
            170int
        }),
        body_of(inst).bank_db == (if inst == 1 {
            -2int
        } else if inst == 2 {
            -8int
        } else if inst == 3 {
            -20int
        } else {
            -9int
        }),
        body_of(inst).hill_f == (if inst == 1 {
            1900int
        } else if inst == 2 {
            1500int
        } else if inst == 3 {
            700int
        } else {
            2800int
        }),
        body_of(inst).hill_gain == (if inst == 1 {
            4int
        } else if inst == 2 {
            5int
        } else if inst == 3 {
            2int
        } else {
            5int
        }),
        body_of(inst).roll_f == (if inst == 1 {
            2000int
        } else if inst == 2 {
            1800int
        } else if inst == 3 {
            800int
        } else {
            3600int
        }),
        body_of(inst).roll_db_oct == (if inst == 1 {
            -14int
        } else if inst == 2 {
            -12int
        } else if inst == 3 {
            -18int
        } else {
            -10int
        }),
        body_of(inst).roll2_f == (if inst == 1 {
            2400int
        } else if inst == 2 {
            2600int
        } else if inst == 3 {
            1200int
        } else {
            4200int
        }),
        body_of(inst).roll2_db_oct == (if inst == 1 {
            -16int
        } else if inst == 2 {
            -14int
        } else if inst == 3 {
            -12int
        } else {
            -16int
        }),
        body_of(inst).hp_f == (if inst == 1 {
            300int
        } else if inst == 2 {
            40int
        } else if inst == 3 {
            40int
        } else {
            320int
        }),
        body_of(inst).lp_f == (if inst == 1 {
            3700int
        } else if inst == 2 {
            2500int
        } else if inst == 3 {
            1500int
        } else {
            4200int
        }),
{
}

/// Where the signature modes of each body lie, how sharp they are and how
/// loud.
pub proof fn law_each_body_resonates_so(inst: int)
    ensures
        body_of(inst).sig.map_values(|m: Mode| m.0 as int) == (if inst == 1 {
            seq![224int, 305, 350, 390, 450, 560, 720, 950, 1078, 1504]
        } else if inst == 2 {
            seq![100int, 155, 170, 195, 203, 219, 277, 302, 400, 550, 900, 1100]
        } else if inst == 3 {
            seq![65int, 100, 130, 150, 200, 250, 300, 400, 600]
        } else {
            seq![275int, 405, 460, 485, 550, 640, 820, 1010, 1220]
        }),
        body_of(inst).sig.map_values(|m: Mode| m.1 as int) == (if inst == 1 {
            seq![38int, 40, 36, 40, 42, 30, 24, 22, 20, 20]
        } else if inst == 2 {
            seq![20int, 30, 40, 40, 30, 42, 25, 25, 24, 22, 20, 20]
        } else if inst == 3 {
            seq![20int, 28, 30, 25, 25, 25, 25, 22, 20]
        } else {
            seq![10int, 14, 16, 25, 18, 20, 12, 12, 15]
        }),
        body_of(inst).sig.map_values(|m: Mode| m.2 as int) == (if inst == 1 {
            seq![-14int, -18, -12, -12, -2, 4, -2, 0, 0, 2]
        } else if inst == 2 {
            seq![3int, 3, -12, -6, -8, 4, 8, 8, 8, 6, -4, -5]
        } else if inst == 3 {
            seq![0int, 8, -10, -8, 6, 5, -9, -11, -16]
        } else {
            seq![6int, 4, 2, -8, 4, -6, -3, -3, 4]
        }),
{
    assert(body_of(inst).sig.map_values(|m: Mode| m.0 as int) =~= (if inst == 1 {
        seq![224int, 305, 350, 390, 450, 560, 720, 950, 1078, 1504]
    } else if inst == 2 {
        seq![100int, 155, 170, 195, 203, 219, 277, 302, 400, 550, 900, 1100]
    } else if inst == 3 {
        seq![65int, 100, 130, 150, 200, 250, 300, 400, 600]
    } else {
        seq![275int, 405, 460, 485, 550, 640, 820, 1010, 1220]
    }));
    assert(body_of(inst).sig.map_values(|m: Mode| m.1 as int) =~= (if inst == 1 {
        seq![38int, 40, 36, 40, 42, 30, 24, 22, 20, 20]
    } else if inst == 2 {
        seq![20int, 30, 40, 40, 30, 42, 25, 25, 24, 22, 20, 20]
    } else if inst == 3 {
        seq![20int, 28, 30, 25, 25, 25, 25, 22, 20]
    } else {
        seq![10int, 14, 16, 25, 18, 20, 12, 12, 15]
    }));
    assert(body_of(inst).sig.map_values(|m: Mode| m.2 as int) =~= (if inst == 1 {
        seq![-14int, -18, -12, -12, -2, 4, -2, 0, 0, 2]
    } else if inst == 2 {
        seq![3int, 3, -12, -6, -8, 4, 8, 8, 8, 6, -4, -5]
    } else if inst == 3 {
        seq![0int, 8, -10, -8, 6, 5, -9, -11, -16]
    } else {
        seq![6int, 4, 2, -8, 4, -6, -3, -3, 4]
    }));
}

/// A larger body resonates lower: its main air, its hill, its roll-offs and
/// the end of its bank lie no higher than those of a smaller one. Every body
/// rolls off above its hill, and radiates from its own low corner up.
pub proof fn law_larger_bodies_resonate_lower(small: int, large: int)
    requires
        0 <= small < large < 4,
    ensures
        body_of(large).sig[0].0 < body_of(small).sig[0].0,
        body_of(large).hill_f < body_of(small).hill_f,
        body_of(large).roll_f < body_of(small).roll_f,
        body_of(large).bank_from < body_of(small).bank_from,
        body_of(large).bank_to <= body_of(small).bank_to,
        body_of(large).level_spacing < body_of(small).level_spacing,
        body_of(large).hp_f <= body_of(small).hp_f,
        body_of(large).lp_f < body_of(small).lp_f,
        body_of(small).hill_f < body_of(small).roll_f,
        body_of(small).hp_f < body_of(small).lp_f,
        body_of(small).roll_db_oct < 0 && body_of(small).roll2_db_oct < 0,
{
}

/// A body is shown as it is.
pub proof fn law_a_body_is_shown_as_it_is(b: BodySpec)
    ensures
        b@.sig == b.sig@,
        b@.bank_from == b.bank_from,
        b@.bank_to == b.bank_to,
        b@.level_spacing == b.level_spacing,
        b@.bank_db == b.bank_db,
        b@.hill_f == b.hill_f,
        b@.hill_gain == b.hill_gain,
        b@.roll_f == b.roll_f,
        b@.roll_db_oct == b.roll_db_oct,
        b@.roll2_f == b.roll2_f,
        b@.roll2_db_oct == b.roll2_db_oct,
        b@.hp_f == b.hp_f,
        b@.lp_f == b.lp_f,
{
}

/// The bank of the first player of a body starts from the body alone, and a
/// detune turns the bits of its own pattern.
pub proof fn law_a_bank_is_seeded_by_body_and_detune(inst: u32, detune: Single)
    ensures
        bank_seed_of(inst, Single { bits: 0 }) == 2654435769u32 ^ (((inst + 1) * 2654435761) % 0x1_0000_0000) as u32,
        bank_seed_of(inst, detune) == bank_seed_of(inst, Single { bits: 0 }) ^ detune.bits,
{
    let k = 0x9E37_79B9u32 ^ inst.wrapping_add(1).wrapping_mul(2654435761);
    assert(k ^ 0u32 == k) by (bit_vector);
    let m = 0x1_0000_0000int;
    vstd::arithmetic::div_mod::lemma_mul_mod_noop_left(inst + 1, 2654435761, m);
}

} // verus!
