//! Where a note is played: the body, the string and the finger's place on it,
//! and what was measured of each string.

use vstd::prelude::*;
use crate::patch::{ArchetPatch, PatchView};
use crate::single::Single;

verus! {

/// The body a note is played on: the patch's, or by its pitch on a full-range
/// desk. G3 and above is the violin's, C3 to F sharp 3 the viola's, C2 to B2
/// the cello's, and what is below the bass's.
pub open spec fn body_for(note: u8, p: PatchView) -> int {
    if !p.auto_range {
        p.instrument.index()
    } else if note >= 55 {
        0
    } else if note >= 48 {
        1
    } else if note >= 36 {
        2
    } else {
        3
    }
}

/// The instrument a note is played on.
pub fn inst_for(note: u8, patch: &ArchetPatch) -> (r: usize)
    ensures
        r == body_for(note, patch@),
        r < 4,
{
    if patch.auto_range {
        if note >= 55 {
            0
        } else if note >= 48 {
            1
        } else if note >= 36 {
            2
        } else {
            3
        }
    } else {
        patch.instrument.body_index()
    }
}

/// The open strings of a body, low to high, as MIDI notes: four fifths on
/// the violin, the viola and the cello, four fourths on the bass.
pub open spec fn open_strings(body: int) -> Seq<u8> {
    if body == 0 {
        seq![55u8, 62, 69, 76]
    } else if body == 1 {
        seq![48u8, 55, 62, 69]
    } else if body == 2 {
        seq![36u8, 43, 50, 57]
    } else {
        seq![28u8, 33, 38, 43]
    }
}

/// The string a note is played on in first position: the highest open string
/// at or below it, and the lowest where there is none.
pub open spec fn string_index(body: int, note: u8) -> int {
    let opens = open_strings(body);
    if opens[3] <= note {
        3
    } else if opens[2] <= note {
        2
    } else if opens[1] <= note {
        1
    } else {
        0
    }
}

/// The sounding length of a body's strings, in metres.
pub open spec fn string_length(body: int) -> Single {
    if body == 0 {
        Single::nearest(327, 1000)
    } else if body == 1 {
        Single::nearest(375, 1000)
    } else if body == 2 {
        Single::nearest(685, 1000)
    } else {
        Single::nearest(1105, 1000)
    }
}

/// The string a note is played on: its index, its open note and the body's
/// sounding length, from which the sounding length of a stopped note follows.
/// Tunings are the standard ones; lengths are Fletcher and Rossing, The
/// Physics of Musical Instruments, table 10.1, at the middle of each range.
pub fn string_for(body_index: usize, note: u8) -> (r: (usize, u8, Single))
    ensures
        r.0 == string_index(body_index as int, note),
        r.0 < 4,
        r.1 == open_strings(body_index as int)[r.0 as int],
        r.2 == string_length(body_index as int),
{
    let (opens, length): ([u8; 4], Single) = if body_index == 0 {
        ([55, 62, 69, 76], Single::ratio(327, 1000))
    } else if body_index == 1 {
        ([48, 55, 62, 69], Single::ratio(375, 1000))
    } else if body_index == 2 {
        ([36, 43, 50, 57], Single::ratio(685, 1000))
    } else {
        ([28, 33, 38, 43], Single::ratio(1105, 1000))
    };
    assert(opens@ =~= open_strings(body_index as int));
    let string: usize = if opens[3] <= note {
        3
    } else if opens[2] <= note {
        2
    } else if opens[1] <= note {
        1
    } else {
        0
    };
    (string, opens[string], length)
}

/// A note at or above a body's lowest open string is stopped on a string at
/// or below it, and the next string up, where there is one, is above it.
pub proof fn law_first_position(body: int, note: u8)
    requires
        open_strings(body)[0] <= note,
    ensures
        open_strings(body)[string_index(body, note)] <= note,
        string_index(body, note) < 3 ==> note < open_strings(body)[string_index(body, note) + 1],
{
}

// The decay of the open strings, plucked: the University of Iowa Electronic
// Music Studios samples, anechoic, one exponential fitted per partial. Pairs
// of tenths of a hertz and hundredths of a second to sixty dB down.
pub const VIOLIN_G: [(u32, u32); 7] = [
    (1947, 551),
    (3880, 215),
    (7801, 200),
    (9754, 239),
    (11712, 98),
    (13630, 141),
    (15582, 149),
];

pub const VIOLIN_D: [(u32, u32); 4] = [
    (2910, 386),
    (5814, 247),
    (8714, 129),
    (11637, 158),
];

pub const VIOLIN_A: [(u32, u32); 3] = [
    (4402, 331),
    (17555, 22),
    (26410, 27),
];

pub const VIOLIN_E: [(u32, u32); 6] = [
    (6577, 263),
    (13166, 102),
    (19692, 96),
    (26331, 70),
    (32913, 122),
    (39475, 26),
];

pub const VIOLA_C: [(u32, u32); 8] = [
    (1302, 1200),
    (2600, 1310),
    (3918, 290),
    (5227, 263),
    (6521, 119),
    (7846, 165),
    (9137, 127),
    (10496, 144),
];

pub const VIOLA_G: [(u32, u32); 4] = [
    (1948, 516),
    (9781, 137),
    (11773, 119),
    (13680, 167),
];

pub const VIOLA_D: [(u32, u32); 5] = [
    (2925, 348),
    (8790, 201),
    (14666, 119),
    (17637, 71),
    (20537, 48),
];

pub const VIOLA_A: [(u32, u32); 5] = [
    (4380, 122),
    (8815, 319),
    (13177, 123),
    (21949, 66),
    (30774, 81),
];

pub const CELLO_C: [(u32, u32); 6] = [
    (658, 708),
    (1306, 513),
    (2619, 554),
    (3286, 325),
    (4602, 286),
    (5266, 168),
];

pub const CELLO_G: [(u32, u32); 7] = [
    (981, 963),
    (4902, 348),
    (5885, 312),
    (6874, 336),
    (7863, 96),
    (8834, 120),
    (9821, 137),
];

pub const CELLO_D: [(u32, u32); 6] = [
    (1454, 852),
    (2924, 191),
    (4399, 224),
    (7330, 267),
    (10277, 165),
    (14669, 144),
];

pub const CELLO_A: [(u32, u32); 6] = [
    (2192, 286),
    (4389, 375),
    (6587, 141),
    (10968, 188),
    (15378, 226),
    (17555, 97),
];

pub const BASS_E: [(u32, u32); 3] = [
    (410, 1080),
    (816, 900),
    (1247, 306),
];

pub const BASS_A: [(u32, u32); 5] = [
    (545, 668),
    (1104, 123),
    (2206, 273),
    (3877, 130),
    (4446, 109),
];

pub const BASS_D: [(u32, u32); 9] = [
    (727, 1140),
    (1458, 649),
    (2190, 460),
    (2920, 795),
    (3653, 398),
    (4380, 393),
    (5843, 269),
    (6614, 94),
    (7308, 152),
];

pub const BASS_G: [(u32, u32); 8] = [
    (965, 219),
    (1953, 200),
    (2933, 415),
    (3909, 479),
    (4891, 553),
    (6858, 333),
    (7845, 124),
    (9824, 137),
];

/// What was measured of a plucked open string, in tenths of a hertz and
/// hundredths of a second.
pub open spec fn measured(body: int, string: int) -> Seq<(u32, u32)> {
    if body == 0 {
        if string == 0 {
            VIOLIN_G@
        } else if string == 1 {
            VIOLIN_D@
        } else if string == 2 {
            VIOLIN_A@
        } else {
            VIOLIN_E@
        }
    } else if body == 1 {
        if string == 0 {
            VIOLA_C@
        } else if string == 1 {
            VIOLA_G@
        } else if string == 2 {
            VIOLA_D@
        } else {
            VIOLA_A@
        }
    } else if body == 2 {
        if string == 0 {
            CELLO_C@
        } else if string == 1 {
            CELLO_G@
        } else if string == 2 {
            CELLO_D@
        } else {
            CELLO_A@
        }
    } else {
        if string == 0 {
            BASS_E@
        } else if string == 1 {
            BASS_A@
        } else if string == 2 {
            BASS_D@
        } else {
            BASS_G@
        }
    }
}

/// A measured point in hertz and seconds.
pub open spec fn reading(point: (u32, u32)) -> (Single, Single) {
    (Single::nearest(point.0 as int, 10), Single::nearest(point.1 as int, 100))
}

/// Measured points in hertz and seconds.
fn readings(points: &[(u32, u32)]) -> (r: Vec<(Single, Single)>)
    requires
        forall|i: int| 0 <= i < points.len() ==> (#[trigger] points[i]).0 < 0x100_0000 && points[i].1 < 0x100_0000,
    ensures
        r.len() == points.len(),
        forall|i: int| 0 <= i < r.len() ==> #[trigger] r@[i] == reading(points[i]),
{
    let mut r: Vec<(Single, Single)> = Vec::new();
    let mut i: usize = 0;
    while i < points.len()
        invariant
            i <= points.len(),
            r.len() == i,
            forall|j: int| 0 <= j < points.len() ==> (#[trigger] points[j]).0 < 0x100_0000 && points[j].1 < 0x100_0000,
            forall|j: int| 0 <= j < i ==> #[trigger] r@[j] == reading(points[j]),
        decreases points.len() - i,
    {
        let (hz, secs): (u32, u32) = points[i];
        r.push((Single::ratio(hz, 10), Single::ratio(secs, 100)));
        i = i + 1;
    }
    r
}

/// The measured decay of a plucked string: pairs of hertz and seconds to
/// sixty dB down. A stopped note on the string reads the same curve at its
/// own partial frequencies.
pub fn measured_pizz_t60(body_index: usize, string: usize) -> (r: Vec<(Single, Single)>)
    ensures
        r@ == measured_curve(body_index as int, string as int),
        r.len() > 0,
{
    let r = open_string_readings(body_index, string);
    assert(r@ =~= measured_curve(body_index as int, string as int));
    r
}

/// The readings of one open string.
fn open_string_readings(body: usize, string: usize) -> (r: Vec<(Single, Single)>)
    ensures
        r.len() == measured(body as int, string as int).len(),
        r.len() > 0,
        forall|i: int| 0 <= i < r.len() ==> #[trigger] r@[i] == reading(measured(body as int, string as int)[i]),
{
    if body == 0 {
        if string == 0 {
            readings(&VIOLIN_G)
        } else if string == 1 {
            readings(&VIOLIN_D)
        } else if string == 2 {
            readings(&VIOLIN_A)
        } else {
            readings(&VIOLIN_E)
        }
    } else if body == 1 {
        if string == 0 {
            readings(&VIOLA_C)
        } else if string == 1 {
            readings(&VIOLA_G)
        } else if string == 2 {
            readings(&VIOLA_D)
        } else {
            readings(&VIOLA_A)
        }
    } else if body == 2 {
        if string == 0 {
            readings(&CELLO_C)
        } else if string == 1 {
            readings(&CELLO_G)
        } else if string == 2 {
            readings(&CELLO_D)
        } else {
            readings(&CELLO_A)
        }
    } else {
        if string == 0 {
            readings(&BASS_E)
        } else if string == 1 {
            readings(&BASS_A)
        } else if string == 2 {
            readings(&BASS_D)
        } else {
            readings(&BASS_G)
        }
    }
}

/// Where a frequency falls on a measured curve.
#[derive(Clone, Copy, Debug, PartialEq, Eq, Structural)]
pub enum Segment {
    /// At or beyond an end: the value of this point holds.
    Held(usize),
    /// Between this point and the next.
    Between(usize),
}

/// Whether a frequency lies within the step from point `i` to the next.
pub open spec fn within(table: Seq<(Single, Single)>, hz: Single, i: int) -> bool {
    &&& 0 <= i < table.len() - 1
    &&& hz.number() && table[i].0.number() && table[i + 1].0.number()
    &&& table[i].0.units() <= hz.units() <= table[i + 1].0.units()
}

/// Whether a frequency is at or below the first point.
pub open spec fn below(table: Seq<(Single, Single)>, hz: Single) -> bool {
    hz.number() && table[0].0.number() && hz.units() <= table[0].0.units()
}

/// Whether a frequency is at or above the last point.
pub open spec fn above(table: Seq<(Single, Single)>, hz: Single) -> bool {
    hz.number() && table.last().0.number() && hz.units() >= table.last().0.units()
}

/// Where a frequency falls on a measured curve: held at the end values beyond
/// the points, and on the first step that brackets it between them.
pub fn t60_segment(table: &Vec<(Single, Single)>, hz: Single) -> (r: Segment)
    requires
        table.len() > 0,
    ensures
        match r {
            Segment::Held(i) => {
                ||| i == 0 && below(table@, hz)
                ||| i == table.len() - 1 && !below(table@, hz) && (above(table@, hz) || forall|j: int|
                    !#[trigger] within(table@, hz, j))
            },
            Segment::Between(i) => {
                &&& !below(table@, hz) && !above(table@, hz)
                &&& within(table@, hz, i as int)
                &&& forall|j: int| 0 <= j < i ==> !#[trigger] within(table@, hz, j)
            },
        },
{
    let last: usize = table.len() - 1;
    if hz.le(table[0].0) {
        return Segment::Held(0);
    }
    if hz.ge(table[last].0) {
        return Segment::Held(last);
    }
    let mut i: usize = 0;
    while i < last
        invariant
            last == table.len() - 1,
            i <= last,
            !below(table@, hz),
            !above(table@, hz),
            forall|j: int| 0 <= j < i ==> !#[trigger] within(table@, hz, j),
        decreases last - i,
    {
        if hz.ge(table[i].0) && hz.le(table[i + 1].0) {
            return Segment::Between(i);
        }
        i = i + 1;
    }
    Segment::Held(last)
}

/// Whether the frequencies of a curve ascend.
pub open spec fn ascending(table: Seq<(Single, Single)>) -> bool {
    &&& forall|i: int| 0 <= i < table.len() ==> (#[trigger] table[i]).0.number()
    &&& forall|i: int, j: int|
        0 <= i <= j < table.len() ==> (#[trigger] table[i]).0.units() <= (#[trigger] table[j]).0.units()
}

/// Whether no two frequencies of a curve are alike, and each is above the one
/// before it.
pub open spec fn rising(table: Seq<(Single, Single)>) -> bool {
    forall|i: int, j: int|
        0 <= i < j < table.len() ==> (#[trigger] table[i]).0.units() < (#[trigger] table[j]).0.units()
}

/// On a curve whose frequencies ascend, every frequency between the ends is
/// bracketed by two neighbouring points, so no decay is read off the wrong
/// step.
pub proof fn law_every_frequency_is_bracketed(table: Seq<(Single, Single)>, hz: Single)
    requires
        ascending(table),
        table.len() > 0,
        hz.number(),
    ensures
        below(table, hz) || above(table, hz) || exists|i: int| #[trigger] within(table, hz, i),
{
    if !below(table, hz) && !above(table, hz) {
        lemma_bracket(table, hz, 0);
    }
}

proof fn lemma_bracket(table: Seq<(Single, Single)>, hz: Single, i: int)
    requires
        ascending(table),
        hz.number(),
        0 <= i < table.len(),
        table[i].0.units() <= hz.units(),
        hz.units() < table.last().0.units(),
    ensures
        exists|j: int| #[trigger] within(table, hz, j),
    decreases table.len() - i,
{
    assert(i < table.len() - 1);
    if hz.units() <= table[i + 1].0.units() {
        assert(within(table, hz, i));
    } else {
        lemma_bracket(table, hz, i + 1);
    }
}

/// What was measured of a plucked open string, in hertz and seconds.
pub open spec fn measured_curve(body: int, string: int) -> Seq<(Single, Single)> {
    Seq::new(measured(body, string).len(), |i: int| reading(measured(body, string)[i]))
}

/// The frequencies of every measured curve ascend, no two of them alike.
pub proof fn law_measured_curves_ascend(body: int, string: int)
    ensures
        ascending(measured_curve(body, string)),
        rising(measured_curve(body, string)),
        measured_curve(body, string).len() > 0,
{
    let points = measured(body, string);
    let curve = measured_curve(body, string);
    assert forall|i: int| 0 <= i < curve.len() implies (#[trigger] curve[i]).0.number() by {
        assert(points[i].0 < 0x100_0000);
        crate::single::lemma_nearest_exists(points[i].0 as int, 10);
    }
    assert forall|i: int, j: int| 0 <= i < j < curve.len() implies (#[trigger] curve[i]).0.units() < (
    #[trigger] curve[j]).0.units() by {
        assert(0 < points[i].0 < points[j].0 <= 40_960);
        crate::single::lemma_tenths_apart(points[i].0 as int, points[j].0 as int);
    }
}

/// The corner of a plucked string's rounding, in hertz, per body and string.
/// Calibrated on the recordings the decays come from; where the recording is
/// as bright as the model, no corner applies.
pub open spec fn corner_hz(body: int, string: int) -> int {
    let row = if body == 0 {
        seq![900int, 1000, 20000, 20000]
    } else if body == 1 {
        seq![566int, 1091, 1246, 1573]
    } else if body == 2 {
        seq![463int, 1496, 2086, 1857]
    } else {
        seq![2276int, 3039, 1593, 5414]
    };
    if string < 3 {
        row[string]
    } else {
        row[3]
    }
}

/// How rounded the released shape of a plucked string is: the corner of the
/// weight applied to its modes, in hertz.
pub fn attack_corner(body_index: usize, string: usize) -> (r: Single)
    ensures
        r == Single::nearest(corner_hz(body_index as int, string as int), 1),
{
    let row: [u32; 4] = if body_index == 0 {
        [900, 1000, 20000, 20000]
    } else if body_index == 1 {
        [566, 1091, 1246, 1573]
    } else if body_index == 2 {
        [463, 1496, 2086, 1857]
    } else {
        [2276, 3039, 1593, 5414]
    };
    let hz: u32 = row[if string < 3 {
        string
    } else {
        3
    }];
    assert(hz == corner_hz(body_index as int, string as int));
    Single::ratio(hz, 1)
}

/// A body's level.
pub open spec fn level_of(body: int) -> Single {
    if body == 0 {
        Single::nearest(100, 100)
    } else if body == 1 {
        Single::nearest(97, 100)
    } else if body == 2 {
        Single::nearest(145, 100)
    } else {
        Single::nearest(285, 100)
    }
}

/// How much a body's tone fluctuates.
pub open spec fn liveliness_of(body: int) -> Single {
    if body == 0 {
        Single::nearest(100, 100)
    } else if body == 1 {
        Single::nearest(70, 100)
    } else if body == 2 {
        Single::nearest(48, 100)
    } else {
        Single::nearest(36, 100)
    }
}

/// How rough a body's string slips.
pub open spec fn slip_of(body: int) -> Single {
    if body == 0 {
        Single::nearest(12, 100)
    } else if body == 1 {
        Single::nearest(5, 100)
    } else {
        Single::nearest(2, 100)
    }
}

/// A body's level, so that the four instruments play at the same loudness:
/// the figures undo what each measured body takes from the string's level.
pub fn inst_level(idx: usize) -> (r: Single)
    ensures
        r == level_of(idx as int),
{
    if idx == 0 {
        Single::ratio(100, 100)
    } else if idx == 1 {
        Single::ratio(97, 100)
    } else if idx == 2 {
        Single::ratio(145, 100)
    } else {
        Single::ratio(285, 100)
    }
}

/// How much a body's tone fluctuates: a bowed bass or cello sustains far
/// steadier than a violin.
pub fn alive(idx: usize) -> (r: Single)
    ensures
        r == liveliness_of(idx as int),
{
    if idx == 0 {
        Single::ratio(100, 100)
    } else if idx == 1 {
        Single::ratio(70, 100)
    } else if idx == 2 {
        Single::ratio(48, 100)
    } else {
        Single::ratio(36, 100)
    }
}

/// How rough a body's string slips: a touch on the violin, near none on the
/// low strings.
pub fn slip_noise(idx: usize) -> (r: Single)
    ensures
        r == slip_of(idx as int),
{
    if idx == 0 {
        Single::ratio(12, 100)
    } else if idx == 1 {
        Single::ratio(5, 100)
    } else {
        Single::ratio(2, 100)
    }
}

/// The string of a body as the modal model reads it.
#[derive(Clone, Copy, Debug, PartialEq, Eq, Structural)]
pub struct StringLaw {
    /// The damping law's base.
    pub b1: Single,
    /// The damping law's growth with the partial, before the pitch scales it.
    pub b2: Single,
    /// The stiffness inharmonicity.
    pub stiff: Single,
    /// The bow's position as a fraction of the length.
    pub beta: Single,
}

/// The string of a body, per instrument.
pub open spec fn string_law(body: int) -> StringLaw {
    if body == 0 {
        StringLaw {
            b1: Single::nearest(16, 10),
            b2: Single::nearest(45, 1000),
            stiff: Single::nearest(2, 100_000),
            beta: Single::nearest(75, 1000),
        }
    } else if body == 1 {
        StringLaw {
            b1: Single::nearest(14, 10),
            b2: Single::nearest(55, 1000),
            stiff: Single::nearest(3, 100_000),
            beta: Single::nearest(80, 1000),
        }
    } else if body == 2 {
        StringLaw {
            b1: Single::nearest(12, 10),
            b2: Single::nearest(60, 1000),
            stiff: Single::nearest(4, 100_000),
            beta: Single::nearest(82, 1000),
        }
    } else {
        StringLaw {
            b1: Single::nearest(10, 10),
            b2: Single::nearest(75, 1000),
            stiff: Single::nearest(6, 100_000),
            beta: Single::nearest(82, 1000),
        }
    }
}

/// The string of a body, before the growth of its damping with the pitch.
pub fn modal_params(body_index: usize) -> (r: StringLaw)
    ensures
        r == string_law(body_index as int),
{
    if body_index == 0 {
        StringLaw {
            b1: Single::ratio(16, 10),
            b2: Single::ratio(45, 1000),
            stiff: Single::ratio(2, 100_000),
            beta: Single::ratio(75, 1000),
        }
    } else if body_index == 1 {
        StringLaw {
            b1: Single::ratio(14, 10),
            b2: Single::ratio(55, 1000),
            stiff: Single::ratio(3, 100_000),
            beta: Single::ratio(80, 1000),
        }
    } else if body_index == 2 {
        StringLaw {
            b1: Single::ratio(12, 10),
            b2: Single::ratio(60, 1000),
            stiff: Single::ratio(4, 100_000),
            beta: Single::ratio(82, 1000),
        }
    } else {
        StringLaw {
            b1: Single::ratio(10, 10),
            b2: Single::ratio(75, 1000),
            stiff: Single::ratio(6, 100_000),
            beta: Single::ratio(82, 1000),
        }
    }
}

/// A body has four strings, tuned in fifths from its lowest, G3 on the
/// violin, C3 on the viola and C2 on the cello, and in fourths from E1 on the
/// bass. An open note is played on its own string, and a higher note never on
/// a lower string.
pub proof fn law_strings_are_tuned_in_steps(body: int, string: int, note: u8, higher: u8)
    requires
        0 <= body < 4,
        0 <= string < 3,
        note <= higher,
    ensures
        open_strings(body).len() == 4,
        open_strings(0)[0] == 55,
        open_strings(1)[0] == 48,
        open_strings(2)[0] == 36,
        open_strings(3)[0] == 28,
        open_strings(body)[string + 1] - open_strings(body)[string] == (if body == 3 { 5int } else { 7 }),
        string_index(body, open_strings(body)[string]) == string,
        string_index(body, open_strings(body)[3]) == 3,
        0 <= string_index(body, note) <= string_index(body, higher) < 4,
        note < open_strings(body)[0] ==> string_index(body, note) == 0,
{
}

/// The strings of a larger instrument are longer: a little over three tenths
/// of a metre on the violin, one metre and a tenth on the bass.
pub proof fn law_larger_bodies_have_longer_strings()
    ensures
        string_length(0).units() < string_length(1).units() < string_length(2).units() < string_length(3).units(),
        326 * crate::single::one() < 1000 * string_length(0).units() < 328 * crate::single::one(),
        374 * crate::single::one() < 1000 * string_length(1).units() < 376 * crate::single::one(),
        684 * crate::single::one() < 1000 * string_length(2).units() < 686 * crate::single::one(),
        1104 * crate::single::one() < 1000 * string_length(3).units() < 1106 * crate::single::one(),
{
    crate::single::lemma_landmarks();
    crate::reading::lemma_apart(327, 375, 1000);
    crate::reading::lemma_apart(375, 685, 1000);
    crate::reading::lemma_apart(685, 1105, 1000);
    crate::reading::lemma_nearest_is_close(327, 1000);
    crate::reading::lemma_nearest_is_close(375, 1000);
    crate::reading::lemma_nearest_is_close(685, 1000);
    crate::reading::lemma_nearest_is_close(1105, 1000);
}

/// The pitch a string is tuned to, in tenths of a hertz: equal temperament,
/// A4 at 440 Hz.
pub open spec fn tuned_to(note: u8) -> int {
    if note == 28 {
        412
    } else if note == 33 {
        550
    } else if note == 36 {
        654
    } else if note == 38 {
        734
    } else if note == 43 {
        980
    } else if note == 48 {
        1308
    } else if note == 50 {
        1468
    } else if note == 55 {
        1960
    } else if note == 57 {
        2200
    } else if note == 62 {
        2937
    } else if note == 69 {
        4400
    } else {
        6593
    }
}

/// What was measured is what was plucked: the lowest partial of every string
/// lies within two parts in a hundred of the pitch the string is tuned to,
/// and every partial within a tenth of the pitch of one of its first ten
/// harmonics. Every partial rings for a fifth of a second at least and for
/// fourteen at most.
pub proof fn law_measured_partials_are_harmonics(body: int, string: int, i: int)
    requires
        0 <= body < 4,
        0 <= string < 4,
        0 <= i < measured(body, string).len(),
    ensures
        ({
            let f = tuned_to(open_strings(body)[string]);
            let hz = measured(body, string)[i].0;
            &&& i == 0 ==> 98 * f <= 100 * hz <= 102 * f
            &&& exists|n: int| 1 <= n <= 10 && -f <= 10 * hz - 10 * #[trigger] (n * f) <= f
        }),
        20 <= measured(body, string)[i].1 <= 1400,
{
    let f = tuned_to(open_strings(body)[string]);
    let hz = measured(body, string)[i].0;
    let n = (hz + f / 2) / f;
    assert(1 <= n <= 10 && -f <= 10 * hz - 10 * (n * f) <= f);
}

/// The figures of each body: its level, its liveliness, its roughness, and
/// the string the modal model reads.
pub proof fn law_each_body_has_its_figures(body: int)
    requires
        0 <= body < 4,
    ensures
        level_of(body) == (if body == 0 {
            Single::nearest(100, 100)
        } else if body == 1 {
            Single::nearest(97, 100)
        } else if body == 2 {
            Single::nearest(145, 100)
        } else {
            Single::nearest(285, 100)
        }),
        liveliness_of(body) == (if body == 0 {
            Single::nearest(100, 100)
        } else if body == 1 {
            Single::nearest(70, 100)
        } else if body == 2 {
            Single::nearest(48, 100)
        } else {
            Single::nearest(36, 100)
        }),
        slip_of(body) == (if body == 0 {
            Single::nearest(12, 100)
        } else if body == 1 {
            Single::nearest(5, 100)
        } else if body == 2 {
            Single::nearest(2, 100)
        } else {
            Single::nearest(2, 100)
        }),
        string_law(body).b1 == (if body == 0 {
            Single::nearest(16, 10)
        } else if body == 1 {
            Single::nearest(14, 10)
        } else if body == 2 {
            Single::nearest(12, 10)
        } else {
            Single::nearest(10, 10)
        }),
        string_law(body).b2 == (if body == 0 {
            Single::nearest(45, 1000)
        } else if body == 1 {
            Single::nearest(55, 1000)
        } else if body == 2 {
            Single::nearest(60, 1000)
        } else {
            Single::nearest(75, 1000)
        }),
        string_law(body).stiff == (if body == 0 {
            Single::nearest(2, 100_000)
        } else if body == 1 {
            Single::nearest(3, 100_000)
        } else if body == 2 {
            Single::nearest(4, 100_000)
        } else {
            Single::nearest(6, 100_000)
        }),
        string_law(body).beta == (if body == 0 {
            Single::nearest(75, 1000)
        } else if body == 1 {
            Single::nearest(80, 1000)
        } else if body == 2 {
            Single::nearest(82, 1000)
        } else {
            Single::nearest(82, 1000)
        }),
{
}

/// A larger body is steadier and smoother, its strings stiffer and damped
/// less at the bottom and more with the partial.
pub proof fn law_larger_bodies_are_steadier(small: int, large: int)
    requires
        0 <= small < large < 4,
    ensures
        liveliness_of(large).units() < liveliness_of(small).units(),
        slip_of(large).units() <= slip_of(small).units(),
        string_law(large).b1.units() < string_law(small).b1.units(),
        string_law(small).b2.units() < string_law(large).b2.units(),
        string_law(small).stiff.units() < string_law(large).stiff.units(),
        string_law(small).beta.units() <= string_law(large).beta.units(),
{
    crate::reading::lemma_apart(70, 100, 100);
    crate::reading::lemma_apart(48, 70, 100);
    crate::reading::lemma_apart(36, 48, 100);
    crate::reading::lemma_apart(5, 12, 100);
    crate::reading::lemma_apart(2, 5, 100);
    crate::reading::lemma_apart(14, 16, 10);
    crate::reading::lemma_apart(12, 14, 10);
    crate::reading::lemma_apart(10, 12, 10);
    crate::reading::lemma_apart(45, 55, 1000);
    crate::reading::lemma_apart(55, 60, 1000);
    crate::reading::lemma_apart(60, 75, 1000);
    crate::reading::lemma_apart(2, 3, 100_000);
    crate::reading::lemma_apart(3, 4, 100_000);
    crate::reading::lemma_apart(4, 6, 100_000);
    crate::reading::lemma_apart(75, 80, 1000);
    crate::reading::lemma_apart(80, 82, 1000);
}

/// The corner of a pluck, string by string: no corner on the violin's upper
/// two, and the strings past the third share the last one's.
pub proof fn law_each_string_has_its_corner(body: int, string: int)
    requires
        0 <= body < 4,
        0 <= string,
    ensures
        string == 0 ==> corner_hz(body, string) == (if body == 0 {
            900int
        } else if body == 1 {
            566int
        } else if body == 2 {
            463int
        } else {
            2276int
        }),
        string == 1 ==> corner_hz(body, string) == (if body == 0 {
            1000int
        } else if body == 1 {
            1091int
        } else if body == 2 {
            1496int
        } else {
            3039int
        }),
        string == 2 ==> corner_hz(body, string) == (if body == 0 {
            20000int
        } else if body == 1 {
            1246int
        } else if body == 2 {
            2086int
        } else {
            1593int
        }),
        string >= 3 ==> corner_hz(body, string) == (if body == 0 {
            20000int
        } else if body == 1 {
            1573int
        } else if body == 2 {
            1857int
        } else {
            5414int
        }),
{
}

/// A measured point is read in hertz and in seconds.
pub proof fn law_a_point_is_read_in_hertz_and_seconds(point: (u32, u32))
    requires
        0 < point.0 < 0x100_0000,
        0 < point.1 < 0x100_0000,
    ensures
        reading(point).0 == Single::nearest(point.0 as int, 10),
        reading(point).1 == Single::nearest(point.1 as int, 100),
{
}

/// The partials of an open string, in tenths of a hertz.
pub open spec fn partials(body: int, string: int) -> Seq<int> {
    measured(body, string).map_values(|p: (u32, u32)| p.0 as int)
}

/// How long they ring, in hundredths of a second.
pub open spec fn decays(body: int, string: int) -> Seq<int> {
    measured(body, string).map_values(|p: (u32, u32)| p.1 as int)
}

/// Where the partials of the violin's strings were measured, in tenths of a hertz.
pub proof fn law_the_partials_of_a_violin(string: int)
    requires
        0 <= string,
    ensures
        string == 0 ==> partials(0, string) == seq![1947int, 3880, 7801, 9754, 11712, 13630, 15582],
        string == 1 ==> partials(0, string) == seq![2910int, 5814, 8714, 11637],
        string == 2 ==> partials(0, string) == seq![4402int, 17555, 26410],
        string >= 3 ==> partials(0, string) == seq![6577int, 13166, 19692, 26331, 32913, 39475],
{
    if string == 0 {
        assert(partials(0, string) =~= seq![1947int, 3880, 7801, 9754, 11712, 13630, 15582]);
    }
    if string == 1 {
        assert(partials(0, string) =~= seq![2910int, 5814, 8714, 11637]);
    }
    if string == 2 {
        assert(partials(0, string) =~= seq![4402int, 17555, 26410]);
    }
    if string >= 3 {
        assert(partials(0, string) =~= seq![6577int, 13166, 19692, 26331, 32913, 39475]);
    }
}

/// How long the partials of the violin's strings were measured to ring, in hundredths
/// of a second.
pub proof fn law_the_decays_of_a_violin(string: int)
    requires
        0 <= string,
    ensures
        string == 0 ==> decays(0, string) == seq![551int, 215, 200, 239, 98, 141, 149],
        string == 1 ==> decays(0, string) == seq![386int, 247, 129, 158],
        string == 2 ==> decays(0, string) == seq![331int, 22, 27],
        string >= 3 ==> decays(0, string) == seq![263int, 102, 96, 70, 122, 26],
{
    if string == 0 {
        assert(decays(0, string) =~= seq![551int, 215, 200, 239, 98, 141, 149]);
    }
    if string == 1 {
        assert(decays(0, string) =~= seq![386int, 247, 129, 158]);
    }
    if string == 2 {
        assert(decays(0, string) =~= seq![331int, 22, 27]);
    }
    if string >= 3 {
        assert(decays(0, string) =~= seq![263int, 102, 96, 70, 122, 26]);
    }
}

/// Where the partials of the viola's strings were measured, in tenths of a hertz.
pub proof fn law_the_partials_of_a_viola(string: int)
    requires
        0 <= string,
    ensures
        string == 0 ==> partials(1, string) == seq![1302int, 2600, 3918, 5227, 6521, 7846, 9137, 10496],
        string == 1 ==> partials(1, string) == seq![1948int, 9781, 11773, 13680],
        string == 2 ==> partials(1, string) == seq![2925int, 8790, 14666, 17637, 20537],
        string >= 3 ==> partials(1, string) == seq![4380int, 8815, 13177, 21949, 30774],
{
    if string == 0 {
        assert(partials(1, string) =~= seq![1302int, 2600, 3918, 5227, 6521, 7846, 9137, 10496]);
    }
    if string == 1 {
        assert(partials(1, string) =~= seq![1948int, 9781, 11773, 13680]);
    }
    if string == 2 {
        assert(partials(1, string) =~= seq![2925int, 8790, 14666, 17637, 20537]);
    }
    if string >= 3 {
        assert(partials(1, string) =~= seq![4380int, 8815, 13177, 21949, 30774]);
    }
}

/// How long the partials of the viola's strings were measured to ring, in hundredths
/// of a second.
pub proof fn law_the_decays_of_a_viola(string: int)
    requires
        0 <= string,
    ensures
        string == 0 ==> decays(1, string) == seq![1200int, 1310, 290, 263, 119, 165, 127, 144],
        string == 1 ==> decays(1, string) == seq![516int, 137, 119, 167],
        string == 2 ==> decays(1, string) == seq![348int, 201, 119, 71, 48],
        string >= 3 ==> decays(1, string) == seq![122int, 319, 123, 66, 81],
{
    if string == 0 {
        assert(decays(1, string) =~= seq![1200int, 1310, 290, 263, 119, 165, 127, 144]);
    }
    if string == 1 {
        assert(decays(1, string) =~= seq![516int, 137, 119, 167]);
    }
    if string == 2 {
        assert(decays(1, string) =~= seq![348int, 201, 119, 71, 48]);
    }
    if string >= 3 {
        assert(decays(1, string) =~= seq![122int, 319, 123, 66, 81]);
    }
}

/// Where the partials of the cello's strings were measured, in tenths of a hertz.
pub proof fn law_the_partials_of_a_cello(string: int)
    requires
        0 <= string,
    ensures
        string == 0 ==> partials(2, string) == seq![658int, 1306, 2619, 3286, 4602, 5266],
        string == 1 ==> partials(2, string) == seq![981int, 4902, 5885, 6874, 7863, 8834, 9821],
        string == 2 ==> partials(2, string) == seq![1454int, 2924, 4399, 7330, 10277, 14669],
        string >= 3 ==> partials(2, string) == seq![2192int, 4389, 6587, 10968, 15378, 17555],
{
    if string == 0 {
        assert(partials(2, string) =~= seq![658int, 1306, 2619, 3286, 4602, 5266]);
    }
    if string == 1 {
        assert(partials(2, string) =~= seq![981int, 4902, 5885, 6874, 7863, 8834, 9821]);
    }
    if string == 2 {
        assert(partials(2, string) =~= seq![1454int, 2924, 4399, 7330, 10277, 14669]);
    }
    if string >= 3 {
        assert(partials(2, string) =~= seq![2192int, 4389, 6587, 10968, 15378, 17555]);
    }
}

/// How long the partials of the cello's strings were measured to ring, in hundredths
/// of a second.
pub proof fn law_the_decays_of_a_cello(string: int)
    requires
        0 <= string,
    ensures
        string == 0 ==> decays(2, string) == seq![708int, 513, 554, 325, 286, 168],
        string == 1 ==> decays(2, string) == seq![963int, 348, 312, 336, 96, 120, 137],
        string == 2 ==> decays(2, string) == seq![852int, 191, 224, 267, 165, 144],
        string >= 3 ==> decays(2, string) == seq![286int, 375, 141, 188, 226, 97],
{
    if string == 0 {
        assert(decays(2, string) =~= seq![708int, 513, 554, 325, 286, 168]);
    }
    if string == 1 {
        assert(decays(2, string) =~= seq![963int, 348, 312, 336, 96, 120, 137]);
    }
    if string == 2 {
        assert(decays(2, string) =~= seq![852int, 191, 224, 267, 165, 144]);
    }
    if string >= 3 {
        assert(decays(2, string) =~= seq![286int, 375, 141, 188, 226, 97]);
    }
}

/// Where the partials of the bass's strings were measured, in tenths of a hertz.
pub proof fn law_the_partials_of_a_bass(string: int)
    requires
        0 <= string,
    ensures
        string == 0 ==> partials(3, string) == seq![410int, 816, 1247],
        string == 1 ==> partials(3, string) == seq![545int, 1104, 2206, 3877, 4446],
        string == 2 ==> partials(3, string) == seq![727int, 1458, 2190, 2920, 3653, 4380, 5843, 6614, 7308],
        string >= 3 ==> partials(3, string) == seq![965int, 1953, 2933, 3909, 4891, 6858, 7845, 9824],
{
    if string == 0 {
        assert(partials(3, string) =~= seq![410int, 816, 1247]);
    }
    if string == 1 {
        assert(partials(3, string) =~= seq![545int, 1104, 2206, 3877, 4446]);
    }
    if string == 2 {
        assert(partials(3, string) =~= seq![727int, 1458, 2190, 2920, 3653, 4380, 5843, 6614, 7308]);
    }
    if string >= 3 {
        assert(partials(3, string) =~= seq![965int, 1953, 2933, 3909, 4891, 6858, 7845, 9824]);
    }
}

/// How long the partials of the bass's strings were measured to ring, in hundredths
/// of a second.
pub proof fn law_the_decays_of_a_bass(string: int)
    requires
        0 <= string,
    ensures
        string == 0 ==> decays(3, string) == seq![1080int, 900, 306],
        string == 1 ==> decays(3, string) == seq![668int, 123, 273, 130, 109],
        string == 2 ==> decays(3, string) == seq![1140int, 649, 460, 795, 398, 393, 269, 94, 152],
        string >= 3 ==> decays(3, string) == seq![219int, 200, 415, 479, 553, 333, 124, 137],
{
    if string == 0 {
        assert(decays(3, string) =~= seq![1080int, 900, 306]);
    }
    if string == 1 {
        assert(decays(3, string) =~= seq![668int, 123, 273, 130, 109]);
    }
    if string == 2 {
        assert(decays(3, string) =~= seq![1140int, 649, 460, 795, 398, 393, 269, 94, 152]);
    }
    if string >= 3 {
        assert(decays(3, string) =~= seq![219int, 200, 415, 479, 553, 333, 124, 137]);
    }
}

} // verus!
