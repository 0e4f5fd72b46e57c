//! The panel's knobs: what each is called, the field it turns, and the range
//! and unit it turns it in.

use vstd::prelude::*;
use crate::engine::PLAYERS_MAX;
use crate::patch::ArchetParam;
use crate::single::Single;

verus! {

/// A knob on the panel.
#[derive(Clone, Copy, Debug)]
pub struct Control {
    pub label: &'static str,
    pub param: ArchetParam,
    pub lo: Single,
    pub hi: Single,
    /// How its value is written: a percentage, hertz, seconds, cents, dB, a
    /// fraction, or a plain number.
    pub unit: &'static str,
}

/// What a [`Control`] says.
pub struct ControlView {
    pub label: Seq<char>,
    pub param: ArchetParam,
    pub lo: Single,
    pub hi: Single,
    pub unit: Seq<char>,
}

impl View for Control {
    type V = ControlView;

    open spec fn view(&self) -> ControlView {
        ControlView { label: self.label@, param: self.param, lo: self.lo, hi: self.hi, unit: self.unit@ }
    }
}

/// A body as the rail names it.
pub open spec fn rail_name(body: int) -> Seq<char> {
    if body == 0 {
        "VIOLIN"@
    } else if body == 1 {
        "VIOLA"@
    } else if body == 2 {
        "CELLO"@
    } else {
        "BASS"@
    }
}

/// The four bodies as the rail names them, in the order of their indices.
pub fn bodies() -> (r: [&'static str; 4])
    ensures
        forall|i: int| 0 <= i < 4 ==> (#[trigger] r@[i])@ == rail_name(i),
{
    ["VIOLIN", "VIOLA", "CELLO", "BASS"]
}

/// The bow's knobs.
pub open spec fn bow_views() -> Seq<ControlView> {
    seq![
        ControlView {
            label: "POSITION"@,
            param: ArchetParam::BowPos,
            lo: Single::nearest(2, 100),
            hi: Single::nearest(30, 100),
            unit: "f"@,
        },
        ControlView {
            label: "FORCE"@,
            param: ArchetParam::BowForce,
            lo: Single::nearest(0, 1),
            hi: Single::nearest(1, 1),
            unit: "%"@,
        },
        ControlView {
            label: "SPEED"@,
            param: ArchetParam::BowVel,
            lo: Single::nearest(0, 1),
            hi: Single::nearest(1, 1),
            unit: "%"@,
        },
        ControlView {
            label: "NOISE"@,
            param: ArchetParam::BowNoise,
            lo: Single::nearest(0, 1),
            hi: Single::nearest(1, 1),
            unit: "%"@,
        },
        ControlView {
            label: "DAMPING"@,
            param: ArchetParam::Loss,
            lo: Single::nearest(0, 1),
            hi: Single::nearest(1, 1),
            unit: "%"@,
        },
    ]
}

/// The bow's knobs.
pub fn bow_controls() -> (r: Vec<Control>)
    ensures
        r.len() == bow_views().len(),
        forall|i: int| 0 <= i < r.len() ==> (#[trigger] r@[i])@ == bow_views()[i],
{
    vec![
        Control {
            label: "POSITION",
            param: ArchetParam::BowPos,
            lo: Single::ratio(2, 100),
            hi: Single::ratio(30, 100),
            unit: "f",
        },
        Control {
            label: "FORCE",
            param: ArchetParam::BowForce,
            lo: Single::ratio(0, 1),
            hi: Single::ratio(1, 1),
            unit: "%",
        },
        Control {
            label: "SPEED",
            param: ArchetParam::BowVel,
            lo: Single::ratio(0, 1),
            hi: Single::ratio(1, 1),
            unit: "%",
        },
        Control {
            label: "NOISE",
            param: ArchetParam::BowNoise,
            lo: Single::ratio(0, 1),
            hi: Single::ratio(1, 1),
            unit: "%",
        },
        Control {
            label: "DAMPING",
            param: ArchetParam::Loss,
            lo: Single::ratio(0, 1),
            hi: Single::ratio(1, 1),
            unit: "%",
        },
    ]
}

/// The body's one knob.
pub open spec fn body_views() -> Seq<ControlView> {
    seq![
        ControlView {
            label: "HILL"@,
            param: ArchetParam::BridgeHillDb,
            lo: Single::nearest(0, 1),
            hi: Single::nearest(24, 1),
            unit: "dB"@,
        },
    ]
}

/// The body's one knob.
pub fn body_controls() -> (r: Vec<Control>)
    ensures
        r.len() == body_views().len(),
        forall|i: int| 0 <= i < r.len() ==> (#[trigger] r@[i])@ == body_views()[i],
{
    vec![
        Control {
            label: "HILL",
            param: ArchetParam::BridgeHillDb,
            lo: Single::ratio(0, 1),
            hi: Single::ratio(24, 1),
            unit: "dB",
        },
    ]
}

/// The player's knobs, the first row of five and then two.
pub open spec fn player_views() -> Seq<ControlView> {
    seq![
        ControlView {
            label: "ATTACK"@,
            param: ArchetParam::Attack,
            lo: Single::nearest(0, 1),
            hi: Single::nearest(5, 10),
            unit: "s"@,
        },
        ControlView {
            label: "RELEASE"@,
            param: ArchetParam::Release,
            lo: Single::nearest(0, 1),
            hi: Single::nearest(1, 1),
            unit: "s"@,
        },
        ControlView {
            label: "VIB RATE"@,
            param: ArchetParam::VibRate,
            lo: Single::nearest(0, 1),
            hi: Single::nearest(9, 1),
            unit: "Hz"@,
        },
        ControlView {
            label: "VIB DEPTH"@,
            param: ArchetParam::VibDepth,
            lo: Single::nearest(0, 1),
            hi: Single::nearest(60, 1),
            unit: "c"@,
        },
        ControlView {
            label: "VIB DELAY"@,
            param: ArchetParam::VibDelay,
            lo: Single::nearest(0, 1),
            hi: Single::nearest(2, 1),
            unit: "s"@,
        },
        ControlView {
            label: "DYNAMICS"@,
            param: ArchetParam::VelSens,
            lo: Single::nearest(0, 1),
            hi: Single::nearest(1, 1),
            unit: "%"@,
        },
        ControlView {
            label: "TUNE"@,
            param: ArchetParam::TuneCents,
            lo: Single::nearest(50, 1).negated(),
            hi: Single::nearest(50, 1),
            unit: "c"@,
        },
    ]
}

/// The player's knobs, the first row of five and then two.
pub fn player_controls() -> (r: Vec<Control>)
    ensures
        r.len() == player_views().len(),
        forall|i: int| 0 <= i < r.len() ==> (#[trigger] r@[i])@ == player_views()[i],
{
    vec![
        Control {
            label: "ATTACK",
            param: ArchetParam::Attack,
            lo: Single::ratio(0, 1),
            hi: Single::ratio(5, 10),
            unit: "s",
        },
        Control {
            label: "RELEASE",
            param: ArchetParam::Release,
            lo: Single::ratio(0, 1),
            hi: Single::ratio(1, 1),
            unit: "s",
        },
        Control {
            label: "VIB RATE",
            param: ArchetParam::VibRate,
            lo: Single::ratio(0, 1),
            hi: Single::ratio(9, 1),
            unit: "Hz",
        },
        Control {
            label: "VIB DEPTH",
            param: ArchetParam::VibDepth,
            lo: Single::ratio(0, 1),
            hi: Single::ratio(60, 1),
            unit: "c",
        },
        Control {
            label: "VIB DELAY",
            param: ArchetParam::VibDelay,
            lo: Single::ratio(0, 1),
            hi: Single::ratio(2, 1),
            unit: "s",
        },
        Control {
            label: "DYNAMICS",
            param: ArchetParam::VelSens,
            lo: Single::ratio(0, 1),
            hi: Single::ratio(1, 1),
            unit: "%",
        },
        Control {
            label: "TUNE",
            param: ArchetParam::TuneCents,
            lo: Single::ratio(50, 1).neg(),
            hi: Single::ratio(50, 1),
            unit: "c",
        },
    ]
}

/// The section's knob.
pub open spec fn section_views() -> Seq<ControlView> {
    seq![
        ControlView {
            label: "PLAYERS"@,
            param: ArchetParam::Ensemble,
            lo: Single::nearest(0, 1),
            hi: Single::nearest(PLAYERS_MAX as int, 1),
            unit: "n"@,
        },
    ]
}

/// The section's knob.
pub fn section_controls() -> (r: Vec<Control>)
    ensures
        r.len() == section_views().len(),
        forall|i: int| 0 <= i < r.len() ==> (#[trigger] r@[i])@ == section_views()[i],
{
    vec![
        Control {
            label: "PLAYERS",
            param: ArchetParam::Ensemble,
            lo: Single::ratio(0, 1),
            hi: Single::ratio(PLAYERS_MAX, 1),
            unit: "n",
        },
    ]
}

/// Every knob on the panel, top to bottom.
pub open spec fn all_views() -> Seq<ControlView> {
    bow_views() + body_views() + player_views() + section_views()
}

/// No two knobs turn the same field, and each turns a quantity.
pub proof fn law_no_two_knobs_turn_one_field(i: int, j: int)
    requires
        0 <= i < j < all_views().len(),
    ensures
        all_views()[i].param != all_views()[j].param,
        crate::patch::is_quantity(all_views()[i].param),
        crate::patch::is_quantity(all_views()[j].param),
{
    let (a, b, c, d) = (bow_views(), body_views(), player_views(), section_views());
    let all = all_views();
    assert(all.len() == 14);
    assert(forall|k: int| 0 <= k < 5 ==> #[trigger] all[k] == a[k]);
    assert(all[5] == b[0]);
    assert(forall|k: int| 6 <= k < 13 ==> #[trigger] all[k] == c[k - 6]);
    assert(all[13] == d[0]);
}

/// Every knob turns the field it is labelled with, over its own range and in
/// its own unit.
pub proof fn law_every_knob_is_labelled_with_its_field(i: int)
    requires
        0 <= i < 14,
    ensures
        all_views().len() == 14,
        all_views()[i].label == (if i == 0 {
            "POSITION"@
        } else if i == 1 {
            "FORCE"@
        } else if i == 2 {
            "SPEED"@
        } else if i == 3 {
            "NOISE"@
        } else if i == 4 {
            "DAMPING"@
        } else if i == 5 {
            "HILL"@
        } else if i == 6 {
            "ATTACK"@
        } else if i == 7 {
            "RELEASE"@
        } else if i == 8 {
            "VIB RATE"@
        } else if i == 9 {
            "VIB DEPTH"@
        } else if i == 10 {
            "VIB DELAY"@
        } else if i == 11 {
            "DYNAMICS"@
        } else if i == 12 {
            "TUNE"@
        } else {
            "PLAYERS"@
        }),
        all_views()[i].param == (if i == 0 {
            ArchetParam::BowPos
        } else if i == 1 {
            ArchetParam::BowForce
        } else if i == 2 {
            ArchetParam::BowVel
        } else if i == 3 {
            ArchetParam::BowNoise
        } else if i == 4 {
            ArchetParam::Loss
        } else if i == 5 {
            ArchetParam::BridgeHillDb
        } else if i == 6 {
            ArchetParam::Attack
        } else if i == 7 {
            ArchetParam::Release
        } else if i == 8 {
            ArchetParam::VibRate
        } else if i == 9 {
            ArchetParam::VibDepth
        } else if i == 10 {
            ArchetParam::VibDelay
        } else if i == 11 {
            ArchetParam::VelSens
        } else if i == 12 {
            ArchetParam::TuneCents
        } else {
            ArchetParam::Ensemble
        }),
        all_views()[i].lo == (if i == 0 {
            Single::nearest(2, 100)
        } else if i == 1 || i == 2 || i == 3 || i == 4 || i == 5 || i == 6 || i == 7 || i == 8 || i == 9
            || i == 10 || i == 11 || i == 13 {
            Single::nearest(0, 1)
        } else {
            Single::nearest(50, 1).negated()
        }),
        all_views()[i].hi == (if i == 0 {
            Single::nearest(30, 100)
        } else if i == 1 || i == 2 || i == 3 || i == 4 || i == 7 || i == 11 {
            Single::nearest(1, 1)
        } else if i == 5 {
            Single::nearest(24, 1)
        } else if i == 6 {
            Single::nearest(5, 10)
        } else if i == 8 {
            Single::nearest(9, 1)
        } else if i == 9 {
            Single::nearest(60, 1)
        } else if i == 10 {
            Single::nearest(2, 1)
        } else if i == 12 {
            Single::nearest(50, 1)
        } else {
            Single::nearest(32, 1)
        }),
        all_views()[i].unit == (if i == 0 {
            "f"@
        } else if i == 1 || i == 2 || i == 3 || i == 4 || i == 11 {
            "%"@
        } else if i == 5 {
            "dB"@
        } else if i == 6 || i == 7 || i == 10 {
            "s"@
        } else if i == 8 {
            "Hz"@
        } else if i == 9 || i == 12 {
            "c"@
        } else {
            "n"@
        }),
{
    let (a, b, c, d) = (bow_views(), body_views(), player_views(), section_views());
    let all = all_views();
    assert(forall|k: int| 0 <= k < 5 ==> #[trigger] all[k] == a[k]);
    assert(all[5] == b[0]);
    assert(forall|k: int| 6 <= k < 13 ==> #[trigger] all[k] == c[k - 6]);
    assert(all[13] == d[0]);
}

/// A knob is shown as it is.
pub proof fn law_a_knob_is_shown_as_it_is(c: Control)
    ensures
        c@.label == c.label@,
        c@.param == c.param,
        c@.lo == c.lo,
        c@.hi == c.hi,
        c@.unit == c.unit@,
{
}

/// The rail names each instrument at its own place.
pub proof fn law_the_rail_names_each_instrument(inst: crate::patch::Instrument)
    ensures
        rail_name(inst.index()) == (match inst {
            crate::patch::Instrument::DoubleBass => "BASS"@,
            crate::patch::Instrument::Cello => "CELLO"@,
            crate::patch::Instrument::Viola => "VIOLA"@,
            crate::patch::Instrument::Violin => "VIOLIN"@,
        }),
{
}

} // verus!
