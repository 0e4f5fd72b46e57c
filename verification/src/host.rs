//! What a host sees of the instrument: its identifiers, its parameters, the
//! presets it counts, and when a block has something to load.
//!
//! The class id, the CLAP id and the display name are wire formats, and so
//! are the parameters' ids and the order of the presets: a session keeps
//! them.

use vstd::prelude::*;
use crate::engine::{ArchetCommand, CommandView};
use crate::fx::{ChainSpec, SlotView};
use crate::patch::{ArchetPatch, Instrument, PatchView};
use crate::single::Single;
use crate::text::{same_ignoring_case, whole_number};

verus! {

/// The display name.
pub const NAME: &'static str = "Aethon Archet";

pub const VENDOR: &'static str = "Aethon Audio";

pub const CLAP_ID: &'static str = "com.aethon-audio.archet";

/// The VST3 class id, `VxArchetBow00001`. A preset file is written under the
/// same one, or the host that scanned the plugin does not see it.
pub const VST3_CLASS_ID: [u8; 16] = [
    86, 120, 65, 114, 99, 104, 101, 116, 66, 111, 119, 48, 48, 48, 48, 49,
];

/// The number of parameters an Init patch is built from.
pub const INIT_SIG_LEN: usize = 19;

/// The highest polyphony a host can set.
pub const HOST_POLYPHONY: i32 = 48;

/// A parameter's value.
#[derive(Clone, Copy, Debug, PartialEq, Eq, Structural)]
pub enum ParamValue {
    F32(Single),
    I32(i32),
}

/// A parameter as it is declared to a host.
#[derive(Clone, Copy, Debug)]
pub struct ParamDecl {
    pub id: &'static str,
    pub name: &'static str,
    pub default: ParamValue,
    pub min: ParamValue,
    pub max: ParamValue,
    /// Whether the low end of the range is spread out.
    pub skewed: bool,
    pub unit: &'static str,
    /// Decimals its text is rounded to.
    pub digits: u8,
}

/// What a [`ParamDecl`] says.
pub struct DeclView {
    pub id: Seq<char>,
    pub name: Seq<char>,
    pub default: ParamValue,
    pub min: ParamValue,
    pub max: ParamValue,
    pub skewed: bool,
    pub unit: Seq<char>,
    pub digits: u8,
}

impl View for ParamDecl {
    type V = DeclView;

    open spec fn view(&self) -> DeclView {
        DeclView {
            id: self.id@,
            name: self.name@,
            default: self.default,
            min: self.min,
            max: self.max,
            skewed: self.skewed,
            unit: self.unit@,
            digits: self.digits,
        }
    }
}

/// The parameters, in the order their values are kept.
pub open spec fn param_views() -> Seq<DeclView> {
    seq![
        DeclView {
            id: "output_level"@,
            name: "Output Level"@,
            default: ParamValue::F32(Single::nearest(9, 10)),
            min: ParamValue::F32(Single::nearest(0, 1)),
            max: ParamValue::F32(Single::nearest(15, 10)),
            skewed: false,
            unit: ""@,
            digits: 2,
        },
        DeclView {
            id: "polyphony"@,
            name: "Polyphony"@,
            default: ParamValue::I32(8),
            min: ParamValue::I32(1),
            max: ParamValue::I32(48),
            skewed: false,
            unit: ""@,
            digits: 0,
        },
        DeclView {
            id: "instrument"@,
            name: "Instrument"@,
            default: ParamValue::I32(0),
            min: ParamValue::I32(0),
            max: ParamValue::I32(3),
            skewed: false,
            unit: ""@,
            digits: 0,
        },
        DeclView {
            id: "articulation"@,
            name: "Articulation"@,
            default: ParamValue::I32(0),
            min: ParamValue::I32(0),
            max: ParamValue::I32(1),
            skewed: false,
            unit: ""@,
            digits: 0,
        },
        DeclView {
            id: "full_range"@,
            name: "Full Range"@,
            default: ParamValue::I32(0),
            min: ParamValue::I32(0),
            max: ParamValue::I32(1),
            skewed: false,
            unit: ""@,
            digits: 0,
        },
        DeclView {
            id: "bow_pos"@,
            name: "Bow Position"@,
            default: ParamValue::F32(Single::nearest(13, 100)),
            min: ParamValue::F32(Single::nearest(3, 100)),
            max: ParamValue::F32(Single::nearest(20, 100)),
            skewed: false,
            unit: ""@,
            digits: 3,
        },
        DeclView {
            id: "bow_vel"@,
            name: "Bow Velocity"@,
            default: ParamValue::F32(Single::nearest(18, 100)),
            min: ParamValue::F32(Single::nearest(2, 100)),
            max: ParamValue::F32(Single::nearest(5, 10)),
            skewed: false,
            unit: ""@,
            digits: 2,
        },
        DeclView {
            id: "bow_force"@,
            name: "Bow Force"@,
            default: ParamValue::F32(Single::nearest(1, 1)),
            min: ParamValue::F32(Single::nearest(2, 10)),
            max: ParamValue::F32(Single::nearest(2, 1)),
            skewed: false,
            unit: ""@,
            digits: 2,
        },
        DeclView {
            id: "bow_noise"@,
            name: "Bow Noise"@,
            default: ParamValue::F32(Single::nearest(13, 100)),
            min: ParamValue::F32(Single::nearest(0, 1)),
            max: ParamValue::F32(Single::nearest(4, 10)),
            skewed: false,
            unit: ""@,
            digits: 2,
        },
        DeclView {
            id: "loss"@,
            name: "Bridge Loss"@,
            default: ParamValue::F32(Single::nearest(30, 100)),
            min: ParamValue::F32(Single::nearest(0, 1)),
            max: ParamValue::F32(Single::nearest(6, 10)),
            skewed: false,
            unit: ""@,
            digits: 2,
        },
        DeclView {
            id: "bridge_hill"@,
            name: "Bridge Hill"@,
            default: ParamValue::F32(Single::nearest(9, 1)),
            min: ParamValue::F32(Single::nearest(0, 1)),
            max: ParamValue::F32(Single::nearest(15, 1)),
            skewed: false,
            unit: " dB"@,
            digits: 1,
        },
        DeclView {
            id: "attack"@,
            name: "Attack"@,
            default: ParamValue::F32(Single::nearest(4, 100)),
            min: ParamValue::F32(Single::nearest(5, 1000)),
            max: ParamValue::F32(Single::nearest(2, 10)),
            skewed: true,
            unit: " s"@,
            digits: 3,
        },
        DeclView {
            id: "release"@,
            name: "Release"@,
            default: ParamValue::F32(Single::nearest(12, 100)),
            min: ParamValue::F32(Single::nearest(2, 100)),
            max: ParamValue::F32(Single::nearest(4, 10)),
            skewed: true,
            unit: " s"@,
            digits: 3,
        },
        DeclView {
            id: "vel_sens"@,
            name: "Velocity Sens"@,
            default: ParamValue::F32(Single::nearest(3, 10)),
            min: ParamValue::F32(Single::nearest(0, 1)),
            max: ParamValue::F32(Single::nearest(1, 1)),
            skewed: false,
            unit: " %"@,
            digits: 0,
        },
        DeclView {
            id: "vib_rate"@,
            name: "Vibrato Rate"@,
            default: ParamValue::F32(Single::nearest(58, 10)),
            min: ParamValue::F32(Single::nearest(3, 1)),
            max: ParamValue::F32(Single::nearest(8, 1)),
            skewed: false,
            unit: " Hz"@,
            digits: 2,
        },
        DeclView {
            id: "vib_depth"@,
            name: "Vibrato Depth"@,
            default: ParamValue::F32(Single::nearest(14, 1)),
            min: ParamValue::F32(Single::nearest(0, 1)),
            max: ParamValue::F32(Single::nearest(30, 1)),
            skewed: false,
            unit: " ct"@,
            digits: 1,
        },
        DeclView {
            id: "vib_delay"@,
            name: "Vibrato Delay"@,
            default: ParamValue::F32(Single::nearest(25, 100)),
            min: ParamValue::F32(Single::nearest(0, 1)),
            max: ParamValue::F32(Single::nearest(8, 10)),
            skewed: false,
            unit: " s"@,
            digits: 2,
        },
        DeclView {
            id: "ensemble"@,
            name: "Ensemble Players"@,
            default: ParamValue::F32(Single::nearest(0, 1)),
            min: ParamValue::F32(Single::nearest(0, 1)),
            max: ParamValue::F32(Single::nearest(60, 1)),
            skewed: false,
            unit: ""@,
            digits: 0,
        },
        DeclView {
            id: "tune_cents"@,
            name: "Tune"@,
            default: ParamValue::F32(Single::nearest(0, 1)),
            min: ParamValue::F32(Single::nearest(50, 1).negated()),
            max: ParamValue::F32(Single::nearest(50, 1)),
            skewed: false,
            unit: " ct"@,
            digits: 1,
        },
    ]
}

/// The parameters, in the order their values are kept.
pub fn param_table() -> (r: Vec<ParamDecl>)
    ensures
        r.len() == INIT_SIG_LEN,
        forall|i: int| 0 <= i < r.len() ==> (#[trigger] r@[i])@ == param_views()[i],
{
    vec![
        ParamDecl {
            id: "output_level",
            name: "Output Level",
            default: ParamValue::F32(Single::ratio(9, 10)),
            min: ParamValue::F32(Single::ratio(0, 1)),
            max: ParamValue::F32(Single::ratio(15, 10)),
            skewed: false,
            unit: "",
            digits: 2,
        },
        ParamDecl {
            id: "polyphony",
            name: "Polyphony",
            default: ParamValue::I32(8),
            min: ParamValue::I32(1),
            max: ParamValue::I32(48),
            skewed: false,
            unit: "",
            digits: 0,
        },
        ParamDecl {
            id: "instrument",
            name: "Instrument",
            default: ParamValue::I32(0),
            min: ParamValue::I32(0),
            max: ParamValue::I32(3),
            skewed: false,
            unit: "",
            digits: 0,
        },
        ParamDecl {
            id: "articulation",
            name: "Articulation",
            default: ParamValue::I32(0),
            min: ParamValue::I32(0),
            max: ParamValue::I32(1),
            skewed: false,
            unit: "",
            digits: 0,
        },
        ParamDecl {
            id: "full_range",
            name: "Full Range",
            default: ParamValue::I32(0),
            min: ParamValue::I32(0),
            max: ParamValue::I32(1),
            skewed: false,
            unit: "",
            digits: 0,
        },
        ParamDecl {
            id: "bow_pos",
            name: "Bow Position",
            default: ParamValue::F32(Single::ratio(13, 100)),
            min: ParamValue::F32(Single::ratio(3, 100)),
            max: ParamValue::F32(Single::ratio(20, 100)),
            skewed: false,
            unit: "",
            digits: 3,
        },
        ParamDecl {
            id: "bow_vel",
            name: "Bow Velocity",
            default: ParamValue::F32(Single::ratio(18, 100)),
            min: ParamValue::F32(Single::ratio(2, 100)),
            max: ParamValue::F32(Single::ratio(5, 10)),
            skewed: false,
            unit: "",
            digits: 2,
        },
        ParamDecl {
            id: "bow_force",
            name: "Bow Force",
            default: ParamValue::F32(Single::ratio(1, 1)),
            min: ParamValue::F32(Single::ratio(2, 10)),
            max: ParamValue::F32(Single::ratio(2, 1)),
            skewed: false,
            unit: "",
            digits: 2,
        },
        ParamDecl {
            id: "bow_noise",
            name: "Bow Noise",
            default: ParamValue::F32(Single::ratio(13, 100)),
            min: ParamValue::F32(Single::ratio(0, 1)),
            max: ParamValue::F32(Single::ratio(4, 10)),
            skewed: false,
            unit: "",
            digits: 2,
        },
        ParamDecl {
            id: "loss",
            name: "Bridge Loss",
            default: ParamValue::F32(Single::ratio(30, 100)),
            min: ParamValue::F32(Single::ratio(0, 1)),
            max: ParamValue::F32(Single::ratio(6, 10)),
            skewed: false,
            unit: "",
            digits: 2,
        },
        ParamDecl {
            id: "bridge_hill",
            name: "Bridge Hill",
            default: ParamValue::F32(Single::ratio(9, 1)),
            min: ParamValue::F32(Single::ratio(0, 1)),
            max: ParamValue::F32(Single::ratio(15, 1)),
            skewed: false,
            unit: " dB",
            digits: 1,
        },
        ParamDecl {
            id: "attack",
            name: "Attack",
            default: ParamValue::F32(Single::ratio(4, 100)),
            min: ParamValue::F32(Single::ratio(5, 1000)),
            max: ParamValue::F32(Single::ratio(2, 10)),
            skewed: true,
            unit: " s",
            digits: 3,
        },
        ParamDecl {
            id: "release",
            name: "Release",
            default: ParamValue::F32(Single::ratio(12, 100)),
            min: ParamValue::F32(Single::ratio(2, 100)),
            max: ParamValue::F32(Single::ratio(4, 10)),
            skewed: true,
            unit: " s",
            digits: 3,
        },
        ParamDecl {
            id: "vel_sens",
            name: "Velocity Sens",
            default: ParamValue::F32(Single::ratio(3, 10)),
            min: ParamValue::F32(Single::ratio(0, 1)),
            max: ParamValue::F32(Single::ratio(1, 1)),
            skewed: false,
            unit: " %",
            digits: 0,
        },
        ParamDecl {
            id: "vib_rate",
            name: "Vibrato Rate",
            default: ParamValue::F32(Single::ratio(58, 10)),
            min: ParamValue::F32(Single::ratio(3, 1)),
            max: ParamValue::F32(Single::ratio(8, 1)),
            skewed: false,
            unit: " Hz",
            digits: 2,
        },
        ParamDecl {
            id: "vib_depth",
            name: "Vibrato Depth",
            default: ParamValue::F32(Single::ratio(14, 1)),
            min: ParamValue::F32(Single::ratio(0, 1)),
            max: ParamValue::F32(Single::ratio(30, 1)),
            skewed: false,
            unit: " ct",
            digits: 1,
        },
        ParamDecl {
            id: "vib_delay",
            name: "Vibrato Delay",
            default: ParamValue::F32(Single::ratio(25, 100)),
            min: ParamValue::F32(Single::ratio(0, 1)),
            max: ParamValue::F32(Single::ratio(8, 10)),
            skewed: false,
            unit: " s",
            digits: 2,
        },
        ParamDecl {
            id: "ensemble",
            name: "Ensemble Players",
            default: ParamValue::F32(Single::ratio(0, 1)),
            min: ParamValue::F32(Single::ratio(0, 1)),
            max: ParamValue::F32(Single::ratio(60, 1)),
            skewed: false,
            unit: "",
            digits: 0,
        },
        ParamDecl {
            id: "tune_cents",
            name: "Tune",
            default: ParamValue::F32(Single::ratio(0, 1)),
            min: ParamValue::F32(Single::ratio(50, 1).neg()),
            max: ParamValue::F32(Single::ratio(50, 1)),
            skewed: false,
            unit: " ct",
            digits: 1,
        },
    ]
}

/// The parameters' values on a block.
#[derive(Clone, Copy, Debug, PartialEq, Eq, Structural)]
pub struct InitValues {
    pub output_level: Single,
    pub polyphony: i32,
    pub instrument: i32,
    pub articulation: i32,
    pub full_range: i32,
    pub bow_pos: Single,
    pub bow_vel: Single,
    pub bow_force: Single,
    pub bow_noise: Single,
    pub loss: Single,
    pub bridge_hill: Single,
    pub attack: Single,
    pub release: Single,
    pub vel_sens: Single,
    pub vib_rate: Single,
    pub vib_depth: Single,
    pub vib_delay: Single,
    pub ensemble: Single,
    pub tune_cents: Single,
}

impl InitValues {
    /// Whether the counts are ones that a single-precision number carries
    /// exactly.
    pub open spec fn countable(self) -> bool {
        &&& -0x100_0000 < self.polyphony < 0x100_0000
        &&& -0x100_0000 < self.instrument < 0x100_0000
        &&& -0x100_0000 < self.articulation < 0x100_0000
        &&& -0x100_0000 < self.full_range < 0x100_0000
    }
}

/// The values side by side, in the order they are declared, for change
/// detection.
pub open spec fn sig_view(v: InitValues) -> Seq<Single> {
    seq![
        v.output_level,
        Single::counted(v.polyphony as int),
        Single::counted(v.instrument as int),
        Single::counted(v.articulation as int),
        Single::counted(v.full_range as int),
        v.bow_pos,
        v.bow_vel,
        v.bow_force,
        v.bow_noise,
        v.loss,
        v.bridge_hill,
        v.attack,
        v.release,
        v.vel_sens,
        v.vib_rate,
        v.vib_depth,
        v.vib_delay,
        v.ensemble,
        v.tune_cents,
    ]
}

/// The values side by side.
pub fn init_sig(v: &InitValues) -> (r: [Single; 19])
    ensures
        r@ == sig_view(*v),
        r@.len() == INIT_SIG_LEN,
{
    let r: [Single; 19] = [
        v.output_level,
        Single::of_count(v.polyphony),
        Single::of_count(v.instrument),
        Single::of_count(v.articulation),
        Single::of_count(v.full_range),
        v.bow_pos,
        v.bow_vel,
        v.bow_force,
        v.bow_noise,
        v.loss,
        v.bridge_hill,
        v.attack,
        v.release,
        v.vel_sens,
        v.vib_rate,
        v.vib_depth,
        v.vib_delay,
        v.ensemble,
        v.tune_cents,
    ];
    assert(r@ =~= sig_view(*v));
    r
}

proof fn lemma_counts_apart(a: int, b: int)
    requires
        -0x100_0000 < a < 0x100_0000,
        -0x100_0000 < b < 0x100_0000,
        Single::counted(a) == Single::counted(b),
    ensures
        a == b,
{
    crate::single::lemma_counted(a);
    crate::single::lemma_counted(b);
    assert(a * crate::single::one() == b * crate::single::one() ==> a == b) by (nonlinear_arith)
        requires crate::single::one() > 0;
}

/// A change of any parameter changes the signature: two sets of values with
/// the same one are the same.
pub proof fn law_a_signature_tells_every_change(a: InitValues, b: InitValues)
    requires
        a.countable(),
        b.countable(),
        sig_view(a) == sig_view(b),
    ensures
        a == b,
{
    let (s, t) = (sig_view(a), sig_view(b));
    lemma_counts_apart(a.polyphony as int, b.polyphony as int);
    lemma_counts_apart(a.instrument as int, b.instrument as int);
    lemma_counts_apart(a.articulation as int, b.articulation as int);
    lemma_counts_apart(a.full_range as int, b.full_range as int);
    assert(s[0] == t[0] && s[5] == t[5] && s[6] == t[6] && s[7] == t[7] && s[8] == t[8] && s[9] == t[9]);
    assert(s[10] == t[10] && s[11] == t[11] && s[12] == t[12] && s[13] == t[13] && s[14] == t[14]);
    assert(s[15] == t[15] && s[16] == t[16] && s[17] == t[17] && s[18] == t[18]);
}

/// The patch the parameters describe: Init, everything a host cannot reach
/// as the default patch has it.
pub open spec fn init_view(v: InitValues) -> PatchView {
    PatchView {
        name: "Init"@,
        instrument: if v.instrument == 1 || v.instrument == 2 || v.instrument == 3 {
            Instrument::at(v.instrument as int)
        } else {
            Instrument::Violin
        },
        auto_range: v.full_range != 0,
        pluck: v.articulation != 0,
        polyphony: if v.polyphony < 1 {
            1
        } else if v.polyphony > HOST_POLYPHONY {
            HOST_POLYPHONY as u8
        } else {
            v.polyphony as u8
        },
        output_level: v.output_level,
        bow_pos: v.bow_pos,
        bow_vel: v.bow_vel,
        bow_force: v.bow_force,
        bow_noise: v.bow_noise,
        loss: v.loss,
        bridge_hill_db: v.bridge_hill,
        attack: v.attack,
        release: v.release,
        vel_sens: v.vel_sens,
        vib_rate: v.vib_rate,
        vib_depth: v.vib_depth,
        vib_delay: v.vib_delay,
        ensemble: v.ensemble,
        tune_cents: v.tune_cents,
        ..crate::patch::default_view()
    }
}

/// Build a whole patch from the parameters' values.
pub fn build_init_patch(v: &InitValues) -> (r: ArchetPatch)
    ensures
        r@ == init_view(*v),
{
    let instrument = if v.instrument == 1 {
        Instrument::Viola
    } else if v.instrument == 2 {
        Instrument::Cello
    } else if v.instrument == 3 {
        Instrument::DoubleBass
    } else {
        Instrument::Violin
    };
    let polyphony: u8 = if v.polyphony < 1 {
        1
    } else if v.polyphony > HOST_POLYPHONY {
        48
    } else {
        v.polyphony as u8
    };
    ArchetPatch {
        name: "Init".to_owned(),
        instrument,
        auto_range: v.full_range != 0,
        pluck: v.articulation != 0,
        polyphony,
        output_level: v.output_level,
        bow_pos: v.bow_pos,
        bow_vel: v.bow_vel,
        bow_force: v.bow_force,
        bow_noise: v.bow_noise,
        loss: v.loss,
        bridge_hill_db: v.bridge_hill,
        attack: v.attack,
        release: v.release,
        vel_sens: v.vel_sens,
        vib_rate: v.vib_rate,
        vib_depth: v.vib_depth,
        vib_delay: v.vib_delay,
        ensemble: v.ensemble,
        tune_cents: v.tune_cents,
        ..ArchetPatch::default()
    }
}

/// The values the parameters are declared with.
pub open spec fn declared_values() -> InitValues {
    InitValues {
        output_level: Single::nearest(9, 10),
        polyphony: 8,
        instrument: 0,
        articulation: 0,
        full_range: 0,
        bow_pos: Single::nearest(13, 100),
        bow_vel: Single::nearest(18, 100),
        bow_force: Single::nearest(1, 1),
        bow_noise: Single::nearest(13, 100),
        loss: Single::nearest(30, 100),
        bridge_hill: Single::nearest(9, 1),
        attack: Single::nearest(4, 100),
        release: Single::nearest(12, 100),
        vel_sens: Single::nearest(3, 10),
        vib_rate: Single::nearest(58, 10),
        vib_depth: Single::nearest(14, 1),
        vib_delay: Single::nearest(25, 100),
        ensemble: Single::nearest(0, 1),
        tune_cents: Single::nearest(0, 1),
    }
}

/// Init on the parameters as declared is the default patch under another
/// name.
pub proof fn law_init_is_the_default_patch()
    ensures
        init_view(declared_values()) == (PatchView { name: "Init"@, ..crate::patch::default_view() }),
{
}

/// Whether a value lies within a range, the three of one sort.
pub open spec fn within(v: ParamValue, min: ParamValue, max: ParamValue) -> bool {
    match (v, min, max) {
        (ParamValue::F32(x), ParamValue::F32(a), ParamValue::F32(b)) => x.number() && a.number() && b.number()
            && a.units() <= x.units() <= b.units(),
        (ParamValue::I32(x), ParamValue::I32(a), ParamValue::I32(b)) => a <= x <= b,
        _ => false,
    }
}

proof fn lemma_in_order(a: int, d: int, b: int, e: int, c: int, f: int)
    requires
        0 <= a < 0x100_0000,
        0 < d < 0x8000_0000,
        0 <= b < 0x100_0000,
        0 < e < 0x8000_0000,
        0 <= c < 0x100_0000,
        0 < f < 0x8000_0000,
        a * e <= b * d,
        b * f <= c * e,
    ensures
        within(
            ParamValue::F32(Single::nearest(b, e)),
            ParamValue::F32(Single::nearest(a, d)),
            ParamValue::F32(Single::nearest(c, f)),
        ),
{
    crate::single::law_nearest_is_monotone(a, d, b, e);
    crate::single::law_nearest_is_monotone(b, e, c, f);
}

/// Every parameter is declared within its own range.
pub proof fn law_every_default_is_in_range(i: int)
    requires
        0 <= i < INIT_SIG_LEN,
    ensures
        within(param_views()[i].default, param_views()[i].min, param_views()[i].max),
{
    lemma_in_order(0, 1, 9, 10, 15, 10);
    lemma_in_order(3, 100, 13, 100, 20, 100);
    lemma_in_order(2, 100, 18, 100, 5, 10);
    lemma_in_order(2, 10, 1, 1, 2, 1);
    lemma_in_order(0, 1, 13, 100, 4, 10);
    lemma_in_order(0, 1, 30, 100, 6, 10);
    lemma_in_order(0, 1, 9, 1, 15, 1);
    lemma_in_order(5, 1000, 4, 100, 2, 10);
    lemma_in_order(2, 100, 12, 100, 4, 10);
    lemma_in_order(0, 1, 3, 10, 1, 1);
    lemma_in_order(3, 1, 58, 10, 8, 1);
    lemma_in_order(0, 1, 14, 1, 30, 1);
    lemma_in_order(0, 1, 25, 100, 8, 10);
    lemma_in_order(0, 1, 0, 1, 60, 1);
    lemma_in_order(0, 1, 0, 1, 50, 1);
    crate::single::lemma_nearest_exists(50, 1);
    crate::single::lemma_nearest_zero(1);
    crate::single::lemma_landmarks();
    crate::single::lemma_steps_zero(Single::nearest(50, 1).low());
}

/// A patch as a preset file keeps it: a value under each parameter's id, the
/// level held within what the parameter spans.
pub open spec fn mapped_view(p: PatchView) -> Seq<(Seq<char>, ParamValue)> {
    seq![
        ("output_level"@, ParamValue::F32(p.output_level.clamped(Single::nearest(0, 1), Single::nearest(15, 10)))),
        ("polyphony"@, ParamValue::I32(p.polyphony as i32)),
        ("instrument"@, ParamValue::I32(p.instrument.index() as i32)),
        ("articulation"@, ParamValue::I32(if p.pluck { 1 } else { 0 })),
        ("full_range"@, ParamValue::I32(if p.auto_range { 1 } else { 0 })),
        ("bow_pos"@, ParamValue::F32(p.bow_pos)),
        ("bow_vel"@, ParamValue::F32(p.bow_vel)),
        ("bow_force"@, ParamValue::F32(p.bow_force)),
        ("bow_noise"@, ParamValue::F32(p.bow_noise)),
        ("loss"@, ParamValue::F32(p.loss)),
        ("bridge_hill"@, ParamValue::F32(p.bridge_hill_db)),
        ("attack"@, ParamValue::F32(p.attack)),
        ("release"@, ParamValue::F32(p.release)),
        ("vel_sens"@, ParamValue::F32(p.vel_sens)),
        ("vib_rate"@, ParamValue::F32(p.vib_rate)),
        ("vib_depth"@, ParamValue::F32(p.vib_depth)),
        ("vib_delay"@, ParamValue::F32(p.vib_delay)),
        ("ensemble"@, ParamValue::F32(p.ensemble)),
        ("tune_cents"@, ParamValue::F32(p.tune_cents)),
    ]
}

/// A patch as a preset file keeps it.
pub fn map_patch_to_nih_params(patch: &ArchetPatch) -> (r: Vec<(&'static str, ParamValue)>)
    ensures
        r.len() == INIT_SIG_LEN,
        forall|i: int| 0 <= i < r.len() ==> (#[trigger] r@[i]).0@ == mapped_view(patch@)[i].0,
        forall|i: int| 0 <= i < r.len() ==> (#[trigger] r@[i]).1 == mapped_view(patch@)[i].1,
{
    proof {
        crate::single::lemma_nearest_floor(15, 10);
    }
    let level: Single = patch.output_level.clamp(Single::ratio(0, 1), Single::ratio(15, 10));
    vec![
        ("output_level", ParamValue::F32(level)),
        ("polyphony", ParamValue::I32(patch.polyphony as i32)),
        ("instrument", ParamValue::I32(patch.instrument.to_index() as i32)),
        ("articulation", ParamValue::I32(if patch.pluck { 1 } else { 0 })),
        ("full_range", ParamValue::I32(if patch.auto_range { 1 } else { 0 })),
        ("bow_pos", ParamValue::F32(patch.bow_pos)),
        ("bow_vel", ParamValue::F32(patch.bow_vel)),
        ("bow_force", ParamValue::F32(patch.bow_force)),
        ("bow_noise", ParamValue::F32(patch.bow_noise)),
        ("loss", ParamValue::F32(patch.loss)),
        ("bridge_hill", ParamValue::F32(patch.bridge_hill_db)),
        ("attack", ParamValue::F32(patch.attack)),
        ("release", ParamValue::F32(patch.release)),
        ("vel_sens", ParamValue::F32(patch.vel_sens)),
        ("vib_rate", ParamValue::F32(patch.vib_rate)),
        ("vib_depth", ParamValue::F32(patch.vib_depth)),
        ("vib_delay", ParamValue::F32(patch.vib_delay)),
        ("ensemble", ParamValue::F32(patch.ensemble)),
        ("tune_cents", ParamValue::F32(patch.tune_cents)),
    ]
}

/// Every parameter of a preset file is one the plugin declares, in the same
/// order.
pub proof fn law_a_preset_file_names_the_parameters(p: PatchView, i: int)
    requires
        0 <= i < INIT_SIG_LEN,
    ensures
        mapped_view(p).len() == INIT_SIG_LEN,
        param_views().len() == INIT_SIG_LEN,
        mapped_view(p)[i].0 == param_views()[i].id,
{
}

/// The ids a host keeps its automation under, and the names it shows.
pub proof fn law_the_parameters_are_named(i: int)
    requires
        0 <= i < INIT_SIG_LEN,
    ensures
        param_views().len() == INIT_SIG_LEN,
        param_views()[i].id == (if i == 0 {
            "output_level"@
        } else if i == 1 {
            "polyphony"@
        } else if i == 2 {
            "instrument"@
        } else if i == 3 {
            "articulation"@
        } else if i == 4 {
            "full_range"@
        } else if i == 5 {
            "bow_pos"@
        } else if i == 6 {
            "bow_vel"@
        } else if i == 7 {
            "bow_force"@
        } else if i == 8 {
            "bow_noise"@
        } else if i == 9 {
            "loss"@
        } else if i == 10 {
            "bridge_hill"@
        } else if i == 11 {
            "attack"@
        } else if i == 12 {
            "release"@
        } else if i == 13 {
            "vel_sens"@
        } else if i == 14 {
            "vib_rate"@
        } else if i == 15 {
            "vib_depth"@
        } else if i == 16 {
            "vib_delay"@
        } else if i == 17 {
            "ensemble"@
        } else {
            "tune_cents"@
        }),
        param_views()[i].name == (if i == 0 {
            "Output Level"@
        } else if i == 1 {
            "Polyphony"@
        } else if i == 2 {
            "Instrument"@
        } else if i == 3 {
            "Articulation"@
        } else if i == 4 {
            "Full Range"@
        } else if i == 5 {
            "Bow Position"@
        } else if i == 6 {
            "Bow Velocity"@
        } else if i == 7 {
            "Bow Force"@
        } else if i == 8 {
            "Bow Noise"@
        } else if i == 9 {
            "Bridge Loss"@
        } else if i == 10 {
            "Bridge Hill"@
        } else if i == 11 {
            "Attack"@
        } else if i == 12 {
            "Release"@
        } else if i == 13 {
            "Velocity Sens"@
        } else if i == 14 {
            "Vibrato Rate"@
        } else if i == 15 {
            "Vibrato Depth"@
        } else if i == 16 {
            "Vibrato Delay"@
        } else if i == 17 {
            "Ensemble Players"@
        } else {
            "Tune"@
        }),
        param_views()[i].unit == (if i == 0 || i == 1 || i == 2 || i == 3 || i == 4 || i == 5 || i == 6
            || i == 7 || i == 8 || i == 9 || i == 17 {
            ""@
        } else if i == 10 {
            " dB"@
        } else if i == 11 || i == 12 || i == 16 {
            " s"@
        } else if i == 13 {
            " %"@
        } else if i == 14 {
            " Hz"@
        } else {
            " ct"@
        }),
        param_views()[i].digits == (if i == 0 || i == 6 || i == 7 || i == 8 || i == 9 || i == 14 || i == 16 {
            2u8
        } else if i == 1 || i == 2 || i == 3 || i == 4 || i == 13 || i == 17 {
            0u8
        } else if i == 5 || i == 11 || i == 12 {
            3u8
        } else {
            1u8
        }),
        param_views()[i].skewed <==> i == 11 || i == 12,
{
}

/// How far each parameter reaches, least first.
pub proof fn law_the_parameters_reach_so_far(i: int)
    requires
        0 <= i < INIT_SIG_LEN,
    ensures
        param_views()[i].min == (if i == 0 || i == 8 || i == 9 || i == 10 || i == 13 || i == 15 || i == 16 || i == 17 {
            ParamValue::F32(Single::nearest(0, 1))
        } else if i == 1 {
            ParamValue::I32(1)
        } else if i == 2 || i == 3 || i == 4 {
            ParamValue::I32(0)
        } else if i == 5 {
            ParamValue::F32(Single::nearest(3, 100))
        } else if i == 6 || i == 12 {
            ParamValue::F32(Single::nearest(2, 100))
        } else if i == 7 {
            ParamValue::F32(Single::nearest(2, 10))
        } else if i == 11 {
            ParamValue::F32(Single::nearest(5, 1000))
        } else if i == 14 {
            ParamValue::F32(Single::nearest(3, 1))
        } else {
            ParamValue::F32(Single::nearest(50, 1).negated())
        }),
        param_views()[i].max == (if i == 0 {
            ParamValue::F32(Single::nearest(15, 10))
        } else if i == 1 {
            ParamValue::I32(48)
        } else if i == 2 {
            ParamValue::I32(3)
        } else if i == 3 || i == 4 {
            ParamValue::I32(1)
        } else if i == 5 {
            ParamValue::F32(Single::nearest(20, 100))
        } else if i == 6 {
            ParamValue::F32(Single::nearest(5, 10))
        } else if i == 7 {
            ParamValue::F32(Single::nearest(2, 1))
        } else if i == 8 || i == 12 {
            ParamValue::F32(Single::nearest(4, 10))
        } else if i == 9 {
            ParamValue::F32(Single::nearest(6, 10))
        } else if i == 10 {
            ParamValue::F32(Single::nearest(15, 1))
        } else if i == 11 {
            ParamValue::F32(Single::nearest(2, 10))
        } else if i == 13 {
            ParamValue::F32(Single::nearest(1, 1))
        } else if i == 14 {
            ParamValue::F32(Single::nearest(8, 1))
        } else if i == 15 {
            ParamValue::F32(Single::nearest(30, 1))
        } else if i == 16 {
            ParamValue::F32(Single::nearest(8, 10))
        } else if i == 17 {
            ParamValue::F32(Single::nearest(60, 1))
        } else {
            ParamValue::F32(Single::nearest(50, 1))
        }),
{
}

/// A parameter is declared where the default patch has it: a preset file of
/// that patch holds, under each id, what the parameter is declared with.
pub proof fn law_the_parameters_are_declared_as_the_default(i: int)
    requires
        0 <= i < INIT_SIG_LEN,
    ensures
        mapped_view(crate::patch::default_view())[i].1 == param_views()[i].default,
        param_views()[i].default == (if i == 0 {
            ParamValue::F32(Single::nearest(9, 10))
        } else if i == 1 {
            ParamValue::I32(8)
        } else if i == 2 || i == 3 || i == 4 {
            ParamValue::I32(0)
        } else if i == 5 || i == 8 {
            ParamValue::F32(Single::nearest(13, 100))
        } else if i == 6 {
            ParamValue::F32(Single::nearest(18, 100))
        } else if i == 7 {
            ParamValue::F32(Single::nearest(1, 1))
        } else if i == 9 {
            ParamValue::F32(Single::nearest(30, 100))
        } else if i == 10 {
            ParamValue::F32(Single::nearest(9, 1))
        } else if i == 11 {
            ParamValue::F32(Single::nearest(4, 100))
        } else if i == 12 {
            ParamValue::F32(Single::nearest(12, 100))
        } else if i == 13 {
            ParamValue::F32(Single::nearest(3, 10))
        } else if i == 14 {
            ParamValue::F32(Single::nearest(58, 10))
        } else if i == 15 {
            ParamValue::F32(Single::nearest(14, 1))
        } else if i == 16 {
            ParamValue::F32(Single::nearest(25, 100))
        } else {
            ParamValue::F32(Single::nearest(0, 1))
        }),
{
    lemma_in_order(0, 1, 9, 10, 15, 10);
}

/// Whether every value is one its parameter can take.
pub open spec fn in_range(v: InitValues) -> bool {
    &&& v.output_level.number() && 0 <= v.output_level.units() <= Single::nearest(15, 10).units()
    &&& 1 <= v.polyphony <= 48
    &&& 0 <= v.instrument <= 3
    &&& 0 <= v.articulation <= 1
    &&& 0 <= v.full_range <= 1
}

/// Init carries every parameter: a preset file of the patch that in-range
/// values build gives each value back, under its own id.
pub proof fn law_init_carries_every_parameter(v: InitValues)
    requires
        in_range(v),
    ensures
        mapped_view(init_view(v)).len() == INIT_SIG_LEN,
        mapped_view(init_view(v))[0] == ("output_level"@, ParamValue::F32(v.output_level)),
        mapped_view(init_view(v))[1] == ("polyphony"@, ParamValue::I32(v.polyphony)),
        mapped_view(init_view(v))[2] == ("instrument"@, ParamValue::I32(v.instrument)),
        mapped_view(init_view(v))[3] == ("articulation"@, ParamValue::I32(v.articulation)),
        mapped_view(init_view(v))[4] == ("full_range"@, ParamValue::I32(v.full_range)),
        mapped_view(init_view(v))[5] == ("bow_pos"@, ParamValue::F32(v.bow_pos)),
        mapped_view(init_view(v))[6] == ("bow_vel"@, ParamValue::F32(v.bow_vel)),
        mapped_view(init_view(v))[7] == ("bow_force"@, ParamValue::F32(v.bow_force)),
        mapped_view(init_view(v))[8] == ("bow_noise"@, ParamValue::F32(v.bow_noise)),
        mapped_view(init_view(v))[9] == ("loss"@, ParamValue::F32(v.loss)),
        mapped_view(init_view(v))[10] == ("bridge_hill"@, ParamValue::F32(v.bridge_hill)),
        mapped_view(init_view(v))[11] == ("attack"@, ParamValue::F32(v.attack)),
        mapped_view(init_view(v))[12] == ("release"@, ParamValue::F32(v.release)),
        mapped_view(init_view(v))[13] == ("vel_sens"@, ParamValue::F32(v.vel_sens)),
        mapped_view(init_view(v))[14] == ("vib_rate"@, ParamValue::F32(v.vib_rate)),
        mapped_view(init_view(v))[15] == ("vib_depth"@, ParamValue::F32(v.vib_depth)),
        mapped_view(init_view(v))[16] == ("vib_delay"@, ParamValue::F32(v.vib_delay)),
        mapped_view(init_view(v))[17] == ("ensemble"@, ParamValue::F32(v.ensemble)),
        mapped_view(init_view(v))[18] == ("tune_cents"@, ParamValue::F32(v.tune_cents)),
{
    crate::single::lemma_nearest_floor(15, 10);
    crate::single::lemma_nearest_zero(1);
    crate::single::lemma_landmarks();
}

/// Every parameter counts: two sets of in-range values that differ anywhere
/// build two different patches.
pub proof fn law_every_parameter_counts(a: InitValues, b: InitValues)
    requires
        in_range(a),
        in_range(b),
        init_view(a) == init_view(b),
    ensures
        a == b,
{
    law_init_carries_every_parameter(a);
    law_init_carries_every_parameter(b);
}

/// Out of its range a count is held at the nearer end, and a choice that is
/// none is the first; a switch is on at anything but nought.
pub proof fn law_init_holds_counts_in_range(v: InitValues)
    ensures
        v.polyphony < 1 ==> init_view(v).polyphony == 1,
        1 <= v.polyphony <= 48 ==> init_view(v).polyphony == v.polyphony,
        v.polyphony > 48 ==> init_view(v).polyphony == 48,
        v.instrument < 0 || v.instrument > 3 ==> init_view(v).instrument == Instrument::Violin,
        0 <= v.instrument <= 3 ==> init_view(v).instrument.index() == v.instrument,
        init_view(v).pluck <==> v.articulation != 0,
        init_view(v).auto_range <==> v.full_range != 0,
{
}

/// Init is called Init, and what no parameter reaches it has from the default
/// patch.
pub proof fn law_init_is_otherwise_the_default(v: InitValues)
    ensures
        init_view(v).name == "Init"@,
        init_view(v).friction == crate::patch::default_view().friction,
        init_view(v).slope == crate::patch::default_view().slope,
        init_view(v).tor_ratio == crate::patch::default_view().tor_ratio,
        init_view(v).tor_couple == crate::patch::default_view().tor_couple,
        init_view(v).tor_inject == crate::patch::default_view().tor_inject,
        init_view(v).seed_offset == crate::patch::default_view().seed_offset,
        init_view(v).fx == crate::patch::default_view().fx,
{
}

/// A preset file holds what the patch holds, the level within its range.
pub proof fn law_a_preset_file_holds_the_patch(p: PatchView)
    ensures
        mapped_view(p)[1].1 == ParamValue::I32(p.polyphony as i32),
        mapped_view(p)[2].1 matches ParamValue::I32(i) && Instrument::at(i as int) == p.instrument && 0 <= i < 4,
        mapped_view(p)[3].1 == ParamValue::I32(if p.pluck { 1 } else { 0 }),
        mapped_view(p)[4].1 == ParamValue::I32(if p.auto_range { 1 } else { 0 }),
        mapped_view(p)[5] == ("bow_pos"@, ParamValue::F32(p.bow_pos)),
        mapped_view(p)[6] == ("bow_vel"@, ParamValue::F32(p.bow_vel)),
        mapped_view(p)[7] == ("bow_force"@, ParamValue::F32(p.bow_force)),
        mapped_view(p)[8] == ("bow_noise"@, ParamValue::F32(p.bow_noise)),
        mapped_view(p)[9] == ("loss"@, ParamValue::F32(p.loss)),
        mapped_view(p)[10] == ("bridge_hill"@, ParamValue::F32(p.bridge_hill_db)),
        mapped_view(p)[11] == ("attack"@, ParamValue::F32(p.attack)),
        mapped_view(p)[12] == ("release"@, ParamValue::F32(p.release)),
        mapped_view(p)[13] == ("vel_sens"@, ParamValue::F32(p.vel_sens)),
        mapped_view(p)[14] == ("vib_rate"@, ParamValue::F32(p.vib_rate)),
        mapped_view(p)[15] == ("vib_depth"@, ParamValue::F32(p.vib_depth)),
        mapped_view(p)[16] == ("vib_delay"@, ParamValue::F32(p.vib_delay)),
        mapped_view(p)[17] == ("ensemble"@, ParamValue::F32(p.ensemble)),
        mapped_view(p)[18] == ("tune_cents"@, ParamValue::F32(p.tune_cents)),
        p.output_level.number() ==> (mapped_view(p)[0].1 matches ParamValue::F32(l) && l.number() && 0 <= l.units()
            <= Single::nearest(15, 10).units() && (0 <= p.output_level.units() <= Single::nearest(15, 10).units()
            ==> l == p.output_level)),
{
    crate::single::lemma_nearest_floor(15, 10);
    crate::single::lemma_nearest_zero(1);
    crate::single::lemma_landmarks();
}

/// The signature lists every parameter as a number, in the order they are
/// declared.
pub proof fn law_the_signature_lists_every_parameter(v: InitValues)
    ensures
        sig_view(v).len() == INIT_SIG_LEN,
        sig_view(v)[0] == v.output_level,
        sig_view(v)[1] == Single::counted(v.polyphony as int),
        sig_view(v)[2] == Single::counted(v.instrument as int),
        sig_view(v)[3] == Single::counted(v.articulation as int),
        sig_view(v)[4] == Single::counted(v.full_range as int),
        sig_view(v)[5] == v.bow_pos,
        sig_view(v)[6] == v.bow_vel,
        sig_view(v)[7] == v.bow_force,
        sig_view(v)[8] == v.bow_noise,
        sig_view(v)[9] == v.loss,
        sig_view(v)[10] == v.bridge_hill,
        sig_view(v)[11] == v.attack,
        sig_view(v)[12] == v.release,
        sig_view(v)[13] == v.vel_sens,
        sig_view(v)[14] == v.vib_rate,
        sig_view(v)[15] == v.vib_depth,
        sig_view(v)[16] == v.vib_delay,
        sig_view(v)[17] == v.ensemble,
        sig_view(v)[18] == v.tune_cents,
{
}

/// Where a preset's file goes.
pub open spec fn filed_at(p: PatchView) -> Seq<char> {
    crate::patch::category_view(p) + "/"@ + p.name
}

/// Where a preset's file goes: under its category, by its name.
pub fn preset_path(patch: &ArchetPatch) -> (r: String)
    ensures
        r@ == filed_at(patch@),
{
    let category: &str = match patch.preset_category() {
        Some(c) => c,
        None => "Archet",
    };
    let r = category.to_owned().concat("/").concat(patch.name.as_str());
    assert(r@ =~= filed_at(patch@));
    r
}

/// Whether `i` is the first name that a text names, whatever its case.
pub open spec fn named_by(names: Seq<String>, text: Seq<char>, i: int) -> bool {
    &&& 0 <= i < names.len()
    &&& crate::text::alike(names[i]@, text)
    &&& forall|j: int| 0 <= j < i ==> !crate::text::alike(#[trigger] names[j]@, text)
}

/// Whether a text names no preset.
pub open spec fn unnamed(names: Seq<String>, text: Seq<char>) -> bool {
    forall|j: int| 0 <= j < names.len() ==> !crate::text::alike(#[trigger] names[j]@, text)
}

/// Whether this is the preset a text asks for.
pub open spec fn asks_for(names: Seq<String>, text: Seq<char>, preset: Option<i32>) -> bool {
    match preset {
        Some(v) => {
            ||| named_by(names, text, v as int)
            ||| unnamed(names, text) && crate::text::spells_number(text) && v == crate::text::spelled(text)
        },
        None => {
            &&& unnamed(names, text)
            &&& crate::text::spells_number(text) ==> crate::text::spelled(text) < i32::MIN || crate::text::spelled(
                text,
            ) > i32::MAX
        },
    }
}

/// The preset a text asks for: by name, whatever its case, or else by number.
pub fn preset_from_text(names: &Vec<String>, text: &str) -> (r: Option<i32>)
    requires
        names.len() <= i32::MAX,
    ensures
        asks_for(names@, text@, r),
{
    let mut i: usize = 0;
    while i < names.len()
        invariant
            i <= names.len() <= i32::MAX,
            forall|j: int| 0 <= j < i ==> !crate::text::alike(#[trigger] names@[j]@, text@),
        decreases names.len() - i,
    {
        if same_ignoring_case(names[i].as_str(), text) {
            return Some(i as i32);
        }
        i = i + 1;
    }
    whole_number(text)
}

/// Whether this is the name a preset's number is shown by.
pub open spec fn goes_by(names: Seq<String>, v: int, name: Option<String>) -> bool {
    match name {
        Some(s) => 0 <= v < names.len() && s@ == names[v]@,
        None => v < 0 || v >= names.len(),
    }
}

/// Whether these are the names of a bank as a host counts them.
pub open spec fn counts(presets: Seq<ArchetPatch>, names: Seq<String>) -> bool {
    &&& names.len() == presets.len() + 1
    &&& names[0]@ == "Init"@
    &&& forall|i: int| 0 <= i < presets.len() ==> (#[trigger] names[i + 1])@ == presets[i].name@
}

/// The name a preset's number is shown by; none where no preset has it.
pub fn preset_name_for(names: &Vec<String>, v: i32) -> (r: Option<String>)
    ensures
        goes_by(names@, v as int, r),
{
    if v >= 0 && (v as usize) < names.len() {
        Some(names[v as usize].clone())
    } else {
        None
    }
}

/// The names a host counts: Init, then the bank.
pub fn preset_names(presets: &Vec<ArchetPatch>) -> (r: Vec<String>)
    requires
        presets.len() < usize::MAX,
    ensures
        counts(presets@, r@),
{
    let mut r: Vec<String> = Vec::new();
    r.push("Init".to_owned());
    let mut i: usize = 0;
    while i < presets.len()
        invariant
            i <= presets.len(),
            r.len() == i + 1,
            r@[0]@ == "Init"@,
            forall|j: int| 0 <= j < i ==> (#[trigger] r@[j + 1])@ == presets@[j].name@,
        decreases presets.len() - i,
    {
        r.push(presets[i].name.clone());
        i = i + 1;
        assert forall|j: int| 0 <= j < i implies (#[trigger] r@[j + 1])@ == presets@[j].name@ by {}
    }
    r
}

/// What a host's blocks have loaded so far.
pub struct PresetState {
    /// The preset last seen; 0 is Init.
    pub last_preset: i32,
    /// Whether Init has been pushed since the preset last moved.
    pub init_pushed: bool,
}

/// What a block has to load.
#[derive(Clone, Copy, Debug, PartialEq, Eq, Structural)]
pub enum Load {
    Nothing,
    /// A factory preset, by its place in the bank.
    Factory(usize),
    /// The patch the parameters describe.
    Init,
}

/// Whether any parameter moved by more than a millionth.
pub open spec fn any_moved(deltas: Seq<Single>) -> bool {
    exists|i: int|
        0 <= i < deltas.len() && (#[trigger] deltas[i]).number() && deltas[i].units() > Single::nearest(
            1,
            1_000_000,
        ).units()
}

/// Whether any parameter moved by more than a millionth.
fn moved(deltas: &Vec<Single>) -> (r: bool)
    ensures
        r == any_moved(deltas@),
{
    let threshold: Single = Single::ratio(1, 1_000_000);
    let mut i: usize = 0;
    while i < deltas.len()
        invariant
            i <= deltas.len(),
            threshold == Single::nearest(1, 1_000_000),
            threshold.number(),
            forall|j: int|
                0 <= j < i ==> !((#[trigger] deltas@[j]).number() && deltas@[j].units() > threshold.units()),
        decreases deltas.len() - i,
    {
        if deltas[i].gt(threshold) {
            return true;
        }
        i = i + 1;
    }
    false
}

impl PresetState {
    /// What a block loads, with the preset parameter at `preset`, a bank of
    /// `bank` presets, and the parameters moved by `deltas` since Init was
    /// last pushed.
    pub open spec fn due(self, preset: i32, bank: int, deltas: Seq<Single>) -> Load {
        let turned = preset != self.last_preset;
        if preset == 0 {
            if turned || !self.init_pushed || any_moved(deltas) {
                Load::Init
            } else {
                Load::Nothing
            }
        } else if turned && 0 < preset <= bank {
            Load::Factory((preset - 1) as usize)
        } else {
            Load::Nothing
        }
    }

    /// The state once a block has loaded what is due.
    pub open spec fn after(self, preset: i32, load: Load) -> PresetState {
        PresetState {
            last_preset: preset,
            init_pushed: load == Load::Init || (preset == self.last_preset && self.init_pushed),
        }
    }

    /// What is loaded on this block. A preset is loaded when its number
    /// moves, and the parameters of Init only when one of them changed, so an
    /// idle block builds nothing.
    pub fn block(&mut self, preset: i32, bank: usize, deltas: &Vec<Single>) -> (r: Load)
        ensures
            r == old(self).due(preset, bank as int, deltas@),
            *final(self) == old(self).after(preset, r),
    {
        let mut load = Load::Nothing;
        if preset != self.last_preset {
            self.last_preset = preset;
            self.init_pushed = false;
            if preset > 0 {
                let idx: usize = (preset - 1) as usize;
                if idx < bank {
                    load = Load::Factory(idx);
                }
            }
        }
        if preset == 0 && (!self.init_pushed || moved(deltas)) {
            self.init_pushed = true;
            load = Load::Init;
        }
        load
    }
}

/// The chain a block has to run, where it loads anything: a factory preset's
/// own, and none for Init, which is the absence of a preset and so of the
/// chain one carries.
pub open spec fn chain_due(load: Load, presets: Seq<ArchetPatch>) -> Option<Seq<SlotView>> {
    match load {
        Load::Nothing => None,
        Load::Factory(i) => Some(presets[i as int].fx@),
        Load::Init => Some(Seq::empty()),
    }
}

/// The chain a block has to run, where it loads anything.
pub fn chain_for(load: Load, presets: &Vec<ArchetPatch>) -> (r: Option<ChainSpec>)
    requires
        load matches Load::Factory(i) ==> i < presets.len(),
    ensures
        match r {
            Some(spec) => chain_due(load, presets@) == Some(spec@),
            None => chain_due(load, presets@) is None,
        },
{
    match load {
        Load::Nothing => None,
        Load::Factory(i) => Some(presets[i].fx.copied()),
        Load::Init => {
            let none = ChainSpec::new(Vec::new());
            assert(none@ =~= Seq::empty());
            Some(none)
        },
    }
}

/// A block on which nothing moved loads nothing, and the block after a load
/// with nothing moved is such a one.
pub proof fn law_an_idle_block_loads_nothing(s: PresetState, preset: i32, bank: int, deltas: Seq<Single>, idle: Seq<Single>)
    requires
        !any_moved(idle),
    ensures
        s.after(preset, s.due(preset, bank, deltas)).due(preset, bank, idle) == Load::Nothing,
{
}

/// A preset is loaded on the block its number moves to, and on no other, and
/// the number is remembered: the bank is counted from one, and a number it
/// does not have loads nothing.
pub proof fn law_a_moved_preset_is_loaded(s: PresetState, preset: i32, bank: int, deltas: Seq<Single>)
    requires
        0 <= bank <= usize::MAX,
    ensures
        s.due(preset, bank, deltas) matches Load::Factory(i) ==> i + 1 == preset && preset != s.last_preset && i
            < bank,
        preset != s.last_preset && 1 <= preset <= bank ==> s.due(preset, bank, deltas) is Factory,
        s.due(preset, bank, deltas) is Init ==> preset == 0,
        preset == 0 && any_moved(deltas) ==> s.due(preset, bank, deltas) is Init,
        preset == 0 && !s.init_pushed ==> s.due(preset, bank, deltas) is Init,
        s.after(preset, s.due(preset, bank, deltas)).last_preset == preset,
        s.after(preset, s.due(preset, bank, deltas)).init_pushed ==> preset == 0 || s.init_pushed,
{
}

/// A parameter has moved when it is a millionth or so away from where it was:
/// what is farther than that counts, and what is nearer does not.
pub proof fn law_a_moved_parameter_counts(deltas: Seq<Single>, i: int)
    requires
        0 <= i < deltas.len(),
    ensures
        deltas[i].number() && 999_999 * deltas[i].units() > crate::single::one() ==> any_moved(deltas),
        (forall|j: int|
            0 <= j < deltas.len() ==> (#[trigger] deltas[j]).number() ==> 1_000_001 * deltas[j].units()
                < crate::single::one()) ==> !any_moved(deltas),
        deltas.len() == 1 && deltas[0] == Single::nearest(1, 1_000_000) ==> !any_moved(deltas),
{
    crate::reading::lemma_nearest_is_close(1, 1_000_000);
    let (t, o) = (Single::nearest(1, 1_000_000).units(), crate::single::one());
    let u = deltas[i].units();
    if deltas[i].number() && 999_999 * u > o {
        assert(u > t);
        assert(any_moved(deltas));
    }
}

/// The chain that goes with what a block loads: the preset's own, and none at
/// all for Init; where nothing is loaded the chain stays.
pub proof fn law_a_load_brings_its_chain(load: Load, presets: Seq<ArchetPatch>)
    requires
        load matches Load::Factory(i) ==> i < presets.len(),
    ensures
        chain_due(load, presets) is None <==> load is Nothing,
        load is Init ==> (chain_due(load, presets) matches Some(c) && c.len() == 0),
        load matches Load::Factory(i) ==> chain_due(load, presets) == Some(presets[i as int].fx@),
{
}

/// Coming back to Init always pushes it, whatever the parameters did
/// meanwhile.
pub proof fn law_coming_back_to_init_pushes_it(s: PresetState, bank: int, deltas: Seq<Single>)
    requires
        s.last_preset != 0,
    ensures
        s.due(0, bank, deltas) == Load::Init,
{
}

/// What a host sends with a block.
#[derive(Clone, Copy, Debug, PartialEq, Eq, Structural)]
pub enum HostEvent {
    /// A key pressed, its velocity on the scale that ends at 127.
    NoteOn { note: u8, velocity: Single },
    NoteOff { note: u8 },
    /// The bend, in semitones.
    PitchBend(Single),
    /// Anything else.
    Other,
}

/// The command an event comes to: a velocity is cut to a whole one, and what
/// is not a note or a bend is let pass.
pub open spec fn event_command(event: HostEvent) -> Option<CommandView> {
    match event {
        HostEvent::NoteOn { note, velocity } => Some(CommandView::NoteOn(note, velocity.whole_part(255) as u8)),
        HostEvent::NoteOff { note } => Some(CommandView::NoteOff(note)),
        HostEvent::PitchBend(semitones) => Some(CommandView::PitchBend(semitones)),
        HostEvent::Other => None,
    }
}

/// A key's velocity is cut to the whole number below it, a note let go and a
/// bend arrive as they were sent, and nothing else becomes a command.
pub proof fn law_an_event_arrives_as_it_was_sent(event: HostEvent)
    ensures
        event matches HostEvent::NoteOn { note, velocity } ==> (event_command(event) matches Some(
            CommandView::NoteOn(n, v),
        ) && n == note && (velocity.number() && 0 <= velocity.units() < 255 * crate::single::one() ==> v
            * crate::single::one() <= velocity.units() < (v + 1) * crate::single::one()) && (velocity.number()
            && velocity.units() >= 255 * crate::single::one() ==> v == 255) && (!velocity.number() || velocity.units()
            < 0 ==> v == 0)),
        event matches HostEvent::NoteOff { note } ==> event_command(event) == Some(CommandView::NoteOff(note)),
        event matches HostEvent::PitchBend(x) ==> event_command(event) == Some(CommandView::PitchBend(x)),
        event is Other ==> event_command(event) is None,
{
    crate::single::lemma_landmarks();
    if let HostEvent::NoteOn { note, velocity } = event {
        let (u, o) = (velocity.units(), crate::single::one());
        if velocity.number() && 0 <= u < 255 * o {
            let k = u / o;
            assert(k * o <= u < (k + 1) * o) by (nonlinear_arith)
                requires k == u / o, o > 0, u >= 0;
            assert(0 <= k < 255) by (nonlinear_arith)
                requires k * o <= u, u < (k + 1) * o, 0 <= u < 255 * o, o > 0;
        }
    }
}

/// The command an event comes to.
pub fn command_for(event: HostEvent) -> (r: Option<ArchetCommand>)
    ensures
        match r {
            Some(cmd) => event_command(event) == Some(cmd@),
            None => event_command(event) is None,
        },
{
    match event {
        HostEvent::NoteOn { note, velocity } => Some(ArchetCommand::NoteOn(note, velocity.whole(255) as u8)),
        HostEvent::NoteOff { note } => Some(ArchetCommand::NoteOff(note)),
        HostEvent::PitchBend(semitones) => Some(ArchetCommand::PitchBend(semitones)),
        HostEvent::Other => None,
    }
}

/// What a host shows for the instrument parameter.
pub open spec fn instrument_text(v: i32) -> Seq<char> {
    if v == 0 {
        "Violin"@
    } else if v == 1 {
        "Viola"@
    } else if v == 2 {
        "Cello"@
    } else if v == 3 {
        "Double Bass"@
    } else {
        "?"@
    }
}

/// What a host shows for the articulation parameter.
pub open spec fn articulation_text(v: i32) -> Seq<char> {
    if v == 0 {
        "Bow"@
    } else {
        "Pluck"@
    }
}

/// What a host shows for the full-range parameter.
pub open spec fn full_range_text(v: i32) -> Seq<char> {
    if v == 0 {
        "Single"@
    } else {
        "Composite"@
    }
}

/// What a host shows for the instrument parameter.
pub fn instrument_name(v: i32) -> (r: &'static str)
    ensures
        r@ == instrument_text(v),
{
    match v {
        0 => "Violin",
        1 => "Viola",
        2 => "Cello",
        3 => "Double Bass",
        _ => "?",
    }
}

/// What a host shows for the articulation parameter.
pub fn articulation_name(v: i32) -> (r: &'static str)
    ensures
        r@ == articulation_text(v),
{
    if v == 0 {
        "Bow"
    } else {
        "Pluck"
    }
}

/// What a host shows for the full-range parameter.
pub fn full_range_name(v: i32) -> (r: &'static str)
    ensures
        r@ == full_range_text(v),
{
    if v == 0 {
        "Single"
    } else {
        "Composite"
    }
}

/// What a host shows is what the built patch plays: the instrument by the
/// section of the picker that a bowed patch of it falls under, the bow and
/// the pluck, and the one body and the composite desk.
pub proof fn law_the_host_shows_what_is_played(v: InitValues)
    requires
        in_range(v),
    ensures
        !init_view(v).pluck && !init_view(v).auto_range ==> instrument_text(v.instrument)
            == crate::patch::category_view(init_view(v)),
        instrument_text(v.instrument) == (match init_view(v).instrument {
            Instrument::Violin => "Violin"@,
            Instrument::Viola => "Viola"@,
            Instrument::Cello => "Cello"@,
            Instrument::DoubleBass => "Double Bass"@,
        }),
        init_view(v).pluck ==> articulation_text(v.articulation) == "Pluck"@,
        !init_view(v).pluck ==> articulation_text(v.articulation) == "Bow"@,
        init_view(v).auto_range ==> full_range_text(v.full_range) == "Composite"@,
        !init_view(v).auto_range ==> full_range_text(v.full_range) == "Single"@,
{
}

/// The class id spells its name, a byte to a letter.
pub proof fn law_the_class_id_spells_its_name(i: int)
    requires
        0 <= i < 16,
    ensures
        VST3_CLASS_ID@.len() == 16,
        "VxArchetBow00001"@.len() == 16,
        VST3_CLASS_ID@[i] as u32 == "VxArchetBow00001"@[i] as u32,
        NAME@ == "Aethon Archet"@,
        VENDOR@ == "Aethon Audio"@,
        CLAP_ID@ == "com.aethon-audio.archet"@,
{
    reveal_strlit("VxArchetBow00001");
}

/// A declaration is shown as it is.
pub proof fn law_a_declaration_is_shown_as_it_is(d: ParamDecl)
    ensures
        d@.id == d.id@,
        d@.name == d.name@,
        d@.default == d.default,
        d@.min == d.min,
        d@.max == d.max,
        d@.skewed == d.skewed,
        d@.unit == d.unit@,
        d@.digits == d.digits,
{
}

/// A preset is found by the name it is shown by: whatever is asked for by the
/// name of a number is that number, where no earlier one goes by the name.
pub proof fn law_a_shown_preset_is_found_again(names: Seq<String>, v: i32, shown: String, asked: Option<i32>)
    requires
        goes_by(names, v as int, Some(shown)),
        asks_for(names, shown@, asked),
        forall|j: int| 0 <= j < v ==> !crate::text::alike(#[trigger] names[j]@, names[v as int]@),
        names.len() <= i32::MAX,
    ensures
        asked == Some(v),
{
    assert(crate::text::alike(names[v as int]@, shown@));
    assert(!unnamed(names, shown@));
    match asked {
        Some(k) => {
            if k < v {
                assert(!crate::text::alike(names[k as int]@, names[v as int]@));
            } else if v < k {
                assert(!crate::text::alike(names[v as int]@, shown@));
            }
        },
        None => {},
    }
}

/// Nought is Init, and the bank is counted from one: the preset a block loads
/// for a number is the one shown under it. A number that is none has no name.
pub proof fn law_a_number_is_shown_by_what_it_loads(
    presets: Seq<ArchetPatch>,
    names: Seq<String>,
    s: PresetState,
    preset: i32,
    deltas: Seq<Single>,
    shown: Option<String>,
)
    requires
        counts(presets, names),
        presets.len() < i32::MAX,
        goes_by(names, preset as int, shown),
        preset != s.last_preset,
    ensures
        s.due(preset, presets.len() as int, deltas) matches Load::Factory(i) ==> (shown matches Some(n) && n@
            == presets[i as int].name@),
        preset == 0 ==> (shown matches Some(n) && n@ == "Init"@),
        preset < 0 || preset > presets.len() ==> shown is None,
{
    if 0 < preset <= presets.len() {
        assert(names[preset - 1 + 1]@ == presets[preset - 1].name@);
    }
}

/// A text that names nothing and spells a number asks for that number, and
/// one that does neither for nothing.
pub proof fn law_a_number_can_be_asked_for(names: Seq<String>, text: Seq<char>, asked: Option<i32>)
    requires
        asks_for(names, text, asked),
        forall|j: int| 0 <= j < names.len() ==> !crate::text::alike(#[trigger] names[j]@, text),
    ensures
        crate::text::spells_number(text) && i32::MIN <= crate::text::spelled(text) <= i32::MAX ==> (asked matches Some(
            v,
        ) && v == crate::text::spelled(text)),
        !crate::text::spells_number(text) ==> asked is None,
{
}

/// A file goes under its category, a slash between it and the name: two
/// presets of one category are filed apart where their names are.
pub proof fn law_a_preset_is_filed_by_its_name(a: PatchView, b: PatchView)
    requires
        crate::patch::category_view(a) == crate::patch::category_view(b),
    ensures
        ({
            let c = crate::patch::category_view(a);
            &&& filed_at(a).len() == c.len() + 1 + a.name.len()
            &&& filed_at(a).take(c.len() as int) == c
            &&& filed_at(a)[c.len() as int] == '/'
            &&& filed_at(a).skip(c.len() as int + 1) == a.name
        }),
        filed_at(a) == filed_at(b) ==> a.name == b.name,
{
    reveal_strlit("/");
    let c = crate::patch::category_view(a);
    assert(filed_at(a).take(c.len() as int) =~= c);
    assert(filed_at(a).skip(c.len() as int + 1) =~= a.name);
    assert(filed_at(b).skip(c.len() as int + 1) =~= b.name);
}

} // verus!
