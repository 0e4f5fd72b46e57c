//! A patch: every tunable parameter of the bowed-string model, the controls
//! that write one field at a time, and the factory bank.
//!
//! The index tables, the preset names and their order are wire formats: a
//! layout stores an instrument as a number and a session stores a preset by
//! its place, so each is written out.

use vstd::prelude::*;
use vstd::std_specs::convert::FromSpecImpl;
use crate::friction::FrictionMode;
use crate::fx::{chain, chamber, space_for, ChainSpec, SlotView};
use crate::single::{Single, HALF, ONE_AND_HALF};

verus! {

/// The four bodies.
#[derive(Clone, Copy, Debug, PartialEq, Eq, Structural, Default)]
pub enum Instrument {
    #[default]
    Violin,
    Viola,
    Cello,
    DoubleBass,
}

/// One editable field of an [`ArchetPatch`].
#[derive(Clone, Copy, Debug, PartialEq, Eq, Structural)]
pub enum ArchetParam {
    BowPos,
    BowVel,
    BowForce,
    BowNoise,
    Loss,
    Slope,
    Friction,
    BridgeHillDb,
    TorRatio,
    TorCouple,
    TorInject,
    Attack,
    Release,
    VelSens,
    VibRate,
    VibDepth,
    VibDelay,
    Ensemble,
    TuneCents,
    Instrument,
    AutoRange,
    Pluck,
}

/// Which friction law a patch asks for.
#[derive(Clone, Copy, Debug, PartialEq, Eq, Structural, Default)]
pub enum FrictionKind {
    Static,
    #[default]
    ElastoPlastic,
}

/// The mode a kind asks for.
pub open spec fn mode_of(k: FrictionKind) -> FrictionMode {
    match k {
        FrictionKind::Static => FrictionMode::Static,
        FrictionKind::ElastoPlastic => FrictionMode::ElastoPlastic,
    }
}

impl From<FrictionKind> for FrictionMode {
    fn from(k: FrictionKind) -> (r: FrictionMode) {
        match k {
            FrictionKind::Static => FrictionMode::Static,
            FrictionKind::ElastoPlastic => FrictionMode::ElastoPlastic,
        }
    }
}

impl FromSpecImpl<FrictionKind> for FrictionMode {
    open spec fn obeys_from_spec() -> bool {
        true
    }

    open spec fn from_spec(k: FrictionKind) -> FrictionMode {
        mode_of(k)
    }
}

impl Instrument {
    /// The instrument's place in the family, high to low.
    pub open spec fn index(self) -> int {
        match self {
            Instrument::Violin => 0,
            Instrument::Viola => 1,
            Instrument::Cello => 2,
            Instrument::DoubleBass => 3,
        }
    }

    /// The instrument at a place; every place past the last is the last.
    pub open spec fn at(i: int) -> Instrument {
        if i <= 0 {
            Instrument::Violin
        } else if i == 1 {
            Instrument::Viola
        } else if i == 2 {
            Instrument::Cello
        } else {
            Instrument::DoubleBass
        }
    }

    /// The body-mode frequency scale.
    pub open spec fn scale(self) -> Single {
        match self {
            Instrument::Violin => Single::nearest(1, 1),
            Instrument::Viola => Single::nearest(82, 100),
            Instrument::Cello => Single::nearest(50, 100),
            Instrument::DoubleBass => Single::nearest(33, 100),
        }
    }

    /// The instrument at index `i` of the wire format.
    pub fn from_index(i: usize) -> (r: Instrument)
        ensures
            r == Instrument::at(i as int),
    {
        if i == 0 {
            Instrument::Violin
        } else if i == 1 {
            Instrument::Viola
        } else if i == 2 {
            Instrument::Cello
        } else {
            Instrument::DoubleBass
        }
    }

    /// The index of the wire format.
    pub fn to_index(self) -> (r: usize)
        ensures
            r == self.index(),
    {
        match self {
            Instrument::Violin => 0,
            Instrument::Viola => 1,
            Instrument::Cello => 2,
            Instrument::DoubleBass => 3,
        }
    }

    /// Index into the per-instrument body curves.
    pub fn body_index(self) -> (r: usize)
        ensures
            r == self.index(),
            r < 4,
    {
        match self {
            Instrument::Violin => 0,
            Instrument::Viola => 1,
            Instrument::Cello => 2,
            Instrument::DoubleBass => 3,
        }
    }

    /// The body-mode frequency scale, the inverse of the body's length.
    pub fn body_scale(self) -> (r: Single)
        ensures
            r == self.scale(),
    {
        match self {
            Instrument::Violin => Single::ratio(1, 1),
            Instrument::Viola => Single::ratio(82, 100),
            Instrument::Cello => Single::ratio(50, 100),
            Instrument::DoubleBass => Single::ratio(33, 100),
        }
    }
}

/// An index names the instrument it was taken from, and an instrument's
/// index is the one it is found at.
pub proof fn law_index_round_trip(inst: Instrument, i: int)
    ensures
        Instrument::at(inst.index()) == inst,
        0 <= i < 4 ==> Instrument::at(i).index() == i,
        0 <= inst.index() < 4,
{
}

/// The polyphony a patch that names none has.
pub fn def_poly() -> (r: u8)
    ensures
        r == 8,
{
    8
}

/// The level a patch that names none has.
pub fn def_one() -> (r: Single)
    ensures
        r == Single::nearest(1, 1),
{
    Single::ratio(1, 1)
}

/// Every tunable parameter of the model.
#[derive(Clone, Debug, PartialEq)]
pub struct ArchetPatch {
    pub name: String,
    pub instrument: Instrument,
    /// Pick the instrument body per note from its pitch instead of one fixed
    /// instrument, so one engine renders a full-range desk.
    pub auto_range: bool,
    /// Plucked articulation: a release of the string and a free ring-down.
    pub pluck: bool,
    /// Notes that may sound at once.
    pub polyphony: u8,
    pub friction: FrictionKind,
    /// Bow position, the bow-bridge distance over the length.
    pub bow_pos: Single,
    /// Sustained bow velocity.
    pub bow_vel: Single,
    /// Bow force, in Schelleng's terms.
    pub bow_force: Single,
    /// Bridge loss, 0 bright to 1 dark.
    pub loss: Single,
    /// Static-table slope, read when the friction is static.
    pub slope: Single,
    pub tor_ratio: Single,
    pub tor_couple: Single,
    pub tor_inject: Single,
    /// Bridge-hill presence in dB.
    pub bridge_hill_db: Single,
    pub bow_noise: Single,
    /// Bow-force ramp time at note-on, in seconds.
    pub attack: Single,
    /// Bow-lift ramp time at note-off, in seconds.
    pub release: Single,
    /// Hertz.
    pub vib_rate: Single,
    /// Cents.
    pub vib_depth: Single,
    /// Seconds of note before the vibrato fades in.
    pub vib_delay: Single,
    pub output_level: Single,
    /// How much of the dynamic range the velocity commands.
    pub vel_sens: Single,
    /// Overall tuning offset in cents.
    pub tune_cents: Single,
    /// Per-desk decorrelation seed; 0 is the default single voice.
    pub seed_offset: u32,
    /// Section size in players; 0 or 1 is solo.
    pub ensemble: Single,
    /// The effects a host runs after the engine, run nowhere in it. Empty is a
    /// real no-op.
    pub fx: ChainSpec,
}

/// What an [`ArchetPatch`] says.
#[verifier::ext_equal]
pub struct PatchView {
    pub name: Seq<char>,
    pub instrument: Instrument,
    pub auto_range: bool,
    pub pluck: bool,
    pub polyphony: u8,
    pub friction: FrictionKind,
    pub bow_pos: Single,
    pub bow_vel: Single,
    pub bow_force: Single,
    pub loss: Single,
    pub slope: Single,
    pub tor_ratio: Single,
    pub tor_couple: Single,
    pub tor_inject: Single,
    pub bridge_hill_db: Single,
    pub bow_noise: Single,
    pub attack: Single,
    pub release: Single,
    pub vib_rate: Single,
    pub vib_depth: Single,
    pub vib_delay: Single,
    pub output_level: Single,
    pub vel_sens: Single,
    pub tune_cents: Single,
    pub seed_offset: u32,
    pub ensemble: Single,
    pub fx: Seq<SlotView>,
}

impl View for ArchetPatch {
    type V = PatchView;

    open spec fn view(&self) -> PatchView {
        PatchView {
            name: self.name@,
            instrument: self.instrument,
            auto_range: self.auto_range,
            pluck: self.pluck,
            polyphony: self.polyphony,
            friction: self.friction,
            bow_pos: self.bow_pos,
            bow_vel: self.bow_vel,
            bow_force: self.bow_force,
            loss: self.loss,
            slope: self.slope,
            tor_ratio: self.tor_ratio,
            tor_couple: self.tor_couple,
            tor_inject: self.tor_inject,
            bridge_hill_db: self.bridge_hill_db,
            bow_noise: self.bow_noise,
            attack: self.attack,
            release: self.release,
            vib_rate: self.vib_rate,
            vib_depth: self.vib_depth,
            vib_delay: self.vib_delay,
            output_level: self.output_level,
            vel_sens: self.vel_sens,
            tune_cents: self.tune_cents,
            seed_offset: self.seed_offset,
            ensemble: self.ensemble,
            fx: self.fx@,
        }
    }
}

/// The default patch: a soloist on a violin, heard in a chamber.
pub open spec fn default_view() -> PatchView {
    PatchView {
        name: "Violin"@,
        instrument: Instrument::Violin,
        auto_range: false,
        pluck: false,
        polyphony: 8,
        friction: FrictionKind::Static,
        bow_pos: Single::nearest(13, 100),
        bow_vel: Single::nearest(18, 100),
        bow_force: Single::nearest(1, 1),
        loss: Single::nearest(30, 100),
        slope: Single::nearest(3, 1),
        tor_ratio: Single::nearest(5, 1),
        tor_couple: Single::nearest(10, 100),
        tor_inject: Single::nearest(10, 100),
        bridge_hill_db: Single::nearest(9, 1),
        bow_noise: Single::nearest(13, 100),
        attack: Single::nearest(4, 100),
        release: Single::nearest(12, 100),
        vib_rate: Single::nearest(58, 10),
        vib_depth: Single::nearest(14, 1),
        vib_delay: Single::nearest(25, 100),
        output_level: Single::nearest(9, 10),
        vel_sens: Single::nearest(3, 10),
        tune_cents: Single::nearest(0, 1),
        seed_offset: 0,
        ensemble: Single::nearest(0, 1),
        fx: crate::fx::chain_view(crate::fx::chamber_view()),
    }
}

impl Default for ArchetPatch {
    fn default() -> (r: ArchetPatch)
        ensures
            r@ == default_view(),
    {
        ArchetPatch {
            name: "Violin".to_owned(),
            instrument: Instrument::Violin,
            auto_range: false,
            pluck: false,
            polyphony: 8,
            friction: FrictionKind::Static,
            bow_pos: Single::ratio(13, 100),
            bow_vel: Single::ratio(18, 100),
            bow_force: Single::ratio(1, 1),
            loss: Single::ratio(30, 100),
            slope: Single::ratio(3, 1),
            tor_ratio: Single::ratio(5, 1),
            tor_couple: Single::ratio(10, 100),
            tor_inject: Single::ratio(10, 100),
            bridge_hill_db: Single::ratio(9, 1),
            bow_noise: Single::ratio(13, 100),
            attack: Single::ratio(4, 100),
            release: Single::ratio(12, 100),
            vib_rate: Single::ratio(58, 10),
            vib_depth: Single::ratio(14, 1),
            vib_delay: Single::ratio(25, 100),
            output_level: Single::ratio(9, 10),
            vel_sens: Single::ratio(3, 10),
            tune_cents: Single::ratio(0, 1),
            seed_offset: 0,
            ensemble: Single::ratio(0, 1),
            fx: chain(chamber()),
        }
    }
}

/// Whether a value read as a switch is on: one half or more.
pub open spec fn switched_on(value: Single) -> bool {
    value.number() && 2 * value.units() >= crate::single::one()
}

/// A patch with one field written.
pub open spec fn applied(param: ArchetParam, p: PatchView, value: Single) -> PatchView {
    match param {
        ArchetParam::BowPos => PatchView { bow_pos: value, ..p },
        ArchetParam::BowVel => PatchView { bow_vel: value, ..p },
        ArchetParam::BowForce => PatchView { bow_force: value, ..p },
        ArchetParam::BowNoise => PatchView { bow_noise: value, ..p },
        ArchetParam::Loss => PatchView { loss: value, ..p },
        ArchetParam::Slope => PatchView { slope: value, ..p },
        ArchetParam::BridgeHillDb => PatchView { bridge_hill_db: value, ..p },
        ArchetParam::TorRatio => PatchView { tor_ratio: value, ..p },
        ArchetParam::TorCouple => PatchView { tor_couple: value, ..p },
        ArchetParam::TorInject => PatchView { tor_inject: value, ..p },
        ArchetParam::Attack => PatchView { attack: value, ..p },
        ArchetParam::Release => PatchView { release: value, ..p },
        ArchetParam::VelSens => PatchView { vel_sens: value, ..p },
        ArchetParam::VibRate => PatchView { vib_rate: value, ..p },
        ArchetParam::VibDepth => PatchView { vib_depth: value, ..p },
        ArchetParam::VibDelay => PatchView { vib_delay: value, ..p },
        ArchetParam::Ensemble => PatchView { ensemble: value, ..p },
        ArchetParam::TuneCents => PatchView { tune_cents: value, ..p },
        ArchetParam::Friction => PatchView {
            friction: if switched_on(value) {
                FrictionKind::ElastoPlastic
            } else {
                FrictionKind::Static
            },
            ..p
        },
        ArchetParam::Instrument => PatchView { instrument: Instrument::at(value.whole_part(3)), ..p },
        ArchetParam::AutoRange => PatchView { auto_range: switched_on(value), ..p },
        ArchetParam::Pluck => PatchView { pluck: switched_on(value), ..p },
    }
}

/// Whether the field chooses what the sympathetic strings are strung for.
pub open spec fn rebuilds(param: ArchetParam) -> bool {
    param == ArchetParam::Instrument || param == ArchetParam::AutoRange
}

/// Whether the field is a quantity, and no switch or choice.
pub open spec fn is_quantity(param: ArchetParam) -> bool {
    param != ArchetParam::Friction && param != ArchetParam::Instrument && param != ArchetParam::AutoRange
        && param != ArchetParam::Pluck
}

/// A switch as a number.
pub open spec fn switch_value(on: bool) -> Single {
    if on {
        Single::nearest(1, 1)
    } else {
        Single::nearest(0, 1)
    }
}

/// What a field holds, as the number it travels as.
pub open spec fn read_field(param: ArchetParam, p: PatchView) -> Single {
    match param {
        ArchetParam::BowPos => p.bow_pos,
        ArchetParam::BowVel => p.bow_vel,
        ArchetParam::BowForce => p.bow_force,
        ArchetParam::BowNoise => p.bow_noise,
        ArchetParam::Loss => p.loss,
        ArchetParam::Slope => p.slope,
        ArchetParam::BridgeHillDb => p.bridge_hill_db,
        ArchetParam::TorRatio => p.tor_ratio,
        ArchetParam::TorCouple => p.tor_couple,
        ArchetParam::TorInject => p.tor_inject,
        ArchetParam::Attack => p.attack,
        ArchetParam::Release => p.release,
        ArchetParam::VelSens => p.vel_sens,
        ArchetParam::VibRate => p.vib_rate,
        ArchetParam::VibDepth => p.vib_depth,
        ArchetParam::VibDelay => p.vib_delay,
        ArchetParam::Ensemble => p.ensemble,
        ArchetParam::TuneCents => p.tune_cents,
        ArchetParam::Friction => switch_value(p.friction == FrictionKind::ElastoPlastic),
        ArchetParam::Instrument => Single::nearest(p.instrument.index(), 1),
        ArchetParam::AutoRange => switch_value(p.auto_range),
        ArchetParam::Pluck => switch_value(p.pluck),
    }
}

/// A control reads back what it wrote, and no other control sees it: writing
/// one field changes what that field reads and nothing that another reads.
pub proof fn law_a_control_writes_the_field_it_names(
    param: ArchetParam,
    other: ArchetParam,
    p: PatchView,
    value: Single,
)
    ensures
        is_quantity(param) ==> read_field(param, applied(param, p, value)) == value,
        other != param ==> read_field(other, applied(param, p, value)) == read_field(other, p),
        applied(param, p, value).fx == p.fx,
        applied(param, p, value).name == p.name,
{
}

/// A control turns the field of its own name, and nothing else of the patch:
/// a quantity takes the value as it is; a switch is on from one half; and of
/// the instruments the value's whole part counts from the violin, what is
/// below nought or no number being the violin and what is past the last the
/// bass.
pub proof fn law_each_control_turns_its_own_field(param: ArchetParam, p: PatchView, value: Single)
    ensures
        applied(param, p, value).bow_pos == (if param == ArchetParam::BowPos { value } else { p.bow_pos }),
        applied(param, p, value).bow_vel == (if param == ArchetParam::BowVel { value } else { p.bow_vel }),
        applied(param, p, value).bow_force == (if param == ArchetParam::BowForce { value } else { p.bow_force }),
        applied(param, p, value).bow_noise == (if param == ArchetParam::BowNoise { value } else { p.bow_noise }),
        applied(param, p, value).loss == (if param == ArchetParam::Loss { value } else { p.loss }),
        applied(param, p, value).slope == (if param == ArchetParam::Slope { value } else { p.slope }),
        applied(param, p, value).bridge_hill_db == (if param == ArchetParam::BridgeHillDb {
            value
        } else {
            p.bridge_hill_db
        }),
        applied(param, p, value).tor_ratio == (if param == ArchetParam::TorRatio { value } else { p.tor_ratio }),
        applied(param, p, value).tor_couple == (if param == ArchetParam::TorCouple { value } else { p.tor_couple }),
        applied(param, p, value).tor_inject == (if param == ArchetParam::TorInject { value } else { p.tor_inject }),
        applied(param, p, value).attack == (if param == ArchetParam::Attack { value } else { p.attack }),
        applied(param, p, value).release == (if param == ArchetParam::Release { value } else { p.release }),
        applied(param, p, value).vel_sens == (if param == ArchetParam::VelSens { value } else { p.vel_sens }),
        applied(param, p, value).vib_rate == (if param == ArchetParam::VibRate { value } else { p.vib_rate }),
        applied(param, p, value).vib_depth == (if param == ArchetParam::VibDepth { value } else { p.vib_depth }),
        applied(param, p, value).vib_delay == (if param == ArchetParam::VibDelay { value } else { p.vib_delay }),
        applied(param, p, value).ensemble == (if param == ArchetParam::Ensemble { value } else { p.ensemble }),
        applied(param, p, value).tune_cents == (if param == ArchetParam::TuneCents { value } else { p.tune_cents }),
        param != ArchetParam::Friction ==> applied(param, p, value).friction == p.friction,
        param != ArchetParam::Instrument ==> applied(param, p, value).instrument == p.instrument,
        param != ArchetParam::AutoRange ==> applied(param, p, value).auto_range == p.auto_range,
        param != ArchetParam::Pluck ==> applied(param, p, value).pluck == p.pluck,
        param == ArchetParam::Friction ==> (applied(param, p, value).friction == FrictionKind::ElastoPlastic
            <==> value.number() && 2 * value.units() >= crate::single::one()),
        param == ArchetParam::AutoRange ==> (applied(param, p, value).auto_range <==> value.number() && 2
            * value.units() >= crate::single::one()),
        param == ArchetParam::Pluck ==> (applied(param, p, value).pluck <==> value.number() && 2 * value.units()
            >= crate::single::one()),
        param == ArchetParam::Instrument ==> {
            let i = applied(param, p, value).instrument;
            let (u, o) = (value.units(), crate::single::one());
            &&& i == Instrument::Violin <==> !value.number() || u < o
            &&& i == Instrument::Viola <==> value.number() && o <= u < 2 * o
            &&& i == Instrument::Cello <==> value.number() && 2 * o <= u < 3 * o
            &&& i == Instrument::DoubleBass <==> value.number() && 3 * o <= u
        },
        applied(param, p, value).name == p.name,
        applied(param, p, value).polyphony == p.polyphony,
        applied(param, p, value).output_level == p.output_level,
        applied(param, p, value).seed_offset == p.seed_offset,
        applied(param, p, value).fx == p.fx,
{
    crate::single::lemma_landmarks();
    let (u, o) = (value.units(), crate::single::one());
    if value.number() && 0 <= u < 3 * o {
        let k = u / o;
        assert(k * o <= u < (k + 1) * o) by (nonlinear_arith)
            requires k == u / o, o > 0, u >= 0;
        assert(0 <= k < 3) by (nonlinear_arith)
            requires k * o <= u, u < (k + 1) * o, 0 <= u < 3 * o, o > 0;
        assert(0 * o == 0 && 1 * o == o) by (nonlinear_arith);
        assert(k == 0 ==> k * o == 0 && (k + 1) * o == o);
        assert(k == 1 ==> k * o == o && (k + 1) * o == 2 * o);
        assert(k == 2 ==> k * o == 2 * o);
        assert(value.whole_part(3) == k);
    } else if value.number() && u >= 3 * o {
        assert(value.whole_part(3) == 3);
    } else {
        assert(value.whole_part(3) == 0);
    }
}

/// A control that asks for the sympathetic strings anew is one that can move
/// the body a note is played on, and any other leaves every note on its body.
pub proof fn law_only_a_choice_of_body_restrings(param: ArchetParam, p: PatchView, value: Single, note: u8)
    ensures
        !rebuilds(param) ==> crate::strings::body_for(note, applied(param, p, value)) == crate::strings::body_for(
            note,
            p,
        ),
        rebuilds(param) ==> exists|q: PatchView, v: Single, n: u8| #[trigger]
            crate::strings::body_for(n, applied(param, q, v)) != crate::strings::body_for(n, q),
{
    law_each_control_turns_its_own_field(param, p, value);
    if rebuilds(param) {
        crate::single::lemma_landmarks();
        let o = crate::single::one();
        let v = Single { bits: crate::single::TWO };
        let q = PatchView { auto_range: false, instrument: Instrument::Violin, ..p };
        law_each_control_turns_its_own_field(param, q, v);
        assert(v.number());
        let a = applied(param, q, v);
        if param == ArchetParam::Instrument {
            assert(a.instrument != Instrument::Violin);
            assert(crate::strings::body_for(60, a) != crate::strings::body_for(60, q));
        } else {
            assert(a.auto_range);
            assert(crate::strings::body_for(30, a) != crate::strings::body_for(30, q));
        }
    }
}

/// A patch is shown as it is, field by field.
pub proof fn law_a_patch_is_shown_as_it_is(p: ArchetPatch)
    ensures
        p@.name == p.name@,
        p@.instrument == p.instrument,
        p@.auto_range == p.auto_range,
        p@.pluck == p.pluck,
        p@.polyphony == p.polyphony,
        p@.friction == p.friction,
        p@.bow_pos == p.bow_pos,
        p@.bow_vel == p.bow_vel,
        p@.bow_force == p.bow_force,
        p@.bow_noise == p.bow_noise,
        p@.loss == p.loss,
        p@.slope == p.slope,
        p@.bridge_hill_db == p.bridge_hill_db,
        p@.tor_ratio == p.tor_ratio,
        p@.tor_couple == p.tor_couple,
        p@.tor_inject == p.tor_inject,
        p@.attack == p.attack,
        p@.release == p.release,
        p@.vel_sens == p.vel_sens,
        p@.vib_rate == p.vib_rate,
        p@.vib_depth == p.vib_depth,
        p@.vib_delay == p.vib_delay,
        p@.ensemble == p.ensemble,
        p@.tune_cents == p.tune_cents,
        p@.output_level == p.output_level,
        p@.seed_offset == p.seed_offset,
        p@.fx == p.fx@,
{
}

/// No control touches what none names: a patch's name, its polyphony, its
/// level, its desk's seed and its chain.
pub proof fn law_no_control_touches_the_rest(param: ArchetParam, p: PatchView, value: Single)
    ensures
        applied(param, p, value).name == p.name,
        applied(param, p, value).polyphony == p.polyphony,
        applied(param, p, value).output_level == p.output_level,
        applied(param, p, value).seed_offset == p.seed_offset,
        applied(param, p, value).fx == p.fx,
{
}

/// Two patches that every control reads alike, and that are alike in what
/// none reads, are one.
proof fn lemma_read_alike(a: PatchView, b: PatchView)
    requires
        a.name == b.name,
        a.polyphony == b.polyphony,
        a.output_level == b.output_level,
        a.seed_offset == b.seed_offset,
        a.fx == b.fx,
        forall|q: ArchetParam| #[trigger] read_field(q, a) == read_field(q, b),
    ensures
        a == b,
{
    assert(read_field(ArchetParam::BowPos, a) == read_field(ArchetParam::BowPos, b));
    assert(read_field(ArchetParam::BowVel, a) == read_field(ArchetParam::BowVel, b));
    assert(read_field(ArchetParam::BowForce, a) == read_field(ArchetParam::BowForce, b));
    assert(read_field(ArchetParam::BowNoise, a) == read_field(ArchetParam::BowNoise, b));
    assert(read_field(ArchetParam::Loss, a) == read_field(ArchetParam::Loss, b));
    assert(read_field(ArchetParam::Slope, a) == read_field(ArchetParam::Slope, b));
    assert(read_field(ArchetParam::BridgeHillDb, a) == read_field(ArchetParam::BridgeHillDb, b));
    assert(read_field(ArchetParam::TorRatio, a) == read_field(ArchetParam::TorRatio, b));
    assert(read_field(ArchetParam::TorCouple, a) == read_field(ArchetParam::TorCouple, b));
    assert(read_field(ArchetParam::TorInject, a) == read_field(ArchetParam::TorInject, b));
    assert(read_field(ArchetParam::Attack, a) == read_field(ArchetParam::Attack, b));
    assert(read_field(ArchetParam::Release, a) == read_field(ArchetParam::Release, b));
    assert(read_field(ArchetParam::VelSens, a) == read_field(ArchetParam::VelSens, b));
    assert(read_field(ArchetParam::VibRate, a) == read_field(ArchetParam::VibRate, b));
    assert(read_field(ArchetParam::VibDepth, a) == read_field(ArchetParam::VibDepth, b));
    assert(read_field(ArchetParam::VibDelay, a) == read_field(ArchetParam::VibDelay, b));
    assert(read_field(ArchetParam::Ensemble, a) == read_field(ArchetParam::Ensemble, b));
    assert(read_field(ArchetParam::TuneCents, a) == read_field(ArchetParam::TuneCents, b));
    assert(read_field(ArchetParam::Friction, a) == read_field(ArchetParam::Friction, b));
    assert(read_field(ArchetParam::Instrument, a) == read_field(ArchetParam::Instrument, b));
    assert(read_field(ArchetParam::AutoRange, a) == read_field(ArchetParam::AutoRange, b));
    assert(read_field(ArchetParam::Pluck, a) == read_field(ArchetParam::Pluck, b));
    crate::single::lemma_landmarks();
    crate::single::lemma_whole(0);
    crate::single::lemma_whole(1);
    crate::single::lemma_whole(2);
    crate::single::lemma_whole(3);
    let o = crate::single::one();
    assert(3 * o > 2 * o && 2 * o > 1 * o && 1 * o > 0 * o) by (nonlinear_arith)
        requires o > 0;
}

/// What a control reads after it is turned is the turn's alone.
proof fn lemma_read_after(param: ArchetParam, a: PatchView, b: PatchView, value: Single)
    ensures
        read_field(param, applied(param, a, value)) == read_field(param, applied(param, b, value)),
{
}

/// Two controls can be turned in either order.
pub proof fn law_two_controls_commute(
    param: ArchetParam,
    value: Single,
    other: ArchetParam,
    with: Single,
    p: PatchView,
)
    requires
        other != param,
    ensures
        applied(other, applied(param, p, value), with) == applied(param, applied(other, p, with), value),
{
    let (a, b) = (applied(param, p, value), applied(other, p, with));
    let (x, y) = (applied(other, a, with), applied(param, b, value));
    law_no_control_touches_the_rest(param, p, value);
    law_no_control_touches_the_rest(other, p, with);
    law_no_control_touches_the_rest(other, a, with);
    law_no_control_touches_the_rest(param, b, value);
    assert forall|q: ArchetParam| #[trigger] read_field(q, x) == read_field(q, y) by {
        law_a_control_writes_the_field_it_names(param, q, p, value);
        law_a_control_writes_the_field_it_names(other, q, p, with);
        law_a_control_writes_the_field_it_names(other, q, a, with);
        law_a_control_writes_the_field_it_names(param, q, b, value);
        lemma_read_after(param, p, b, value);
        lemma_read_after(other, p, a, with);
    }
    lemma_read_alike(x, y);
}

/// Of two turns of one control the last stands.
pub proof fn law_the_last_turn_stands(param: ArchetParam, first: Single, last: Single, p: PatchView)
    ensures
        applied(param, applied(param, p, first), last) == applied(param, p, last),
{
}

/// A field that travels as a number arrives as it left: what a switch or a
/// choice reads writes it back.
pub proof fn law_a_choice_travels(param: ArchetParam, p: PatchView)
    ensures
        applied(param, p, read_field(param, p)) == p,
{
    crate::single::lemma_landmarks();
    crate::single::lemma_whole(0);
    crate::single::lemma_whole(1);
    crate::single::lemma_whole(2);
    crate::single::lemma_whole(3);
    let i = p.instrument.index();
    let o = crate::single::one();
    assert((i * o) / o == i) by (nonlinear_arith)
        requires o > 0;
    assert(3 * o > 2 * o && 2 * o > 1 * o && 1 * o > 0 * o) by (nonlinear_arith)
        requires o > 0;
}

/// Read a value as a switch.
fn is_on(value: Single) -> (r: bool)
    ensures
        r == switched_on(value),
{
    proof {
        crate::single::lemma_landmarks();
    }
    value.ge(Single { bits: HALF })
}

/// A switch as a number.
fn switch(on: bool) -> (r: Single)
    ensures
        r == switch_value(on),
{
    if on {
        Single::ratio(1, 1)
    } else {
        Single::ratio(0, 1)
    }
}

impl ArchetParam {
    /// Does changing this field require rebuilding the sympathetic open
    /// strings? Only the body choice does; every other field is a coefficient
    /// the running voices read each block.
    pub fn needs_symp_rebuild(self) -> (r: bool)
        ensures
            r == rebuilds(self),
    {
        match self {
            ArchetParam::Instrument => true,
            ArchetParam::AutoRange => true,
            _ => false,
        }
    }

    /// What the field holds, as the number it travels as.
    pub fn value(self, p: &ArchetPatch) -> (r: Single)
        ensures
            r == read_field(self, p@),
    {
        match self {
            ArchetParam::BowPos => p.bow_pos,
            ArchetParam::BowVel => p.bow_vel,
            ArchetParam::BowForce => p.bow_force,
            ArchetParam::BowNoise => p.bow_noise,
            ArchetParam::Loss => p.loss,
            ArchetParam::Slope => p.slope,
            ArchetParam::BridgeHillDb => p.bridge_hill_db,
            ArchetParam::TorRatio => p.tor_ratio,
            ArchetParam::TorCouple => p.tor_couple,
            ArchetParam::TorInject => p.tor_inject,
            ArchetParam::Attack => p.attack,
            ArchetParam::Release => p.release,
            ArchetParam::VelSens => p.vel_sens,
            ArchetParam::VibRate => p.vib_rate,
            ArchetParam::VibDepth => p.vib_depth,
            ArchetParam::VibDelay => p.vib_delay,
            ArchetParam::Ensemble => p.ensemble,
            ArchetParam::TuneCents => p.tune_cents,
            ArchetParam::Friction => switch(p.friction == FrictionKind::ElastoPlastic),
            ArchetParam::Instrument => Single::ratio(p.instrument.to_index() as u32, 1),
            ArchetParam::AutoRange => switch(p.auto_range),
            ArchetParam::Pluck => switch(p.pluck),
        }
    }

    /// Write `value` into `p`. Enums and bools travel as a number: an index
    /// cut to its whole part, a switch on from one half.
    pub fn apply(self, p: &mut ArchetPatch, value: Single)
        ensures
            final(p)@ == applied(self, old(p)@, value),
    {
        match self {
            ArchetParam::BowPos => {
                p.bow_pos = value;
            },
            ArchetParam::BowVel => {
                p.bow_vel = value;
            },
            ArchetParam::BowForce => {
                p.bow_force = value;
            },
            ArchetParam::BowNoise => {
                p.bow_noise = value;
            },
            ArchetParam::Loss => {
                p.loss = value;
            },
            ArchetParam::Slope => {
                p.slope = value;
            },
            ArchetParam::BridgeHillDb => {
                p.bridge_hill_db = value;
            },
            ArchetParam::TorRatio => {
                p.tor_ratio = value;
            },
            ArchetParam::TorCouple => {
                p.tor_couple = value;
            },
            ArchetParam::TorInject => {
                p.tor_inject = value;
            },
            ArchetParam::Attack => {
                p.attack = value;
            },
            ArchetParam::Release => {
                p.release = value;
            },
            ArchetParam::VelSens => {
                p.vel_sens = value;
            },
            ArchetParam::VibRate => {
                p.vib_rate = value;
            },
            ArchetParam::VibDepth => {
                p.vib_depth = value;
            },
            ArchetParam::VibDelay => {
                p.vib_delay = value;
            },
            ArchetParam::Ensemble => {
                p.ensemble = value;
            },
            ArchetParam::TuneCents => {
                p.tune_cents = value;
            },
            ArchetParam::Friction => {
                p.friction = if is_on(value) {
                    FrictionKind::ElastoPlastic
                } else {
                    FrictionKind::Static
                };
            },
            ArchetParam::Instrument => {
                p.instrument = Instrument::from_index(value.whole(3) as usize);
            },
            ArchetParam::AutoRange => {
                p.auto_range = is_on(value);
            },
            ArchetParam::Pluck => {
                p.pluck = is_on(value);
            },
        }
    }
}

/// A section of violins.
pub open spec fn violin_ensemble_view() -> PatchView {
    PatchView {
        name: "Violin Ensemble"@,
        attack: Single::nearest(6, 100),
        release: Single::nearest(16, 100),
        vib_depth: Single::nearest(16, 1),
        ensemble: Single::nearest(14, 1),
        polyphony: 24,
        ..default_view()
    }
}

/// A soloist on a viola.
pub open spec fn viola_view() -> PatchView {
    PatchView {
        name: "Viola"@,
        instrument: Instrument::Viola,
        bridge_hill_db: Single::nearest(7, 1),
        bow_pos: Single::nearest(12, 100),
        ..default_view()
    }
}

/// A soloist on a cello.
pub open spec fn cello_view() -> PatchView {
    PatchView {
        name: "Cello"@,
        instrument: Instrument::Cello,
        bridge_hill_db: Single::nearest(6, 1),
        bow_pos: Single::nearest(10, 100),
        loss: Single::nearest(16, 100),
        vib_rate: Single::nearest(52, 10),
        ..default_view()
    }
}

/// A soloist on a double bass.
pub open spec fn double_bass_view() -> PatchView {
    PatchView {
        name: "Double Bass"@,
        instrument: Instrument::DoubleBass,
        bridge_hill_db: Single::nearest(10, 1),
        bow_pos: Single::nearest(9, 100),
        loss: Single::nearest(22, 100),
        vib_rate: Single::nearest(44, 10),
        vib_depth: Single::nearest(7, 1),
        bow_noise: Single::nearest(14, 100),
        ..default_view()
    }
}

/// Where a finger plucks, as a fraction of the open string's length: the
/// median the recorded open strings imply from their fifth partial.
pub open spec fn pluck_spot() -> Single {
    Single::nearest(185, 1000)
}

/// Where a finger plucks, as a fraction of the open string's length.
pub fn plucking_spot() -> (r: Single)
    ensures
        r == pluck_spot(),
{
    Single::ratio(185, 1000)
}

/// The bank before each preset takes the space it is heard in.
pub open spec fn bank_view() -> Seq<PatchView> {
    seq![
        PatchView {
            name: "Violin Solo"@,
            ..default_view()
        },
        PatchView {
            name: "Viola Solo"@,
            ..viola_view()
        },
        PatchView {
            name: "Cello Solo"@,
            ..cello_view()
        },
        PatchView {
            name: "Double Bass Solo"@,
            ..double_bass_view()
        },
        PatchView {
            name: "Romantic Violin"@,
            vib_depth: Single::nearest(22, 1),
            vib_rate: Single::nearest(62, 10),
            vib_delay: Single::nearest(18, 100),
            attack: Single::nearest(5, 100),
            bridge_hill_db: Single::nearest(10, 1),
            ..default_view()
        },
        PatchView {
            name: "Baroque Violin"@,
            vib_depth: Single::nearest(4, 1),
            vib_rate: Single::nearest(5, 1),
            vib_delay: Single::nearest(5, 10),
            bow_noise: Single::nearest(18, 100),
            bridge_hill_db: Single::nearest(7, 1),
            loss: Single::nearest(36, 100),
            ..default_view()
        },
        PatchView {
            name: "Violin Sul Tasto"@,
            bow_pos: Single::nearest(18, 100),
            loss: Single::nearest(5, 10),
            bow_force: Single::nearest(7, 10),
            bridge_hill_db: Single::nearest(5, 1),
            bow_noise: Single::nearest(8, 100),
            ..default_view()
        },
        PatchView {
            name: "Violin Sul Ponticello"@,
            bow_pos: Single::nearest(45, 1000),
            loss: Single::nearest(1, 10),
            bow_force: Single::nearest(14, 10),
            bridge_hill_db: Single::nearest(12, 1),
            bow_noise: Single::nearest(22, 100),
            ..default_view()
        },
        PatchView {
            name: "Lyrical Cello"@,
            vib_depth: Single::nearest(18, 1),
            vib_rate: Single::nearest(5, 1),
            attack: Single::nearest(7, 100),
            release: Single::nearest(18, 100),
            ..cello_view()
        },
        PatchView {
            name: "Cello Ponticello"@,
            bow_pos: Single::nearest(5, 100),
            loss: Single::nearest(12, 100),
            bridge_hill_db: Single::nearest(12, 1),
            bow_noise: Single::nearest(18, 100),
            ..cello_view()
        },
        PatchView {
            name: "Violin Section"@,
            ..violin_ensemble_view()
        },
        PatchView {
            name: "Violin Section Small"@,
            ensemble: Single::nearest(6, 1),
            polyphony: 16,
            attack: Single::nearest(5, 100),
            ..default_view()
        },
        PatchView {
            name: "Violin Section Large"@,
            ensemble: Single::nearest(30, 1),
            polyphony: 32,
            attack: Single::nearest(8, 100),
            vib_depth: Single::nearest(18, 1),
            ..default_view()
        },
        PatchView {
            name: "Viola Section"@,
            ensemble: Single::nearest(12, 1),
            polyphony: 24,
            attack: Single::nearest(6, 100),
            ..viola_view()
        },
        PatchView {
            name: "Cello Section"@,
            ensemble: Single::nearest(10, 1),
            polyphony: 24,
            attack: Single::nearest(7, 100),
            release: Single::nearest(18, 100),
            ..cello_view()
        },
        PatchView {
            name: "Bass Section"@,
            ensemble: Single::nearest(8, 1),
            polyphony: 16,
            attack: Single::nearest(8, 100),
            ..double_bass_view()
        },
        PatchView {
            name: "Full String Ensemble"@,
            auto_range: true,
            ensemble: Single::nearest(14, 1),
            polyphony: 32,
            attack: Single::nearest(7, 100),
            release: Single::nearest(2, 10),
            vib_depth: Single::nearest(16, 1),
            ..default_view()
        },
        PatchView {
            name: "Cinematic Strings"@,
            auto_range: true,
            ensemble: Single::nearest(24, 1),
            polyphony: 40,
            attack: Single::nearest(1, 10),
            release: Single::nearest(25, 100),
            vib_depth: Single::nearest(18, 1),
            bridge_hill_db: Single::nearest(10, 1),
            ..default_view()
        },
        PatchView {
            name: "Violin Pizzicato"@,
            pluck: true,
            bow_pos: pluck_spot(),
            vib_depth: Single::nearest(0, 1),
            bow_noise: Single::nearest(0, 1),
            release: Single::nearest(8, 100),
            ..default_view()
        },
        PatchView {
            name: "Cello Pizzicato"@,
            pluck: true,
            bow_pos: pluck_spot(),
            vib_depth: Single::nearest(0, 1),
            bow_noise: Single::nearest(0, 1),
            release: Single::nearest(1, 10),
            ..cello_view()
        },
        PatchView {
            name: "Bass Pizzicato"@,
            pluck: true,
            bow_pos: pluck_spot(),
            vib_depth: Single::nearest(0, 1),
            bow_noise: Single::nearest(0, 1),
            release: Single::nearest(12, 100),
            ..double_bass_view()
        },
        PatchView {
            name: "Pizzicato Section"@,
            pluck: true,
            bow_pos: pluck_spot(),
            vib_depth: Single::nearest(0, 1),
            bow_noise: Single::nearest(0, 1),
            release: Single::nearest(6, 100),
            ensemble: Single::nearest(12, 1),
            polyphony: 32,
            auto_range: true,
            ..default_view()
        },
    ]
}

/// The output level every factory preset ships at.
pub open spec fn preset_level() -> Single {
    Single::nearest(14, 10)
}

/// Whether a patch plays a section: one player and a half or more.
pub open spec fn is_section(p: PatchView) -> bool {
    p.ensemble.number() && 2 * p.ensemble.units() >= 3 * crate::single::one()
}

/// A patch as the bank ships it: heard in its own space, at the preset level.
pub open spec fn shipped(p: PatchView) -> PatchView {
    PatchView { fx: crate::fx::chain_view(crate::fx::space_view(p)), output_level: preset_level(), ..p }
}

impl ArchetPatch {
    /// Whether this patch plays a section.
    pub fn section(&self) -> (r: bool)
        ensures
            r == is_section(self@),
    {
        proof {
            crate::single::lemma_landmarks();
        }
        self.ensemble.ge(Single { bits: ONE_AND_HALF })
    }

    /// The same patch again.
    pub fn copied(&self) -> (r: ArchetPatch)
        ensures
            r@ == self@,
    {
        ArchetPatch {
            name: self.name.clone(),
            instrument: self.instrument,
            auto_range: self.auto_range,
            pluck: self.pluck,
            polyphony: self.polyphony,
            friction: self.friction,
            bow_pos: self.bow_pos,
            bow_vel: self.bow_vel,
            bow_force: self.bow_force,
            loss: self.loss,
            slope: self.slope,
            tor_ratio: self.tor_ratio,
            tor_couple: self.tor_couple,
            tor_inject: self.tor_inject,
            bridge_hill_db: self.bridge_hill_db,
            bow_noise: self.bow_noise,
            attack: self.attack,
            release: self.release,
            vib_rate: self.vib_rate,
            vib_depth: self.vib_depth,
            vib_delay: self.vib_delay,
            output_level: self.output_level,
            vel_sens: self.vel_sens,
            tune_cents: self.tune_cents,
            seed_offset: self.seed_offset,
            ensemble: self.ensemble,
            fx: self.fx.copied(),
        }
    }

    /// A soloist on a violin.
    pub fn violin() -> (r: ArchetPatch)
        ensures
            r@ == default_view(),
    {
        ArchetPatch::default()
    }

    /// A section of violins.
    pub fn violin_ensemble() -> (r: ArchetPatch)
        ensures
            r@ == violin_ensemble_view(),
    {
        ArchetPatch {
            name: "Violin Ensemble".to_owned(),
            attack: Single::ratio(6, 100),
            release: Single::ratio(16, 100),
            vib_depth: Single::ratio(16, 1),
            ensemble: Single::ratio(14, 1),
            polyphony: 24,
            ..ArchetPatch::default()
        }
    }

    /// A soloist on a viola.
    pub fn viola() -> (r: ArchetPatch)
        ensures
            r@ == viola_view(),
    {
        ArchetPatch {
            name: "Viola".to_owned(),
            instrument: Instrument::Viola,
            bridge_hill_db: Single::ratio(7, 1),
            bow_pos: Single::ratio(12, 100),
            ..ArchetPatch::default()
        }
    }

    /// A soloist on a cello.
    pub fn cello() -> (r: ArchetPatch)
        ensures
            r@ == cello_view(),
    {
        ArchetPatch {
            name: "Cello".to_owned(),
            instrument: Instrument::Cello,
            bridge_hill_db: Single::ratio(6, 1),
            bow_pos: Single::ratio(10, 100),
            loss: Single::ratio(16, 100),
            vib_rate: Single::ratio(52, 10),
            ..ArchetPatch::default()
        }
    }

    /// A soloist on a double bass.
    pub fn double_bass() -> (r: ArchetPatch)
        ensures
            r@ == double_bass_view(),
    {
        ArchetPatch {
            name: "Double Bass".to_owned(),
            instrument: Instrument::DoubleBass,
            bridge_hill_db: Single::ratio(10, 1),
            bow_pos: Single::ratio(9, 100),
            loss: Single::ratio(22, 100),
            vib_rate: Single::ratio(44, 10),
            vib_depth: Single::ratio(7, 1),
            bow_noise: Single::ratio(14, 100),
            ..ArchetPatch::default()
        }
    }

    /// A patch under another name.
    fn named(self, name: &str) -> (r: ArchetPatch)
        ensures
            r@ == (PatchView { name: name@, ..self@ }),
    {
        ArchetPatch { name: name.to_owned(), ..self }
    }

    /// The bank before each preset takes the space it is heard in.
    fn bank() -> (r: Vec<ArchetPatch>)
        ensures
            r.len() == bank_view().len(),
            forall|i: int| 0 <= i < r.len() ==> (#[trigger] r@[i])@ == bank_view()[i],
    {
        vec![
            ArchetPatch::violin().named("Violin Solo"),
            ArchetPatch::viola().named("Viola Solo"),
            ArchetPatch::cello().named("Cello Solo"),
            ArchetPatch::double_bass().named("Double Bass Solo"),
            ArchetPatch {
                vib_depth: Single::ratio(22, 1),
                vib_rate: Single::ratio(62, 10),
                vib_delay: Single::ratio(18, 100),
                attack: Single::ratio(5, 100),
                bridge_hill_db: Single::ratio(10, 1),
                ..ArchetPatch::violin()
            }.named("Romantic Violin"),
            ArchetPatch {
                vib_depth: Single::ratio(4, 1),
                vib_rate: Single::ratio(5, 1),
                vib_delay: Single::ratio(5, 10),
                bow_noise: Single::ratio(18, 100),
                bridge_hill_db: Single::ratio(7, 1),
                loss: Single::ratio(36, 100),
                ..ArchetPatch::violin()
            }.named("Baroque Violin"),
            ArchetPatch {
                bow_pos: Single::ratio(18, 100),
                loss: Single::ratio(5, 10),
                bow_force: Single::ratio(7, 10),
                bridge_hill_db: Single::ratio(5, 1),
                bow_noise: Single::ratio(8, 100),
                ..ArchetPatch::violin()
            }.named("Violin Sul Tasto"),
            ArchetPatch {
                bow_pos: Single::ratio(45, 1000),
                loss: Single::ratio(1, 10),
                bow_force: Single::ratio(14, 10),
                bridge_hill_db: Single::ratio(12, 1),
                bow_noise: Single::ratio(22, 100),
                ..ArchetPatch::violin()
            }.named("Violin Sul Ponticello"),
            ArchetPatch {
                vib_depth: Single::ratio(18, 1),
                vib_rate: Single::ratio(5, 1),
                attack: Single::ratio(7, 100),
                release: Single::ratio(18, 100),
                ..ArchetPatch::cello()
            }.named("Lyrical Cello"),
            ArchetPatch {
                bow_pos: Single::ratio(5, 100),
                loss: Single::ratio(12, 100),
                bridge_hill_db: Single::ratio(12, 1),
                bow_noise: Single::ratio(18, 100),
                ..ArchetPatch::cello()
            }.named("Cello Ponticello"),
            ArchetPatch::violin_ensemble().named("Violin Section"),
            ArchetPatch {
                ensemble: Single::ratio(6, 1),
                polyphony: 16,
                attack: Single::ratio(5, 100),
                ..ArchetPatch::violin()
            }.named("Violin Section Small"),
            ArchetPatch {
                ensemble: Single::ratio(30, 1),
                polyphony: 32,
                attack: Single::ratio(8, 100),
                vib_depth: Single::ratio(18, 1),
                ..ArchetPatch::violin()
            }.named("Violin Section Large"),
            ArchetPatch {
                ensemble: Single::ratio(12, 1),
                polyphony: 24,
                attack: Single::ratio(6, 100),
                ..ArchetPatch::viola()
            }.named("Viola Section"),
            ArchetPatch {
                ensemble: Single::ratio(10, 1),
                polyphony: 24,
                attack: Single::ratio(7, 100),
                release: Single::ratio(18, 100),
                ..ArchetPatch::cello()
            }.named("Cello Section"),
            ArchetPatch {
                ensemble: Single::ratio(8, 1),
                polyphony: 16,
                attack: Single::ratio(8, 100),
                ..ArchetPatch::double_bass()
            }.named("Bass Section"),
            ArchetPatch {
                auto_range: true,
                ensemble: Single::ratio(14, 1),
                polyphony: 32,
                attack: Single::ratio(7, 100),
                release: Single::ratio(2, 10),
                vib_depth: Single::ratio(16, 1),
                ..ArchetPatch::violin()
            }.named("Full String Ensemble"),
            ArchetPatch {
                auto_range: true,
                ensemble: Single::ratio(24, 1),
                polyphony: 40,
                attack: Single::ratio(1, 10),
                release: Single::ratio(25, 100),
                vib_depth: Single::ratio(18, 1),
                bridge_hill_db: Single::ratio(10, 1),
                ..ArchetPatch::violin()
            }.named("Cinematic Strings"),
            ArchetPatch {
                pluck: true,
                bow_pos: plucking_spot(),
                vib_depth: Single::ratio(0, 1),
                bow_noise: Single::ratio(0, 1),
                release: Single::ratio(8, 100),
                ..ArchetPatch::violin()
            }.named("Violin Pizzicato"),
            ArchetPatch {
                pluck: true,
                bow_pos: plucking_spot(),
                vib_depth: Single::ratio(0, 1),
                bow_noise: Single::ratio(0, 1),
                release: Single::ratio(1, 10),
                ..ArchetPatch::cello()
            }.named("Cello Pizzicato"),
            ArchetPatch {
                pluck: true,
                bow_pos: plucking_spot(),
                vib_depth: Single::ratio(0, 1),
                bow_noise: Single::ratio(0, 1),
                release: Single::ratio(12, 100),
                ..ArchetPatch::double_bass()
            }.named("Bass Pizzicato"),
            ArchetPatch {
                pluck: true,
                bow_pos: plucking_spot(),
                vib_depth: Single::ratio(0, 1),
                bow_noise: Single::ratio(0, 1),
                release: Single::ratio(6, 100),
                ensemble: Single::ratio(12, 1),
                polyphony: 32,
                auto_range: true,
                ..ArchetPatch::violin()
            }.named("Pizzicato Section"),
        ]
    }

    /// The factory preset bank. Names are unique; names and order are data a
    /// session keeps.
    pub fn factory_presets() -> (r: Vec<ArchetPatch>)
        ensures
            r.len() == bank_view().len(),
            forall|i: int| 0 <= i < r.len() ==> (#[trigger] r@[i])@ == shipped(bank_view()[i]),
    {
        let mut bank: Vec<ArchetPatch> = ArchetPatch::bank();
        let mut i: usize = 0;
        while i < bank.len()
            invariant
                i <= bank.len() == bank_view().len(),
                forall|j: int| 0 <= j < i ==> (#[trigger] bank@[j])@ == shipped(bank_view()[j]),
                forall|j: int| i <= j < bank.len() ==> (#[trigger] bank@[j])@ == bank_view()[j],
            decreases bank.len() - i,
        {
            let mut p = bank[i].copied();
            p.fx = chain(space_for(&p));
            p.output_level = Single::ratio(14, 10);
            bank.set(i, p);
            i = i + 1;
        }
        bank
    }

    /// The name a picker shows.
    pub fn preset_name(&self) -> (r: &str)
        ensures
            r@ == self@.name,
    {
        self.name.as_str()
    }

    /// The section of a picker the patch falls under: the composite desk,
    /// plucked, or its instrument.
    pub fn preset_category(&self) -> (r: Option<&str>)
        ensures
            r matches Some(c) && c@ == category_view(self@),
    {
        Some(
            if self.auto_range {
                "Ensemble"
            } else if self.pluck {
                "Plucked"
            } else {
                match self.instrument {
                    Instrument::Violin => "Violin",
                    Instrument::Viola => "Viola",
                    Instrument::Cello => "Cello",
                    Instrument::DoubleBass => "Double Bass",
                }
            },
        )
    }
}

/// The section of a picker a patch falls under.
pub open spec fn category_view(p: PatchView) -> Seq<char> {
    if p.auto_range {
        "Ensemble"@
    } else if p.pluck {
        "Plucked"@
    } else {
        match p.instrument {
            Instrument::Violin => "Violin"@,
            Instrument::Viola => "Viola"@,
            Instrument::Cello => "Cello"@,
            Instrument::DoubleBass => "Double Bass"@,
        }
    }
}

/// What tells a preset's name from the others: its length, its first letter
/// and its last but two.
spec fn name_key(name: Seq<char>) -> int {
    name.len() * 40_000 + (name[0] as u32) * 200 + (name[name.len() - 3] as u32)
}

/// The preset a key belongs to.
spec fn keyed(key: int) -> int {
    if key == 457311 {
        0
    } else if key == 417311 {
        1
    } else if key == 413511 {
        2
    } else if key == 653711 {
        3
    } else if key == 616508 {
        4
    } else if key == 573308 {
        5
    } else if key == 657315 {
        6
    } else if key == 857308 {
        7
    } else if key == 535308 {
        8
    } else if key == 653508 {
        9
    } else if key == 577305 {
        10
    } else if key == 817297 {
        11
    } else if key == 817314 {
        12
    } else if key == 537305 {
        13
    } else if key == 533505 {
        14
    } else if key == 493305 {
        15
    } else if key == 814098 {
        16
    } else if key == 693510 {
        17
    } else if key == 657297 {
        18
    } else if key == 613497 {
        19
    } else if key == 573297 {
        20
    } else if key == 696105 {
        21
    } else {
        -1
    }
}

proof fn lemma_name_key(i: int)
    requires
        0 <= i < bank_view().len(),
    ensures
        bank_view().len() == 22,
        keyed(name_key(bank_view()[i].name)) == i,
        bank_view()[i].name.len() > 0,
{
    reveal_strlit("Violin Solo");
    reveal_strlit("Viola Solo");
    reveal_strlit("Cello Solo");
    reveal_strlit("Double Bass Solo");
    reveal_strlit("Romantic Violin");
    reveal_strlit("Baroque Violin");
    reveal_strlit("Violin Sul Tasto");
    reveal_strlit("Violin Sul Ponticello");
    reveal_strlit("Lyrical Cello");
    reveal_strlit("Cello Ponticello");
    reveal_strlit("Violin Section");
    reveal_strlit("Violin Section Small");
    reveal_strlit("Violin Section Large");
    reveal_strlit("Viola Section");
    reveal_strlit("Cello Section");
    reveal_strlit("Bass Section");
    reveal_strlit("Full String Ensemble");
    reveal_strlit("Cinematic Strings");
    reveal_strlit("Violin Pizzicato");
    reveal_strlit("Cello Pizzicato");
    reveal_strlit("Bass Pizzicato");
    reveal_strlit("Pizzicato Section");
}

/// The names of the factory bank are unique, and none is empty: a picker keys
/// on the name.
pub proof fn law_preset_names_are_unique(i: int, j: int)
    requires
        0 <= i < j < bank_view().len(),
    ensures
        shipped(bank_view()[i]).name != shipped(bank_view()[j]).name,
        shipped(bank_view()[i]).name.len() > 0,
{
    lemma_name_key(i);
    lemma_name_key(j);
}

/// The instrument a preset is made for.
pub open spec fn made_for(i: int) -> Instrument {
    if i == 1 || i == 13 {
        Instrument::Viola
    } else if i == 2 || i == 8 || i == 9 || i == 14 || i == 19 {
        Instrument::Cello
    } else if i == 3 || i == 15 || i == 20 {
        Instrument::DoubleBass
    } else {
        Instrument::Violin
    }
}

/// An instrument's own patch.
pub open spec fn own_patch(inst: Instrument) -> PatchView {
    match inst {
        Instrument::Violin => default_view(),
        Instrument::Viola => viola_view(),
        Instrument::Cello => cello_view(),
        Instrument::DoubleBass => double_bass_view(),
    }
}

/// What tells the four instruments apart: how high the bridge's hill stands,
/// how far from the bridge the bow goes, what the bridge loses, and how each
/// vibrates and scrapes. In everything else they are played alike.
pub proof fn law_four_instruments_told_apart(inst: Instrument)
    ensures
        own_patch(inst).instrument == inst,
        own_patch(Instrument::Violin).name == "Violin"@,
        own_patch(Instrument::Viola).name == "Viola"@,
        own_patch(Instrument::Cello).name == "Cello"@,
        own_patch(Instrument::DoubleBass).name == "Double Bass"@,
        own_patch(inst).bow_pos == (match inst {
            Instrument::Violin => Single::nearest(13, 100),
            Instrument::Viola => Single::nearest(12, 100),
            Instrument::Cello => Single::nearest(10, 100),
            Instrument::DoubleBass => Single::nearest(9, 100),
        }),
        own_patch(inst).bow_vel == default_view().bow_vel,
        own_patch(inst).bow_force == default_view().bow_force,
        own_patch(inst).bow_noise == (match inst {
            Instrument::Violin => Single::nearest(13, 100),
            Instrument::Viola => Single::nearest(13, 100),
            Instrument::Cello => Single::nearest(13, 100),
            Instrument::DoubleBass => Single::nearest(14, 100),
        }),
        own_patch(inst).loss == (match inst {
            Instrument::Violin => Single::nearest(30, 100),
            Instrument::Viola => Single::nearest(30, 100),
            Instrument::Cello => Single::nearest(16, 100),
            Instrument::DoubleBass => Single::nearest(22, 100),
        }),
        own_patch(inst).slope == default_view().slope,
        own_patch(inst).bridge_hill_db == (match inst {
            Instrument::Violin => Single::nearest(9, 1),
            Instrument::Viola => Single::nearest(7, 1),
            Instrument::Cello => Single::nearest(6, 1),
            Instrument::DoubleBass => Single::nearest(10, 1),
        }),
        own_patch(inst).tor_ratio == default_view().tor_ratio,
        own_patch(inst).tor_couple == default_view().tor_couple,
        own_patch(inst).tor_inject == default_view().tor_inject,
        own_patch(inst).attack == default_view().attack,
        own_patch(inst).release == default_view().release,
        own_patch(inst).vel_sens == default_view().vel_sens,
        own_patch(inst).vib_rate == (match inst {
            Instrument::Violin => Single::nearest(58, 10),
            Instrument::Viola => Single::nearest(58, 10),
            Instrument::Cello => Single::nearest(52, 10),
            Instrument::DoubleBass => Single::nearest(44, 10),
        }),
        own_patch(inst).vib_depth == (match inst {
            Instrument::Violin => Single::nearest(14, 1),
            Instrument::Viola => Single::nearest(14, 1),
            Instrument::Cello => Single::nearest(14, 1),
            Instrument::DoubleBass => Single::nearest(7, 1),
        }),
        own_patch(inst).vib_delay == default_view().vib_delay,
        own_patch(inst).ensemble == default_view().ensemble,
        own_patch(inst).tune_cents == default_view().tune_cents,
        own_patch(inst).friction == default_view().friction,
        own_patch(inst).auto_range == default_view().auto_range,
        own_patch(inst).pluck == default_view().pluck,
        own_patch(inst).polyphony == default_view().polyphony,
        own_patch(inst).output_level == default_view().output_level,
        own_patch(inst).seed_offset == default_view().seed_offset,
        own_patch(inst).fx == default_view().fx,
{
}

/// Every preset plays the instrument it is made for, and sounds as many notes
/// at once as it has players to give.
pub proof fn law_a_preset_plays_its_instrument(i: int)
    requires
        0 <= i < bank_view().len(),
    ensures
        bank_view()[i].instrument == made_for(i),
        bank_view()[i].instrument == Instrument::Viola <==> i == 1 || i == 13,
        bank_view()[i].instrument == Instrument::Cello <==> i == 2 || i == 8 || i == 9 || i == 14 || i == 19,
        bank_view()[i].instrument == Instrument::DoubleBass <==> i == 3 || i == 15 || i == 20,
        bank_view()[i].pluck <==> i >= 18,
        bank_view()[i].auto_range <==> i == 16 || i == 17 || i == 21,
        bank_view()[i].polyphony == (if i == 10 || i == 13 || i == 14 {
            24
        } else if i == 11 || i == 15 {
            16
        } else if i == 12 || i == 16 || i == 21 {
            32
        } else if i == 17 {
            40u8
        } else {
            8
        }),
{
}

/// Control by control, which presets depart from their instrument's own patch
/// and how far; every other preset leaves the control where its instrument
/// has it, so a solo one is its instrument's patch as it is.
pub proof fn law_a_preset_departs_only_so_far(i: int)
    requires
        0 <= i < bank_view().len(),
    ensures
        bank_view()[i].bow_pos == (if i == 6 {
            Single::nearest(18, 100)
        } else if i == 7 {
            Single::nearest(45, 1000)
        } else if i == 9 {
            Single::nearest(5, 100)
        } else if i >= 18 {
            Single::nearest(185, 1000)
        } else {
            own_patch(made_for(i)).bow_pos
        }),
        bank_view()[i].bow_vel == own_patch(made_for(i)).bow_vel,
        bank_view()[i].bow_force == (if i == 6 {
            Single::nearest(7, 10)
        } else if i == 7 {
            Single::nearest(14, 10)
        } else {
            own_patch(made_for(i)).bow_force
        }),
        bank_view()[i].bow_noise == (if i == 5 || i == 9 {
            Single::nearest(18, 100)
        } else if i == 6 {
            Single::nearest(8, 100)
        } else if i == 7 {
            Single::nearest(22, 100)
        } else if i >= 18 {
            Single::nearest(0, 1)
        } else {
            own_patch(made_for(i)).bow_noise
        }),
        bank_view()[i].loss == (if i == 5 {
            Single::nearest(36, 100)
        } else if i == 6 {
            Single::nearest(5, 10)
        } else if i == 7 {
            Single::nearest(1, 10)
        } else if i == 9 {
            Single::nearest(12, 100)
        } else {
            own_patch(made_for(i)).loss
        }),
        bank_view()[i].slope == own_patch(made_for(i)).slope,
        bank_view()[i].bridge_hill_db == (if i == 4 || i == 17 {
            Single::nearest(10, 1)
        } else if i == 5 {
            Single::nearest(7, 1)
        } else if i == 6 {
            Single::nearest(5, 1)
        } else if i == 7 || i == 9 {
            Single::nearest(12, 1)
        } else {
            own_patch(made_for(i)).bridge_hill_db
        }),
        bank_view()[i].tor_ratio == own_patch(made_for(i)).tor_ratio,
        bank_view()[i].tor_couple == own_patch(made_for(i)).tor_couple,
        bank_view()[i].tor_inject == own_patch(made_for(i)).tor_inject,
        bank_view()[i].attack == (if i == 4 || i == 11 {
            Single::nearest(5, 100)
        } else if i == 8 || i == 14 || i == 16 {
            Single::nearest(7, 100)
        } else if i == 10 || i == 13 {
            Single::nearest(6, 100)
        } else if i == 12 || i == 15 {
            Single::nearest(8, 100)
        } else if i == 17 {
            Single::nearest(1, 10)
        } else {
            own_patch(made_for(i)).attack
        }),
        bank_view()[i].release == (if i == 8 || i == 14 {
            Single::nearest(18, 100)
        } else if i == 10 {
            Single::nearest(16, 100)
        } else if i == 16 {
            Single::nearest(2, 10)
        } else if i == 17 {
            Single::nearest(25, 100)
        } else if i == 18 {
            Single::nearest(8, 100)
        } else if i == 19 {
            Single::nearest(1, 10)
        } else if i == 20 {
            Single::nearest(12, 100)
        } else if i == 21 {
            Single::nearest(6, 100)
        } else {
            own_patch(made_for(i)).release
        }),
        bank_view()[i].vel_sens == own_patch(made_for(i)).vel_sens,
        bank_view()[i].vib_rate == (if i == 4 {
            Single::nearest(62, 10)
        } else if i == 5 || i == 8 {
            Single::nearest(5, 1)
        } else {
            own_patch(made_for(i)).vib_rate
        }),
        bank_view()[i].vib_depth == (if i == 4 {
            Single::nearest(22, 1)
        } else if i == 5 {
            Single::nearest(4, 1)
        } else if i == 8 || i == 12 || i == 17 {
            Single::nearest(18, 1)
        } else if i == 10 || i == 16 {
            Single::nearest(16, 1)
        } else if i >= 18 {
            Single::nearest(0, 1)
        } else {
            own_patch(made_for(i)).vib_depth
        }),
        bank_view()[i].vib_delay == (if i == 4 {
            Single::nearest(18, 100)
        } else if i == 5 {
            Single::nearest(5, 10)
        } else {
            own_patch(made_for(i)).vib_delay
        }),
        bank_view()[i].ensemble == (if i == 10 || i == 16 {
            Single::nearest(14, 1)
        } else if i == 11 {
            Single::nearest(6, 1)
        } else if i == 12 {
            Single::nearest(30, 1)
        } else if i == 13 || i == 21 {
            Single::nearest(12, 1)
        } else if i == 14 {
            Single::nearest(10, 1)
        } else if i == 15 {
            Single::nearest(8, 1)
        } else if i == 17 {
            Single::nearest(24, 1)
        } else {
            own_patch(made_for(i)).ensemble
        }),
        bank_view()[i].tune_cents == own_patch(made_for(i)).tune_cents,
        bank_view()[i].friction == own_patch(made_for(i)).friction,
        bank_view()[i].seed_offset == own_patch(made_for(i)).seed_offset,
        bank_view()[i].output_level == own_patch(made_for(i)).output_level,
        i < 4 ==> bank_view()[i] == (PatchView { name: bank_view()[i].name, ..own_patch(made_for(i)) }),
{
}

/// The names of the bank, in the order a host counts them.
pub proof fn law_the_bank_is_in_order(i: int)
    requires
        0 <= i < bank_view().len(),
    ensures
        bank_view().len() == 22,
        i == 0 ==> shipped(bank_view()[i]).name == "Violin Solo"@,
        i == 1 ==> shipped(bank_view()[i]).name == "Viola Solo"@,
        i == 2 ==> shipped(bank_view()[i]).name == "Cello Solo"@,
        i == 3 ==> shipped(bank_view()[i]).name == "Double Bass Solo"@,
        i == 4 ==> shipped(bank_view()[i]).name == "Romantic Violin"@,
        i == 5 ==> shipped(bank_view()[i]).name == "Baroque Violin"@,
        i == 6 ==> shipped(bank_view()[i]).name == "Violin Sul Tasto"@,
        i == 7 ==> shipped(bank_view()[i]).name == "Violin Sul Ponticello"@,
        i == 8 ==> shipped(bank_view()[i]).name == "Lyrical Cello"@,
        i == 9 ==> shipped(bank_view()[i]).name == "Cello Ponticello"@,
        i == 10 ==> shipped(bank_view()[i]).name == "Violin Section"@,
        i == 11 ==> shipped(bank_view()[i]).name == "Violin Section Small"@,
        i == 12 ==> shipped(bank_view()[i]).name == "Violin Section Large"@,
        i == 13 ==> shipped(bank_view()[i]).name == "Viola Section"@,
        i == 14 ==> shipped(bank_view()[i]).name == "Cello Section"@,
        i == 15 ==> shipped(bank_view()[i]).name == "Bass Section"@,
        i == 16 ==> shipped(bank_view()[i]).name == "Full String Ensemble"@,
        i == 17 ==> shipped(bank_view()[i]).name == "Cinematic Strings"@,
        i == 18 ==> shipped(bank_view()[i]).name == "Violin Pizzicato"@,
        i == 19 ==> shipped(bank_view()[i]).name == "Cello Pizzicato"@,
        i == 20 ==> shipped(bank_view()[i]).name == "Bass Pizzicato"@,
        i == 21 ==> shipped(bank_view()[i]).name == "Pizzicato Section"@,
{
}

/// A preset ships as the bank has it but for its chain and its level.
pub proof fn law_a_preset_ships_as_it_is(p: PatchView)
    ensures
        shipped(p) == (PatchView { fx: shipped(p).fx, output_level: shipped(p).output_level, ..p }),
        shipped(p).output_level == Single::nearest(14, 10),
        shipped(p).fx == crate::fx::chain_view(crate::fx::space_view(p)),
{
}

/// A patch is filed under the ensembles where it spans the choir, under the
/// plucked where it is plucked, and otherwise under its instrument.
pub proof fn law_a_patch_is_filed_by_what_it_plays(p: PatchView)
    ensures
        p.auto_range ==> category_view(p) == "Ensemble"@,
        !p.auto_range && p.pluck ==> category_view(p) == "Plucked"@,
        !p.auto_range && !p.pluck ==> category_view(p) == own_patch(p.instrument).name,
{
}

/// A patch of `n` players is a section from two on.
pub proof fn law_two_players_are_a_section(p: PatchView, n: int)
    requires
        0 <= n < 0x100_0000,
        p.ensemble == Single::nearest(n, 1),
    ensures
        is_section(p) <==> n >= 2,
{
    crate::single::lemma_landmarks();
    crate::single::lemma_whole(n);
    let o = crate::single::one();
    assert(n >= 2 ==> 2 * (n * o) >= 3 * o) by (nonlinear_arith)
        requires o > 0;
    assert(n < 2 ==> 2 * (n * o) < 3 * o) by (nonlinear_arith)
        requires o > 0;
}

/// What the default patch has that no host parameter reaches.
pub proof fn law_the_default_is_a_violin_alone()
    ensures
        default_view().name == "Violin"@,
        default_view().instrument == Instrument::Violin,
        default_view().friction == FrictionKind::Static,
        default_view().slope == Single::nearest(3, 1),
        default_view().tor_ratio == Single::nearest(5, 1),
        default_view().tor_couple == Single::nearest(1, 10),
        default_view().tor_inject == Single::nearest(1, 10),
        default_view().seed_offset == 0,
        !is_section(default_view()),
        default_view().fx == crate::fx::chain_view(crate::fx::space_view(default_view())),
        violin_ensemble_view() == (PatchView { name: "Violin Ensemble"@, ..bank_view()[10] }),
{
    law_two_players_are_a_section(default_view(), 0);
    crate::single::lemma_same_ratio(1, 10, 10);
}

/// Every plucked preset is plucked where a finger plucks: its position is the
/// measured spot, in the bank and as it ships.
pub proof fn law_plucked_presets_carry_the_spot(i: int)
    requires
        0 <= i < bank_view().len(),
        bank_view()[i].pluck,
    ensures
        bank_view()[i].bow_pos == pluck_spot(),
        shipped(bank_view()[i]).bow_pos == pluck_spot(),
{
}

/// Every factory preset carries the chain of the space it is heard in, and
/// ships at the preset level.
pub proof fn law_every_preset_carries_its_own_chain(i: int)
    requires
        0 <= i < bank_view().len(),
    ensures
        shipped(bank_view()[i]).fx == crate::fx::chain_view(crate::fx::space_view(shipped(bank_view()[i]))),
        shipped(bank_view()[i]).fx.len() == crate::fx::FX_SLOTS,
        shipped(bank_view()[i]).output_level == preset_level(),
{
}

/// The instruments stand high to low, and a larger one scales its body's
/// modes further down: the violin not at all, the cello by a half.
pub proof fn law_larger_instruments_scale_lower(a: Instrument, b: Instrument)
    ensures
        Instrument::Violin.index() == 0,
        Instrument::Viola.index() == 1,
        Instrument::Cello.index() == 2,
        Instrument::DoubleBass.index() == 3,
        forall|i: int| i < 0 ==> #[trigger] Instrument::at(i) == Instrument::Violin,
        forall|i: int| i > 3 ==> #[trigger] Instrument::at(i) == Instrument::DoubleBass,
        a.index() < b.index() ==> b.scale().units() < a.scale().units(),
        Instrument::Violin.scale().units() == crate::single::one(),
        81 * crate::single::one() < 100 * Instrument::Viola.scale().units() < 83 * crate::single::one(),
        49 * crate::single::one() < 100 * Instrument::Cello.scale().units() < 51 * crate::single::one(),
        32 * crate::single::one() < 100 * Instrument::DoubleBass.scale().units() < 34 * crate::single::one(),
{
    crate::single::lemma_landmarks();
    crate::single::lemma_whole(1);
    crate::single::lemma_same_ratio(1, 1, 100);
    crate::reading::lemma_apart(82, 100, 100);
    crate::reading::lemma_apart(50, 82, 100);
    crate::reading::lemma_apart(33, 50, 100);
    crate::reading::lemma_nearest_is_close(82, 100);
    crate::reading::lemma_nearest_is_close(50, 100);
    crate::reading::lemma_nearest_is_close(33, 100);
}

/// A field travels as the number it holds: a switch as nought or one, and the
/// instrument as its place.
pub proof fn law_a_field_travels_as_its_number(p: PatchView)
    ensures
        read_field(ArchetParam::Friction, p).units() == (if p.friction == FrictionKind::ElastoPlastic {
            crate::single::one()
        } else {
            0
        }),
        read_field(ArchetParam::AutoRange, p).units() == (if p.auto_range { crate::single::one() } else { 0 }),
        read_field(ArchetParam::Pluck, p).units() == (if p.pluck { crate::single::one() } else { 0 }),
        read_field(ArchetParam::Instrument, p).units() == p.instrument.index() * crate::single::one(),
        mode_of(FrictionKind::Static) is Static,
        mode_of(FrictionKind::ElastoPlastic) is ElastoPlastic,
{
    crate::single::lemma_landmarks();
    crate::single::lemma_whole(0);
    crate::single::lemma_whole(1);
    crate::single::lemma_whole(2);
    crate::single::lemma_whole(3);
}

} // verus!
