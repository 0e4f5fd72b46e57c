//! The chain a patch describes, and the space each factory preset is heard in.
//!
//! Described here, run nowhere: the engine owns no effects, and a host builds
//! a live chain from this description. Three effects in a fixed order: an
//! equaliser, a space, a width. Which ones and in which order is not a
//! preset's business; what each is set to is. The equaliser ships flat, every
//! band off, so the bands are the player's. The space is what the model
//! lacks, a room; the width is where the listener sits. The figures are a
//! production choice, made by ear.

use vstd::prelude::*;
use crate::patch::{ArchetPatch, PatchView};
use crate::single::Single;
use crate::text::same;

verus! {

/// Slots the chain occupies, frozen with their order.
pub const FX_SLOTS: usize = 3;

/// Below this, in hertz, the image is mono.
pub const MONO_BELOW_HZ: u32 = 120;

/// A value a slot is set to.
#[derive(Clone, Debug, PartialEq)]
pub enum SpecValue {
    F(Single),
    B(bool),
    S(String),
}

/// One effect of a chain: its kind, and what has been said about it. What is
/// left unsaid is the effect's own default, the mix among it.
#[derive(Clone, Debug, PartialEq)]
pub struct SlotSpec {
    pub kind: String,
    pub enabled: bool,
    pub mix: Option<Single>,
    pub params: Vec<(String, SpecValue)>,
}

/// A chain of effects, first to last. An empty one is a real no-op.
#[derive(Clone, Debug, PartialEq)]
pub struct ChainSpec {
    pub slots: Vec<SlotSpec>,
}

/// What a [`SpecValue`] says.
pub enum ValueView {
    F(Single),
    B(bool),
    S(Seq<char>),
}

/// What a [`SlotSpec`] says.
#[verifier::ext_equal]
pub struct SlotView {
    pub kind: Seq<char>,
    pub enabled: bool,
    pub mix: Option<Single>,
    pub params: Seq<(Seq<char>, ValueView)>,
}

impl View for SpecValue {
    type V = ValueView;

    open spec fn view(&self) -> ValueView {
        match *self {
            SpecValue::F(x) => ValueView::F(x),
            SpecValue::B(x) => ValueView::B(x),
            SpecValue::S(x) => ValueView::S(x@),
        }
    }
}

/// What a list of named values says.
pub open spec fn params_view(ps: Seq<(String, SpecValue)>) -> Seq<(Seq<char>, ValueView)> {
    ps.map_values(|p: (String, SpecValue)| (p.0@, p.1@))
}

impl View for SlotSpec {
    type V = SlotView;

    open spec fn view(&self) -> SlotView {
        SlotView {
            kind: self.kind@,
            enabled: self.enabled,
            mix: self.mix,
            params: params_view(self.params@),
        }
    }
}

impl View for ChainSpec {
    type V = Seq<SlotView>;

    open spec fn view(&self) -> Seq<SlotView> {
        self.slots@.map_values(|s: SlotSpec| s@)
    }
}

/// Whether `i` is where the first value said under `id` stands.
pub open spec fn stands_at(ps: Seq<(Seq<char>, ValueView)>, id: Seq<char>, i: int) -> bool {
    &&& 0 <= i < ps.len()
    &&& ps[i].0 == id
    &&& forall|j: int| 0 <= j < i ==> (#[trigger] ps[j]).0 != id
}

/// Whether anything is said under `id`.
pub open spec fn said(ps: Seq<(Seq<char>, ValueView)>, id: Seq<char>) -> bool {
    exists|i: int| 0 <= i < ps.len() && (#[trigger] ps[i]).0 == id
}

/// Where the first value said under `id` stands.
pub open spec fn place(ps: Seq<(Seq<char>, ValueView)>, id: Seq<char>) -> int {
    choose|i: int| stands_at(ps, id, i)
}

/// The values with one said under `id`: in the place of the first said there,
/// or after all the others.
pub open spec fn with_said(ps: Seq<(Seq<char>, ValueView)>, id: Seq<char>, v: ValueView) -> Seq<
    (Seq<char>, ValueView),
> {
    if said(ps, id) {
        ps.update(place(ps, id), (id, v))
    } else {
        ps.push((id, v))
    }
}

/// What is said under `id`, if anything.
pub open spec fn answer(ps: Seq<(Seq<char>, ValueView)>, id: Seq<char>) -> Option<ValueView> {
    if said(ps, id) {
        Some(ps[place(ps, id)].1)
    } else {
        None
    }
}

impl SlotView {
    /// A slot of this kind, engaged, with nothing said about it.
    pub open spec fn of_kind(kind: Seq<char>) -> SlotView {
        SlotView { kind, enabled: true, mix: None, params: Seq::empty() }
    }

    /// The slot with one more value said about it.
    pub open spec fn saying(self, id: Seq<char>, value: ValueView) -> SlotView {
        SlotView { params: self.params.push((id, value)), ..self }
    }

    /// The slot heard at this mix.
    pub open spec fn at_mix(self, mix: Single) -> SlotView {
        SlotView { mix: Some(mix), ..self }
    }

    /// The slot with a value said under `id`, in place of what was said
    /// there.
    pub open spec fn told(self, id: Seq<char>, value: ValueView) -> SlotView {
        SlotView { params: with_said(self.params, id, value), ..self }
    }

    /// Whether a value differs from what is said under `id`.
    pub open spec fn news(self, id: Seq<char>, value: ValueView) -> bool {
        !(answer(self.params, id) matches Some(v) && value_equals(v, value))
    }
}

/// Whether two values are equal: numbers as numbers, words as words.
pub open spec fn value_equals(a: ValueView, b: ValueView) -> bool {
    match (a, b) {
        (ValueView::F(x), ValueView::F(y)) => x.equals(y),
        (ValueView::B(x), ValueView::B(y)) => x == y,
        (ValueView::S(x), ValueView::S(y)) => x == y,
        _ => false,
    }
}

proof fn lemma_place(ps: Seq<(Seq<char>, ValueView)>, id: Seq<char>, i: int)
    requires
        stands_at(ps, id, i),
    ensures
        said(ps, id),
        place(ps, id) == i,
{
    assert(ps[i].0 == id);
    let k = place(ps, id);
    assert(stands_at(ps, id, k));
    if k < i {
        assert(ps[k].0 != id);
    } else if i < k {
        assert(ps[i].0 != id);
    }
}

impl SpecValue {
    /// The same value again.
    pub fn copied(&self) -> (r: SpecValue)
        ensures
            r@ == self@,
    {
        match self {
            SpecValue::F(x) => SpecValue::F(*x),
            SpecValue::B(x) => SpecValue::B(*x),
            SpecValue::S(x) => SpecValue::S(x.clone()),
        }
    }

    /// Whether two values are equal.
    pub fn same(&self, other: &SpecValue) -> (r: bool)
        ensures
            r == value_equals(self@, other@),
    {
        match (self, other) {
            (SpecValue::F(x), SpecValue::F(y)) => x.same(*y),
            (SpecValue::B(x), SpecValue::B(y)) => *x == *y,
            (SpecValue::S(x), SpecValue::S(y)) => same(x.as_str(), y.as_str()),
            _ => false,
        }
    }
}

impl SlotSpec {
    /// A slot of this kind, engaged, with nothing said about it.
    pub fn new(kind: &str) -> (r: SlotSpec)
        ensures
            r@ == SlotView::of_kind(kind@),
    {
        let r = SlotSpec { kind: kind.to_owned(), enabled: true, mix: None, params: Vec::new() };
        assert(params_view(r.params@) =~= Seq::empty());
        r
    }

    /// The slot with one more value said about it.
    pub fn with(self, id: &str, value: SpecValue) -> (r: SlotSpec)
        ensures
            r@ == self@.saying(id@, value@),
    {
        let ghost before = self.params@;
        let SlotSpec { kind, enabled, mix, mut params } = self;
        params.push((id.to_owned(), value));
        let r = SlotSpec { kind, enabled, mix, params };
        assert(params_view(r.params@) =~= params_view(before).push((id@, value@)));
        r
    }

    /// The slot heard at this mix.
    pub fn mix(self, mix: Single) -> (r: SlotSpec)
        ensures
            r@ == self@.at_mix(mix),
    {
        SlotSpec { mix: Some(mix), ..self }
    }

    /// Where the first value said under `id` stands.
    fn find(&self, id: &str) -> (r: Option<usize>)
        ensures
            match r {
                Some(i) => {
                    &&& i < self.params.len()
                    &&& stands_at(self@.params, id@, i as int)
                    &&& said(self@.params, id@)
                    &&& i == place(self@.params, id@)
                },
                None => !said(self@.params, id@),
            },
    {
        let mut i: usize = 0;
        while i < self.params.len()
            invariant
                i <= self.params.len(),
                forall|j: int| 0 <= j < i ==> (#[trigger] self@.params[j]).0 != id@,
            decreases self.params.len() - i,
        {
            if same(self.params[i].0.as_str(), id) {
                proof {
                    lemma_place(self@.params, id@, i as int);
                }
                return Some(i);
            }
            i = i + 1;
        }
        None
    }

    /// What is said under `id`, if anything.
    pub fn get(&self, id: &str) -> (r: Option<&SpecValue>)
        ensures
            match r {
                Some(v) => answer(self@.params, id@) == Some(v@),
                None => answer(self@.params, id@) is None,
            },
    {
        match self.find(id) {
            Some(i) => Some(&self.params[i].1),
            None => None,
        }
    }

    /// The word said under `id`, where one is.
    pub fn variant(&self, id: &str) -> (r: Option<&str>)
        ensures
            match r {
                Some(w) => answer(self@.params, id@) == Some(ValueView::S(w@)),
                None => !(answer(self@.params, id@) matches Some(v) && v is S),
            },
    {
        match self.get(id) {
            Some(SpecValue::S(w)) => Some(w.as_str()),
            _ => None,
        }
    }

    /// Say a value under `id`, in place of what was said there.
    pub fn set(&mut self, id: &str, value: SpecValue)
        ensures
            final(self)@ == old(self)@.told(id@, value@),
    {
        let ghost before = self@.params;
        match self.find(id) {
            Some(i) => {
                self.params.set(i, (id.to_owned(), value));
                assert(self@.params =~= before.update(i as int, (id@, value@)));
            },
            None => {
                self.params.push((id.to_owned(), value));
                assert(self@.params =~= before.push((id@, value@)));
            },
        }
    }

    /// Say a value under `id` where it differs from what was said there, and
    /// tell whether it did: writing the same value is not an edit.
    pub fn write(&mut self, id: &str, value: SpecValue) -> (moved: bool)
        ensures
            moved == old(self)@.news(id@, value@),
            final(self)@ == (if moved {
                old(self)@.told(id@, value@)
            } else {
                old(self)@
            }),
    {
        let known: bool = match self.get(id) {
            Some(v) => v.same(&value),
            None => false,
        };
        if !known {
            self.set(id, value);
        }
        !known
    }

    /// The same slot again.
    pub fn copied(&self) -> (r: SlotSpec)
        ensures
            r@ == self@,
    {
        let mut params: Vec<(String, SpecValue)> = Vec::new();
        let mut i: usize = 0;
        while i < self.params.len()
            invariant
                i <= self.params.len(),
                params.len() == i,
                forall|j: int|
                    0 <= j < i ==> (#[trigger] params@[j]).0@ == self.params@[j].0@ && params@[j].1@
                        == self.params@[j].1@,
            decreases self.params.len() - i,
        {
            let p = &self.params[i];
            params.push((p.0.clone(), p.1.copied()));
            i = i + 1;
        }
        assert(params_view(params@) =~= params_view(self.params@));
        SlotSpec { kind: self.kind.clone(), enabled: self.enabled, mix: self.mix, params }
    }
}

impl ChainSpec {
    /// A chain of these slots.
    pub fn new(slots: Vec<SlotSpec>) -> (r: ChainSpec)
        ensures
            r.slots == slots,
    {
        ChainSpec { slots }
    }

    /// How many slots the chain has.
    pub fn len(&self) -> (r: usize)
        ensures
            r == self@.len(),
    {
        self.slots.len()
    }

    /// Whether the chain has no slot at all.
    pub fn is_empty(&self) -> (r: bool)
        ensures
            r == (self@.len() == 0),
    {
        self.slots.len() == 0
    }

    /// The kinds of the slots, in order.
    pub fn kinds(&self) -> (r: Vec<String>)
        ensures
            r.len() == self@.len(),
            forall|i: int| 0 <= i < r.len() ==> (#[trigger] r@[i])@ == self@[i].kind,
    {
        let mut r: Vec<String> = Vec::new();
        let mut i: usize = 0;
        while i < self.slots.len()
            invariant
                i <= self.slots.len(),
                r.len() == i,
                forall|j: int| 0 <= j < i ==> (#[trigger] r@[j])@ == self.slots@[j].kind@,
            decreases self.slots.len() - i,
        {
            r.push(self.slots[i].kind.clone());
            i = i + 1;
        }
        r
    }

    /// The same chain again.
    pub fn copied(&self) -> (r: ChainSpec)
        ensures
            r@ == self@,
    {
        let mut slots: Vec<SlotSpec> = Vec::new();
        let mut i: usize = 0;
        while i < self.slots.len()
            invariant
                i <= self.slots.len(),
                slots.len() == i,
                forall|j: int| 0 <= j < i ==> (#[trigger] slots@[j])@ == self.slots@[j]@,
            decreases self.slots.len() - i,
        {
            slots.push(self.slots[i].copied());
            i = i + 1;
        }
        let r = ChainSpec { slots };
        assert(r@ =~= self@);
        r
    }
}

/// The space a preset is heard in.
#[derive(Clone, Copy, Debug)]
pub struct Space {
    /// The reverb's type, by its id.
    pub kind: &'static str,
    /// 0..1. How big the space is.
    pub size: Single,
    /// 0..1, not seconds: the reverb maps it per type.
    pub decay: Single,
    /// 0..1. How much of the high end the walls absorb.
    pub damping: Single,
    /// Seconds before the first reflection.
    pub predelay: Single,
    /// 0..1. How much of it is heard: the slot's mix.
    pub mix: Single,
    /// 0..2. The stereo width the listener hears, one being the seats as
    /// the engine lays them.
    pub width: Single,
}

/// What a [`Space`] says.
pub struct SpaceView {
    pub kind: Seq<char>,
    pub size: Single,
    pub decay: Single,
    pub damping: Single,
    pub predelay: Single,
    pub mix: Single,
    pub width: Single,
}

impl View for Space {
    type V = SpaceView;

    open spec fn view(&self) -> SpaceView {
        SpaceView {
            kind: self.kind@,
            size: self.size,
            decay: self.decay,
            damping: self.damping,
            predelay: self.predelay,
            mix: self.mix,
            width: self.width,
        }
    }
}

/// A soloist a few metres away in a small hall.
pub open spec fn chamber_view() -> SpaceView {
    SpaceView {
        kind: "hall"@,
        size: Single::nearest(30, 100),
        decay: Single::nearest(35, 100),
        damping: Single::nearest(50, 100),
        predelay: Single::nearest(12, 1000),
        mix: Single::nearest(18, 100),
        width: Single::nearest(8, 10),
    }
}

/// A section on a stage.
pub open spec fn hall_view() -> SpaceView {
    SpaceView {
        kind: "hall"@,
        size: Single::nearest(55, 100),
        decay: Single::nearest(50, 100),
        damping: Single::nearest(50, 100),
        predelay: Single::nearest(20, 1000),
        mix: Single::nearest(28, 100),
        width: Single::nearest(12, 10),
    }
}

/// A full string body in a concert hall.
pub open spec fn concert_view() -> SpaceView {
    SpaceView {
        kind: "hall"@,
        size: Single::nearest(70, 100),
        decay: Single::nearest(60, 100),
        damping: Single::nearest(45, 100),
        predelay: Single::nearest(25, 1000),
        mix: Single::nearest(32, 100),
        width: Single::nearest(13, 10),
    }
}

/// Plucked strings close by, in a room that lets each pluck stay distinct.
pub open spec fn room_view() -> SpaceView {
    SpaceView {
        kind: "room"@,
        size: Single::nearest(25, 100),
        decay: Single::nearest(30, 100),
        damping: Single::nearest(60, 100),
        predelay: Single::nearest(8, 1000),
        mix: Single::nearest(12, 100),
        width: Single::nearest(1, 1),
    }
}

/// A soloist a few metres away in a small hall.
pub fn chamber() -> (r: Space)
    ensures
        r@ == chamber_view(),
{
    Space {
        kind: "hall",
        size: Single::ratio(30, 100),
        decay: Single::ratio(35, 100),
        damping: Single::ratio(50, 100),
        predelay: Single::ratio(12, 1000),
        mix: Single::ratio(18, 100),
        width: Single::ratio(8, 10),
    }
}

/// A section on a stage.
pub fn hall() -> (r: Space)
    ensures
        r@ == hall_view(),
{
    Space {
        kind: "hall",
        size: Single::ratio(55, 100),
        decay: Single::ratio(50, 100),
        damping: Single::ratio(50, 100),
        predelay: Single::ratio(20, 1000),
        mix: Single::ratio(28, 100),
        width: Single::ratio(12, 10),
    }
}

/// A full string body in a concert hall.
pub fn concert() -> (r: Space)
    ensures
        r@ == concert_view(),
{
    Space {
        kind: "hall",
        size: Single::ratio(70, 100),
        decay: Single::ratio(60, 100),
        damping: Single::ratio(45, 100),
        predelay: Single::ratio(25, 1000),
        mix: Single::ratio(32, 100),
        width: Single::ratio(13, 10),
    }
}

/// Plucked strings close by, in a room that lets each pluck stay distinct.
pub fn room() -> (r: Space)
    ensures
        r@ == room_view(),
{
    Space {
        kind: "room",
        size: Single::ratio(25, 100),
        decay: Single::ratio(30, 100),
        damping: Single::ratio(60, 100),
        predelay: Single::ratio(8, 1000),
        mix: Single::ratio(12, 100),
        width: Single::ratio(1, 1),
    }
}

/// The equaliser's slot: flat, no band engaged.
pub open spec fn equaliser_slot() -> SlotView {
    SlotView {
        kind: "parametric-eq"@,
        enabled: true,
        mix: None,
        params: seq![
            ("band.0.enabled"@, ValueView::B(false)),
            ("band.1.enabled"@, ValueView::B(false)),
            ("band.2.enabled"@, ValueView::B(false)),
            ("band.3.enabled"@, ValueView::B(false)),
        ],
    }
}

/// The reverb's slot, set to a space.
pub open spec fn reverb_slot(space: SpaceView) -> SlotView {
    SlotView {
        kind: "reverb"@,
        enabled: true,
        mix: Some(space.mix),
        params: seq![
            ("type"@, ValueView::S(space.kind)),
            ("size"@, ValueView::F(space.size)),
            ("decay"@, ValueView::F(space.decay)),
            ("damping"@, ValueView::F(space.damping)),
            ("predelay"@, ValueView::F(space.predelay)),
            ("width"@, ValueView::F(Single::nearest(1, 1))),
        ],
    }
}

/// The imager's slot, set to a space's width.
pub open spec fn imager_slot(space: SpaceView) -> SlotView {
    SlotView {
        kind: "stereo-imager"@,
        enabled: true,
        mix: None,
        params: seq![
            ("width"@, ValueView::F(space.width)),
            ("mono-freq"@, ValueView::F(Single::nearest(MONO_BELOW_HZ as int, 1))),
        ],
    }
}

/// The chain for a space: its three slots, in the frozen order.
pub open spec fn chain_view(space: SpaceView) -> Seq<SlotView> {
    seq![equaliser_slot(), reverb_slot(space), imager_slot(space)]
}

/// Build the chain. Units are the effects' own: the EQ in Hz and dB, the
/// reverb normalised except a pre-delay in seconds, the width as a factor
/// and its mono corner in Hz.
pub fn chain(space: Space) -> (r: ChainSpec)
    ensures
        r@ == chain_view(space@),
{
    let eq = SlotSpec::new("parametric-eq")
        .with("band.0.enabled", SpecValue::B(false))
        .with("band.1.enabled", SpecValue::B(false))
        .with("band.2.enabled", SpecValue::B(false))
        .with("band.3.enabled", SpecValue::B(false));
    let reverb = SlotSpec::new("reverb")
        .with("type", SpecValue::S(space.kind.to_owned()))
        .with("size", SpecValue::F(space.size))
        .with("decay", SpecValue::F(space.decay))
        .with("damping", SpecValue::F(space.damping))
        .with("predelay", SpecValue::F(space.predelay))
        .with("width", SpecValue::F(Single::ratio(1, 1)))
        .mix(space.mix);
    let imager = SlotSpec::new("stereo-imager")
        .with("width", SpecValue::F(space.width))
        .with("mono-freq", SpecValue::F(Single::ratio(MONO_BELOW_HZ, 1)));
    assert(eq@ =~= equaliser_slot());
    assert(reverb@ =~= reverb_slot(space@));
    assert(imager@ =~= imager_slot(space@));
    let r = ChainSpec::new(vec![eq, reverb, imager]);
    assert(r@ =~= chain_view(space@));
    r
}

/// The space that fits what a patch plays.
pub open spec fn space_view(p: PatchView) -> SpaceView {
    if p.pluck {
        room_view()
    } else if p.auto_range {
        concert_view()
    } else if crate::patch::is_section(p) {
        hall_view()
    } else {
        chamber_view()
    }
}

/// The space that fits what a patch plays: plucked strings in a room, a
/// whole string body in a concert hall, a section in a hall, a soloist in
/// a chamber.
pub fn space_for(p: &ArchetPatch) -> (r: Space)
    ensures
        r@ == space_view(p@),
{
    if p.pluck {
        room()
    } else if p.auto_range {
        concert()
    } else if p.section() {
        hall()
    } else {
        chamber()
    }
}

/// What is said is what is read back, and nothing else said is disturbed.
pub proof fn law_what_is_said_is_read_back(
    ps: Seq<(Seq<char>, ValueView)>,
    id: Seq<char>,
    other: Seq<char>,
    v: ValueView,
)
    requires
        other != id,
    ensures
        said(with_said(ps, id, v), id),
        with_said(ps, id, v)[place(with_said(ps, id, v), id)].1 == v,
        said(with_said(ps, id, v), other) == said(ps, other),
        said(ps, other) ==> with_said(ps, id, v)[place(with_said(ps, id, v), other)] == ps[place(ps, other)],
{
    let ws = with_said(ps, id, v);
    if said(ps, id) {
        let w = choose|i: int| 0 <= i < ps.len() && (#[trigger] ps[i]).0 == id;
        lemma_first(ps, id, w);
        let k = place(ps, id);
        assert(stands_at(ws, id, k)) by {
            assert forall|j: int| 0 <= j < k implies (#[trigger] ws[j]).0 != id by {
                assert(ps[j].0 != id);
            }
        }
        lemma_place(ws, id, k);
    } else {
        let k = ps.len() as int;
        assert(stands_at(ws, id, k)) by {
            assert forall|j: int| 0 <= j < k implies (#[trigger] ws[j]).0 != id by {
                assert(ps[j].0 != id);
            }
        }
        lemma_place(ws, id, k);
    }
    if said(ps, other) {
        let w = choose|i: int| 0 <= i < ps.len() && (#[trigger] ps[i]).0 == other;
        lemma_first(ps, other, w);
        let k = place(ps, other);
        assert(ws[k] == ps[k]) by {
            if said(ps, id) {
                assert(place(ps, id) != k);
            }
        }
        assert(stands_at(ws, other, k)) by {
            assert forall|j: int| 0 <= j < k implies (#[trigger] ws[j]).0 != other by {
                assert(ps[j].0 != other);
            }
        }
        lemma_place(ws, other, k);
    }
    if said(ws, other) {
        let w = choose|i: int| 0 <= i < ws.len() && (#[trigger] ws[i]).0 == other;
        assert(w < ps.len() && ps[w].0 == other);
    }
}

proof fn lemma_first(ps: Seq<(Seq<char>, ValueView)>, id: Seq<char>, w: int)
    requires
        0 <= w < ps.len(),
        ps[w].0 == id,
    ensures
        stands_at(ps, id, place(ps, id)),
    decreases w,
{
    if exists|j: int| 0 <= j < w && (#[trigger] ps[j]).0 == id {
        let j = choose|j: int| 0 <= j < w && (#[trigger] ps[j]).0 == id;
        lemma_first(ps, id, j);
    } else {
        assert(stands_at(ps, id, w));
    }
}

/// The order and the kinds of a chain are frozen: whatever the space, three
/// slots, all engaged.
pub proof fn law_the_order_and_the_kinds_are_frozen(space: SpaceView)
    ensures
        chain_view(space).len() == FX_SLOTS,
        chain_view(space)[0].kind == "parametric-eq"@,
        chain_view(space)[1].kind == "reverb"@,
        chain_view(space)[2].kind == "stereo-imager"@,
        forall|i: int| 0 <= i < FX_SLOTS ==> (#[trigger] chain_view(space)[i]).enabled,
{
}

/// A patch is heard in the space that fits it. Plucked strings play in a
/// room, small, close and short; a whole body of strings in a concert hall,
/// the largest and wettest; a section in a hall; a soloist in a chamber.
pub proof fn law_a_patch_is_heard_in_its_space(p: PatchView)
    ensures
        space_view(p).kind == (if p.pluck { "room"@ } else { "hall"@ }),
        space_view(p).size == (if p.pluck {
            Single::nearest(25, 100)
        } else if p.auto_range {
            Single::nearest(70, 100)
        } else if crate::patch::is_section(p) {
            Single::nearest(55, 100)
        } else {
            Single::nearest(30, 100)
        }),
        space_view(p).decay == (if p.pluck {
            Single::nearest(30, 100)
        } else if p.auto_range {
            Single::nearest(60, 100)
        } else if crate::patch::is_section(p) {
            Single::nearest(50, 100)
        } else {
            Single::nearest(35, 100)
        }),
        space_view(p).damping == (if p.pluck {
            Single::nearest(60, 100)
        } else if p.auto_range {
            Single::nearest(45, 100)
        } else {
            Single::nearest(50, 100)
        }),
        space_view(p).predelay == (if p.pluck {
            Single::nearest(8, 1000)
        } else if p.auto_range {
            Single::nearest(25, 1000)
        } else if crate::patch::is_section(p) {
            Single::nearest(20, 1000)
        } else {
            Single::nearest(12, 1000)
        }),
        space_view(p).mix == (if p.pluck {
            Single::nearest(12, 100)
        } else if p.auto_range {
            Single::nearest(32, 100)
        } else if crate::patch::is_section(p) {
            Single::nearest(28, 100)
        } else {
            Single::nearest(18, 100)
        }),
        space_view(p).width == (if p.pluck {
            Single::nearest(1, 1)
        } else if p.auto_range {
            Single::nearest(13, 10)
        } else if crate::patch::is_section(p) {
            Single::nearest(12, 10)
        } else {
            Single::nearest(8, 10)
        }),
{
}

/// A larger body of players is heard in a larger, longer, wetter and wider
/// space, and from farther away.
pub proof fn law_more_players_take_more_space(solo: PatchView, section: PatchView, whole: PatchView)
    requires
        !solo.pluck && !solo.auto_range && !crate::patch::is_section(solo),
        !section.pluck && !section.auto_range && crate::patch::is_section(section),
        !whole.pluck && whole.auto_range,
    ensures
        space_view(solo).size.units() < space_view(section).size.units() < space_view(whole).size.units(),
        space_view(solo).decay.units() < space_view(section).decay.units() < space_view(whole).decay.units(),
        space_view(solo).predelay.units() < space_view(section).predelay.units() < space_view(whole).predelay.units(),
        space_view(solo).mix.units() < space_view(section).mix.units() < space_view(whole).mix.units(),
        space_view(solo).width.units() < space_view(section).width.units() < space_view(whole).width.units(),
{
    crate::reading::lemma_apart(30, 55, 100);
    crate::reading::lemma_apart(55, 70, 100);
    crate::reading::lemma_apart(35, 50, 100);
    crate::reading::lemma_apart(50, 60, 100);
    crate::reading::lemma_apart(12, 20, 1000);
    crate::reading::lemma_apart(20, 25, 1000);
    crate::reading::lemma_apart(18, 28, 100);
    crate::reading::lemma_apart(28, 32, 100);
    crate::reading::lemma_apart(8, 12, 10);
    crate::reading::lemma_apart(12, 13, 10);
}

/// A chain says its space, each figure under its own name: the reverb the
/// kind, the size, the decay, the damping and the pre-delay, wet by the mix
/// and at its full width; the imager the width, and mono below a hundred and
/// twenty hertz; the equaliser four bands, none engaged.
pub proof fn law_a_chain_says_its_space(space: SpaceView)
    ensures
        chain_view(space)[0].mix is None,
        chain_view(space)[0].params.len() == 4,
        chain_view(space)[0].params[0] == ("band.0.enabled"@, ValueView::B(false)),
        chain_view(space)[0].params[1] == ("band.1.enabled"@, ValueView::B(false)),
        chain_view(space)[0].params[2] == ("band.2.enabled"@, ValueView::B(false)),
        chain_view(space)[0].params[3] == ("band.3.enabled"@, ValueView::B(false)),
        chain_view(space)[1].mix == Some(space.mix),
        chain_view(space)[1].params.len() == 6,
        chain_view(space)[1].params[0] == ("type"@, ValueView::S(space.kind)),
        chain_view(space)[1].params[1] == ("size"@, ValueView::F(space.size)),
        chain_view(space)[1].params[2] == ("decay"@, ValueView::F(space.decay)),
        chain_view(space)[1].params[3] == ("damping"@, ValueView::F(space.damping)),
        chain_view(space)[1].params[4] == ("predelay"@, ValueView::F(space.predelay)),
        chain_view(space)[1].params[5] == ("width"@, ValueView::F(Single::nearest(1, 1))),
        chain_view(space)[2].mix is None,
        chain_view(space)[2].params.len() == 2,
        chain_view(space)[2].params[0] == ("width"@, ValueView::F(space.width)),
        chain_view(space)[2].params[1] == ("mono-freq"@, ValueView::F(Single::nearest(120, 1))),
{
}

/// Two spaces that differ anywhere are two different chains.
pub proof fn law_a_chain_tells_its_space(a: SpaceView, b: SpaceView)
    requires
        chain_view(a) == chain_view(b),
    ensures
        a == b,
{
    law_a_chain_says_its_space(a);
    law_a_chain_says_its_space(b);
    let (x, y) = (chain_view(a), chain_view(b));
    assert(x[1].params[0].1 == y[1].params[0].1);
    assert(x[1].params[1].1 == y[1].params[1].1);
    assert(x[1].params[2].1 == y[1].params[2].1);
    assert(x[1].params[3].1 == y[1].params[3].1);
    assert(x[1].params[4].1 == y[1].params[4].1);
    assert(x[2].params[0].1 == y[2].params[0].1);
}

/// A space is shown as it is.
pub proof fn law_a_space_is_shown_as_it_is(s: Space)
    ensures
        s@.kind == s.kind@,
        s@.size == s.size,
        s@.decay == s.decay,
        s@.damping == s.damping,
        s@.predelay == s.predelay,
        s@.mix == s.mix,
        s@.width == s.width,
{
}

/// Values are equal when they are of one sort and hold the same: numbers the
/// same amount, whatever the pattern of nought.
pub proof fn law_values_of_two_sorts_differ(a: ValueView, b: ValueView)
    ensures
        value_equals(a, b) ==> value_equals(b, a),
        value_equals(a, b) ==> (a is F <==> b is F) && (a is B <==> b is B) && (a is S <==> b is S),
        a matches ValueView::B(x) ==> (value_equals(a, b) <==> b == ValueView::B(x)),
        a matches ValueView::S(x) ==> (value_equals(a, b) <==> b == ValueView::S(x)),
        a matches ValueView::F(x) ==> (b matches ValueView::F(y) ==> (value_equals(a, b) <==> x.number() && y.number()
            && x.units() == y.units())),
{
}

/// A slot and its values are shown as they are, in order.
pub proof fn law_a_slot_is_shown_as_it_is(s: SlotSpec, c: ChainSpec, i: int)
    ensures
        s@.kind == s.kind@,
        s@.enabled == s.enabled,
        s@.mix == s.mix,
        s@.params.len() == s.params.len(),
        0 <= i < s.params.len() ==> s@.params[i].0 == s.params[i].0@,
        0 <= i < s.params.len() ==> s@.params[i].1 == s.params[i].1@,
        c@.len() == c.slots.len(),
        0 <= i < c.slots.len() ==> c@[i] == c.slots[i]@,
{
}

/// A value is shown as it is.
pub proof fn law_a_value_is_shown_as_it_is(v: SpecValue)
    ensures
        v matches SpecValue::F(x) ==> v@ == ValueView::F(x),
        v matches SpecValue::B(x) ==> v@ == ValueView::B(x),
        v matches SpecValue::S(x) ==> v@ == ValueView::S(x@),
{
}

/// A slot answers with what it was told: under the id it was told under, the
/// value; under every other id, what it answered before; and nothing else of
/// it changes. What it was told is no news to it, where it is a value that
/// equals itself.
pub proof fn law_a_slot_answers_what_it_was_told(slot: SlotView, id: Seq<char>, other: Seq<char>, v: ValueView)
    requires
        other != id,
    ensures
        answer(slot.told(id, v).params, id) == Some(v),
        answer(slot.told(id, v).params, other) == answer(slot.params, other),
        slot.told(id, v).kind == slot.kind,
        slot.told(id, v).enabled == slot.enabled,
        slot.told(id, v).mix == slot.mix,
        value_equals(v, v) ==> !slot.told(id, v).news(id, v),
        answer(slot.params, id) is None ==> slot.news(id, v),
        slot.told(id, v).news(other, v) == slot.news(other, v),
{
    law_what_is_said_is_read_back(slot.params, id, other, v);
}

/// A slot fresh of its kind is engaged, unmixed and says nothing; what it is
/// built to say it says in order, the first under an id being the answer; a
/// mix is set without touching what is said.
pub proof fn law_a_slot_is_built_saying(kind: Seq<char>, slot: SlotView, id: Seq<char>, v: ValueView, mix: Single)
    ensures
        SlotView::of_kind(kind).kind == kind,
        SlotView::of_kind(kind).enabled,
        SlotView::of_kind(kind).mix is None,
        answer(SlotView::of_kind(kind).params, id) is None,
        slot.saying(id, v).params.len() == slot.params.len() + 1,
        slot.saying(id, v).params.last() == (id, v),
        slot.saying(id, v).params.drop_last() == slot.params,
        slot.saying(id, v).kind == slot.kind,
        slot.saying(id, v).enabled == slot.enabled,
        slot.saying(id, v).mix == slot.mix,
        answer(slot.params, id) is None ==> slot.saying(id, v) == slot.told(id, v),
        slot.at_mix(mix).mix == Some(mix),
        slot.at_mix(mix).kind == slot.kind,
        slot.at_mix(mix).enabled == slot.enabled,
        slot.at_mix(mix).params == slot.params,
        slot.params.len() > 0 ==> answer(slot.params, slot.params[0].0) == Some(slot.params[0].1),
{
    assert(slot.saying(id, v).params.drop_last() =~= slot.params);
    if slot.params.len() > 0 {
        assert(stands_at(slot.params, slot.params[0].0, 0));
        lemma_place(slot.params, slot.params[0].0, 0);
    }
}

} // verus!
