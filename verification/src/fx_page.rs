//! The effects page: what it shows of a slot, and what a gesture on it
//! changes.
//!
//! Which effects run and in what order is not editable; everything inside
//! each effect is. A parameter the recipe never wrote reads as the effect's
//! default, and writing it adds it.

use vstd::prelude::*;
use crate::fx::{ChainSpec, SlotSpec, SlotView, SpecValue, ValueView};
use crate::single::Single;
use crate::text::same;

verus! {

/// The panel a slot is drawn with.
#[derive(Clone, Copy, Debug, PartialEq, Eq, Structural)]
pub enum Panel {
    /// Four bands and their response.
    Equaliser,
    /// A type to choose, and the size, decay, damping, width, pre-delay and
    /// mix of a space.
    Space,
    /// A width, its mono corner, and a mix.
    Width,
    /// A kind without a panel of its own: every number it declares, in rows.
    Plain,
}

/// The panel a kind is drawn with.
pub open spec fn panel_of(kind: Seq<char>) -> Panel {
    if kind == "parametric-eq"@ {
        Panel::Equaliser
    } else if kind == "reverb"@ {
        Panel::Space
    } else if kind == "stereo-imager"@ {
        Panel::Width
    } else {
        Panel::Plain
    }
}

/// The panel a kind is drawn with.
pub fn panel_for(kind: &str) -> (r: Panel)
    ensures
        r == panel_of(kind@),
{
    if same(kind, "parametric-eq") {
        Panel::Equaliser
    } else if same(kind, "reverb") {
        Panel::Space
    } else if same(kind, "stereo-imager") {
        Panel::Width
    } else {
        Panel::Plain
    }
}

/// Every slot of a recipe has a panel of its own.
pub proof fn law_every_recipe_slot_has_a_panel(space: crate::fx::SpaceView, i: int)
    requires
        0 <= i < crate::fx::FX_SLOTS,
    ensures
        panel_of(crate::fx::chain_view(space)[i].kind) != Panel::Plain,
{
    reveal_strlit("parametric-eq");
    reveal_strlit("reverb");
    reveal_strlit("stereo-imager");
}

/// What a knob over a parameter shows.
pub enum Shown<'a> {
    /// The kind does not declare it: a still knob at nought.
    Still,
    /// What was written.
    Written(&'a SpecValue),
    /// The kind's default.
    Default,
}

/// What a knob over `id` shows, with `declared` saying whether the kind has
/// such a parameter.
pub fn shown<'a>(slot: &'a SlotSpec, id: &str, declared: bool) -> (r: Shown<'a>)
    ensures
        match r {
            Shown::Still => !declared,
            Shown::Written(v) => declared && crate::fx::answer(slot@.params, id@) == Some(v@),
            Shown::Default => declared && crate::fx::answer(slot@.params, id@) is None,
        },
{
    if !declared {
        return Shown::Still;
    }
    match slot.get(id) {
        Some(v) => Shown::Written(v),
        None => Shown::Default,
    }
}

/// What a gesture on the page does to the slot it is on.
pub enum SlotEdit {
    /// A click on the slot's lamp.
    Switch,
    /// A value said under a parameter's id.
    Say { id: String, value: SpecValue },
    /// The slot heard at another mix.
    Mix(Single),
}

/// What a [`SlotEdit`] says.
pub enum EditView {
    Switch,
    Say { id: Seq<char>, value: ValueView },
    Mix(Single),
}

impl View for SlotEdit {
    type V = EditView;

    open spec fn view(&self) -> EditView {
        match *self {
            SlotEdit::Switch => EditView::Switch,
            SlotEdit::Say { id, value } => EditView::Say { id: id@, value: value@ },
            SlotEdit::Mix(mix) => EditView::Mix(mix),
        }
    }
}

impl SlotView {
    /// The slot with its lamp clicked.
    pub open spec fn switched(self) -> SlotView {
        SlotView { enabled: !self.enabled, ..self }
    }

    /// Whether an edit moves anything: saying again what is said does not.
    pub open spec fn moved_by(self, edit: EditView) -> bool {
        match edit {
            EditView::Switch => true,
            EditView::Say { id, value } => self.news(id, value),
            EditView::Mix(mix) => !(self.mix matches Some(m) && m.equals(mix)),
        }
    }

    /// The slot after an edit.
    pub open spec fn edited(self, edit: EditView) -> SlotView {
        if !self.moved_by(edit) {
            self
        } else {
            match edit {
                EditView::Switch => self.switched(),
                EditView::Say { id, value } => self.told(id, value),
                EditView::Mix(mix) => self.at_mix(mix),
            }
        }
    }
}

/// Whether an edit of slot `at` moves anything; there is nothing to move
/// where there is no such slot.
pub open spec fn moves(chain: Seq<SlotView>, at: int, edit: EditView) -> bool {
    0 <= at < chain.len() && chain[at].moved_by(edit)
}

/// A chain after an edit of slot `at`.
pub open spec fn after_edit(chain: Seq<SlotView>, at: int, edit: EditView) -> Seq<SlotView> {
    if 0 <= at < chain.len() {
        chain.update(at, chain[at].edited(edit))
    } else {
        chain
    }
}

/// A click on a slot's lamp.
pub fn toggle(slot: &mut SlotSpec)
    ensures
        final(slot)@ == old(slot)@.switched(),
{
    slot.enabled = !slot.enabled;
}

impl SlotSpec {
    /// Edit the slot, and tell whether anything moved.
    pub fn edit(&mut self, edit: SlotEdit) -> (moved: bool)
        ensures
            final(self)@ == old(self)@.edited(edit@),
            moved == old(self)@.moved_by(edit@),
    {
        match edit {
            SlotEdit::Switch => {
                toggle(self);
                true
            },
            SlotEdit::Say { id, value } => self.write(id.as_str(), value),
            SlotEdit::Mix(mix) => {
                let known: bool = match self.mix {
                    Some(m) => m.same(mix),
                    None => false,
                };
                if !known {
                    self.mix = Some(mix);
                }
                !known
            },
        }
    }
}

/// Edit slot `at` of a chain, and tell whether anything moved, so the caller
/// knows to publish the chain. Only what is inside the slot can change.
pub fn edit(chain: &mut ChainSpec, at: usize, e: SlotEdit) -> (moved: bool)
    ensures
        final(chain)@ == after_edit(old(chain)@, at as int, e@),
        moved == moves(old(chain)@, at as int, e@),
        final(chain)@.len() == old(chain)@.len(),
        forall|i: int| 0 <= i < old(chain)@.len() ==> (#[trigger] final(chain)@[i]).kind == old(chain)@[i].kind,
        forall|i: int| 0 <= i < old(chain)@.len() && i != at ==> #[trigger] final(chain)@[i] == old(chain)@[i],
        !moved ==> final(chain)@ == old(chain)@,
{
    if at >= chain.slots.len() {
        return false;
    }
    let mut slot = chain.slots[at].copied();
    let moved: bool = slot.edit(e);
    chain.slots.set(at, slot);
    assert(chain@ =~= after_edit(old(chain)@, at as int, e@));
    moved
}

/// A chain after a run of gestures, each an edit of one slot.
pub open spec fn after_edits(chain: Seq<SlotView>, edits: Seq<(int, EditView)>) -> Seq<SlotView>
    decreases edits.len(),
{
    if edits.len() == 0 {
        chain
    } else {
        after_edit(after_edits(chain, edits.drop_last()), edits.last().0, edits.last().1)
    }
}

/// Whether any of a run of gestures moves anything.
pub open spec fn any_moves(chain: Seq<SlotView>, edits: Seq<(int, EditView)>) -> bool
    decreases edits.len(),
{
    edits.len() > 0 && (any_moves(chain, edits.drop_last()) || moves(
        after_edits(chain, edits.drop_last()),
        edits.last().0,
        edits.last().1,
    ))
}

/// Which effects run and in what order is not editable: whatever is done on
/// the page, the chain has as many slots as before, of the same kinds, in the
/// same order. Where nothing moved the chain is as it was, and on a chain
/// without a slot nothing moves.
pub proof fn law_the_page_keeps_the_chain(chain: Seq<SlotView>, edits: Seq<(int, EditView)>)
    ensures
        after_edits(chain, edits).len() == chain.len(),
        forall|i: int| 0 <= i < chain.len() ==> (#[trigger] after_edits(chain, edits)[i]).kind == chain[i].kind,
        !any_moves(chain, edits) ==> after_edits(chain, edits) == chain,
        chain.len() == 0 ==> !any_moves(chain, edits),
    decreases edits.len(),
{
    if edits.len() > 0 {
        law_the_page_keeps_the_chain(chain, edits.drop_last());
        let before = after_edits(chain, edits.drop_last());
        let (at, e) = edits.last();
        if !moves(before, at, e) {
            assert(after_edit(before, at, e) =~= before);
        }
    }
}

/// Whether a knob moved by this much has been turned.
pub open spec fn turned_by(by: Single) -> bool {
    by.number() && by.units() > Single::nearest(1, 1_000_000).units()
}

/// Whether a knob has been turned by this much: more than a millionth of its
/// way.
pub fn is_turned(by: Single) -> (r: bool)
    ensures
        r == turned_by(by),
{
    by.gt(Single::ratio(1, 1_000_000))
}

/// The bands of the equaliser.
pub const BANDS: usize = 4;

/// The digit a band is numbered with.
pub open spec fn digit(band: int) -> Seq<char> {
    if band == 0 {
        "0"@
    } else if band == 1 {
        "1"@
    } else if band == 2 {
        "2"@
    } else {
        "3"@
    }
}

/// The id of a parameter of a band.
pub open spec fn band_field(band: int, field: Seq<char>) -> Seq<char> {
    "band."@ + digit(band) + "."@ + field
}

/// The id of a parameter of a band.
pub fn band_id(band: usize, field: &str) -> (r: String)
    requires
        band < BANDS,
    ensures
        r@ == band_field(band as int, field@),
{
    let number: &str = if band == 0 {
        "0"
    } else if band == 1 {
        "1"
    } else if band == 2 {
        "2"
    } else {
        "3"
    };
    let r = "band.".to_owned().concat(number).concat(".").concat(field);
    assert(r@ =~= band_field(band as int, field@));
    r
}

/// Knobs in a row of a plain panel.
pub const ROW: usize = 4;

/// Whether this is the column and the row of the `n`th knob.
pub open spec fn is_cell(n: int, column: int, row: int) -> bool {
    0 <= column < ROW && row * ROW + column == n
}

/// The column and row of the `n`th knob of a plain panel.
pub fn plain_cell(n: usize) -> (r: (usize, usize))
    ensures
        is_cell(n as int, r.0 as int, r.1 as int),
{
    (n % ROW, n / ROW)
}

/// Whether this is what a row of clicks picks.
pub open spec fn is_pick(clicks: Seq<bool>, pick: Option<usize>) -> bool {
    match pick {
        Some(i) => {
            &&& i < clicks.len()
            &&& clicks[i as int]
            &&& forall|j: int| i < j < clicks.len() ==> !#[trigger] clicks[j]
        },
        None => forall|j: int| 0 <= j < clicks.len() ==> !#[trigger] clicks[j],
    }
}

/// The last of the cells that was clicked, if any: what a row of exclusive
/// choices picks.
pub fn picked(clicks: &Vec<bool>) -> (r: Option<usize>)
    ensures
        is_pick(clicks@, r),
{
    let mut r: Option<usize> = None;
    let mut i: usize = 0;
    while i < clicks.len()
        invariant
            i <= clicks.len(),
            match r {
                Some(k) => {
                    &&& k < i
                    &&& clicks@[k as int]
                    &&& forall|j: int| k < j < i ==> !#[trigger] clicks@[j]
                },
                None => forall|j: int| 0 <= j < i ==> !#[trigger] clicks@[j],
            },
        decreases clicks.len() - i,
    {
        if clicks[i] {
            r = Some(i);
        }
        i = i + 1;
    }
    r
}

/// A click on a lamp turns the slot off or on and nothing else, so that two
/// clicks leave it as it was.
pub proof fn law_a_lamp_is_clicked_on_and_off(slot: SlotView)
    ensures
        slot.moved_by(EditView::Switch),
        slot.edited(EditView::Switch).enabled != slot.enabled,
        slot.edited(EditView::Switch).mix == slot.mix,
        slot.edited(EditView::Switch).params == slot.params,
        slot.edited(EditView::Switch).kind == slot.kind,
        slot.edited(EditView::Switch).edited(EditView::Switch) == slot,
        slot.switched() == slot.edited(EditView::Switch),
{
}

/// A value said is what the slot says under that id from then on, to within
/// numbers that are equal; what it says under another id stays, and so does
/// everything else of the slot.
pub proof fn law_what_the_page_says_is_said(slot: SlotView, id: Seq<char>, other: Seq<char>, value: ValueView)
    requires
        other != id,
    ensures
        ({
            let e = EditView::Say { id, value };
            let a = slot.edited(e);
            let v = a.params[crate::fx::place(a.params, id)].1;
            &&& crate::fx::said(a.params, id)
            &&& slot.moved_by(e) ==> v == value
            &&& !slot.moved_by(e) ==> crate::fx::value_equals(v, value) && a == slot
            &&& !crate::fx::said(slot.params, id) ==> slot.moved_by(e)
            &&& crate::fx::said(a.params, other) == crate::fx::said(slot.params, other)
            &&& crate::fx::said(slot.params, other) ==> a.params[crate::fx::place(a.params, other)]
                == slot.params[crate::fx::place(slot.params, other)]
            &&& a.enabled == slot.enabled
            &&& a.mix == slot.mix
            &&& a.kind == slot.kind
        }),
{
    crate::fx::law_what_is_said_is_read_back(slot.params, id, other, value);
}

/// The slot is heard at the mix it is set to, and nothing else of it changes;
/// the mix it has already moves nothing.
pub proof fn law_a_mix_is_heard(slot: SlotView, mix: Single)
    ensures
        slot.edited(EditView::Mix(mix)).mix matches Some(m) && (m == mix || m.equals(mix)),
        slot.mix is None ==> slot.moved_by(EditView::Mix(mix)) && slot.edited(EditView::Mix(mix)).mix == Some(mix),
        slot.mix matches Some(m) && !m.equals(mix) ==> slot.moved_by(EditView::Mix(mix)) && slot.edited(
            EditView::Mix(mix),
        ).mix == Some(mix),
        slot.mix matches Some(m) && m.equals(mix) ==> !slot.moved_by(EditView::Mix(mix)),
        slot.edited(EditView::Mix(mix)).enabled == slot.enabled,
        slot.edited(EditView::Mix(mix)).params == slot.params,
        slot.edited(EditView::Mix(mix)).kind == slot.kind,
{
}

/// A gesture changes the slot it is on and no other; where there is no such
/// slot it changes nothing.
pub proof fn law_a_gesture_stays_in_its_slot(chain: Seq<SlotView>, at: int, e: EditView, i: int)
    requires
        0 <= i < chain.len(),
    ensures
        after_edit(chain, at, e).len() == chain.len(),
        i == at ==> after_edit(chain, at, e)[i] == chain[i].edited(e),
        i == at ==> (moves(chain, at, e) <==> chain[i].moved_by(e)),
        i != at ==> after_edit(chain, at, e)[i] == chain[i],
        at < 0 || at >= chain.len() ==> !moves(chain, at, e) && after_edit(chain, at, e) == chain,
{
}

/// The three slots of a recipe have a panel each of their own, in order, and
/// a kind that no recipe has is drawn plain.
pub proof fn law_each_slot_has_its_own_panel(space: crate::fx::SpaceView, kind: Seq<char>)
    ensures
        panel_of(crate::fx::chain_view(space)[0].kind) is Equaliser,
        panel_of(crate::fx::chain_view(space)[1].kind) is Space,
        panel_of(crate::fx::chain_view(space)[2].kind) is Width,
        kind != crate::fx::chain_view(space)[0].kind && kind != crate::fx::chain_view(space)[1].kind && kind
            != crate::fx::chain_view(space)[2].kind ==> panel_of(kind) is Plain,
{
    reveal_strlit("parametric-eq");
    reveal_strlit("reverb");
    reveal_strlit("stereo-imager");
    assert("parametric-eq"@[0] == 'p');
    assert("reverb"@[0] == 'r');
    assert("stereo-imager"@[0] == 's');
}

/// The bands are numbered nought to three, and two ids of bands are one only
/// where band and field are: the switches of the recipe are the bands' own.
pub proof fn law_bands_are_numbered_apart(space: crate::fx::SpaceView, a: int, b: int, f: Seq<char>, g: Seq<char>)
    requires
        0 <= a < 4,
        0 <= b < 4,
    ensures
        band_field(a, "enabled"@) == crate::fx::chain_view(space)[0].params[a].0,
        band_field(a, f) == band_field(b, g) ==> a == b && f == g,
{
    reveal_strlit("band.");
    reveal_strlit(".");
    reveal_strlit("0");
    reveal_strlit("1");
    reveal_strlit("2");
    reveal_strlit("3");
    reveal_strlit("enabled");
    reveal_strlit("band.0.enabled");
    reveal_strlit("band.1.enabled");
    reveal_strlit("band.2.enabled");
    reveal_strlit("band.3.enabled");
    assert(band_field(a, "enabled"@) =~= crate::fx::chain_view(space)[0].params[a].0);
    if band_field(a, f) == band_field(b, g) {
        let (x, y) = (band_field(a, f), band_field(b, g));
        assert(x[5] == y[5]);
        assert(x.len() == 7 + f.len() && y.len() == 7 + g.len());
        assert(f =~= x.subrange(7, x.len() as int));
        assert(g =~= y.subrange(7, y.len() as int));
    }
}

/// A knob is turned by a millionth of its way.
pub proof fn law_a_knob_is_turned_by_a_millionth(by: Single)
    requires
        by.number(),
    ensures
        999_999 * by.units() >= crate::single::one() ==> turned_by(by),
        1_000_001 * by.units() <= crate::single::one() ==> !turned_by(by),
        by == Single::nearest(1, 1_000_000) ==> !turned_by(by),
{
    crate::single::lemma_landmarks();
    crate::reading::lemma_nearest_is_close(1, 1_000_000);
}

/// A gesture says what it is.
pub proof fn law_a_gesture_says_what_it_is(e: SlotEdit)
    ensures
        e is Switch ==> e@ is Switch,
        e matches SlotEdit::Say { id, value } ==> e@ == (EditView::Say { id: id@, value: value@ }),
        e matches SlotEdit::Mix(m) ==> e@ == EditView::Mix(m),
{
}

/// A row of choices picks the last that was clicked: a cell is picked where
/// it was clicked and none after it was, and nothing where none was.
pub proof fn law_the_last_click_is_the_pick(clicks: Seq<bool>, pick: Option<usize>, i: int)
    requires
        is_pick(clicks, pick),
        0 <= i < clicks.len(),
        clicks.len() <= usize::MAX,
    ensures
        clicks[i] ==> (pick matches Some(k) && i <= k && clicks[k as int]),
        pick matches Some(k) ==> k < clicks.len() && clicks[k as int],
        clicks[i] && (forall|j: int| i < j < clicks.len() ==> !#[trigger] clicks[j]) ==> pick == Some(i as usize),
{
}

/// The knobs of a plain panel stand four to a row, left to right and then
/// down.
pub proof fn law_plain_knobs_stand_four_to_a_row(n: int, column: int, row: int)
    requires
        0 <= n,
        is_cell(n, column, row),
    ensures
        0 <= column < 4,
        column < 3 ==> is_cell(n + 1, column + 1, row),
        column == 3 ==> is_cell(n + 1, 0, row + 1),
        row == n / 4,
        is_cell(0, 0, 0),
        BANDS == 4,
{
}

} // verus!
