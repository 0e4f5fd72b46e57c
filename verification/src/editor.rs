//! The editor's state: the patch it shows, what it has moved, and what it owes
//! the plugin and the engine.
//!
//! The editor mirrors the engine's patch, but never over a fresh edit, and
//! never the chain: the engine is handed a whole patch and runs no effects,
//! so its copy of the chain is stale the moment the page moves a knob. What a
//! gesture sends is left in an outbox, in order.

use vstd::prelude::*;
use crate::engine::{ArchetCommand, CommandView};
use crate::fx::{ChainSpec, SlotView};
use crate::meter::{ArchetMeterState, ReadingView};
use crate::patch::{ArchetParam, ArchetPatch, PatchView};
use crate::single::{Single, TEN_THOUSANDTH};
use crate::text::same;

verus! {

/// Frames the editor waits after an edit before it adopts the engine's patch
/// again.
pub const COOLDOWN: u8 = 20;

/// The editor's state.
pub struct ArchetApp {
    pub patch: ArchetPatch,
    pub presets: Vec<ArchetPatch>,
    /// The preset the picker shows.
    pub current_idx: usize,
    /// A factory preset pick pending: the editor asks, the plugin moves the
    /// parameter, and the parameter is what reaches the engine.
    pub wants_preset: Option<i32>,
    /// The named fields moved in the window since the plugin last asked.
    pub moved: Vec<(ArchetParam, Single)>,
    /// Frames left before the editor adopts the engine's patch again.
    pub sync_cooldown: u8,
    /// Which page the case shows: 0 the instrument, 1 the effects.
    pub tab: usize,
    /// The effects page moved something the audio thread has not taken yet.
    pub fx_dirty: bool,
    /// The last reading of the engine's meters.
    pub cached_meter: ArchetMeterState,
    /// What the gestures so far send the engine.
    pub outbox: Vec<ArchetCommand>,
}

/// The editor's state, as its contracts speak of it.
#[verifier::ext_equal]
pub struct EditorView {
    pub patch: PatchView,
    pub presets: Seq<PatchView>,
    pub current_idx: int,
    pub wants_preset: Option<i32>,
    pub moved: Seq<(ArchetParam, Single)>,
    pub sync_cooldown: int,
    pub tab: int,
    pub fx_dirty: bool,
    pub cached_meter: ReadingView,
    pub outbox: Seq<CommandView>,
}

impl View for ArchetApp {
    type V = EditorView;

    open spec fn view(&self) -> EditorView {
        EditorView {
            patch: self.patch@,
            presets: self.presets@.map_values(|p: ArchetPatch| p@),
            current_idx: self.current_idx as int,
            wants_preset: self.wants_preset,
            moved: self.moved@,
            sync_cooldown: self.sync_cooldown as int,
            tab: self.tab as int,
            fx_dirty: self.fx_dirty,
            cached_meter: self.cached_meter@,
            outbox: self.outbox@.map_values(|c: ArchetCommand| c@),
        }
    }
}

/// The factory bank as it ships.
pub open spec fn shipped_bank() -> Seq<PatchView> {
    Seq::new(crate::patch::bank_view().len(), |i: int| crate::patch::shipped(crate::patch::bank_view()[i]))
}

/// A reading of an engine that has shown nothing yet.
pub open spec fn no_reading() -> ReadingView {
    ReadingView {
        peak_l: Single { bits: 0 },
        peak_r: Single { bits: 0 },
        voice_count: 0,
        active_notes: Seq::empty(),
        cpu_percent: Single { bits: 0 },
        patch_snapshot: None,
    }
}

/// What a key on the drawn keyboard does.
#[derive(Clone, Copy, Debug, PartialEq, Eq, Structural)]
pub enum KeyEvent {
    On { note: u8, velocity: u8 },
    Off { note: u8 },
    PitchBend(Single),
    ModWheel(Single),
}

/// Whether a hand has moved something by this much: more than a
/// ten-thousandth.
pub open spec fn noticed(by: Single) -> bool {
    by.number() && by.units() > Single::nearest(1, 10_000).units()
}

/// Whether a hand has moved something by this much.
fn is_noticed(by: Single) -> (r: bool)
    ensures
        r == noticed(by),
{
    proof {
        crate::single::lemma_small_landmarks();
    }
    by.gt(Single { bits: TEN_THOUSANDTH })
}

impl EditorView {
    /// A command sent, and the mirror held off.
    pub open spec fn sent(self, cmd: CommandView) -> EditorView {
        EditorView { sync_cooldown: COOLDOWN as int, outbox: self.outbox.push(cmd), ..self }
    }

    /// One named field moved: here, for the host, and at the engine.
    pub open spec fn param_moved(self, param: ArchetParam, value: Single) -> EditorView {
        EditorView {
            patch: crate::patch::applied(param, self.patch, value),
            moved: self.moved.push((param, value)),
            ..self
        }.sent(CommandView::SetParam { param, value })
    }

    /// The bow dragged along the string, or leaned on.
    pub open spec fn dragged(self, beta: Single, beta_by: Single, force: Single, force_by: Single) -> EditorView {
        let e = if noticed(beta_by) {
            self.param_moved(ArchetParam::BowPos, beta)
        } else {
            self
        };
        if noticed(force_by) {
            e.param_moved(ArchetParam::BowForce, force)
        } else {
            e
        }
    }

    /// A key on the drawn keyboard.
    pub open spec fn keyed(self, event: KeyEvent) -> EditorView {
        match event {
            KeyEvent::On { note, velocity } => EditorView {
                outbox: self.outbox.push(CommandView::NoteOn(note, velocity)),
                ..self
            },
            KeyEvent::Off { note } => EditorView { outbox: self.outbox.push(CommandView::NoteOff(note)), ..self },
            KeyEvent::PitchBend(v) => EditorView { outbox: self.outbox.push(CommandView::PitchBend(v)), ..self },
            KeyEvent::ModWheel(_) => self,
        }
    }

    /// The ask for a preset taken.
    pub open spec fn asked(self) -> EditorView {
        EditorView { wants_preset: None, ..self }
    }

    /// The plugin told that the chain moved.
    pub open spec fn chain_told(self) -> EditorView {
        EditorView { fx_dirty: false, ..self }
    }

    /// The host told what was moved.
    pub open spec fn moves_told(self) -> EditorView {
        EditorView { moved: Seq::empty(), ..self }
    }

    /// The outbox handed over.
    pub open spec fn handed_over(self) -> EditorView {
        EditorView { outbox: Seq::empty(), ..self }
    }

    /// Another page shown.
    pub open spec fn turned_to(self, page: int) -> EditorView {
        EditorView { tab: page, ..self }
    }

    /// The chain moved by the effects page.
    pub open spec fn chain_edited(self, fx: Seq<SlotView>) -> EditorView {
        EditorView { patch: PatchView { fx, ..self.patch }, fx_dirty: true, ..self }
    }

    /// The chain the plugin is running.
    pub open spec fn chain_adopted(self, fx: Seq<SlotView>) -> EditorView {
        EditorView { patch: PatchView { fx, ..self.patch }, fx_dirty: false, ..self }
    }

    /// An editor on the first factory preset, on the instrument's page.
    pub open spec fn fresh() -> EditorView {
        EditorView {
            patch: shipped_bank()[0],
            presets: shipped_bank(),
            current_idx: 0,
            wants_preset: None,
            moved: Seq::empty(),
            sync_cooldown: 0,
            tab: 0,
            fx_dirty: false,
            cached_meter: no_reading(),
            outbox: Seq::empty(),
        }
    }

    /// A patch a host has restored.
    pub open spec fn restored(self, p: PatchView) -> EditorView {
        EditorView { patch: p, sync_cooldown: COOLDOWN as int, ..self }
    }

    /// The level moved.
    pub open spec fn level_moved(self, level: Single) -> EditorView {
        EditorView { patch: PatchView { output_level: level, ..self.patch }, ..self }.sent(
            CommandView::SetOutputLevel(level),
        )
    }

    /// A patch read from disk.
    pub open spec fn opened(self, p: PatchView) -> EditorView {
        EditorView { patch: p, ..self }.sent(CommandView::LoadPatch(p))
    }

    /// A factory preset picked; one that is not there changes nothing.
    pub open spec fn picked(self, i: int) -> EditorView {
        if 0 <= i < self.presets.len() {
            EditorView {
                patch: self.presets[i],
                current_idx: i,
                wants_preset: Some((i + 1) as i32),
                sync_cooldown: COOLDOWN as int,
                ..self
            }
        } else {
            self
        }
    }

    /// The engine's patch adopted, its chain left behind.
    pub open spec fn adopted(self, p: PatchView) -> EditorView {
        EditorView { patch: PatchView { fx: self.patch.fx, ..p }, ..self }
    }

    /// A frame: a fresh reading taken in, and the engine's patch adopted
    /// where no edit is fresh and the caller allows it.
    pub open spec fn refreshed(self, fresh: Option<ReadingView>, adopt_ok: bool) -> EditorView {
        let e = match fresh {
            Some(r) => EditorView { cached_meter: r, ..self },
            None => self,
        };
        if e.sync_cooldown > 0 {
            EditorView { sync_cooldown: e.sync_cooldown - 1, ..e }
        } else if adopt_ok && e.cached_meter.patch_snapshot is Some {
            e.adopted(e.cached_meter.patch_snapshot->0)
        } else {
            e
        }
    }
}

impl ArchetApp {
    /// An editor on the first factory preset, on the instrument's page.
    pub fn new() -> (r: ArchetApp)
        ensures
            r@ == EditorView::fresh(),
    {
        let presets = ArchetPatch::factory_presets();
        let patch = presets[0].copied();
        let r = ArchetApp {
            patch,
            presets,
            current_idx: 0,
            wants_preset: None,
            moved: Vec::new(),
            sync_cooldown: 0,
            tab: 0,
            fx_dirty: false,
            cached_meter: ArchetMeterState {
                peak_l: Single { bits: 0 },
                peak_r: Single { bits: 0 },
                voice_count: 0,
                active_notes: Vec::new(),
                cpu_percent: Single { bits: 0 },
                patch_snapshot: None,
            },
            outbox: Vec::new(),
        };
        assert(r@.presets =~= shipped_bank());
        assert(r@.outbox =~= Seq::empty());
        r
    }

    /// The patch as the editor holds it.
    pub fn current_patch(&self) -> (r: ArchetPatch)
        ensures
            r@ == self@.patch,
    {
        self.patch.copied()
    }

    /// Seed the mirror from a patch a host has restored. Sends nothing: an
    /// editor that pushes a patch on open stomps a running engine.
    pub fn set_patch(&mut self, patch: ArchetPatch)
        ensures
            final(self)@ == old(self)@.restored(patch@),
    {
        self.patch = patch;
        self.sync_cooldown = COOLDOWN;
    }

    /// Pick a factory preset. The parameter counts from one.
    pub fn pick_preset(&mut self, i: usize)
        requires
            i < i32::MAX || i >= old(self)@.presets.len(),
        ensures
            final(self)@ == old(self)@.picked(i as int),
    {
        if i < self.presets.len() {
            self.patch = self.presets[i].copied();
            self.current_idx = i;
            self.wants_preset = Some(i as i32 + 1);
            self.sync_cooldown = COOLDOWN;
        }
    }

    /// The ask for a preset, taken once.
    pub fn take_wants_preset(&mut self) -> (r: Option<i32>)
        ensures
            r == old(self)@.wants_preset,
            final(self)@ == old(self)@.asked(),
    {
        let r = self.wants_preset;
        self.wants_preset = None;
        r
    }

    /// An edit of the chain, as the effects page makes one: the chain moves
    /// here and the plugin is told to publish it.
    pub fn edit_fx(&mut self, spec: ChainSpec)
        ensures
            final(self)@ == old(self)@.chain_edited(spec@),
    {
        self.patch.fx = spec;
        self.fx_dirty = true;
    }

    /// Whether the chain moved since the plugin last asked.
    pub fn take_fx_changed(&mut self) -> (r: bool)
        ensures
            r == old(self)@.fx_dirty,
            final(self)@ == old(self)@.chain_told(),
    {
        let r: bool = self.fx_dirty;
        self.fx_dirty = false;
        r
    }

    /// Adopt the chain the plugin is running: after a preset change, or a
    /// restored project.
    pub fn set_fx(&mut self, spec: ChainSpec)
        ensures
            final(self)@ == old(self)@.chain_adopted(spec@),
    {
        self.patch.fx = spec;
        self.fx_dirty = false;
    }

    /// The chain as the editor holds it.
    pub fn fx(&self) -> (r: &ChainSpec)
        ensures
            r@ == self@.patch.fx,
    {
        &self.patch.fx
    }

    /// Send a command that edits.
    fn send(&mut self, cmd: ArchetCommand)
        ensures
            final(self)@ == old(self)@.sent(cmd@),
    {
        self.sync_cooldown = COOLDOWN;
        self.outbox.push(cmd);
        assert(self@.outbox =~= old(self)@.outbox.push(cmd@));
    }

    /// One named field moved. A field rather than a whole patch, because a
    /// patch restrings the sympathetic strings and re-seeds the pool.
    pub fn set(&mut self, param: ArchetParam, value: Single)
        ensures
            final(self)@ == old(self)@.param_moved(param, value),
    {
        param.apply(&mut self.patch, value);
        self.moved.push((param, value));
        self.send(ArchetCommand::SetParam { param, value });
    }

    /// The bow dragged along the string, or leaned on: each of the two is a
    /// move only where it is more than a ten-thousandth, which the distances
    /// the caller measured say.
    pub fn drag_bow(&mut self, beta: Single, beta_by: Single, force: Single, force_by: Single)
        ensures
            final(self)@ == old(self)@.dragged(beta, beta_by, force, force_by),
    {
        if is_noticed(beta_by) {
            self.set(ArchetParam::BowPos, beta);
        }
        if is_noticed(force_by) {
            self.set(ArchetParam::BowForce, force);
        }
    }

    /// The level moved.
    pub fn set_level(&mut self, level: Single)
        ensures
            final(self)@ == old(self)@.level_moved(level),
    {
        self.patch.output_level = level;
        self.send(ArchetCommand::SetOutputLevel(level));
    }

    /// A patch read from disk: shown, and sent whole.
    pub fn open_patch(&mut self, patch: ArchetPatch)
        ensures
            final(self)@ == old(self)@.opened(patch@),
    {
        let shown = patch.copied();
        self.patch = shown;
        self.send(ArchetCommand::LoadPatch(Box::new(patch)));
    }

    /// A key on the drawn keyboard. Notes never hold the mirror off: a note
    /// is not an edit, and holding it off on every key would keep the editor
    /// from adopting the engine's patch while playing.
    pub fn key(&mut self, event: KeyEvent)
        ensures
            final(self)@ == old(self)@.keyed(event),
    {
        let cmd = match event {
            KeyEvent::On { note, velocity } => ArchetCommand::NoteOn(note, velocity),
            KeyEvent::Off { note } => ArchetCommand::NoteOff(note),
            KeyEvent::PitchBend(v) => ArchetCommand::PitchBend(v),
            KeyEvent::ModWheel(_) => {
                return;
            },
        };
        self.outbox.push(cmd);
        assert(self@.outbox =~= old(self)@.outbox.push(cmd@));
    }

    /// The fields moved in the window since the last call.
    pub fn take_moved(&mut self) -> (r: Vec<(ArchetParam, Single)>)
        ensures
            r@ == old(self)@.moved,
            final(self)@ == old(self)@.moves_told(),
    {
        let mut r: Vec<(ArchetParam, Single)> = Vec::new();
        std::mem::swap(&mut r, &mut self.moved);
        r
    }

    /// What the gestures so far send the engine, handed over.
    pub fn take_outbox(&mut self) -> (r: Vec<ArchetCommand>)
        ensures
            r@.map_values(|c: ArchetCommand| c@) == old(self)@.outbox,
            final(self)@ == old(self)@.handed_over(),
    {
        let mut r: Vec<ArchetCommand> = Vec::new();
        std::mem::swap(&mut r, &mut self.outbox);
        assert(self@.outbox =~= Seq::empty());
        r
    }

    /// A frame: take in a fresh reading where there is one, and adopt the
    /// engine's patch, all but its chain, where no edit is fresh.
    pub fn refresh_meters(&mut self, fresh: Option<ArchetMeterState>, adopt_ok: bool)
        ensures
            final(self)@ == old(self)@.refreshed(
                match fresh {
                    Some(r) => Some(r@),
                    None => None,
                },
                adopt_ok,
            ),
    {
        if let Some(reading) = fresh {
            self.cached_meter = reading;
        }
        if self.sync_cooldown > 0 {
            self.sync_cooldown = self.sync_cooldown - 1;
        } else if adopt_ok {
            let adopted: Option<ArchetPatch> = match &self.cached_meter.patch_snapshot {
                Some(p) => Some(p.copied()),
                None => None,
            };
            if let Some(mut p) = adopted {
                p.fx = self.patch.fx.copied();
                self.patch = p;
            }
        }
    }

    /// The body the patch names, as the panel's own index.
    pub fn body(&self) -> (r: usize)
        ensures
            r == self@.patch.instrument.index(),
            r < 4,
    {
        self.patch.instrument.body_index()
    }

    /// Turn to a page.
    pub fn turn_to(&mut self, page: usize)
        ensures
            final(self)@ == old(self)@.turned_to(page as int),
    {
        self.tab = page;
    }

    /// Show the preset the patch is named after in the picker, the first of
    /// its name; a patch of another name leaves the picker where it is.
    pub fn follow_name(&mut self)
        ensures
            final(self)@ == (EditorView { current_idx: final(self)@.current_idx, ..old(self)@ }),
            follows_name(old(self)@, final(self)@.current_idx),
    {
        let mut i: usize = 0;
        while i < self.presets.len()
            invariant
                i <= self.presets.len(),
                self@ == old(self)@,
                forall|j: int| 0 <= j < i ==> (#[trigger] self@.presets[j]).name != self@.patch.name,
            decreases self.presets.len() - i,
        {
            if same(self.presets[i].name.as_str(), self.patch.name.as_str()) {
                assert(named_at(self@, i as int));
                self.current_idx = i;
                return;
            }
            assert(self@.presets[i as int].name != self@.patch.name);
            i = i + 1;
        }
    }
}

/// Whether preset `i` is the first named as the patch is.
pub open spec fn named_at(e: EditorView, i: int) -> bool {
    &&& 0 <= i < e.presets.len()
    &&& e.presets[i].name == e.patch.name
    &&& forall|j: int| 0 <= j < i ==> (#[trigger] e.presets[j]).name != e.patch.name
}

/// Whether the picker shows preset `i` once it has followed the patch's name.
pub open spec fn follows_name(e: EditorView, i: int) -> bool {
    ||| named_at(e, i)
    ||| i == e.current_idx && forall|j: int|
        0 <= j < e.presets.len() ==> (#[trigger] e.presets[j]).name != e.patch.name
}

/// The picker shows a preset of the patch's name, the first of them, where
/// there is one; and the one it showed where there is none.
pub proof fn law_the_picker_follows_the_name(e: EditorView, i: int, j: int)
    requires
        follows_name(e, i),
        0 <= j < e.presets.len(),
    ensures
        e.presets[j].name == e.patch.name ==> 0 <= i <= j && e.presets[i].name == e.patch.name,
        i != e.current_idx ==> 0 <= i < e.presets.len() && e.presets[i].name == e.patch.name,
{
}

/// The mirror never touches the chain, whatever the engine shows.
pub proof fn law_the_mirror_keeps_the_chain(e: EditorView, fresh: Option<ReadingView>, adopt_ok: bool)
    ensures
        e.refreshed(fresh, adopt_ok).patch.fx == e.patch.fx,
        e.refreshed(fresh, adopt_ok).fx_dirty == e.fx_dirty,
        e.refreshed(fresh, adopt_ok).outbox == e.outbox,
{
}

/// An edit of the patch in the window.
pub enum Edit {
    /// A control turned.
    Param { param: ArchetParam, value: Single },
    /// The level moved.
    Level(Single),
    /// A factory preset picked.
    Preset(int),
    /// A patch restored by the host.
    Restored(PatchView),
    /// A patch read from disk.
    Opened(PatchView),
}

impl EditorView {
    /// The editor after an edit.
    pub open spec fn edited(self, edit: Edit) -> EditorView {
        match edit {
            Edit::Param { param, value } => self.param_moved(param, value),
            Edit::Level(level) => self.level_moved(level),
            Edit::Preset(i) => self.picked(i),
            Edit::Restored(p) => self.restored(p),
            Edit::Opened(p) => self.opened(p),
        }
    }

    /// Whether an edit is one: a preset that is not there is none.
    pub open spec fn can(self, edit: Edit) -> bool {
        edit matches Edit::Preset(i) ==> 0 <= i < self.presets.len()
    }

    /// The editor after a run of frames, each with the reading it found and
    /// whether the caller allowed it to adopt.
    pub open spec fn framed(self, run: Seq<(Option<ReadingView>, bool)>) -> EditorView
        decreases run.len(),
    {
        if run.len() == 0 {
            self
        } else {
            self.framed(run.drop_last()).refreshed(run.last().0, run.last().1)
        }
    }

    /// What a frame shows of the engine's patch, once its reading is in.
    pub open spec fn shown(self, fresh: Option<ReadingView>) -> Option<PatchView> {
        match fresh {
            Some(r) => r.patch_snapshot,
            None => self.cached_meter.patch_snapshot,
        }
    }
}

/// A fresh edit is not overwritten, and an old one does not keep the engine
/// out. For as many frames as the cooldown the patch stays as the hand left
/// it, whatever the engine shows meanwhile. From then on each frame that is
/// allowed to takes the engine's patch where one is shown, all but its chain,
/// and any other frame leaves the patch as it is. The chain is never touched.
pub proof fn law_a_fresh_edit_stands(
    e: EditorView,
    edit: Edit,
    run: Seq<(Option<ReadingView>, bool)>,
    fresh: Option<ReadingView>,
    adopt_ok: bool,
)
    requires
        e.can(edit),
    ensures
        ({
            let now = e.edited(edit).framed(run);
            let next = now.refreshed(fresh, adopt_ok);
            &&& now.patch.fx == e.edited(edit).patch.fx
            &&& run.len() <= COOLDOWN ==> now.patch == e.edited(edit).patch
            &&& run.len() < COOLDOWN ==> next.patch == now.patch
            &&& run.len() >= COOLDOWN ==> next.patch == (match now.shown(fresh) {
                Some(p) if adopt_ok => PatchView { fx: now.patch.fx, ..p },
                _ => now.patch,
            })
        }),
{
    lemma_framed(e.edited(edit), run);
}

proof fn lemma_framed(e: EditorView, run: Seq<(Option<ReadingView>, bool)>)
    requires
        0 <= e.sync_cooldown,
    ensures
        e.framed(run).patch.fx == e.patch.fx,
        run.len() <= e.sync_cooldown ==> e.framed(run).patch == e.patch,
        e.framed(run).sync_cooldown == (if run.len() <= e.sync_cooldown {
            e.sync_cooldown - run.len()
        } else {
            0
        }),
    decreases run.len(),
{
    if run.len() > 0 {
        lemma_framed(e, run.drop_last());
    }
}

/// A preset picked is the one shown, asked for by its number counted from
/// one.
pub proof fn law_a_picked_preset_is_asked_for(e: EditorView, i: int)
    requires
        0 <= i < e.presets.len(),
        e.presets.len() <= i32::MAX,
    ensures
        e.picked(i).patch == e.presets[i],
        e.picked(i).wants_preset matches Some(n) && n == i + 1,
        e.picked(i).outbox == e.outbox,
{
}

/// Whether nothing but the patch, what is moved, the wait and the outbox
/// differs.
pub open spec fn same_window(a: EditorView, b: EditorView) -> bool {
    &&& a.presets == b.presets
    &&& a.current_idx == b.current_idx
    &&& a.wants_preset == b.wants_preset
    &&& a.tab == b.tab
    &&& a.fx_dirty == b.fx_dirty
    &&& a.cached_meter == b.cached_meter
}

/// A control turned in the window reaches everyone: the patch shown has it,
/// the host is told it, and the engine is sent it, each the control and the
/// value as they were turned. The engine's patch is kept out for twenty
/// frames.
pub proof fn law_a_turned_control_reaches_everyone(e: EditorView, param: ArchetParam, value: Single)
    ensures
        e.param_moved(param, value).patch == crate::patch::applied(param, e.patch, value),
        e.param_moved(param, value).moved == e.moved.push((param, value)),
        e.param_moved(param, value).outbox == e.outbox.push(CommandView::SetParam { param, value }),
        e.param_moved(param, value).sync_cooldown == 20,
        same_window(e.param_moved(param, value), e),
{
}

/// The engine that is sent what the window sends holds the field the window
/// shows.
pub proof fn law_a_turned_control_is_the_engines(
    e: EditorView,
    engine: crate::engine::EngineView,
    param: ArchetParam,
    value: Single,
)
    requires
        engine.patch == e.patch,
    ensures
        engine.answered(e.param_moved(param, value).outbox.last()).patch == e.param_moved(param, value).patch,
{
}

/// The level moved is shown and sent as it is, the host being told of it by
/// the plugin; a patch opened is shown and sent whole; one restored is shown
/// and not sent. Each keeps the engine's patch out for twenty frames, and
/// tells the host of no control.
pub proof fn law_what_is_shown_is_what_is_sent(e: EditorView, level: Single, p: PatchView)
    ensures
        e.level_moved(level).patch == (PatchView { output_level: level, ..e.patch }),
        e.level_moved(level).outbox == e.outbox.push(CommandView::SetOutputLevel(level)),
        e.level_moved(level).moved == e.moved,
        e.level_moved(level).sync_cooldown == 20,
        same_window(e.level_moved(level), e),
        e.opened(p).patch == p,
        e.opened(p).outbox == e.outbox.push(CommandView::LoadPatch(p)),
        e.opened(p).moved == e.moved,
        e.opened(p).sync_cooldown == 20,
        same_window(e.opened(p), e),
        e.restored(p).patch == p,
        e.restored(p).outbox == e.outbox,
        e.restored(p).moved == e.moved,
        e.restored(p).sync_cooldown == 20,
        same_window(e.restored(p), e),
{
}

/// A preset picked is shown, in the picker too, and nothing is sent: the
/// plugin is asked for it. One that is not there changes nothing.
pub proof fn law_a_pick_is_asked_for_and_not_sent(e: EditorView, i: int)
    requires
        e.presets.len() < i32::MAX,
    ensures
        0 <= i < e.presets.len() ==> {
            &&& e.picked(i).current_idx == i
            &&& e.picked(i).moved == e.moved
            &&& e.picked(i).outbox == e.outbox
            &&& e.picked(i).sync_cooldown == 20
            &&& e.picked(i).presets == e.presets
            &&& e.picked(i).tab == e.tab
            &&& e.picked(i).fx_dirty == e.fx_dirty
            &&& e.picked(i).cached_meter == e.cached_meter
        },
        i < 0 || i >= e.presets.len() ==> e.picked(i) == e,
{
}

/// The bow dragged moves its place, leaned on its force, each only where the
/// hand has moved by more than a ten-thousandth.
pub proof fn law_a_dragged_bow_moves_what_moved(
    e: EditorView,
    beta: Single,
    beta_by: Single,
    force: Single,
    force_by: Single,
)
    requires
        beta_by.number(),
        force_by.number(),
    ensures
        ({
            let d = e.dragged(beta, beta_by, force, force_by);
            let o = crate::single::one();
            &&& 9_999 * beta_by.units() >= o ==> d.patch.bow_pos == beta && d.moved[e.moved.len() as int] == (
                ArchetParam::BowPos,
                beta,
            ) && d.outbox[e.outbox.len() as int] == (CommandView::SetParam {
                param: ArchetParam::BowPos,
                value: beta,
            })
            &&& 10_001 * beta_by.units() <= o ==> d.patch.bow_pos == e.patch.bow_pos
            &&& 9_999 * force_by.units() >= o ==> d.patch.bow_force == force && d.moved.last() == (
                ArchetParam::BowForce,
                force,
            ) && d.outbox.last() == (CommandView::SetParam { param: ArchetParam::BowForce, value: force })
            &&& 10_001 * force_by.units() <= o ==> d.patch.bow_force == e.patch.bow_force
            &&& 10_001 * beta_by.units() <= o && 10_001 * force_by.units() <= o ==> d == e
            &&& beta_by == Single::nearest(1, 10_000) && force_by == beta_by ==> d == e
            &&& d.patch == (PatchView { bow_pos: d.patch.bow_pos, bow_force: d.patch.bow_force, ..e.patch })
            &&& same_window(d, e)
        }),
{
    crate::single::lemma_landmarks();
    crate::reading::lemma_nearest_is_close(1, 10_000);
    crate::patch::law_each_control_turns_its_own_field(ArchetParam::BowPos, e.patch, beta);
    crate::patch::law_each_control_turns_its_own_field(ArchetParam::BowForce, e.patch, force);
    let d1 = e.param_moved(ArchetParam::BowPos, beta);
    crate::patch::law_each_control_turns_its_own_field(ArchetParam::BowForce, d1.patch, force);
}

/// A key played in the window is sent as it was played, and nothing else
/// changes: no wait, no edit, no word to the host. The modulation wheel does
/// nothing.
pub proof fn law_a_drawn_key_is_sent_as_played(e: EditorView, event: KeyEvent)
    ensures
        event matches KeyEvent::On { note, velocity } ==> e.keyed(event).outbox == e.outbox.push(
            CommandView::NoteOn(note, velocity),
        ),
        event matches KeyEvent::Off { note } ==> e.keyed(event).outbox == e.outbox.push(CommandView::NoteOff(note)),
        event matches KeyEvent::PitchBend(v) ==> e.keyed(event).outbox == e.outbox.push(CommandView::PitchBend(v)),
        event is ModWheel ==> e.keyed(event).outbox == e.outbox,
        e.keyed(event).patch == e.patch,
        e.keyed(event).moved == e.moved,
        e.keyed(event).sync_cooldown == e.sync_cooldown,
        same_window(e.keyed(event), e),
{
}

/// The chain moved by the page is shown and marked for the plugin; one the
/// plugin runs is shown and not marked. Neither touches anything else.
pub proof fn law_a_moved_chain_is_marked(e: EditorView, fx: Seq<SlotView>)
    ensures
        e.chain_edited(fx).patch.fx == fx,
        e.chain_edited(fx).fx_dirty,
        e.chain_edited(fx) == (EditorView {
            patch: PatchView { fx: e.chain_edited(fx).patch.fx, ..e.patch },
            fx_dirty: e.chain_edited(fx).fx_dirty,
            ..e
        }),
        e.chain_adopted(fx).patch.fx == fx,
        !e.chain_adopted(fx).fx_dirty,
        e.chain_adopted(fx) == (EditorView {
            patch: PatchView { fx: e.chain_adopted(fx).patch.fx, ..e.patch },
            fx_dirty: e.chain_adopted(fx).fx_dirty,
            ..e
        }),
{
}

/// A frame takes in a fresh reading and keeps the last one without; it sends
/// nothing, moves nothing, and brings the wait one frame nearer its end.
pub proof fn law_a_frame_only_reads(e: EditorView, fresh: Option<ReadingView>, adopt_ok: bool)
    requires
        0 <= e.sync_cooldown,
    ensures
        ({
            let r = e.refreshed(fresh, adopt_ok);
            &&& fresh matches Some(m) ==> r.cached_meter == m
            &&& fresh is None ==> r.cached_meter == e.cached_meter
            &&& e.sync_cooldown > 0 ==> r.sync_cooldown == e.sync_cooldown - 1 && r.patch == e.patch
            &&& e.sync_cooldown == 0 ==> r.sync_cooldown == 0
            &&& !adopt_ok ==> r.patch == e.patch
            &&& r.presets == e.presets
            &&& r.current_idx == e.current_idx
            &&& r.wants_preset == e.wants_preset
            &&& r.moved == e.moved
            &&& r.outbox == e.outbox
            &&& r.tab == e.tab
            &&& r.fx_dirty == e.fx_dirty
        }),
{
}

/// An editor opens on the first preset of the bank as it ships, on the
/// instrument's page, with nothing asked, moved or sent.
pub proof fn law_an_editor_opens_on_the_first_preset(i: int)
    requires
        0 <= i < 22,
    ensures
        EditorView::fresh().presets.len() == 22,
        EditorView::fresh().presets[i] == crate::patch::shipped(crate::patch::bank_view()[i]),
        EditorView::fresh().patch == EditorView::fresh().presets[0],
        EditorView::fresh().current_idx == 0,
        EditorView::fresh().wants_preset is None,
        EditorView::fresh().moved.len() == 0,
        EditorView::fresh().outbox.len() == 0,
        EditorView::fresh().sync_cooldown == 0,
        EditorView::fresh().tab == 0,
        !EditorView::fresh().fx_dirty,
        EditorView::fresh().cached_meter.patch_snapshot is None,
        EditorView::fresh().cached_meter.active_notes.len() == 0,
        EditorView::fresh().cached_meter.voice_count == 0,
{
}

/// Where no wait is on, the engine's patch is taken in as it is, but for the
/// chain.
pub proof fn law_the_mirror_takes_the_engines_patch(e: EditorView, m: ReadingView, p: PatchView)
    requires
        e.sync_cooldown == 0,
        m.patch_snapshot == Some(p),
    ensures
        e.refreshed(Some(m), true).patch == (PatchView { fx: e.patch.fx, ..p }),
{
}

/// An editor is shown as it is.
pub proof fn law_an_editor_is_shown_as_it_is(a: ArchetApp, i: int)
    ensures
        a@.patch == a.patch@,
        a@.presets.len() == a.presets.len(),
        0 <= i < a.presets.len() ==> a@.presets[i] == a.presets[i]@,
        a@.current_idx == a.current_idx,
        a@.wants_preset == a.wants_preset,
        a@.moved == a.moved@,
        a@.sync_cooldown == a.sync_cooldown,
        a@.tab == a.tab,
        a@.fx_dirty == a.fx_dirty,
        a@.cached_meter == a.cached_meter@,
        a@.outbox.len() == a.outbox.len(),
        0 <= i < a.outbox.len() ==> a@.outbox[i] == a.outbox[i]@,
{
}

/// What the window owes is handed over once: the ask, the mark, the moves and
/// the outbox are each empty after they are taken, and nothing else changes;
/// a page turned is the page shown.
pub proof fn law_what_is_owed_is_handed_over_once(e: EditorView, page: int)
    ensures
        e.asked().wants_preset is None,
        e.asked() == (EditorView { wants_preset: e.asked().wants_preset, ..e }),
        !e.chain_told().fx_dirty,
        e.chain_told() == (EditorView { fx_dirty: e.chain_told().fx_dirty, ..e }),
        e.moves_told().moved.len() == 0,
        e.moves_told() == (EditorView { moved: e.moves_told().moved, ..e }),
        e.handed_over().outbox.len() == 0,
        e.handed_over() == (EditorView { outbox: e.handed_over().outbox, ..e }),
        e.turned_to(page).tab == page,
        e.turned_to(page) == (EditorView { tab: e.turned_to(page).tab, ..e }),
{
}

} // verus!
