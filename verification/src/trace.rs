//! What holds of the engine over time: a voice over a run of samples, and the
//! engine over any sequence of commands with samples between them.

use vstd::prelude::*;
use crate::engine::{CommandView, EngineView};
use crate::patch::PatchView;
use crate::single::Single;
use crate::voice::{ArchetVoice, Streams, Turn, MAX_VOICES};

verus! {

/// What a player leaves on a voice: the two levels it is heard by, what it
/// has drawn, and how often it has tuned.
pub struct Told {
    pub energy: Single,
    pub bow_force: Single,
    pub streams: Streams,
    pub modal_recalc: u32,
}

/// One sample of a voice: the fade's level, and what the player leaves where
/// a queued note is struck and where the string sounds.
pub struct Sample {
    pub fade: Single,
    pub attack: Told,
    pub told: Told,
}

impl ArchetVoice {
    /// The voice with what a player leaves on it.
    pub open spec fn told(self, t: Told) -> ArchetVoice {
        ArchetVoice {
            energy: t.energy,
            bow_force: t.bow_force,
            streams: t.streams,
            modal_recalc: t.modal_recalc,
            ..self
        }
    }

    /// The voice rendered for one sample. The player is heard from only where
    /// the string sounds.
    pub open spec fn rendered(self, t: Told, p: PatchView) -> ArchetVoice {
        if self.step(p.pluck) is Sound {
            self.stepped(p.pluck).told(t)
        } else {
            self.stepped(p.pluck)
        }
    }

    /// The voice after one sample.
    pub open spec fn sampled(self, s: Sample, p: PatchView) -> ArchetVoice {
        let v = self.turned(s.fade, p);
        match self.turn(s.fade) {
            Turn::Silenced => v,
            Turn::Struck { .. } => v.told(s.attack).rendered(s.told, p),
            _ => v.rendered(s.told, p),
        }
    }

    /// Whether a sample of the voice is silence.
    pub open spec fn mute(self, s: Sample, p: PatchView) -> bool {
        let v = self.turned(s.fade, p);
        match self.turn(s.fade) {
            Turn::Silenced => true,
            Turn::Struck { .. } => !(v.told(s.attack).step(p.pluck) is Sound),
            _ => !(v.step(p.pluck) is Sound),
        }
    }

    /// The voice after a run of samples.
    pub open spec fn sounded(self, run: Seq<Sample>, p: PatchView) -> ArchetVoice
        decreases run.len(),
    {
        if run.len() == 0 {
            self
        } else {
            self.sounded(run.drop_last(), p).sampled(run.last(), p)
        }
    }
}

/// Whether a fade is still running through a run of samples.
pub open spec fn fading(run: Seq<Sample>) -> bool {
    forall|k: int| 0 <= k < run.len() ==> !ArchetVoice::faded_out((#[trigger] run[k]).fade)
}

proof fn lemma_fading(v: ArchetVoice, run: Seq<Sample>, p: PatchView)
    requires
        v.stealing,
        fading(run),
    ensures
        v.sounded(run, p).stealing,
        v.note is None && v.steal_pending is None ==> v.sounded(run, p).note is None && v.sounded(
            run,
            p,
        ).steal_pending is None,
    decreases run.len(),
{
    if run.len() > 0 {
        let d = run.drop_last();
        assert(fading(d)) by {
            assert forall|k: int| 0 <= k < d.len() implies !ArchetVoice::faded_out((#[trigger] d[k]).fade) by {
                assert(d[k] == run[k]);
            }
        }
        lemma_fading(v, d, p);
        assert(!ArchetVoice::faded_out(run[run.len() - 1].fade));
    }
}

/// A note queued behind a fade and let go before the fade is over never
/// sounds: on the sample the fade ends the voice falls silent, free and with
/// no key down, and every later sample of it is silence that changes nothing.
pub proof fn law_a_note_let_go_in_its_fade_never_sounds(
    v: ArchetVoice,
    note: u8,
    vel: u8,
    p: PatchView,
    before: Seq<Sample>,
    during: Seq<Sample>,
    end: Sample,
    later: Seq<Sample>,
    next: Sample,
)
    requires
        v.must_fade(),
        fading(before),
        fading(during),
        ArchetVoice::faded_out(end.fade),
    ensures
        ({
            let w = v.noted(note, vel, p).sounded(before, p).released().sounded(during, p);
            &&& w.mute(end, p)
            &&& !w.sampled(end, p).active()
            &&& w.sampled(end, p).note is None
            &&& w.sampled(end, p).sounded(later, p) == w.sampled(end, p)
            &&& w.sampled(end, p).sounded(later, p).mute(next, p)
        }),
{
    crate::single::lemma_landmarks();
    crate::single::lemma_small_landmarks();
    let a = v.noted(note, vel, p).sounded(before, p);
    lemma_fading(v.noted(note, vel, p), before, p);
    let b = a.released();
    lemma_fading(b, during, p);
    let w = b.sounded(during, p);
    lemma_rests(w.sampled(end, p), later, p);
}

/// A voice at rest stays as it is.
proof fn lemma_rests(v: ArchetVoice, run: Seq<Sample>, p: PatchView)
    requires
        !v.active(),
        !v.stealing,
    ensures
        v.sounded(run, p) == v,
    decreases run.len(),
{
    if run.len() > 0 {
        lemma_rests(v, run.drop_last(), p);
    }
}

/// A queued note is the one the voice has down.
pub open spec fn queue_is_own(v: ArchetVoice) -> bool {
    v.steal_pending matches Some((note, _)) ==> v.note == Some(note)
}

/// Samples press no key: a voice that has a pitch down after a run of them,
/// with no note-off for it, had it down before, from the same note-on.
pub proof fn law_samples_press_no_key(v: ArchetVoice, run: Seq<Sample>, p: PatchView, note: u8)
    requires
        v.wf(),
    ensures
        v.sounded(run, p).on_seq == v.on_seq,
        crate::engine::holds(v.sounded(run, p), note) ==> crate::engine::holds(v, note),
{
    lemma_presses_nothing(v, run, p, note);
}

proof fn lemma_presses_nothing(v: ArchetVoice, run: Seq<Sample>, p: PatchView, note: u8)
    requires
        queue_is_own(v),
        v.release_delay >= crate::voice::NO_LIFT,
    ensures
        queue_is_own(v.sounded(run, p)),
        v.sounded(run, p).release_delay >= crate::voice::NO_LIFT,
        v.sounded(run, p).on_seq == v.on_seq,
        crate::engine::holds(v.sounded(run, p), note) ==> crate::engine::holds(v, note),
    decreases run.len(),
{
    if run.len() > 0 {
        lemma_presses_nothing(v, run.drop_last(), p, note);
    }
}

/// A player that waits to lift lets go: the key is down until the lift has
/// been waited out and up on the sample after, whatever the player leaves on
/// the voice meanwhile, and whether or not it has started. Where a fade runs
/// there is a note behind it: one with none ends on a sample of its own, on
/// which nothing is counted.
pub proof fn law_a_waiting_player_lets_go(v: ArchetVoice, run: Seq<Sample>, p: PatchView)
    requires
        v.wf(),
        v.stealing ==> v.steal_pending is Some,
        v.note is Some,
        v.release_delay >= 0,
        run.len() <= v.release_delay + 1,
    ensures
        run.len() <= v.release_delay ==> v.sounded(run, p).note == v.note,
        run.len() == v.release_delay + 1 ==> v.sounded(run, p).note is None,
{
    lemma_lets_go(v, run, p);
}

proof fn lemma_lets_go(v: ArchetVoice, run: Seq<Sample>, p: PatchView)
    requires
        queue_is_own(v),
        v.stealing ==> v.steal_pending is Some,
        v.note is Some,
        v.release_delay >= 0,
        run.len() <= v.release_delay + 1,
    ensures
        ({
            let w = v.sounded(run, p);
            let n = run.len() as int;
            &&& queue_is_own(w)
            &&& n <= v.release_delay ==> w.note == v.note && w.release_delay == v.release_delay - n && (w.stealing
                ==> w.steal_pending is Some)
            &&& n == v.release_delay + 1 ==> w.note is None
        }),
    decreases run.len(),
{
    if run.len() > 0 {
        lemma_lets_go(v, run.drop_last(), p);
    }
}

/// A lift scheduled for a note still queued outlives the fade: the note is
/// struck, and the lift is as far off as it was.
pub proof fn law_a_lift_outlives_the_fade(v: ArchetVoice, delay: int, fade: Single, p: PatchView)
    requires
        v.wf(),
        v.steal_pending is Some,
        ArchetVoice::faded_out(fade),
        0 < delay <= i32::MAX,
    ensures
        v.scheduled(delay).turn(fade) is Struck,
        v.scheduled(delay).turned(fade, p).note == v.note,
        v.scheduled(delay).turned(fade, p).release_delay == delay,
        !v.scheduled(delay).turned(fade, p).stealing,
{
}

/// Whether `next` is the engine `e` some samples later: what the command
/// asked for has been performed, each voice has run on, and a reading may
/// have shown the patch.
pub open spec fn runs_on(e: EngineView, next: EngineView) -> bool {
    &&& next == (EngineView { voices: next.voices, acts: next.acts, dirty: next.dirty, ..e })
    &&& next.voices.len() == e.voices.len()
    &&& forall|i: int|
        0 <= i < e.voices.len() ==> exists|t: Told, run: Seq<Sample>| #[trigger]
            e.voices[i].told(t).sounded(run, e.patch) == #[trigger] next.voices[i]
}

/// Whether `next` is the engine `e` some samples after it has answered a
/// command.
#[verifier::opaque]
pub open spec fn follows(e: EngineView, cmd: CommandView, next: EngineView) -> bool {
    runs_on(e.answered(cmd), next)
}

/// Whether the engine stands as `states` say before each of the commands, and
/// after the last.
pub open spec fn story(states: Seq<EngineView>, cmds: Seq<CommandView>) -> bool {
    &&& states.len() == cmds.len() + 1
    &&& forall|k: int| 0 <= k < states.len() ==> (#[trigger] states[k]).wf()
    &&& forall|k: int| 0 <= k < cmds.len() ==> (#[trigger] states[k]).seq < u64::MAX
    &&& forall|k: int| 0 <= k < cmds.len() ==> #[trigger] follows(states[k], cmds[k], states[k + 1])
}

/// Whether a command starts a note of this pitch.
pub open spec fn starts(cmd: CommandView, note: u8) -> bool {
    match cmd {
        CommandView::NoteOn(n, _) => n == note,
        CommandView::NoteOnLegato(n, _) => n == note,
        CommandView::BowChange(n, _) => n == note,
        _ => false,
    }
}

/// Whether a command presses this key.
pub open spec fn presses(cmd: CommandView, note: u8) -> bool {
    cmd matches CommandView::NoteOn(n, _) && n == note
}

/// Whether a command lets this key go.
pub open spec fn frees(cmd: CommandView, note: u8) -> bool {
    cmd is AllNotesOff || cmd == CommandView::NoteOff(note)
}

/// The note-offs a pitch still waits for: one for each note of it, one fewer
/// for each note-off, and none after an all-notes-off.
pub open spec fn owed(cmds: Seq<CommandView>, note: u8) -> nat
    decreases cmds.len(),
{
    if cmds.len() == 0 {
        0
    } else {
        let before = owed(cmds.drop_last(), note);
        if starts(cmds.last(), note) {
            before + 1
        } else if cmds.last() is AllNotesOff {
            0
        } else if cmds.last() == CommandView::NoteOff(note) && before > 0 {
            (before - 1) as nat
        } else {
            before
        }
    }
}

/// Whether a key is down: pressed after it was last let go.
pub open spec fn down(cmds: Seq<CommandView>, note: u8) -> bool {
    exists|k: int| #[trigger] pressed_last(cmds, note, k)
}

/// Whether command `k` presses a key that no later one lets go.
pub open spec fn pressed_last(cmds: Seq<CommandView>, note: u8, k: int) -> bool {
    &&& 0 <= k < cmds.len()
    &&& presses(cmds[k], note)
    &&& forall|j: int| k < j < cmds.len() ==> !frees(#[trigger] cmds[j], note)
}

proof fn lemma_down(cmds: Seq<CommandView>, note: u8)
    requires
        cmds.len() > 0,
    ensures
        down(cmds, note) == (if frees(cmds.last(), note) {
            false
        } else {
            presses(cmds.last(), note) || down(cmds.drop_last(), note)
        }),
{
    let d = cmds.drop_last();
    let l = cmds.len() - 1;
    if down(cmds, note) {
        let k = choose|k: int| #[trigger] pressed_last(cmds, note, k);
        if k < l {
            assert(!frees(cmds[l], note));
            assert forall|j: int| k < j < d.len() implies !frees(#[trigger] d[j], note) by {
                assert(d[j] == cmds[j]);
            }
            assert(pressed_last(d, note, k));
        }
    }
    if !frees(cmds.last(), note) {
        if presses(cmds.last(), note) {
            assert(pressed_last(cmds, note, l));
        } else if down(d, note) {
            let k = choose|k: int| #[trigger] pressed_last(d, note, k);
            assert forall|j: int| k < j < cmds.len() implies !frees(#[trigger] cmds[j], note) by {
                if j < l {
                    assert(d[j] == cmds[j]);
                }
            }
            assert(pressed_last(cmds, note, k));
        }
    }
}

proof fn lemma_shorter(states: Seq<EngineView>, cmds: Seq<CommandView>)
    requires
        story(states, cmds),
        cmds.len() > 0,
    ensures
        story(states.drop_last(), cmds.drop_last()),
        states.drop_last().last().wf(),
        states.drop_last().last().seq < u64::MAX,
        follows(states.drop_last().last(), cmds.last(), states.last()),
        states.drop_last()[0] == states[0],
{
    let (s, c) = (states.drop_last(), cmds.drop_last());
    let l = cmds.len() - 1;
    assert(states[l].wf());
    assert(follows(states[l], cmds[l], states[l + 1]));
    assert forall|k: int| 0 <= k < c.len() implies #[trigger] follows(s[k], c[k], s[k + 1]) by {
        assert(follows(states[k], cmds[k], states[k + 1]));
    }
}

/// A keyboard shows the keys that are down, whatever the engine has been
/// asked: of an engine with no key down, a key is listed once after any
/// sequence of commands if it was pressed after it was last let go, and
/// otherwise not at all, though its note may ring on.
pub proof fn law_the_keys_that_are_down_are_listed(states: Seq<EngineView>, cmds: Seq<CommandView>, note: u8)
    requires
        story(states, cmds),
        states[0].held.len() == 0,
    ensures
        states.last().held.no_duplicates(),
        states.last().held.contains(note) <==> down(cmds, note),
    decreases cmds.len(),
{
    if cmds.len() > 0 {
        lemma_shorter(states, cmds);
        law_the_keys_that_are_down_are_listed(states.drop_last(), cmds.drop_last(), note);
        lemma_down(cmds, note);
        lemma_held(states.drop_last().last(), cmds.last(), states.last(), note);
    } else if down(cmds, note) {
        let k = choose|k: int| #[trigger] pressed_last(cmds, note, k);
    }
}

proof fn lemma_held(e: EngineView, cmd: CommandView, next: EngineView, note: u8)
    requires
        e.wf(),
        e.seq < u64::MAX,
        follows(e, cmd, next),
    ensures
        next.held.contains(note) == (if frees(cmd, note) {
            false
        } else {
            presses(cmd, note) || e.held.contains(note)
        }),
{
    reveal(follows);
    match cmd {
        CommandView::NoteOn(n, vel) => {
            crate::laws::law_a_pressed_key_is_lit(e, n, vel, note);
        },
        CommandView::NoteOff(n) => {
            crate::engine::lemma_without(e.held, n);
        },
        CommandView::NoteOnLegato(n, vel) => {
            crate::laws::lemma_bow_on(e, n, vel, false);
        },
        CommandView::BowChange(n, vel) => {
            crate::laws::lemma_bow_on(e, n, vel, true);
        },
        _ => {},
    }
}

/// A reading lists the keys that are down when it is taken.
pub proof fn law_a_reading_lists_the_keys_that_are_down(
    states: Seq<EngineView>,
    cmds: Seq<CommandView>,
    note: u8,
    m: crate::meter::MeterView,
    frames: int,
    voices: int,
    cpu: Single,
)
    requires
        story(states, cmds),
        states[0].held.len() == 0,
        m.due(frames),
    ensures
        m.published(states.last(), frames, voices, cpu).shadow.active_notes.no_duplicates(),
        m.published(states.last(), frames, voices, cpu).shadow.active_notes.contains(note) <==> down(cmds, note),
{
    law_the_keys_that_are_down_are_listed(states, cmds, note);
}

/// No player hangs. Of an engine on which no voice has a pitch down, after
/// any sequence of commands with any samples between them, no more notes of
/// it are open than it waits for note-offs; and where every note has had its
/// own, each voice that still has the pitch waits to lift.
pub proof fn law_no_player_hangs(states: Seq<EngineView>, cmds: Seq<CommandView>, note: u8)
    requires
        story(states, cmds),
        !crate::engine::held_by_some(states[0].voices, note),
    ensures
        crate::laws::open_ons(states.last().voices, note).finite(),
        crate::laws::open_ons(states.last().voices, note).len() <= owed(cmds, note),
        owed(cmds, note) == 0 ==> forall|i: int|
            0 <= i < MAX_VOICES && (#[trigger] states.last().voices[i]).note == Some(note)
                ==> states.last().voices[i].release_delay >= 0,
    decreases cmds.len(),
{
    let open = crate::laws::open_ons(states.last().voices, note);
    if cmds.len() == 0 {
        assert(open =~= Set::<u64>::empty()) by {
            assert forall|s: u64| !open.contains(s) by {
                if open.contains(s) {
                    crate::laws::lemma_open(states.last().voices, note, s);
                }
            }
        }
    } else {
        lemma_shorter(states, cmds);
        law_no_player_hangs(states.drop_last(), cmds.drop_last(), note);
        lemma_opened_by(states.drop_last().last(), cmds.last(), states.last(), note);
    }
    if owed(cmds, note) == 0 {
        assert forall|i: int|
            0 <= i < MAX_VOICES && (#[trigger] states.last().voices[i]).note == Some(note) implies states.last().voices[i].release_delay
            >= 0 by {
            let v = states.last().voices[i];
            assert(states[states.len() - 1].wf());
            if v.release_delay < 0 {
                assert(crate::engine::in_cluster(states.last().voices[i], note, v.on_seq));
                assert(open.contains(v.on_seq));
                assert(open =~= Set::<u64>::empty());
            }
        }
    }
}

/// What a command and the samples after it do to the notes of a pitch that
/// are open.
proof fn lemma_opened_by(e: EngineView, cmd: CommandView, next: EngineView, note: u8)
    requires
        e.wf(),
        e.seq < u64::MAX,
        follows(e, cmd, next),
        crate::laws::open_ons(e.voices, note).finite(),
    ensures
        ({
            let before = crate::laws::open_ons(e.voices, note);
            let after = crate::laws::open_ons(next.voices, note);
            &&& after.finite()
            &&& after.len() <= before.len() + (if starts(cmd, note) { 1int } else { 0 })
            &&& cmd is AllNotesOff ==> after.len() == 0
            &&& cmd == CommandView::NoteOff(note) && before.len() > 0 ==> after.len() < before.len()
        }),
{
    reveal(follows);
    let a = e.answered(cmd);
    crate::laws::law_every_command_keeps_the_engine_sound(e, cmd);
    lemma_runs_on(a, next, note);
    lemma_opened(e, cmd, note);
    vstd::set_lib::lemma_len_subset(
        crate::laws::open_ons(next.voices, note),
        crate::laws::open_ons(a.voices, note),
    );
}

/// Running on opens nothing.
proof fn lemma_runs_on(a: EngineView, next: EngineView, note: u8)
    requires
        a.wf(),
        runs_on(a, next),
    ensures
        crate::laws::open_ons(next.voices, note).subset_of(crate::laws::open_ons(a.voices, note)),
{
    assert forall|s: u64| crate::laws::open_ons(next.voices, note).contains(s) implies crate::laws::open_ons(
        a.voices,
        note,
    ).contains(s) by {
        let i = choose|i: int|
            0 <= i < next.voices.len() && crate::engine::in_cluster(#[trigger] next.voices[i], note, s);
        let (t, run) = choose|t: Told, run: Seq<Sample>| #[trigger]
            a.voices[i].told(t).sounded(run, a.patch) == next.voices[i];
        lemma_presses_nothing(a.voices[i].told(t), run, a.patch, note);
        assert(crate::engine::in_cluster(a.voices[i], note, s));
    }
}

/// What a command does to the notes of a pitch that are open.
proof fn lemma_opened(e: EngineView, cmd: CommandView, note: u8)
    requires
        e.wf(),
        e.seq < u64::MAX,
        crate::laws::open_ons(e.voices, note).finite(),
    ensures
        ({
            let before = crate::laws::open_ons(e.voices, note);
            let after = crate::laws::open_ons(e.answered(cmd).voices, note);
            &&& after.finite()
            &&& after.len() <= before.len() + (if starts(cmd, note) { 1int } else { 0 })
            &&& cmd is AllNotesOff ==> after.len() == 0
            &&& cmd == CommandView::NoteOff(note) && before.len() > 0 ==> after.len() < before.len()
        }),
{
    let before = crate::laws::open_ons(e.voices, note);
    let after = crate::laws::open_ons(e.answered(cmd).voices, note);
    let more = before.insert((e.seq + 1) as u64);
    match cmd {
        CommandView::NoteOn(n, vel) => {
            crate::laws::law_a_note_on_opens_one(e, n, vel, note);
        },
        CommandView::NoteOnLegato(n, vel) => {
            crate::laws::law_a_bow_that_stays_opens_one(e, n, vel, false, note);
        },
        CommandView::BowChange(n, vel) => {
            crate::laws::law_a_bow_that_stays_opens_one(e, n, vel, true, note);
        },
        CommandView::NoteOff(n) => {
            crate::laws::law_a_note_off_closes_the_oldest(e, n, note);
            if n == note && before.len() > 0 {
                let s = before.choose();
                assert(before.contains(s));
                crate::laws::lemma_open(e.voices, note, s);
            }
        },
        _ => {
            assert forall|s: u64| after.contains(s) implies before.contains(s) && !(cmd is AllNotesOff) by {
                let vs = e.answered(cmd).voices;
                let i = choose|i: int| 0 <= i < vs.len() && crate::engine::in_cluster(#[trigger] vs[i], note, s);
                assert(crate::engine::in_cluster(e.voices[i], note, s));
            }
            if cmd is AllNotesOff {
                assert(after =~= Set::<u64>::empty());
            }
        },
    }
    if starts(cmd, note) {
        vstd::set_lib::lemma_len_subset(after, more);
    } else {
        assert(after.subset_of(before));
        vstd::set_lib::lemma_len_subset(after, before);
    }
}

} // verus!
