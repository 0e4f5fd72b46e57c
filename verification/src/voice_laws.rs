//! What holds of one voice, whatever it plays.

use vstd::prelude::*;
use crate::patch::{Instrument, PatchView};
use crate::single::{one, Single};
use crate::voice::{ArchetVoice, Seat, Step, Turn};

verus! {

/// Whether a voice is on the body that a note of the patch belongs to: the
/// patch's own instrument, or on a full-range desk the violin from G3 up, the
/// viola from C3, the cello from C2 and the bass below.
pub open spec fn on_its_body(v: ArchetVoice, note: u8, p: PatchView) -> bool {
    &&& !p.auto_range && p.instrument == Instrument::Violin ==> v.inst_idx == 0
    &&& !p.auto_range && p.instrument == Instrument::Viola ==> v.inst_idx == 1
    &&& !p.auto_range && p.instrument == Instrument::Cello ==> v.inst_idx == 2
    &&& !p.auto_range && p.instrument == Instrument::DoubleBass ==> v.inst_idx == 3
    &&& p.auto_range && 55 <= note ==> v.inst_idx == 0
    &&& p.auto_range && 48 <= note < 55 ==> v.inst_idx == 1
    &&& p.auto_range && 36 <= note < 48 ==> v.inst_idx == 2
    &&& p.auto_range && note < 36 ==> v.inst_idx == 3
}

/// The pitch of a string that is not stopped: fifths from the lowest, and on
/// the bass fourths.
pub open spec fn open_pitch(body: int, string: int) -> int {
    if body == 0 {
        55 + 7 * string
    } else if body == 1 {
        48 + 7 * string
    } else if body == 2 {
        36 + 7 * string
    } else {
        28 + 5 * string
    }
}

/// Whether a voice holds the string a plucked note is stopped on: one of its
/// own body, open at or below the note where the body reaches so low, and the
/// highest such.
pub open spec fn on_its_string(v: ArchetVoice, note: u8) -> bool {
    v.on_string matches Some((body, string)) && {
        &&& body == v.inst_idx
        &&& string < 4
        &&& string > 0 ==> open_pitch(body as int, string as int) <= note
        &&& string < 3 ==> note < open_pitch(body as int, string + 1)
    }
}

/// Whether nothing but a note's own state tells two voices apart.
pub open spec fn same_player(v: ArchetVoice, w: ArchetVoice) -> bool {
    &&& v.voice_idx == w.voice_idx
    &&& v.on_seq == w.on_seq
    &&& v.seat == w.seat
    &&& v.ctrl_counter == w.ctrl_counter
    &&& v.modal_recalc == w.modal_recalc
    &&& v.streams == w.streams
}

/// Whether nothing of a voice's fade differs.
pub open spec fn same_fade(v: ArchetVoice, w: ArchetVoice) -> bool {
    &&& v.stealing == w.stealing
    &&& v.steal_fade == w.steal_fade
    &&& v.steal_pending == w.steal_pending
    &&& v.pending_onset == w.pending_onset
}

/// Whether what sounds on a voice is the same.
pub open spec fn same_sound(v: ArchetVoice, w: ArchetVoice) -> bool {
    &&& v.inst_idx == w.inst_idx
    &&& v.on_string == w.on_string
    &&& v.stopped == w.stopped
    &&& v.energy == w.energy
    &&& v.bow_force == w.bow_force
}

/// A note that starts is on the body it belongs to, and a plucked one on the
/// string it is stopped on; its key is down, nothing lifts it, and it starts
/// from silence. A bowed note holds no string, and its bow is where it was.
pub proof fn law_a_note_starts_on_its_body(v: ArchetVoice, note: u8, p: PatchView)
    ensures
        on_its_body(v.struck(note, p), note, p),
        !p.auto_range ==> v.struck(note, p).inst_idx == (match p.instrument {
            Instrument::Violin => 0int,
            Instrument::Viola => 1,
            Instrument::Cello => 2,
            Instrument::DoubleBass => 3,
        }),
        p.auto_range ==> v.struck(note, p).inst_idx == (if note < 36 {
            3int
        } else if note < 48 {
            2
        } else if note < 55 {
            1
        } else {
            0
        }),
        p.pluck ==> on_its_string(v.struck(note, p), note),
        p.pluck ==> (v.struck(note, p).on_string matches Some((body, _)) && body == v.struck(note, p).inst_idx),
        !p.pluck ==> v.struck(note, p).on_string is None,
        v.struck(note, p).note == Some(note),
        !v.struck(note, p).releasing,
        v.struck(note, p).release_delay == -1,
        v.struck(note, p).onset_delay == v.onset_delay,
        v.struck(note, p).energy.units() == 0,
        v.struck(note, p).energy.number(),
        p.pluck ==> !v.struck(note, p).stopped,
        p.pluck ==> v.struck(note, p).bow_force.units() == 0 && v.struck(note, p).bow_force.number(),
        !p.pluck ==> v.struck(note, p).stopped == v.stopped,
        !p.pluck ==> v.struck(note, p).bow_force == v.bow_force,
        same_player(v.struck(note, p), v),
        same_fade(v.struck(note, p), v),
{
    crate::single::lemma_landmarks();
}

/// A note-on starts the note where nothing has to fade for it, and otherwise
/// queues it, with the velocity it came with and the onset it was given: the
/// pitch counts as down from now on, and the old sound is left as it is.
pub proof fn law_a_note_is_struck_or_queued(v: ArchetVoice, note: u8, vel: u8, p: PatchView)
    ensures
        v.noted(note, vel, p).note == Some(note),
        v.noted(note, vel, p).release_delay == -1,
        !v.noted(note, vel, p).releasing,
        same_player(v.noted(note, vel, p), v),
        !v.must_fade() ==> on_its_body(v.noted(note, vel, p), note, p) && (p.pluck ==> on_its_string(
            v.noted(note, vel, p),
            note,
        )) && same_fade(v.noted(note, vel, p), v) && v.noted(note, vel, p).onset_delay == v.onset_delay,
        v.must_fade() ==> {
            &&& v.noted(note, vel, p).stealing
            &&& v.noted(note, vel, p).steal_pending == Some((note, vel))
            &&& v.noted(note, vel, p).pending_onset == v.onset_delay
            &&& v.noted(note, vel, p).onset_delay == 0
            &&& same_sound(v.noted(note, vel, p), v)
            &&& v.stealing ==> v.noted(note, vel, p).steal_fade == v.steal_fade
            &&& !v.stealing ==> v.noted(note, vel, p).steal_fade.units() == one()
        },
{
    crate::single::lemma_whole(1);
}

/// A slur or a bow change keeps the bow going: the voice sounds on as it did,
/// on the body of the new note, its key down. A note still queued gives way
/// to the new one, with the velocity that came with it.
pub proof fn law_a_slur_keeps_the_bow(v: ArchetVoice, note: u8, vel: u8, p: PatchView)
    ensures
        on_its_body(v.retuned(note, vel, p), note, p),
        v.retuned(note, vel, p).note == Some(note),
        v.retuned(note, vel, p).release_delay == -1,
        !v.retuned(note, vel, p).releasing,
        v.retuned(note, vel, p).onset_delay == v.onset_delay,
        v.retuned(note, vel, p).energy == v.energy,
        v.retuned(note, vel, p).bow_force == v.bow_force,
        v.retuned(note, vel, p).stopped == v.stopped,
        !p.pluck ==> v.retuned(note, vel, p).on_string is None,
        p.pluck ==> v.retuned(note, vel, p).on_string == v.on_string,
        v.steal_pending is Some ==> v.retuned(note, vel, p).steal_pending == Some((note, vel)),
        v.steal_pending is None ==> v.retuned(note, vel, p).steal_pending is None,
        v.retuned(note, vel, p).stealing == v.stealing,
        v.retuned(note, vel, p).steal_fade == v.steal_fade,
        v.retuned(note, vel, p).pending_onset == v.pending_onset,
        same_player(v.retuned(note, vel, p), v),
{
}

/// A released voice has its key up and nothing queued, and lifts; what sounds
/// on it sounds on. A lift that is not due yet changes only when it is due.
pub proof fn law_a_release_leaves_the_sound(v: ArchetVoice, delay: int)
    requires
        delay <= i32::MAX,
    ensures
        v.released().note is None,
        v.released().releasing,
        v.released().steal_pending is None,
        v.released().stealing == v.stealing,
        v.released().steal_fade == v.steal_fade,
        v.released().pending_onset == v.pending_onset,
        v.released().onset_delay == v.onset_delay,
        v.released().release_delay == v.release_delay,
        same_sound(v.released(), v),
        same_player(v.released(), v),
        delay <= 0 ==> v.scheduled(delay) == v.released(),
        delay > 0 ==> v.scheduled(delay).release_delay == delay,
        delay > 0 ==> v.scheduled(delay).note == v.note,
        delay > 0 ==> v.scheduled(delay).releasing == v.releasing,
        delay > 0 ==> v.scheduled(delay).onset_delay == v.onset_delay,
        same_sound(v.scheduled(delay), v),
        same_player(v.scheduled(delay), v),
        delay > 0 ==> same_fade(v.scheduled(delay), v),
{
}

/// A player takes a seat and an onset, and nothing else about the voice
/// changes.
pub proof fn law_a_seat_is_taken(v: ArchetVoice, seat: Seat, onset: usize)
    ensures
        v.seated(seat, onset).seat == seat,
        v.seated(seat, onset).onset_delay == onset,
        v.seated(seat, onset).note == v.note,
        v.seated(seat, onset).on_seq == v.on_seq,
        v.seated(seat, onset).voice_idx == v.voice_idx,
        v.seated(seat, onset).releasing == v.releasing,
        v.seated(seat, onset).release_delay == v.release_delay,
        v.seated(seat, onset).ctrl_counter == v.ctrl_counter,
        v.seated(seat, onset).modal_recalc == v.modal_recalc,
        v.seated(seat, onset).streams == v.streams,
        same_sound(v.seated(seat, onset), v),
        same_fade(v.seated(seat, onset), v),
        crate::voice::solo_seat().place == 0,
        crate::voice::solo_seat().seats == 1,
        crate::voice::solo_seat().offset == 0,
{
}

/// A finger that lands ends the string's sound by damping it, and a desk's
/// seed changes the streams; neither touches anything else.
pub proof fn law_a_finger_and_a_seed_touch_one_thing(v: ArchetVoice, offset: u32)
    ensures
        v.ended().stopped,
        v.ended() == (ArchetVoice { stopped: v.ended().stopped, ..v }),
        v.reseeded(offset) == (ArchetVoice { streams: v.reseeded(offset).streams, ..v }),
{
}

/// One sample brings a lift one sample nearer, and the lift falls on the
/// sample after its last one: the key is then up, with nothing scheduled.
pub proof fn law_a_lift_comes_nearer(v: ArchetVoice, pluck: bool)
    requires
        v.active(),
    ensures
        v.release_delay > 0 ==> v.stepped(pluck).release_delay == v.release_delay - 1,
        v.release_delay > 0 ==> v.stepped(pluck).note == v.note && v.stepped(pluck).releasing == v.releasing
            && v.stepped(pluck).steal_pending == v.steal_pending,
        v.release_delay == 0 ==> v.stepped(pluck).release_delay == -1,
        v.release_delay == 0 ==> v.stepped(pluck).note is None && v.stepped(pluck).releasing
            && v.stepped(pluck).steal_pending is None,
        v.release_delay < 0 ==> v.stepped(pluck).release_delay == v.release_delay,
        v.release_delay < 0 ==> v.stepped(pluck).note == v.note && v.stepped(pluck).releasing == v.releasing
            && v.stepped(pluck).steal_pending == v.steal_pending,
        v.step(pluck) matches Step::Sound { lifted, damp, tick } ==> (lifted <==> v.release_delay == 0),
        v.step(pluck) matches Step::Waiting { lifted } ==> (lifted <==> v.release_delay == 0),
{
}

/// A sample of a taken voice waits while the onset is not over and sounds
/// from then on; a free voice does nothing and stays as it is. Nothing else
/// of the voice changes but a bowed one's control count.
pub proof fn law_a_sample_waits_or_sounds(v: ArchetVoice, pluck: bool)
    ensures
        v.step(pluck) is Idle <==> !v.active(),
        v.step(pluck) is Waiting <==> v.active() && v.onset_delay > 0,
        v.step(pluck) is Sound <==> v.active() && v.onset_delay == 0,
        !v.active() ==> v.stepped(pluck) == v,
        v.active() && v.onset_delay > 0 ==> v.stepped(pluck).onset_delay == v.onset_delay - 1,
        v.onset_delay == 0 ==> v.stepped(pluck).onset_delay == 0,
        same_sound(v.stepped(pluck), v),
        v.stepped(pluck).voice_idx == v.voice_idx,
        v.stepped(pluck).on_seq == v.on_seq,
        v.stepped(pluck).seat == v.seat,
        v.stepped(pluck).stealing == v.stealing,
        v.stepped(pluck).steal_fade == v.steal_fade,
        v.stepped(pluck).pending_onset == v.pending_onset,
        v.stepped(pluck).modal_recalc == v.modal_recalc,
        v.stepped(pluck).streams == v.streams,
        v.step(pluck) !is Sound || pluck ==> v.stepped(pluck).ctrl_counter == v.ctrl_counter,
{
}

/// A bowed voice runs its control on one sample in thirty-two, a plucked one
/// on none.
pub proof fn law_control_runs_every_thirty_two_samples(v: ArchetVoice, pluck: bool)
    requires
        v.wf(),
        v.active(),
        v.onset_delay == 0,
    ensures
        !pluck && v.ctrl_counter < 31 ==> v.stepped(pluck).ctrl_counter == v.ctrl_counter + 1,
        !pluck && v.ctrl_counter == 31 ==> v.stepped(pluck).ctrl_counter == 0,
        v.ctrl_counter <= 31,
        v.step(pluck) matches Step::Sound { lifted, damp, tick } && (tick <==> !pluck && v.ctrl_counter == 0),
{
}

/// A plucked string is damped by the finger that landed on it, else by the
/// hand from the sample its key goes up; a bowed one by neither.
pub proof fn law_a_string_is_damped_by_what_touches_it(v: ArchetVoice, pluck: bool)
    requires
        v.active(),
        v.onset_delay == 0,
    ensures
        v.step(pluck) matches Step::Sound { lifted, damp, tick } && {
            &&& damp is Finger <==> pluck && v.stopped
            &&& damp is Hand <==> pluck && !v.stopped && (v.releasing || v.release_delay == 0)
            &&& damp is Hand ==> v.stepped(pluck).releasing
        },
{
}

/// A fade runs on while it is above nothing. When it is over, the queued note
/// starts, on its own body, from the onset it was given and with the lift it
/// was given; with nothing queued the voice is silent.
pub proof fn law_a_queued_note_starts_when_the_fade_ends(v: ArchetVoice, fade: Single, p: PatchView)
    requires
        v.stealing,
        fade.number(),
    ensures
        fade.units() > 0 ==> v.turn(fade) is Fading && v.turned(fade, p) == (ArchetVoice { steal_fade: fade, ..v }),
        fade.units() <= 0 ==> !v.turned(fade, p).stealing && v.turned(fade, p).steal_pending is None
            && v.turned(fade, p).steal_fade.units() == one() && same_player(v.turned(fade, p), v)
            && v.turned(fade, p).release_delay == v.release_delay && v.turned(fade, p).energy.units() == 0
            && v.turned(fade, p).energy.number(),
        fade.units() <= 0 ==> (v.steal_pending matches Some((note, vel)) ==> {
            &&& v.turn(fade) == (Turn::Struck { note, vel })
            &&& v.turned(fade, p).note == Some(note)
            &&& !v.turned(fade, p).releasing
            &&& on_its_body(v.turned(fade, p), note, p)
            &&& v.turned(fade, p).inst_idx == v.struck(note, p).inst_idx
            &&& p.pluck ==> on_its_string(v.turned(fade, p), note)
            &&& v.turned(fade, p).on_string == v.struck(note, p).on_string
            &&& p.pluck ==> !v.turned(fade, p).stopped
            &&& !p.pluck ==> v.turned(fade, p).on_string is None
            &&& !p.pluck ==> v.turned(fade, p).bow_force == v.bow_force
            &&& v.turned(fade, p).onset_delay == v.pending_onset
            &&& v.turned(fade, p).pending_onset == 0
        }),
        fade.units() <= 0 && v.steal_pending is None ==> {
            &&& v.turn(fade) is Silenced
            &&& v.turned(fade, p).note == v.note
            &&& v.turned(fade, p).releasing == v.releasing
            &&& v.turned(fade, p).inst_idx == v.inst_idx
            &&& v.turned(fade, p).on_string == v.on_string
            &&& v.turned(fade, p).stopped == v.stopped
            &&& v.turned(fade, p).onset_delay == v.onset_delay
            &&& v.turned(fade, p).pending_onset == v.pending_onset
            &&& v.turned(fade, p).bow_force.units() == 0
        },
{
    crate::single::lemma_landmarks();
    crate::single::lemma_whole(1);
}

/// A voice without a fade is heard as it is.
pub proof fn law_without_a_fade_nothing_turns(v: ArchetVoice, fade: Single, p: PatchView)
    requires
        !v.stealing,
    ensures
        v.turn(fade) is Plain,
        v.turned(fade, p) == v,
{
}

/// Where the levels lie: what is heard is above one ten-thousandth and what
/// is faint below it, what cannot be cut is above one thousandth.
pub proof fn law_levels_are_told_apart(level: Single)
    requires
        level.number(),
    ensures
        9_999 * level.units() >= one() ==> crate::voice::heard(level),
        10_001 * level.units() <= one() ==> crate::voice::faint(level),
        !(crate::voice::heard(level) && crate::voice::faint(level)),
        999 * level.units() >= one() ==> crate::voice::loud(level),
        1_001 * level.units() <= one() ==> !crate::voice::loud(level),
        crate::voice::loud(level) ==> crate::voice::heard(level),
        level == Single::nearest(1, 10_000) ==> !crate::voice::heard(level) && !crate::voice::faint(level),
        level == Single::nearest(1, 1_000) ==> !crate::voice::loud(level),
{
    crate::single::lemma_landmarks();
    crate::single::lemma_small_landmarks();
    crate::reading::lemma_nearest_is_close(1, 1_000);
    crate::reading::lemma_nearest_is_close(1, 10_000);
}

/// A voice is free only when no key is down on it and neither its bow nor its
/// sound is heard.
pub proof fn law_a_voice_is_free_when_it_is_silent(v: ArchetVoice)
    ensures
        v.note is Some ==> v.active(),
        v.energy.number() && 9_999 * v.energy.units() >= one() ==> v.active(),
        v.bow_force.number() && 9_999 * v.bow_force.units() >= one() ==> v.active(),
        v.note is None && v.energy.number() && v.bow_force.number() && 10_001 * v.energy.units() <= one() && 10_001
            * v.bow_force.units() <= one() ==> !v.active(),
        v.must_fade() ==> v.active(),
        v.active() && v.stealing ==> v.must_fade(),
        v.energy.number() && 999 * v.energy.units() >= one() ==> v.must_fade(),
        !v.stealing && v.energy.number() && 1_001 * v.energy.units() <= one() ==> !v.must_fade(),
{
    crate::single::lemma_landmarks();
    if v.energy.number() {
        law_levels_are_told_apart(v.energy);
    }
    if v.bow_force.number() {
        law_levels_are_told_apart(v.bow_force);
    }
}

/// A voice ends a sample with the energy it came to. A bowed one with its key
/// up and both levels faint is put to rest, and only such a one.
pub proof fn law_a_faint_voice_is_put_to_rest(v: ArchetVoice, energy: Single, pluck: bool)
    requires
        energy.number(),
        v.bow_force.number(),
    ensures
        v.settled(energy, pluck) == (ArchetVoice { energy: v.settled(energy, pluck).energy, ..v }),
        v.settled(energy, pluck).energy == energy || v.settled(energy, pluck).energy == (Single { bits: 0 }),
        pluck || v.note is Some ==> v.settled(energy, pluck).energy == energy,
        9_999 * energy.units() >= one() || 9_999 * v.bow_force.units() >= one() ==> v.settled(energy, pluck).energy
            == energy,
        !pluck && v.note is None && 10_001 * energy.units() <= one() && 10_001 * v.bow_force.units() <= one()
            ==> v.spent(energy) && v.settled(energy, pluck).energy == (Single { bits: 0 }) && !v.settled(
            energy,
            pluck,
        ).active(),
{
    law_levels_are_told_apart(energy);
    law_levels_are_told_apart(v.bow_force);
    crate::single::lemma_landmarks();
    law_levels_are_told_apart(Single { bits: 0 });
}

/// A gliding string is tuned at every control tick and another at every
/// eighth; one whose bow is leaving at none.
pub proof fn law_a_string_is_tuned_every_eighth_tick(v: ArchetVoice, gliding: bool)
    ensures
        v.releasing ==> !v.retunes(gliding),
        !v.releasing && gliding ==> v.retunes(gliding),
        !v.releasing && !gliding ==> (v.retunes(gliding) <==> v.modal_recalc % 8 == 7),
        v.ticked() == (ArchetVoice { modal_recalc: v.ticked().modal_recalc, ..v }),
        v.modal_recalc < u32::MAX ==> v.ticked().modal_recalc == v.modal_recalc + 1,
        v.modal_recalc == u32::MAX ==> v.ticked().modal_recalc == 0,
{
}

/// A desk without a seed is the desk every voice starts on.
pub proof fn law_no_seed_is_the_first_desk(idx: u32)
    ensures
        crate::voice::desk_streams(idx, 0) == crate::voice::first_streams(idx),
{
    assert(crate::voice::desk_turn(0) == 0) by {
        assert((0u32 << 13) | (0u32 >> 19) == 0) by (bit_vector);
    }
    assert(forall|x: u32| #[trigger] (x ^ 0u32) == x) by (bit_vector);
}

/// A number scaled, within thirty-two bits.
pub open spec fn scaled(x: u32, by: u32) -> u32 {
    ((x * by) % 0x1_0000_0000) as u32
}

/// The streams of a voice are seeded each by a number of its own and the
/// voice's place scaled by another, so that no two voices share one. A desk
/// turns them all by its seed, scaled and rotated by thirteen bits.
pub proof fn law_each_stream_has_its_own_seed(idx: u32, offset: u32)
    ensures
        crate::voice::first_streams(idx).noise == crate::noise::seeded(2654435769u32 ^ scaled(idx, 2654435761)),
        crate::voice::first_streams(idx).hum == crate::noise::seeded(305419896u32 ^ scaled(idx, 40503)),
        crate::voice::first_streams(idx).pitch == crate::noise::seeded(41394u32 ^ scaled(idx, 2246822519)),
        crate::voice::first_streams(idx).amp == crate::noise::seeded(50132u32 ^ scaled(idx, 3266489917)),
        crate::voice::first_streams(idx).bow == crate::noise::seeded(58870u32 ^ scaled(idx, 668265263)),
        crate::voice::desk_turn(offset) == (scaled(offset, 2654435761) * 8192) % 0x1_0000_0000 + scaled(
            offset,
            2654435761,
        ) / 524288,
        ({
            let t = crate::voice::desk_turn(offset);
            let d = crate::voice::desk_streams(idx, offset);
            &&& d.noise == crate::noise::seeded((2654435769u32 ^ scaled(idx, 2654435761)) ^ t)
            &&& d.hum == crate::noise::seeded((305419896u32 ^ scaled(idx, 40503)) ^ t)
            &&& d.pitch == crate::noise::seeded((41394u32 ^ scaled(idx, 2246822519)) ^ t)
            &&& d.amp == crate::noise::seeded((50132u32 ^ scaled(idx, 3266489917)) ^ t)
            &&& d.bow == crate::noise::seeded((58870u32 ^ scaled(idx, 668265263)) ^ t)
        }),
{
    let s = scaled(offset, 2654435761);
    assert(((s << 13) | (s >> 19)) as u64 == ((s as u64 * 8192u64) as u64) % 0x1_0000_0000u64 + (s as u64) / 524288u64)
        by (bit_vector);
    assert(forall|x: u32, y: u32, z: u32| #[trigger] (x ^ (y ^ z)) == (x ^ y) ^ z) by (bit_vector);
}

/// A level that is no number is neither heard nor faint nor loud, and a fade
/// that is none runs on.
pub proof fn law_what_is_no_number_is_no_level(v: ArchetVoice, x: Single, p: PatchView)
    requires
        !x.number(),
    ensures
        !crate::voice::heard(x),
        !crate::voice::faint(x),
        !crate::voice::loud(x),
        v.stealing ==> v.turn(x) is Fading && v.turned(x, p) == (ArchetVoice { steal_fade: x, ..v }),
        !v.spent(x),
        v.settled(x, false).energy == x,
{
}

} // verus!
