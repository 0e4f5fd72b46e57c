//! One voice: its life from the note that takes it to the silence that gives
//! it back.
//!
//! A player drives a string and a body with it; what is decided here is when
//! a note starts, waits, is queued behind a fade, is lifted, is stopped under
//! a finger, and ends. The player reports back the two levels a voice is
//! heard by, its energy and its bow's force.

use vstd::prelude::*;
use crate::noise::Noise;
use crate::patch::{ArchetPatch, PatchView};
use crate::single::{Single, TEN_THOUSANDTH, THOUSANDTH};
use crate::strings::{inst_for, string_for};

verus! {

/// The voices an engine has.
pub const MAX_VOICES: usize = 32;

/// Samples between two control ticks of a bowed voice.
pub const CTRL_INTERVAL: usize = 32;

/// Control ticks between two retunings of a string that is not gliding.
pub const RETUNE_TICKS: u32 = 8;

/// The release delay of a voice with no lift scheduled.
pub const NO_LIFT: i32 = -1;

/// A player's seat in a section: the place on the desk, how many sit there,
/// and how far this one is tuned from the section's A. The tuning is the
/// seat's draw times the seats, less all their draws.
#[derive(Clone, Copy, Debug, PartialEq, Eq, Structural)]
pub struct Seat {
    pub place: usize,
    pub seats: usize,
    pub offset: i32,
}

/// The streams a voice draws from, none of them shared.
#[derive(Clone, Copy, Debug, PartialEq, Eq, Structural)]
pub struct Streams {
    /// Bow scratch.
    pub noise: Noise,
    /// The note's own spread: attack, vibrato, drift.
    pub hum: Noise,
    /// Pitch jitter.
    pub pitch: Noise,
    /// Amplitude shimmer.
    pub amp: Noise,
    /// Bow pressure.
    pub bow: Noise,
}

/// A voice as the engine sees it.
#[derive(Clone, Copy, Debug, PartialEq, Eq)]
pub struct ArchetVoice {
    pub voice_idx: usize,
    pub note: Option<u8>,
    /// The note-on this voice last answered, counted by the engine: a
    /// note-off releases only the oldest cluster of a pitch.
    pub on_seq: u64,
    /// The body the note is on, 0 violin to 3 bass.
    pub inst_idx: usize,
    /// The string a plucked note occupies, as body and string, or none for a
    /// bowed one.
    pub on_string: Option<(usize, usize)>,
    /// Whether a finger landing on its string has ended a plucked note.
    pub stopped: bool,
    pub releasing: bool,
    /// Samples to wait before this player's bow engages.
    pub onset_delay: usize,
    /// Samples until this player lifts the bow, and `NO_LIFT` for none.
    pub release_delay: i32,
    pub seat: Seat,
    /// What the voice radiates, followed slowly.
    pub energy: Single,
    pub bow_force: Single,
    /// Whether the old sound is fading before the queued note starts.
    pub stealing: bool,
    pub steal_fade: Single,
    /// The note and velocity queued behind the fade.
    pub steal_pending: Option<(u8, u8)>,
    /// The queued note's onset delay, parked while the old note plays out.
    pub pending_onset: usize,
    pub ctrl_counter: usize,
    pub modal_recalc: u32,
    pub streams: Streams,
}

/// A level that is heard: more than one ten-thousandth.
pub open spec fn heard(level: Single) -> bool {
    level.number() && level.units() > Single::nearest(1, 10_000).units()
}

/// A level that has died away: less than one ten-thousandth.
pub open spec fn faint(level: Single) -> bool {
    level.number() && level.units() < Single::nearest(1, 10_000).units()
}

/// A level that cannot be cut without a click: more than one thousandth.
pub open spec fn loud(level: Single) -> bool {
    level.number() && level.units() > Single::nearest(1, 1_000).units()
}

/// Whether a level is heard.
pub fn is_heard(level: Single) -> (r: bool)
    ensures
        r == heard(level),
{
    proof {
        crate::single::lemma_small_landmarks();
    }
    level.gt(Single { bits: TEN_THOUSANDTH })
}

/// The seat of a soloist: alone, on pitch.
pub open spec fn solo_seat() -> Seat {
    Seat { place: 0, seats: 1, offset: 0 }
}

/// The streams of a voice before any desk re-seeds them.
pub open spec fn first_streams(idx: u32) -> Streams {
    Streams {
        noise: crate::noise::seeded(0x9E37_79B9u32 ^ idx.wrapping_mul(2654435761)),
        hum: crate::noise::seeded(0x1234_5678u32 ^ idx.wrapping_mul(40503)),
        pitch: crate::noise::seeded(0xA1B2u32 ^ idx.wrapping_mul(2246822519)),
        amp: crate::noise::seeded(0xC3D4u32 ^ idx.wrapping_mul(3266489917)),
        bow: crate::noise::seeded(0xE5F6u32 ^ idx.wrapping_mul(668265263)),
    }
}

/// What a desk's seed turns every stream by.
pub open spec fn desk_turn(offset: u32) -> u32 {
    let t = offset.wrapping_mul(2654435761);
    (t << 13) | (t >> 19)
}

/// The streams of a voice on a desk with this seed.
pub open spec fn desk_streams(idx: u32, offset: u32) -> Streams {
    let t = desk_turn(offset);
    Streams {
        noise: crate::noise::seeded(0x9E37_79B9u32 ^ (idx.wrapping_mul(2654435761) ^ t)),
        hum: crate::noise::seeded(0x1234_5678u32 ^ (idx.wrapping_mul(40503) ^ t)),
        pitch: crate::noise::seeded(0xA1B2u32 ^ (idx.wrapping_mul(2246822519) ^ t)),
        amp: crate::noise::seeded(0xC3D4u32 ^ (idx.wrapping_mul(3266489917) ^ t)),
        bow: crate::noise::seeded(0xE5F6u32 ^ (idx.wrapping_mul(668265263) ^ t)),
    }
}

impl Streams {
    pub open spec fn live(self) -> bool {
        self.noise.live() && self.hum.live() && self.pitch.live() && self.amp.live() && self.bow.live()
    }
}

/// What damps a plucked string on one sample.
#[derive(Clone, Copy, Debug, PartialEq, Eq, Structural)]
pub enum Damp {
    /// Its own losses.
    Free,
    /// The hand, once the key is up, at the release control's pace.
    Hand,
    /// A finger landing on the string.
    Finger,
}

/// What a voice does with one sample.
#[derive(Clone, Copy, Debug, PartialEq, Eq, Structural)]
pub enum Step {
    /// Nothing sounds.
    Idle,
    /// The player waits for the onset, silent and frozen. `lifted` where the
    /// scheduled lift falls on this sample.
    Waiting { lifted: bool },
    /// The string sounds. `lifted` where the scheduled lift falls on this
    /// sample, `damp` for a plucked string, and `tick` where a bowed voice
    /// runs its control.
    Sound { lifted: bool, damp: Damp, tick: bool },
}

/// What a note-on comes to.
#[derive(Clone, Copy, Debug, PartialEq, Eq, Structural)]
pub enum Attack {
    /// The note starts now.
    Struck,
    /// The note waits for the old sound to fade.
    Queued,
}

/// How a sample of a voice is heard while a fade may be running.
#[derive(Clone, Copy, Debug, PartialEq, Eq, Structural)]
pub enum Turn {
    /// Render as it is.
    Plain,
    /// Render the old sound at the fade's level.
    Fading,
    /// The fade is over: the queued note has been struck, render it.
    Struck { note: u8, vel: u8 },
    /// The fade is over and nothing is queued: silence.
    Silenced,
}

impl ArchetVoice {
    /// Whether the voice is taken: a key is down on it, or it still sounds.
    pub open spec fn active(self) -> bool {
        self.note is Some || heard(self.bow_force) || heard(self.energy)
    }

    /// Whether a note-on has to wait for the sound to fade.
    pub open spec fn must_fade(self) -> bool {
        self.active() && (loud(self.energy) || self.stealing)
    }

    pub open spec fn wf(self) -> bool {
        &&& self.inst_idx < 4
        &&& self.release_delay >= NO_LIFT
        &&& self.ctrl_counter < CTRL_INTERVAL
        &&& self.streams.live()
        &&& self.on_string matches Some((body, string)) ==> body < 4 && string < 4
        &&& self.steal_pending matches Some((note, _)) ==> self.stealing && self.note == Some(note)
    }

    /// The voice with a player seated on it.
    pub open spec fn seated(self, seat: Seat, onset: usize) -> ArchetVoice {
        ArchetVoice { seat, onset_delay: onset, ..self }
    }

    /// The voice with a note starting on it. A plucked note takes its string;
    /// a bowed one holds none.
    pub open spec fn struck(self, note: u8, p: PatchView) -> ArchetVoice {
        let body = crate::strings::body_for(note, p);
        ArchetVoice {
            note: Some(note),
            release_delay: NO_LIFT,
            inst_idx: body as usize,
            releasing: false,
            energy: Single { bits: 0 },
            on_string: if p.pluck {
                Some((body as usize, crate::strings::string_index(body, note) as usize))
            } else {
                None
            },
            stopped: if p.pluck {
                false
            } else {
                self.stopped
            },
            bow_force: if p.pluck {
                Single { bits: 0 }
            } else {
                self.bow_force
            },
            ..self
        }
    }

    /// The voice with a note queued behind its fade.
    pub open spec fn queued(self, note: u8, vel: u8) -> ArchetVoice {
        ArchetVoice {
            stealing: true,
            steal_fade: if self.stealing {
                self.steal_fade
            } else {
                Single::nearest(1, 1)
            },
            steal_pending: Some((note, vel)),
            pending_onset: self.onset_delay,
            onset_delay: 0,
            note: Some(note),
            releasing: false,
            release_delay: NO_LIFT,
            ..self
        }
    }

    /// The voice after a note-on.
    pub open spec fn noted(self, note: u8, vel: u8, p: PatchView) -> ArchetVoice {
        if self.must_fade() {
            self.queued(note, vel)
        } else {
            self.struck(note, p)
        }
    }

    /// The voice retuned under the same bow, slurred or reversed. A note
    /// still queued behind a fade gives way to the new one, so the voice never
    /// comes back to a pitch whose key may be up.
    pub open spec fn retuned(self, note: u8, vel: u8, p: PatchView) -> ArchetVoice {
        ArchetVoice {
            note: Some(note),
            steal_pending: match self.steal_pending {
                Some(_) => Some((note, vel)),
                None => None,
            },
            release_delay: NO_LIFT,
            inst_idx: crate::strings::body_for(note, p) as usize,
            releasing: false,
            on_string: if p.pluck {
                self.on_string
            } else {
                None
            },
            ..self
        }
    }

    /// The voice with its key up.
    pub open spec fn released(self) -> ArchetVoice {
        ArchetVoice { steal_pending: None, releasing: true, note: None, ..self }
    }

    /// The voice with its bow lifting after `delay` samples.
    pub open spec fn scheduled(self, delay: int) -> ArchetVoice {
        if delay <= 0 {
            self.released()
        } else {
            ArchetVoice { release_delay: delay as i32, ..self }
        }
    }

    /// The voice one sample nearer to its lift, or lifted where it is due. A
    /// lift is so many samples from when it was scheduled, whether or not the
    /// player has started.
    pub open spec fn nearer_lift(self) -> ArchetVoice {
        if self.release_delay == 0 {
            ArchetVoice { release_delay: NO_LIFT, ..self }.released()
        } else if self.release_delay > 0 {
            ArchetVoice { release_delay: (self.release_delay - 1) as i32, ..self }
        } else {
            self
        }
    }

    /// The voice once a sample's waiting and lifting are done.
    pub open spec fn stepped(self, pluck: bool) -> ArchetVoice {
        let v = self.nearer_lift();
        if !self.active() {
            self
        } else if self.onset_delay > 0 {
            ArchetVoice { onset_delay: (self.onset_delay - 1) as usize, ..v }
        } else if pluck {
            v
        } else {
            ArchetVoice { ctrl_counter: ((v.ctrl_counter + 1) % CTRL_INTERVAL as int) as usize, ..v }
        }
    }

    /// What a sample of the voice does.
    pub open spec fn step(self, pluck: bool) -> Step {
        let lifted = self.release_delay == 0;
        if !self.active() {
            Step::Idle
        } else if self.onset_delay > 0 {
            Step::Waiting { lifted }
        } else {
            Step::Sound {
                lifted,
                damp: if !pluck {
                    Damp::Free
                } else if self.stopped {
                    Damp::Finger
                } else if self.releasing || lifted {
                    Damp::Hand
                } else {
                    Damp::Free
                },
                tick: !pluck && self.ctrl_counter == 0,
            }
        }
    }

    /// Whether a fade that has come to this level is over.
    pub open spec fn faded_out(fade: Single) -> bool {
        fade.number() && fade.units() <= 0
    }

    /// How a sample is heard with the fade come to this level.
    pub open spec fn turn(self, fade: Single) -> Turn {
        if !self.stealing {
            Turn::Plain
        } else if !Self::faded_out(fade) {
            Turn::Fading
        } else {
            match self.steal_pending {
                Some((note, vel)) => Turn::Struck { note, vel },
                None => Turn::Silenced,
            }
        }
    }

    /// The voice with the fade come to this level. A lift scheduled while the
    /// note was queued is the note's own, and still falls due.
    pub open spec fn turned(self, fade: Single, p: PatchView) -> ArchetVoice {
        if !self.stealing {
            self
        } else if !Self::faded_out(fade) {
            ArchetVoice { steal_fade: fade, ..self }
        } else {
            let v = ArchetVoice { stealing: false, steal_fade: Single::nearest(1, 1), ..self };
            match self.steal_pending {
                Some((note, vel)) => ArchetVoice {
                    release_delay: self.release_delay,
                    ..ArchetVoice {
                        steal_pending: None,
                        onset_delay: self.pending_onset,
                        pending_onset: 0,
                        ..v
                    }.struck(note, p)
                },
                None => ArchetVoice { energy: Single { bits: 0 }, bow_force: Single { bits: 0 }, ..v },
            }
        }
    }

    /// Whether a bowed voice that has come to this energy has died away.
    pub open spec fn spent(self, energy: Single) -> bool {
        self.note is None && faint(self.bow_force) && faint(energy)
    }

    /// The voice at the end of a sample that has come to this energy.
    pub open spec fn settled(self, energy: Single, pluck: bool) -> ArchetVoice {
        ArchetVoice {
            energy: if !pluck && self.spent(energy) {
                Single { bits: 0 }
            } else {
                energy
            },
            ..self
        }
    }

    /// The voice with one more control tick counted.
    pub open spec fn ticked(self) -> ArchetVoice {
        ArchetVoice { modal_recalc: self.modal_recalc.wrapping_add(1), ..self }
    }

    /// Whether a control tick tunes the string's modes again.
    pub open spec fn retunes(self, gliding: bool) -> bool {
        !self.releasing && (gliding || self.ticked().modal_recalc % RETUNE_TICKS == 0)
    }

    /// The voice on a desk with this seed.
    pub open spec fn reseeded(self, offset: u32) -> ArchetVoice {
        ArchetVoice { streams: desk_streams(self.voice_idx as u32, offset), ..self }
    }

    /// The voice ended by a finger on its string.
    pub open spec fn ended(self) -> ArchetVoice {
        ArchetVoice { stopped: true, ..self }
    }
}

impl ArchetVoice {
    /// A voice at rest.
    pub fn new(voice_idx: usize) -> (r: ArchetVoice)
        requires
            voice_idx < MAX_VOICES,
        ensures
            r == (ArchetVoice {
                voice_idx,
                note: None,
                on_seq: 0,
                inst_idx: 0,
                on_string: None,
                stopped: false,
                releasing: false,
                onset_delay: 0,
                release_delay: NO_LIFT,
                seat: solo_seat(),
                energy: Single { bits: 0 },
                bow_force: Single { bits: 0 },
                stealing: false,
                steal_fade: Single::nearest(1, 1),
                steal_pending: None,
                pending_onset: 0,
                ctrl_counter: 0,
                modal_recalc: 0,
                streams: first_streams(voice_idx as u32),
            }),
            r.wf(),
            !r.active(),
    {
        let idx: u32 = voice_idx as u32;
        proof {
            crate::single::lemma_small_landmarks();
            crate::single::lemma_landmarks();
        }
        ArchetVoice {
            voice_idx,
            note: None,
            on_seq: 0,
            inst_idx: 0,
            on_string: None,
            stopped: false,
            releasing: false,
            onset_delay: 0,
            release_delay: NO_LIFT,
            seat: Seat { place: 0, seats: 1, offset: 0 },
            energy: Single { bits: 0 },
            bow_force: Single { bits: 0 },
            stealing: false,
            steal_fade: Single::ratio(1, 1),
            steal_pending: None,
            pending_onset: 0,
            ctrl_counter: 0,
            modal_recalc: 0,
            streams: Streams {
                noise: Noise::new(0x9E37_79B9 ^ idx.wrapping_mul(2654435761)),
                hum: Noise::new(0x1234_5678 ^ idx.wrapping_mul(40503)),
                pitch: Noise::new(0xA1B2 ^ idx.wrapping_mul(2246822519)),
                amp: Noise::new(0xC3D4 ^ idx.wrapping_mul(3266489917)),
                bow: Noise::new(0xE5F6 ^ idx.wrapping_mul(668265263)),
            },
        }
    }

    /// Whether this key is down on the voice, and no note-off has come for it.
    pub fn is_held(&self, note: u8) -> (r: bool)
        ensures
            r == (self.note == Some(note) && self.release_delay == NO_LIFT),
    {
        match self.note {
            Some(n) => n == note && self.release_delay == NO_LIFT,
            None => false,
        }
    }

    /// Whether the voice is taken.
    pub fn is_active(&self) -> (r: bool)
        ensures
            r == self.active(),
    {
        self.note.is_some() || is_heard(self.bow_force) || is_heard(self.energy)
    }

    /// Seat a player before a note-on; an ordinary note takes the soloist's
    /// seat and no delay.
    pub fn set_unison(&mut self, seat: Seat, onset_delay: usize)
        ensures
            *final(self) == old(self).seated(seat, onset_delay),
    {
        self.seat = seat;
        self.onset_delay = onset_delay;
    }

    /// Re-seed every stream, so this voice is independent of the one at the
    /// same index on another desk.
    pub fn reseed(&mut self, offset: u32)
        ensures
            *final(self) == old(self).reseeded(offset),
            final(self).streams.live(),
    {
        let idx: u32 = self.voice_idx as u32;
        let m: u32 = offset.wrapping_mul(2654435761);
        let t: u32 = (m << 13) | (m >> 19);
        self.streams = Streams {
            noise: Noise::new(0x9E37_79B9 ^ (idx.wrapping_mul(2654435761) ^ t)),
            hum: Noise::new(0x1234_5678 ^ (idx.wrapping_mul(40503) ^ t)),
            pitch: Noise::new(0xA1B2 ^ (idx.wrapping_mul(2246822519) ^ t)),
            amp: Noise::new(0xC3D4 ^ (idx.wrapping_mul(3266489917) ^ t)),
            bow: Noise::new(0xE5F6 ^ (idx.wrapping_mul(668265263) ^ t)),
        };
    }

    /// A note-on. If the voice still sounds, the note is queued behind a
    /// short fade; its pitch is tracked at once, so a note-off pairs with it
    /// even while the old sound is still there.
    pub fn note_on(&mut self, note: u8, vel: u8, patch: &ArchetPatch) -> (r: Attack)
        ensures
            *final(self) == old(self).noted(note, vel, patch@),
            r == (if old(self).must_fade() { Attack::Queued } else { Attack::Struck }),
            old(self).wf() ==> final(self).wf(),
    {
        proof {
            crate::single::lemma_small_landmarks();
        }
        if self.is_active() && (self.energy.gt(Single { bits: THOUSANDTH }) || self.stealing) {
            if !self.stealing {
                self.stealing = true;
                self.steal_fade = Single::ratio(1, 1);
            }
            self.steal_pending = Some((note, vel));
            self.pending_onset = self.onset_delay;
            self.onset_delay = 0;
            self.note = Some(note);
            self.releasing = false;
            self.release_delay = NO_LIFT;
            Attack::Queued
        } else {
            self.note_on_now(note, patch);
            Attack::Struck
        }
    }

    /// A note starting now, from silence.
    fn note_on_now(&mut self, note: u8, patch: &ArchetPatch)
        ensures
            *final(self) == old(self).struck(note, patch@),
            old(self).wf() && old(self).steal_pending is None ==> final(self).wf(),
    {
        self.note = Some(note);
        self.release_delay = NO_LIFT;
        self.inst_idx = inst_for(note, patch);
        self.releasing = false;
        self.energy = Single { bits: 0 };
        if patch.pluck {
            let (string, _, _) = string_for(self.inst_idx, note);
            self.on_string = Some((self.inst_idx, string));
            self.stopped = false;
            self.bow_force = Single { bits: 0 };
        } else {
            self.on_string = None;
        }
    }

    /// A slur on the same string: the bow keeps going and only the finger
    /// changes pitch.
    pub fn note_on_legato(&mut self, note: u8, vel: u8, patch: &ArchetPatch)
        ensures
            *final(self) == old(self).retuned(note, vel, patch@),
            old(self).wf() ==> final(self).wf(),
    {
        self.note = Some(note);
        if self.steal_pending.is_some() {
            self.steal_pending = Some((note, vel));
        }
        self.release_delay = NO_LIFT;
        self.inst_idx = inst_for(note, patch);
        self.releasing = false;
        if !patch.pluck {
            self.on_string = None;
        }
    }

    /// A detache bow change: the bow stays in contact and reverses.
    pub fn bow_change(&mut self, note: u8, vel: u8, patch: &ArchetPatch)
        ensures
            *final(self) == old(self).retuned(note, vel, patch@),
            old(self).wf() ==> final(self).wf(),
    {
        self.note_on_legato(note, vel, patch);
    }

    /// The key is up: the bow lifts or the hand mutes. A note released while
    /// its fade is still running never started, so its attack is cancelled.
    pub fn note_off(&mut self)
        ensures
            *final(self) == old(self).released(),
    {
        self.steal_pending = None;
        self.releasing = true;
        self.note = None;
    }

    /// Schedule this player's bow lift `delay` samples from now; a delay of 0
    /// or less releases at once.
    pub fn schedule_release(&mut self, delay: i32)
        ensures
            *final(self) == old(self).scheduled(delay as int),
            old(self).wf() ==> final(self).wf(),
    {
        if delay <= 0 {
            self.note_off();
        } else {
            self.release_delay = delay;
        }
    }

    /// A finger has landed on this voice's string for another note: end it.
    pub fn stop_string(&mut self)
        ensures
            *final(self) == old(self).ended(),
    {
        self.stopped = true;
    }

    /// The string a plucked note occupies, or none for a bowed one.
    pub fn on_string(&self) -> (r: Option<(usize, usize)>)
        ensures
            r == self.on_string,
    {
        self.on_string
    }

    /// Whether a finger landing on its string has ended this plucked note.
    pub fn stopped(&self) -> (r: bool)
        ensures
            r == self.stopped,
    {
        self.stopped
    }

    pub fn is_releasing(&self) -> (r: bool)
        ensures
            r == self.releasing,
    {
        self.releasing
    }

    /// What the voice radiates.
    pub fn level(&self) -> (r: Single)
        ensures
            r == self.energy,
    {
        self.energy
    }

    /// Begin a sample while a fade may be running: `fade` is the fade's level
    /// less one step. The test follows the step, so the end of a fade is
    /// never stepped over.
    pub fn process(&mut self, fade: Single, patch: &ArchetPatch) -> (r: Turn)
        ensures
            *final(self) == old(self).turned(fade, patch@),
            r == old(self).turn(fade),
            old(self).wf() ==> final(self).wf(),
    {
        if !self.stealing {
            return Turn::Plain;
        }
        proof {
            crate::single::lemma_landmarks();
        }
        if !fade.le(Single { bits: 0 }) {
            self.steal_fade = fade;
            return Turn::Fading;
        }
        self.stealing = false;
        self.steal_fade = Single::ratio(1, 1);
        match self.steal_pending {
            Some((note, vel)) => {
                self.steal_pending = None;
                self.onset_delay = self.pending_onset;
                self.pending_onset = 0;
                let lift: i32 = self.release_delay;
                self.note_on_now(note, patch);
                self.release_delay = lift;
                Turn::Struck { note, vel }
            },
            None => {
                self.energy = Single { bits: 0 };
                self.bow_force = Single { bits: 0 };
                Turn::Silenced
            },
        }
    }

    /// One sample: lift the bow where the lift is due, wait out the onset, and
    /// say what the string does.
    pub fn render(&mut self, pluck: bool) -> (r: Step)
        requires
            old(self).wf(),
        ensures
            *final(self) == old(self).stepped(pluck),
            r == old(self).step(pluck),
            final(self).wf(),
    {
        if !self.is_active() {
            return Step::Idle;
        }
        let mut lifted: bool = false;
        if self.release_delay >= 0 {
            if self.release_delay == 0 {
                self.release_delay = NO_LIFT;
                self.note_off();
                lifted = true;
            } else {
                self.release_delay = self.release_delay - 1;
            }
        }
        if self.onset_delay > 0 {
            self.onset_delay = self.onset_delay - 1;
            return Step::Waiting { lifted };
        }
        if pluck {
            let damp = if self.stopped {
                Damp::Finger
            } else if self.releasing {
                Damp::Hand
            } else {
                Damp::Free
            };
            return Step::Sound { lifted, damp, tick: false };
        }
        let tick: bool = self.ctrl_counter == 0;
        self.ctrl_counter = (self.ctrl_counter + 1) % CTRL_INTERVAL;
        Step::Sound { lifted, damp: Damp::Free, tick }
    }

    /// On a control tick, whether the string's modes are tuned again: at
    /// every tick while the pitch glides, otherwise every eighth, and never
    /// once the bow is leaving.
    pub fn retune(&mut self, gliding: bool) -> (r: bool)
        ensures
            *final(self) == old(self).ticked(),
            r == old(self).retunes(gliding),
    {
        self.modal_recalc = self.modal_recalc.wrapping_add(1);
        !self.releasing && (gliding || self.modal_recalc % RETUNE_TICKS == 0)
    }

    /// End a sample with the energy the voice has come to. A bowed voice with
    /// its key up that has died away is put to rest: its body is reset, which
    /// the result asks for.
    pub fn settle(&mut self, energy: Single, pluck: bool) -> (r: bool)
        ensures
            r == (!pluck && old(self).spent(energy)),
            *final(self) == old(self).settled(energy, pluck),
            r ==> !final(self).active(),
    {
        proof {
            crate::single::lemma_small_landmarks();
            crate::single::lemma_landmarks();
        }
        self.energy = energy;
        let threshold: Single = Single { bits: TEN_THOUSANDTH };
        if !pluck && self.note.is_none() && self.bow_force.lt(threshold) && energy.lt(threshold) {
            self.energy = Single { bits: 0 };
            true
        } else {
            false
        }
    }
}

} // verus!
