use archet::gesture::{
    cycle_is_over, folds, is_before, is_gliding, is_seated_aside, is_turning, Stroke,
};
use archet::noise::{mix32, Noise};
use archet::patch::{ArchetPatch, Instrument};
use archet::single::Single;
use archet::strings::{
    alive, attack_corner, inst_for, inst_level, measured_pizz_t60, modal_params, slip_noise, string_for, t60_segment, Segment,
};
use archet::voice::{is_heard, ArchetVoice, Attack, Damp, Seat, Step, Turn, CTRL_INTERVAL, NO_LIFT};

fn s(x: f32) -> Single {
    Single { bits: x.to_bits() }
}

fn sounding(note: u8) -> ArchetVoice {
    let mut v = ArchetVoice::new(0);
    let _ = v.note_on(note, 90, &ArchetPatch::violin());
    v.energy = s(0.3);
    v.bow_force = s(0.8);
    v
}

#[test]
fn a_level_is_heard_above_a_ten_thousandth() {
    assert!(is_heard(s(0.00010001)));
    assert!(!is_heard(s(1e-4)));
    assert!(!is_heard(s(-1.0)));
    assert!(!is_heard(s(f32::NAN)));
    assert!(is_heard(s(f32::INFINITY)));
}

#[test]
fn a_voice_draws_from_streams_of_its_own() {
    let v = ArchetVoice::new(3);
    assert_eq!(v.streams.noise.state, (0x9E37_79B9u32 ^ 3u32.wrapping_mul(2654435761)) | 1);
    assert_eq!(v.streams.bow.state, (0xE5F6u32 ^ 3u32.wrapping_mul(668265263)) | 1);
    let mut w = v;
    w.reseed(7);
    let t = 7u32.wrapping_mul(2654435761).rotate_left(13);
    assert_eq!(w.streams.hum.state, (0x1234_5678u32 ^ (3u32.wrapping_mul(40503) ^ t)) | 1);
    assert_eq!(w.streams.pitch.state, (0xA1B2u32 ^ (3u32.wrapping_mul(2246822519) ^ t)) | 1);
    assert_eq!(w.streams.amp.state, (0xC3D4u32 ^ (3u32.wrapping_mul(3266489917) ^ t)) | 1);
}

#[test]
fn a_stream_is_xorshift() {
    let mut n = Noise::new(0x1234_5678);
    let mut x: u32 = 0x1234_5679;
    for _ in 0..100 {
        x ^= x << 13;
        x ^= x >> 17;
        x ^= x << 5;
        assert_eq!(n.next(), x);
        assert_ne!(n.state, 0);
    }
}

#[test]
fn no_two_inputs_mix_to_one() {
    let mut seen = std::collections::HashSet::new();
    for i in 0..20_000u32 {
        assert!(seen.insert(mix32(i.wrapping_mul(40503))));
    }
}

#[test]
fn a_queued_note_starts_when_the_fade_is_over() {
    let p = ArchetPatch::violin();
    let mut v = sounding(60);
    v.set_unison(Seat { place: 1, seats: 2, offset: 5 }, 400);
    assert_eq!(v.note_on(67, 70, &p), Attack::Queued);
    assert_eq!((v.onset_delay, v.pending_onset), (0, 400));
    assert_eq!(v.process(s(0.5), &p), Turn::Fading);
    assert_eq!(v.steal_fade, s(0.5));
    assert_eq!(v.process(s(0.0), &p), Turn::Struck { note: 67, vel: 70 });
    assert_eq!((v.onset_delay, v.pending_onset, v.stealing), (400, 0, false));
    assert_eq!(v.energy, s(0.0));
    assert_eq!(v.process(s(0.0), &p), Turn::Plain);
    // A note let go behind the fade never sounds.
    let mut v = sounding(60);
    let _ = v.note_on(67, 70, &p);
    v.note_off();
    assert_eq!(v.process(s(-0.1), &p), Turn::Silenced);
    assert!(!v.is_active());
}

#[test]
fn a_fade_that_runs_is_not_started_again() {
    let p = ArchetPatch::violin();
    let mut v = sounding(60);
    let _ = v.note_on(67, 70, &p);
    let _ = v.process(s(0.25), &p);
    v.energy = s(0.0);
    assert_eq!(v.note_on(69, 71, &p), Attack::Queued);
    assert_eq!((v.steal_fade, v.steal_pending), (s(0.25), Some((69, 71))));
    // A quiet voice is struck at once.
    let mut v = sounding(60);
    v.energy = s(0.001);
    assert_eq!(v.note_on(67, 70, &p), Attack::Struck);
}

#[test]
fn a_player_waits_then_sounds_then_lifts() {
    let mut v = sounding(60);
    v.onset_delay = 2;
    v.schedule_release(3);
    assert_eq!(v.render(false), Step::Waiting { lifted: false });
    assert_eq!(v.render(false), Step::Waiting { lifted: false });
    assert_eq!(v.render(false), Step::Sound { lifted: false, damp: Damp::Free, tick: true });
    assert_eq!(v.release_delay, 0);
    assert_eq!(v.render(false), Step::Sound { lifted: true, damp: Damp::Free, tick: false });
    assert_eq!((v.release_delay, v.note, v.is_releasing()), (NO_LIFT, None, true));
    let mut v = sounding(60);
    v.schedule_release(0);
    assert!(v.is_releasing());
    assert_eq!(ArchetVoice::new(0).render(false), Step::Idle);
}

#[test]
fn the_control_ticks_every_thirty_two_samples() {
    let mut v = sounding(60);
    let mut ticks = vec![];
    for i in 0..100 {
        if let Step::Sound { tick: true, .. } = v.render(false) {
            ticks.push(i);
        }
    }
    assert_eq!(ticks, vec![0, 32, 64, 96]);
    assert_eq!(CTRL_INTERVAL, 32);
    let mut v = sounding(60);
    let mut tuned = vec![];
    for i in 1..=20 {
        if v.retune(false) {
            tuned.push(i);
        }
    }
    assert_eq!(tuned, vec![8, 16]);
    assert!(v.retune(true));
    v.note_off();
    assert!(!v.retune(true));
}

#[test]
fn a_plucked_string_is_damped_by_hand_or_finger() {
    let mut p = ArchetPatch::violin();
    p.pluck = true;
    let mut v = ArchetVoice::new(0);
    let _ = v.note_on(60, 90, &p);
    assert_eq!(v.on_string(), Some((0, 0)));
    assert_eq!(v.render(true), Step::Sound { lifted: false, damp: Damp::Free, tick: false });
    v.energy = s(0.2);
    v.note_off();
    assert_eq!(v.render(true), Step::Sound { lifted: false, damp: Damp::Hand, tick: false });
    v.stop_string();
    assert_eq!(v.render(true), Step::Sound { lifted: false, damp: Damp::Finger, tick: false });
    assert_eq!(v.level(), s(0.2));
}

#[test]
fn a_bowed_voice_that_died_away_is_put_to_rest() {
    let mut v = sounding(60);
    assert!(!v.settle(s(0.00001), false), "a key is down");
    v.note_off();
    assert!(!v.settle(s(0.00001), false), "the bow still presses");
    v.bow_force = s(0.00001);
    assert!(!v.settle(s(0.0001), false));
    assert!(v.settle(s(0.00009), false));
    assert_eq!(v.level(), s(0.0));
    assert!(!v.settle(s(0.00009), true), "a plucked one is not reset");
    assert_eq!(v.level(), s(0.00009));
}

#[test]
fn a_slur_keeps_the_bow_and_a_bow_holds_no_string() {
    let p = ArchetPatch::violin();
    let mut v = sounding(60);
    v.note_on_legato(64, 90, &p);
    assert_eq!((v.note, v.energy, v.bow_force), (Some(64), s(0.3), s(0.8)));
    v.on_string = Some((0, 1));
    v.bow_change(65, 90, &p);
    assert_eq!((v.note, v.on_string()), (Some(65), None));
}

#[test]
fn a_stroke_rises_holds_and_falls() {
    let mut v = sounding(60);
    assert_eq!(v.stroke(s(0.01), s(0.04)), Stroke::Rise);
    assert_eq!(v.stroke(s(0.04), s(0.04)), Stroke::Hold);
    assert_eq!(v.stroke(s(9.0), s(0.04)), Stroke::Hold);
    assert!(!v.bow_is_off(s(0.01)));
    v.note_off();
    assert_eq!(v.stroke(s(0.01), s(0.04)), Stroke::Fall);
    assert!(v.bow_is_off(s(0.11)));
    assert!(!v.bow_is_off(s(0.12)));
}

#[test]
fn the_ticks_smaller_decisions() {
    assert!(cycle_is_over(s(1.0)) && !cycle_is_over(s(0.99999994)));
    assert!(is_before(s(-0.1)) && !is_before(s(0.0)) && !is_before(s(-0.0)));
    assert!(is_turning(s(-1.0)) && !is_turning(s(1.0)));
    assert!(is_gliding(s(0.0500001)) && !is_gliding(s(0.05)));
    assert!(folds(s(0.51)) && !folds(s(0.5)));
    assert!(is_seated_aside(s(0.0001)) && !is_seated_aside(s(0.00009)));
    let v = sounding(60);
    assert!(!v.lays_out(0, s(0.0), s(0.0)));
    assert!(!v.lays_out(0, s(1e-9), s(1e-9)));
    assert!(v.lays_out(0, s(2e-9), s(0.0)));
    assert!(v.lays_out(0, s(0.0), s(1.0)));
    assert!(v.lays_out(1, s(0.0), s(0.0)));
    assert!(!v.is_low());
}

#[test]
fn a_desk_plays_each_note_on_the_body_that_reaches_it() {
    let mut p = ArchetPatch::cello();
    for n in [0u8, 35, 60, 127] {
        assert_eq!(inst_for(n, &p), 2);
    }
    p.auto_range = true;
    for (n, b) in [(55u8, 0usize), (54, 1), (48, 1), (47, 2), (36, 2), (35, 3), (0, 3), (127, 0)] {
        assert_eq!(inst_for(n, &p), b, "note {n}");
    }
    assert_eq!(Instrument::Cello.body_index(), 2);
}

#[test]
fn a_note_is_stopped_in_first_position() {
    assert_eq!(string_for(0, 55), (0, 55, s(0.327)));
    assert_eq!(string_for(0, 61), (0, 55, s(0.327)));
    assert_eq!(string_for(0, 62), (1, 62, s(0.327)));
    assert_eq!(string_for(0, 100), (3, 76, s(0.327)));
    assert_eq!(string_for(1, 20), (0, 48, s(0.375)));
    assert_eq!(string_for(2, 57), (3, 57, s(0.685)));
    assert_eq!(string_for(3, 37), (1, 33, s(1.105)));
}

#[test]
fn a_curve_is_held_at_its_ends() {
    for body in 0..4 {
        for string in 0..4 {
            let t = measured_pizz_t60(body, string);
            for w in t.windows(2) {
                assert!(w[0].0.lt(w[1].0));
            }
            assert_eq!(t60_segment(&t, s(1.0)), Segment::Held(0));
            assert_eq!(t60_segment(&t, s(40_000.0)), Segment::Held(t.len() - 1));
            for i in 0..t.len() - 1 {
                let mid = (f32::from_bits(t[i].0.bits) + f32::from_bits(t[i + 1].0.bits)) * 0.5;
                assert_eq!(t60_segment(&t, s(mid)), Segment::Between(i));
            }
        }
    }
    let g = measured_pizz_t60(0, 0);
    assert_eq!(g[0], (s(194.7), s(5.51)));
}

#[test]
fn each_body_has_its_own_figures() {
    let v = modal_params(0);
    assert_eq!((v.b1, v.b2, v.stiff, v.beta), (s(1.6), s(0.045), s(2.0e-5), s(0.075)));
    let b = modal_params(3);
    assert_eq!((b.b1, b.b2, b.stiff, b.beta), (s(1.0), s(0.075), s(6.0e-5), s(0.082)));
    assert_eq!(inst_level(3), s(2.85));
    assert_eq!([alive(0), alive(1), alive(2), alive(3)], [s(1.0), s(0.70), s(0.48), s(0.36)]);
    assert_eq!([slip_noise(0), slip_noise(1), slip_noise(2), slip_noise(3)], [s(0.12), s(0.05), s(0.02), s(0.02)]);
    assert_eq!((attack_corner(0, 0), attack_corner(1, 3), attack_corner(9, 9)), (s(900.0), s(1573.0), s(5414.0)));
}

/// A lift scheduled while the note is queued is the note's own: it falls due
/// after the fade, and the player does not hang.
#[test]
fn a_lift_outlives_the_fade() {
    let p = ArchetPatch::violin();
    let mut v = sounding(60);
    v.note_on(62, 90, &p);
    v.schedule_release(2);
    assert_eq!(v.process(s(0.0), &p), Turn::Struck { note: 62, vel: 90 });
    assert_eq!((v.note, v.release_delay), (Some(62), 2));
    for left in [1, 0] {
        v.render(false);
        assert_eq!((v.note, v.release_delay), (Some(62), left));
    }
    v.render(false);
    assert_eq!((v.note, v.releasing), (None, true));
}

#[test]
fn a_slur_takes_the_place_of_a_queued_note() {
    let p = ArchetPatch::violin();
    let mut v = sounding(60);
    v.note_on(62, 90, &p);
    v.note_on_legato(64, 70, &p);
    assert_eq!((v.note, v.steal_pending), (Some(64), Some((64, 70))));
    assert_eq!(v.process(s(0.0), &p), Turn::Struck { note: 64, vel: 70 });
    assert_eq!(v.note, Some(64));
    v.note_on_legato(65, 70, &p);
    assert_eq!(v.steal_pending, None, "nothing is queued where nothing was");
}

/// A note let go behind its fade is silent from the sample the fade ends on.
#[test]
fn a_note_let_go_in_its_fade_never_sounds() {
    let p = ArchetPatch::violin();
    let mut v = sounding(60);
    v.note_on(62, 90, &p);
    assert_eq!(v.process(s(0.5), &p), Turn::Fading);
    v.render(false);
    v.note_off();
    assert_eq!(v.process(s(0.25), &p), Turn::Fading);
    v.render(false);
    assert_eq!(v.process(s(-0.0), &p), Turn::Silenced);
    assert!(!v.is_active() && v.note.is_none());
    for _ in 0..3 {
        assert_eq!(v.process(s(0.9), &p), Turn::Plain);
        assert_eq!(v.render(false), Step::Idle);
    }
}

#[test]
fn a_held_key_is_one_with_no_lift_to_come() {
    let mut v = sounding(60);
    assert!(v.is_held(60) && !v.is_held(61));
    v.schedule_release(5);
    assert!(!v.is_held(60), "its note-off has come");
    v.note_off();
    assert!(!v.is_held(60));
}

/// A lift is so many samples from when it was scheduled, though the player
/// still waits for the onset.
#[test]
fn a_lift_falls_due_while_the_player_waits() {
    let mut v = ArchetVoice::new(0);
    v.set_unison(Seat { place: 1, seats: 2, offset: 0 }, 5);
    let _ = v.note_on(60, 90, &ArchetPatch::violin());
    v.bow_force = s(0.8);
    v.schedule_release(2);
    assert_eq!(v.render(false), Step::Waiting { lifted: false });
    assert_eq!(v.render(false), Step::Waiting { lifted: false });
    assert_eq!(v.note, Some(60));
    assert_eq!(v.render(false), Step::Waiting { lifted: true });
    assert_eq!((v.note, v.releasing, v.onset_delay), (None, true, 2));
}
