use archet::block::Block;
use archet::engine::{seat_for, Act, ArchetCommand, ArchetEngine};
use archet::meter::Meter;
use archet::noise::mix32;
use archet::patch::{ArchetParam, ArchetPatch, Instrument};
use archet::single::Single;
use archet::voice::MAX_VOICES;

fn s(x: f32) -> Single {
    Single { bits: x.to_bits() }
}

/// An engine at 48 kHz: attacks spread over 35 ms, lifts over 30 ms.
fn engine() -> ArchetEngine {
    ArchetEngine::new((0.035f32 * 48_000.0) as u32, (0.030f32 * 48_000.0) as u32)
}

fn load(eng: &mut ArchetEngine, p: ArchetPatch) {
    eng.process_command(ArchetCommand::LoadPatch(Box::new(p)));
}

fn on(eng: &mut ArchetEngine, note: u8) {
    eng.process_command(ArchetCommand::NoteOn(note, 90));
}

fn section() -> ArchetPatch {
    let mut p = ArchetPatch::violin();
    p.ensemble = s(8.0);
    p.polyphony = 4;
    p
}

fn lit(eng: &ArchetEngine, note: u8) -> usize {
    eng.voices.iter().filter(|v| v.is_active() && v.note == Some(note)).count()
}

/// A section's polyphony counts notes: four notes on a section of eight light
/// thirty-two voices, and a fifth note takes the oldest note's voices, not one
/// voice for all its players.
#[test]
fn a_section_chord_keeps_every_player() {
    let mut eng = engine();
    load(&mut eng, section());
    for n in [60u8, 64, 67, 71] {
        on(&mut eng, n);
    }
    assert_eq!(eng.voices.iter().filter(|v| v.is_active()).count(), 32);
    for n in [60u8, 64, 67, 71] {
        assert_eq!(lit(&eng, n), 8, "note {n}");
    }
    on(&mut eng, 74);
    assert_eq!(lit(&eng, 74), 8, "the fifth note lights all its players");
    assert_eq!(lit(&eng, 60), 0, "the oldest note gave way");
    assert_eq!(lit(&eng, 64), 8);
}

/// The seats keep their intonation from one note to the next, centred on the
/// section's A.
#[test]
fn a_section_keeps_its_seats_from_note_to_note() {
    let mut eng = engine();
    load(&mut eng, section());
    // Cents off the section's A: the seat's share of a spread of 22 cents,
    // widened as three uniform draws ask for.
    let cents = |offset: i32, seats: usize| offset as f32 * (2.0 * 22.0 * 1.7) / (3069.0 * seats as f32);
    let seats = |eng: &ArchetEngine, note: u8| -> Vec<i32> {
        let mut d: Vec<i32> = eng
            .voices
            .iter()
            .filter(|v| v.is_active() && v.note == Some(note))
            .map(|v| (cents(v.seat.offset, v.seat.seats) * 10.0).round() as i32)
            .collect();
        d.sort_unstable();
        d
    };
    on(&mut eng, 60);
    let first = seats(&eng, 60);
    on(&mut eng, 67);
    let second = seats(&eng, 67);
    assert_eq!(first.len(), 8);
    assert_eq!(first, second, "the same eight seats at every note");
    let mean = first.iter().sum::<i32>() as f32 / 80.0;
    assert!(mean.abs() < 0.5, "centred on the section's A, mean {mean} cents");
    assert!(first.iter().any(|&d| d.abs() > 50), "spread by more than a few cents");
}

/// LoadPatch clamps the polyphony to the voice pool.
#[test]
fn load_patch_clamps_polyphony() {
    let mut eng = engine();
    let mut p = ArchetPatch::violin();
    p.polyphony = 48;
    load(&mut eng, p);
    assert_eq!(eng.patch.polyphony, MAX_VOICES as u8);
}

/// A patch push must not re-seed an ensemble desk that is already at that
/// offset.
#[test]
fn repeated_patch_pushes_do_not_reseed_an_unchanged_ensemble_desk() {
    let mut eng = engine();
    let mut p = ArchetPatch { seed_offset: 7, ..Default::default() };
    load(&mut eng, p.clone());
    assert_eq!(eng.applied_seed, 7, "the first load must apply the offset");
    let seeded = eng.voices.clone();

    // Pushing the same patch again must be a no-op for seeding, and changing
    // the offset must still take effect.
    load(&mut eng, p.clone());
    assert_eq!(eng.applied_seed, 7);
    assert_eq!(eng.voices, seeded);

    p.seed_offset = 9;
    load(&mut eng, p);
    assert_eq!(eng.applied_seed, 9, "a real change must still re-seed");
    assert_ne!(eng.voices, seeded);
}

#[test]
fn the_seats_of_a_section_cancel() {
    for seed in [0u32, 1, 7, 0xffff_ffff] {
        for n in 2..=8usize {
            let sum: i32 = (0..n).map(|k| seat_for(k, n, seed).offset).sum();
            assert_eq!(sum, 0, "{n} seats on desk {seed}");
        }
    }
    // The first seat of the default desk, from the hash itself.
    let h = mix32(0);
    assert_eq!(h, 0);
    let draw = |k: u32| {
        let h = mix32(k.wrapping_mul(40503));
        (h & 0x3ff) + ((h >> 10) & 0x3ff) + ((h >> 20) & 0x3ff)
    };
    let all: u32 = (0..8).map(draw).sum();
    assert_eq!(seat_for(3, 8, 0).offset, 8 * draw(3) as i32 - all as i32);
    assert_eq!((seat_for(3, 8, 0).place, seat_for(3, 8, 0).seats), (3, 8));
}

#[test]
fn the_finaliser_is_murmurs() {
    assert_eq!(mix32(0), 0);
    assert_eq!(mix32(1), 0x514e_28b7);
    assert_eq!(mix32(0xffff_ffff), 0x81f1_6f39);
}

#[test]
fn a_section_lights_its_players_up_to_the_cap() {
    let mut eng = engine();
    for (size, pluck, want) in [
        (0.0f32, false, 1usize), (1.0, false, 1), (1.4999999, false, 1), (1.5, false, 2), (2.4, false, 2),
        (2.5, false, 3), (7.5, false, 8), (30.0, false, 8), (f32::INFINITY, false, 8), (f32::NAN, false, 1),
        (3.0, true, 3), (12.0, true, 4),
    ] {
        eng.patch.ensemble = s(size);
        eng.patch.pluck = pluck;
        assert_eq!(eng.voices_per_note(), want, "{size} players, pluck {pluck}");
    }
    eng.patch.ensemble = s(14.0);
    eng.patch.pluck = false;
    eng.patch.polyphony = 24;
    assert_eq!(eng.pool(), 32);
    eng.patch.polyphony = 2;
    assert_eq!(eng.pool(), 16);
    eng.patch.ensemble = s(0.0);
    assert_eq!(eng.pool(), 2);
}

#[test]
fn players_land_apart_and_the_first_on_time() {
    let mut eng = engine();
    load(&mut eng, section());
    on(&mut eng, 60);
    let v: Vec<_> = eng.voices.iter().filter(|v| v.note == Some(60)).collect();
    assert_eq!(v[0].onset_delay, 0);
    for (k, v) in v.iter().enumerate().skip(1) {
        let event = 60u32
            .wrapping_mul(2654435761)
            .wrapping_add((k as u32).wrapping_mul(40503))
            .wrapping_add(1);
        assert_eq!(v.onset_delay, ((event >> 5) % 1680) as usize);
    }
}

#[test]
fn a_free_voice_is_taken_before_a_lifting_one_and_that_before_a_held_one() {
    let mut eng = engine();
    let mut p = ArchetPatch::violin();
    p.polyphony = 3;
    load(&mut eng, p);
    on(&mut eng, 60);
    on(&mut eng, 62);
    assert_eq!(eng.allocate_voice_idx(), 2);
    on(&mut eng, 64);
    assert_eq!(eng.allocate_voice_idx(), 0, "the oldest of three held");
    // The second lifts, still heard.
    eng.process_command(ArchetCommand::NoteOff(62));
    eng.voices[1].energy = s(0.2);
    assert_eq!(eng.allocate_voice_idx(), 1, "the one lifting");
    eng.voices[1].energy = s(0.00001);
    eng.voices[1].bow_force = s(0.0);
    assert!(!eng.voices[1].is_active());
    assert_eq!(eng.allocate_voice_idx(), 1, "the one free");
    assert_eq!(eng.voice_count(), 2);
    assert!(eng.any_active());
}

#[test]
fn a_sounding_voice_is_queued_and_a_quiet_one_struck() {
    let mut eng = engine();
    let mut p = ArchetPatch::violin();
    p.polyphony = 1;
    load(&mut eng, p);
    on(&mut eng, 60);
    assert_eq!(eng.take_acts().last(), Some(&Act::Strike { voice: 0, note: 60, vel: 90 }));
    eng.voices[0].energy = s(0.3);
    on(&mut eng, 67);
    assert!(eng.take_acts().is_empty(), "the new note waits for the fade");
    assert_eq!(eng.voices[0].steal_pending, Some((67, 90)));
    assert_eq!(eng.voices[0].note, Some(67), "the incoming pitch is there at once");
    assert!(eng.voices[0].stealing);
    // A note-off pairs with it even while the old sound is fading.
    eng.process_command(ArchetCommand::NoteOff(67));
    assert_eq!(eng.voices[0].steal_pending, None);
}

#[test]
fn one_off_pairs_with_one_on() {
    let mut eng = engine();
    load(&mut eng, ArchetPatch::violin());
    on(&mut eng, 60);
    on(&mut eng, 60);
    assert_eq!(eng.held_keys, vec![60], "a key is down once");
    eng.process_command(ArchetCommand::NoteOff(60));
    assert_eq!((eng.voices[0].note, eng.voices[1].note), (None, Some(60)), "the oldest goes, the fresh one stays");
    assert!(eng.held_keys.is_empty());
    eng.process_command(ArchetCommand::NoteOff(60));
    assert_eq!(eng.voices[1].note, None);
    eng.process_command(ArchetCommand::NoteOff(61));
    assert!(!eng.voices[2].is_releasing());
}

/// One off pairs with one on for a section too: the second off lets the second
/// cluster go, not the first one again, and nobody hangs.
#[test]
fn two_offs_let_two_sections_go() {
    let mut eng = engine();
    load(&mut eng, section());
    on(&mut eng, 60);
    on(&mut eng, 60);
    assert_eq!(lit(&eng, 60), 16);
    eng.process_command(ArchetCommand::NoteOff(60));
    let first: Vec<i32> = eng.voices[..8].iter().map(|v| v.release_delay).collect();
    assert!(eng.voices[8..16].iter().all(|v| v.is_held(60)), "the fresh cluster stays");
    eng.process_command(ArchetCommand::NoteOff(60));
    let again: Vec<i32> = eng.voices[..8].iter().map(|v| v.release_delay).collect();
    assert_eq!(first, again, "the first cluster is not scheduled again");
    for v in &eng.voices {
        assert!(v.note != Some(60) || v.release_delay >= 0);
    }
    // A twentieth of a second later every bow is off.
    for v in eng.voices.iter_mut() {
        for _ in 0..2400 {
            v.process(s(1.0), &eng.patch);
            v.render(false);
        }
    }
    assert_eq!(lit(&eng, 60), 0);
}

/// An ordinary note is played from the soloist's seat, whoever sat there.
#[test]
fn a_soloists_slur_sits_alone() {
    for cmd in [ArchetCommand::NoteOnLegato(60, 100), ArchetCommand::BowChange(60, 100)] {
        let mut eng = engine();
        load(&mut eng, section());
        on(&mut eng, 55);
        assert_ne!(eng.voices[0].seat.seats, 1);
        eng.process_command(ArchetCommand::AllNotesOff);
        for v in eng.voices.iter_mut() {
            v.bow_force = s(0.0);
        }
        load(&mut eng, ArchetPatch::violin());
        eng.process_command(cmd);
        let v = eng.voices.iter().find(|v| v.note == Some(60)).unwrap();
        assert_eq!((v.seat.place, v.seat.seats, v.seat.offset, v.onset_delay), (0, 1, 0, 0));
    }
}

#[test]
fn the_keys_that_are_down_are_listed() {
    let mut eng = engine();
    load(&mut eng, ArchetPatch::violin());
    on(&mut eng, 60);
    on(&mut eng, 64);
    on(&mut eng, 60);
    eng.process_command(ArchetCommand::NoteOff(64));
    on(&mut eng, 67);
    assert_eq!(eng.held_keys, vec![60, 67]);
    eng.process_command(ArchetCommand::AllNotesOff);
    assert!(eng.held_keys.is_empty());
    on(&mut eng, 64);
    assert_eq!(eng.held_keys, vec![64]);
    eng.process_command(ArchetCommand::NoteOnLegato(66, 90));
    assert_eq!(eng.held_keys, vec![64], "a slur presses no key");
}

#[test]
fn a_section_lifts_apart() {
    let mut eng = engine();
    load(&mut eng, section());
    on(&mut eng, 60);
    let _ = eng.take_acts();
    eng.process_command(ArchetCommand::NoteOff(60));
    assert_eq!(eng.voices[0].note, None, "the first player lifts at once");
    assert_eq!(eng.take_acts().first(), Some(&Act::Lift { voice: 0 }));
    for k in 1..8u32 {
        let h = 60u32
            .wrapping_mul(2654435761)
            .wrapping_add(k.wrapping_mul(2246822519))
            .wrapping_add(1);
        let d = (h % 1440) as i32;
        let v = eng.voices[k as usize];
        if d > 0 {
            assert_eq!((v.release_delay, v.note), (d, Some(60)));
        }
    }
}

#[test]
fn all_notes_off_lifts_everything() {
    let mut eng = engine();
    load(&mut eng, section());
    on(&mut eng, 60);
    on(&mut eng, 64);
    eng.process_command(ArchetCommand::AllNotesOff);
    assert!(eng.held_keys.is_empty());
    assert!(eng.voices.iter().all(|v| v.note.is_none() && v.is_releasing()));
}

#[test]
fn a_slur_goes_to_the_loudest_voice_and_a_fresh_stroke_where_none_sounds() {
    let mut eng = engine();
    load(&mut eng, ArchetPatch::violin());
    eng.process_command(ArchetCommand::NoteOnLegato(60, 80));
    assert_eq!(eng.take_acts(), vec![Act::Strike { voice: 0, note: 60, vel: 80 }]);
    on(&mut eng, 62);
    eng.voices[0].energy = s(0.2);
    eng.voices[1].energy = s(0.5);
    let _ = eng.take_acts();
    eng.process_command(ArchetCommand::NoteOnLegato(65, 70));
    assert_eq!(eng.take_acts(), vec![Act::Slur { voice: 1, note: 65, vel: 70 }]);
    assert_eq!(eng.voices[1].note, Some(65));
    assert_eq!(eng.voices[1].on_seq, 3);
    eng.process_command(ArchetCommand::BowChange(67, 70));
    assert_eq!(eng.take_acts(), vec![Act::Reverse { voice: 1, note: 67, vel: 70 }]);
    // Of two as loud, the later.
    eng.voices[0].energy = s(0.5);
    eng.process_command(ArchetCommand::BowChange(69, 70));
    assert_eq!(eng.take_acts(), vec![Act::Reverse { voice: 1, note: 69, vel: 70 }]);
}

#[test]
fn a_plucked_string_carries_one_note() {
    let mut eng = engine();
    let mut p = ArchetPatch::violin();
    p.pluck = true;
    load(&mut eng, p);
    on(&mut eng, 55); // the open G
    on(&mut eng, 62); // the open D
    assert_eq!(eng.voices[0].on_string(), Some((0, 0)));
    assert_eq!(eng.voices[1].on_string(), Some((0, 1)));
    on(&mut eng, 57); // stopped on the G
    assert!(eng.voices[0].stopped(), "the finger ends what rang on the string");
    assert!(!eng.voices[1].stopped(), "a note still held on another string rings on");
    assert_eq!(eng.held_strings(), [true, true, false, false]);
    // Once its key is up, the next attack ends it too.
    eng.process_command(ArchetCommand::NoteOff(62));
    eng.voices[1].energy = s(0.1);
    on(&mut eng, 76);
    assert!(eng.voices[1].stopped());
    // With no key down the hand rests on the strings.
    eng.process_command(ArchetCommand::AllNotesOff);
    assert_eq!(eng.held_strings(), [true; 4]);
    // A bowed note holds no string.
    eng.process_command(ArchetCommand::SetParam { param: ArchetParam::Pluck, value: s(0.0) });
    on(&mut eng, 60);
    let v = eng.voices.iter().find(|v| v.note == Some(60)).unwrap();
    assert_eq!(v.on_string(), None);
}

#[test]
fn a_knob_leaves_the_voices_alone() {
    let mut eng = engine();
    load(&mut eng, section());
    on(&mut eng, 60);
    let _ = eng.take_acts();
    let before = eng.voices.clone();
    eng.process_command(ArchetCommand::SetParam { param: ArchetParam::BowForce, value: s(0.7) });
    assert!(eng.take_acts().is_empty());
    eng.process_command(ArchetCommand::SetParam { param: ArchetParam::Instrument, value: s(2.0) });
    assert_eq!(eng.take_acts(), vec![Act::Restring { body: 2 }]);
    assert_eq!(eng.symp_inst, 2);
    assert_eq!(eng.patch.instrument, Instrument::Cello);
    assert_eq!(eng.voices, before);
    eng.process_command(ArchetCommand::PitchBend(s(1.0)));
    assert_eq!(eng.voices, before);
}

#[test]
fn levels_and_polyphony_are_held_in_range() {
    let mut eng = engine();
    for (p, want) in [(0u8, 1u8), (1, 1), (32, 32), (33, 32), (255, 32)] {
        eng.process_command(ArchetCommand::SetPolyphony(p));
        assert_eq!(eng.patch.polyphony, want);
    }
    for (l, want) in [(-1.0f32, 0.0f32), (0.5, 0.5), (2.0, 2.0), (2.5, 2.0)] {
        eng.process_command(ArchetCommand::SetOutputLevel(s(l)));
        assert_eq!(eng.patch.output_level.bits, want.to_bits());
    }
    eng.process_command(ArchetCommand::SetOutputLevel(s(f32::NAN)));
    assert!(!eng.patch.output_level.is_number());
}

#[test]
fn a_rerated_engine_is_as_fresh() {
    let mut eng = engine();
    let p = ArchetPatch { seed_offset: 7, ..Default::default() };
    load(&mut eng, p.clone());
    on(&mut eng, 60);
    assert!(!eng.set_sample_rate(s(0.0009), 3360, 2880), "the same rate");
    assert_eq!(eng.held_keys, vec![60]);
    assert!(eng.set_sample_rate(s(48_000.0), 3360, 2880));
    let mut fresh = engine();
    load(&mut fresh, p);
    assert_eq!(eng.voices, fresh.voices);
    assert!(eng.held_keys.is_empty());
    assert_eq!((eng.onset_max, eng.release_max), (3360, 2880));
    // A patch of no desk leaves no desk's streams behind.
    load(&mut eng, ArchetPatch::default());
    assert!(eng.set_sample_rate(s(48_000.0), 1680, 1440));
    assert_eq!(eng.voices, engine().voices);
    assert_eq!(eng.applied_seed, 0);
}

#[test]
fn the_lowest_note_is_read_off_the_voices() {
    let mut eng = engine();
    load(&mut eng, ArchetPatch::violin());
    let mut hz = vec![s(220.0); MAX_VOICES];
    assert_eq!(eng.lowest(&hz), None);
    on(&mut eng, 60);
    on(&mut eng, 55);
    hz[0] = s(261.6);
    hz[1] = s(196.0);
    hz[2] = s(10.0);
    assert_eq!(eng.lowest(&hz), Some(s(196.0)), "a silent voice is not heard");
    hz[1] = s(f32::NAN);
    assert_eq!(eng.lowest(&hz), Some(s(261.6)));
    hz[0] = s(f32::INFINITY);
    assert_eq!(eng.lowest(&hz), None);
}

#[test]
fn a_reading_shows_the_engine_as_often_as_asked() {
    let mut eng = engine();
    load(&mut eng, section());
    on(&mut eng, 60);
    let mut m = Meter::new(1600);
    m.note_peak(s(-0.5), s(0.25));
    m.note_peak(s(0.25), s(f32::NAN));
    assert!(!m.publish_meter(&mut eng, 1599, 8, s(11.0)));
    assert!(eng.patch_dirty);
    assert!(m.publish_meter(&mut eng, 1, 8, s(11.0)));
    assert_eq!((m.shadow.peak_l, m.shadow.peak_r), (s(0.5), s(0.25)));
    assert_eq!(m.shadow.active_notes, vec![60]);
    assert_eq!(m.shadow.voice_count, 8);
    assert_eq!(m.shadow.patch_snapshot.as_ref().unwrap().polyphony, 4);
    assert!(!eng.patch_dirty);
    assert_eq!(m.peak_l, s(0.0));
    // An unchanged patch is kept, a changed one read again.
    eng.patch.polyphony = 6;
    assert!(m.publish_meter(&mut eng, 1600, 8, s(11.0)));
    assert_eq!(m.shadow.patch_snapshot.as_ref().unwrap().polyphony, 4);
    eng.process_command(ArchetCommand::SetPolyphony(5));
    assert!(m.publish_meter(&mut eng, 1600, 8, s(11.0)));
    assert_eq!(m.shadow.patch_snapshot.as_ref().unwrap().polyphony, 5);
}

#[test]
fn a_block_is_silent_only_when_nothing_sounds() {
    let mut eng = engine();
    let hz = vec![s(261.6); MAX_VOICES];
    assert_eq!(eng.process_audio(false, &hz), Block::Silent);
    load(&mut eng, section());
    let tail = Block::Sound { pool: 32, lit: 8, held: [false; 4], lowest: None };
    assert_eq!(eng.process_audio(true, &hz), tail, "the halo rings on");
    on(&mut eng, 60);
    let sound = Block::Sound { pool: 32, lit: 8, held: [false; 4], lowest: Some(s(261.6)) };
    assert_eq!(eng.process_audio(false, &hz), sound);
    assert_eq!(ArchetEngine::LATENCY, 32);
}

/// A soloist needs nothing to spread over.
#[test]
fn a_soloist_plays_at_any_rate() {
    let mut eng = ArchetEngine::new(0, 0);
    load(&mut eng, ArchetPatch::violin());
    on(&mut eng, 60);
    assert_eq!(lit(&eng, 60), 1);
    eng.process_command(ArchetCommand::NoteOff(60));
    assert_eq!(lit(&eng, 60), 0);
    assert!(eng.set_sample_rate(s(10.0), 0, 0));
}
