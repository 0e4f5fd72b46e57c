use archet::block::{frame_spots, frames_of, Spots};
use archet::body::{bank_seed, spec_for};
use archet::double::Double;
use archet::fader::{Fader, LOOKAHEAD};
use archet::fingerprint;
use archet::friction::{adhesion, grip, Adhesion, FrictionMode, Grip};
use archet::modal::{contact, mode_count, slip_draw, touches, Contact};
use archet::noise::Noise;
use archet::ring::Ring;
use archet::section::{power_of_two_for, tap_draws, SectionDiffuser};
use archet::single::Single;
use archet::string::{BowedWaveguide, MAX_DELAY};
use archet::sympathetic::{Drive, SympStrings};

fn s(x: f32) -> Single {
    Single { bits: x.to_bits() }
}

fn f(x: Single) -> f32 {
    f32::from_bits(x.bits)
}

fn d(x: f64) -> Double {
    Double { bits: x.to_bits() }
}

/// How fast the held peak falls, in dB per second.
const RETURN_DB_PER_S: f32 = 6.0;

/// One sample of a fader at this rate: the products are taken here, as a
/// player takes them.
fn gain(fader: &mut Fader, sr: f32, peak: f32) -> f32 {
    let fall = 10.0f32.powf(-RETURN_DB_PER_S / 20.0 / sr);
    let slope = 1.0 - (-4.0 / LOOKAHEAD as f32).exp();
    let fallen = f(fader.held) * fall;
    fader.follow(s(peak), s(fallen));
    let target = if fader.is_over() { 1.0 / f(fader.held) } else { 1.0 };
    let g = f(fader.gain);
    fader.move_to(s(target), s(g + (target - g) * slope));
    f(fader.gain)
}

#[test]
fn the_gain_comes_back_at_a_walking_pace() {
    let sr = 48_000.0f32;
    let mut fader = Fader::new();
    fader.hold_for((2.0 * sr / 41.2).ceil() as usize);
    let hold = fader.hold;
    let mut g = gain(&mut fader, sr, 4.0);
    for _ in 0..hold {
        g = gain(&mut fader, sr, 0.0);
    }
    assert!((g - 0.25).abs() < 1e-2, "the slope did not reach the target within the hold: {g}");
    for _ in 0..(sr as usize) {
        gain(&mut fader, sr, 0.0);
    }
    let g = gain(&mut fader, sr, 0.0);
    assert!((20.0 * (g / 0.25).log10() - RETURN_DB_PER_S).abs() < 0.05, "gain {g}");
}

#[test]
fn under_full_scale_the_gain_is_one() {
    let mut fader = Fader::new();
    fader.hold_for(10);
    for p in [0.1, 0.9, 1.0, 0.3, 0.0, 0.99] {
        assert_eq!(gain(&mut fader, 48_000.0, p), 1.0);
    }
}

#[test]
fn a_peak_is_held_for_exactly_the_hold() {
    let mut fader = Fader::new();
    fader.hold_for(3);
    fader.follow(s(2.0), s(0.0));
    for left in [2usize, 1, 0] {
        fader.follow(s(1.0), s(1.9));
        assert_eq!((fader.held, fader.hold_left), (s(2.0), left));
    }
    fader.follow(s(1.0), s(1.9));
    assert_eq!((fader.held, fader.hold_left), (s(1.9), 0));
    fader.follow(s(f32::NAN), s(1.8));
    assert_eq!(fader.held, s(1.8), "what is no number is no peak");
}

#[test]
fn the_output_runs_behind_the_gain() {
    let mut fader = Fader::new();
    for i in 0..LOOKAHEAD {
        assert_eq!(fader.run(s(i as f32 + 1.0), s(-1.0)), (s(0.0), s(0.0)));
    }
    assert_eq!(fader.run(s(9.0), s(9.0)), (s(1.0), s(-1.0)));
}

#[test]
fn what_goes_into_a_line_comes_back() {
    let mut r: Ring<u8> = Ring::new(5, 0);
    for i in 1..=12u8 {
        let out = r.write(i);
        assert_eq!(out, i.saturating_sub(5));
    }
    assert_eq!((r.len(), r.pos()), (5, 2));
    assert_eq!(r.behind(1), 12);
    assert_eq!(r.behind(5), 8);
    assert_eq!(r.pair(2), (11, 10));
    assert_eq!(r.slot(1), 12);
    assert_eq!(r.slot(2), 8);
    r.prime(&vec![7, 8, 9], 1);
    assert_eq!([r.behind(1), r.behind(2), r.behind(3), r.behind(4), r.behind(5)], [9, 8, 7, 1, 1]);
    assert_eq!(r.pos(), 3);
    r.prime(&vec![1, 2, 3, 4, 5], 0);
    assert_eq!((r.pos(), r.behind(1)), (0, 5));
}

#[test]
fn a_section_line_is_a_power_of_two() {
    for (n, want) in [(1usize, 1usize), (2, 2), (3, 4), (8, 8), (9, 16), (2888, 4096)] {
        assert_eq!(power_of_two_for(n), want);
    }
    let mut x = SectionDiffuser::new(2880);
    assert_eq!(x.line.len(), 4096);
    x.push(s(0.5));
    x.push(s(0.25));
    x.push(s(0.125));
    assert_eq!(x.tap(1), (s(0.25), s(0.5)));
    x.reset();
    assert_eq!(x.tap(1), (s(0.0), s(0.0)));
    assert!(SectionDiffuser::bypassed(s(0.00009)) && !SectionDiffuser::bypassed(s(0.0001)));
}

#[test]
fn the_copies_draw_in_turn() {
    let mut x: u32 = 0x2545_F491;
    let draws = tap_draws();
    assert_eq!(draws.len(), 48);
    for got in draws {
        x ^= x << 13;
        x ^= x >> 17;
        x ^= x << 5;
        assert_eq!(got, x);
    }
}

#[test]
fn a_string_starts_full_of_its_shape() {
    let mut w = BowedWaveguide::new();
    let shape: Vec<Single> = (1..=6).map(|i| s(i as f32)).collect();
    w.note_on(&shape, &shape, &vec![s(0.5)]);
    let r = w.read(1, 6, 1, 1);
    assert_eq!(r[0], (s(6.0), s(5.0)));
    assert_eq!(r[1], (s(1.0), s(0.0)));
    assert_eq!(r[2], (s(0.0), s(0.0)));
    assert_eq!(r[3], (s(0.5), s(0.0)));
    w.write(s(10.0), s(11.0), s(12.0), s(13.0));
    let r = w.read(1, 1, 1, 1);
    assert_eq!([r[0].0, r[1].0, r[2].0, r[3].0], [s(10.0), s(11.0), s(12.0), s(13.0)]);
    w.reset();
    assert_eq!(w.read(1, 2, 3, MAX_DELAY - 1), [(s(0.0), s(0.0)); 4]);
}

#[test]
fn the_strings_that_sound_do_not_ring_along() {
    let mut y = SympStrings::new(2);
    let hz: Vec<f32> = y.strings.iter().map(|o| f(o.hz)).collect();
    assert_eq!(hz, vec![65.41, 98.0, 146.83, 220.0]);
    y.set_held([true, false, false, true]);
    assert_eq!(
        [y.drive(0), y.drive(1), y.drive(2), y.drive(3)],
        [Drive::Damped, Drive::Free, Drive::Free, Drive::Damped]
    );
    assert!(!y.active());
    y.energy = s(0.00002);
    assert!(y.active());
    y.energy = s(0.00001);
    assert!(!y.active());
    assert_eq!(f(SympStrings::new(7).strings[3].hz), 659.25, "any other body is a violin");
    assert_eq!(f(SympStrings::new(0).strings[0].t60), 5.51);
}

#[test]
fn a_bow_sticks_slips_or_is_off() {
    assert_eq!(contact(s(0.0), d(0.0), d(1.0), d(1.0), d(-1.0)), Contact::Free);
    assert_eq!(contact(s(f32::NAN), d(0.0), d(1.0), d(1.0), d(-1.0)), Contact::Free);
    assert_eq!(contact(s(1.0), d(1.0), d(1.0), d(1.0), d(-1.0)), Contact::Stick);
    assert_eq!(contact(s(1.0), d(1.1), d(1.0), d(1.0), d(-1.0)), Contact::Slip);
    assert_eq!(contact(s(1.0), d(1.1), d(1.0), d(-0.1), d(-1.0)), Contact::Stick);
    assert_eq!(contact(s(1.0), d(1.1), d(1.0), d(1.0), d(0.1)), Contact::Stick);
    let mut n = Noise::new(4);
    assert_eq!(slip_draw(Contact::Stick, s(0.1), &mut n), None);
    assert_eq!(slip_draw(Contact::Slip, s(0.0), &mut n), None);
    assert_eq!(n.state, 5);
    assert_eq!(slip_draw(Contact::Slip, s(0.1), &mut n), Some(n.state));
    assert!(touches(true, d(-0.2), d(-0.1)) && !touches(false, d(-0.2), d(-0.1)) && !touches(true, d(-0.1), d(-0.1)));
}

#[test]
fn a_note_has_its_share_of_modes() {
    assert_eq!([mode_count(50, 70), mode_count(70, 50), mode_count(200, 100)], [50, 50, 90]);
    assert_eq!([mode_count(2, 100), mode_count(100, 0), mode_count(4, 4)], [4, 4, 4]);
}

#[test]
fn a_light_bow_does_not_grip() {
    assert_eq!(grip(FrictionMode::Static, s(0.00099)), Grip::Lifted);
    assert_eq!(grip(FrictionMode::Static, s(0.001)), Grip::Table);
    assert_eq!(grip(FrictionMode::ElastoPlastic, s(0.5)), Grip::Bristles);
    assert_eq!(adhesion(true, s(0.5)), Adhesion::Stick);
    assert_eq!(adhesion(true, s(0.75)), Adhesion::Blend);
    assert_eq!(adhesion(true, s(1.0)), Adhesion::Slip);
    assert_eq!(adhesion(false, s(5.0)), Adhesion::Stick);
}

#[test]
fn each_body_is_laid_out_as_measured() {
    let v = spec_for(0);
    assert_eq!((v.sig.len(), v.bank_from, v.hill_f, v.lp_f), (9, 1320, 2800, 4200));
    assert_eq!((spec_for(1).sig.len(), spec_for(2).sig.len(), spec_for(3).sig.len()), (10, 12, 9));
    for i in 0..4 {
        let b = spec_for(i);
        for w in b.sig.windows(2) {
            assert!(w[0].0 < w[1].0);
        }
        assert!(b.bank_from < b.bank_to);
    }
    assert_eq!(spec_for(8).bank_from, 1320);
    assert_eq!(bank_seed(0, s(0.0)), 0x9E37_79B9u32 ^ 2654435761);
    assert_ne!(bank_seed(0, s(0.01)), bank_seed(0, s(0.011)));
}

#[test]
fn a_fingerprint_pins_the_sound() {
    let x: Vec<f32> = (0..2500).map(|i| (i as f32 * 0.05).sin() * 0.5).collect();
    let samples: Vec<Single> = x.iter().map(|&v| s(v)).collect();
    let levels: Vec<i64> = vec![-18, -18, -17];
    let mut h: u64 = 0xcbf2_9ce4_8422_2325;
    for (b, level) in x.chunks(1024).zip(&levels) {
        let crossings = b.windows(2).filter(|w| (w[0] < 0.0) != (w[1] < 0.0)).count() as u64;
        for v in [*level as u64, crossings] {
            for byte in v.to_le_bytes() {
                h ^= byte as u64;
                h = h.wrapping_mul(0x0000_0100_0000_01b3);
            }
        }
    }
    assert_eq!(fingerprint::of(&samples, &levels), h);
    assert_eq!(fingerprint::of(&vec![], &vec![]), 0xcbf2_9ce4_8422_2325);
    assert_eq!(fingerprint::zero_crossings(&vec![s(1.0), s(-1.0), s(-0.0), s(2.0)], 0, 4), 2);
    assert_eq!(fingerprint::zero_crossings(&samples, 7, 1), 0);
}

#[test]
fn a_buffer_holds_whole_frames() {
    assert_eq!([frames_of(512, 2), frames_of(7, 2), frames_of(7, 1), frames_of(7, 8)], [256, 3, 7, 0]);
    assert_eq!(frames_of(7, 0), 7);
    assert_eq!(frame_spots(512, 2, 255), Spots::Stereo(510, 511));
    assert_eq!(frame_spots(12, 6, 1), Spots::Stereo(6, 7));
    assert_eq!(frame_spots(12, 1, 11), Spots::Mono(11));
    assert_eq!(frame_spots(12, 0, 11), Spots::Nowhere);
}

/// The gain never boosts, and never cuts below what brings the highest peak
/// to full scale.
#[test]
fn the_gain_stays_between_its_target_and_one() {
    let mut fader = Fader::new();
    fader.hold_for(20);
    let mut most = 1.0f32;
    for k in 0..4000 {
        let peak = ((k * 37) % 101) as f32 / 40.0;
        most = most.max(peak);
        let g = gain(&mut fader, 48_000.0, peak);
        assert!(g <= 1.0 && g >= 1.0 / most - 1e-6, "{g} after {k}");
        assert!(f(fader.held) <= most);
    }
}
