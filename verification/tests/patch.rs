use archet::friction::FrictionMode;
use archet::fx::{chain, chamber, concert, hall, room, space_for, SpecValue, FX_SLOTS};
use archet::patch::{def_one, def_poly, plucking_spot, ArchetParam, ArchetPatch, FrictionKind, Instrument};
use archet::single::Single;

fn s(x: f32) -> Single {
    Single { bits: x.to_bits() }
}

fn f(x: Single) -> f32 {
    f32::from_bits(x.bits)
}

#[test]
fn factory_preset_names_are_unique() {
    let bank = ArchetPatch::factory_presets();
    assert!(bank.len() >= 16, "bank too small: {}", bank.len());
    let mut seen = std::collections::HashSet::new();
    for p in &bank {
        assert!(!p.name.trim().is_empty(), "empty preset name");
        assert!(seen.insert(p.name.clone()), "duplicate preset name: {}", p.name);
    }
}

#[test]
fn the_order_and_the_kinds_are_frozen() {
    let spec = chain(chamber());
    assert_eq!(spec.kinds(), ["parametric-eq", "reverb", "stereo-imager"]);
    assert_eq!(spec.len(), FX_SLOTS);
    assert!(spec.slots.iter().all(|s| s.enabled));
}

#[test]
fn every_factory_preset_carries_its_own_chain() {
    for p in ArchetPatch::factory_presets() {
        assert_eq!(p.fx.len(), FX_SLOTS, "{} carries no chain", p.name);
        let kind = match p.fx.slots[1].get("type") {
            Some(SpecValue::S(v)) => v.as_str(),
            _ => "",
        };
        let want = space_for(&p).kind;
        assert_eq!(kind, want, "{} is heard in the wrong space", p.name);
    }
}

#[test]
fn the_default_patch_is_a_soloist_in_a_chamber() {
    assert_eq!(ArchetPatch::default().fx, chain(chamber()));
}

#[test]
fn the_default_patch_holds_the_published_figures() {
    let p = ArchetPatch::default();
    assert_eq!(p.name, "Violin");
    assert_eq!(p.instrument, Instrument::Violin);
    assert_eq!((p.auto_range, p.pluck, p.polyphony, p.seed_offset), (false, false, 8, 0));
    assert_eq!(p.friction, FrictionKind::Static);
    let got = [
        p.bow_pos, p.bow_vel, p.bow_force, p.loss, p.slope, p.tor_ratio, p.tor_couple, p.tor_inject,
        p.bridge_hill_db, p.bow_noise, p.attack, p.release, p.vib_rate, p.vib_depth, p.vib_delay,
        p.output_level, p.vel_sens, p.tune_cents, p.ensemble,
    ];
    let want = [
        0.13f32, 0.18, 1.0, 0.30, 3.0, 5.0, 0.10, 0.10, 9.0, 0.13, 0.04, 0.12, 5.8, 14.0, 0.25, 0.9, 0.3, 0.0, 0.0,
    ];
    for (g, w) in got.iter().zip(want.iter()) {
        assert_eq!(g.bits, w.to_bits(), "{} is not {w}", f(*g));
    }
}

#[test]
fn the_bank_holds_its_presets_in_order() {
    let bank = ArchetPatch::factory_presets();
    let names: Vec<&str> = bank.iter().map(|p| p.preset_name()).collect();
    assert_eq!(
        names,
        [
            "Violin Solo", "Viola Solo", "Cello Solo", "Double Bass Solo", "Romantic Violin", "Baroque Violin",
            "Violin Sul Tasto", "Violin Sul Ponticello", "Lyrical Cello", "Cello Ponticello", "Violin Section",
            "Violin Section Small", "Violin Section Large", "Viola Section", "Cello Section", "Bass Section",
            "Full String Ensemble", "Cinematic Strings", "Violin Pizzicato", "Cello Pizzicato", "Bass Pizzicato",
            "Pizzicato Section",
        ]
    );
    for p in &bank {
        assert_eq!(p.output_level.bits, 1.4f32.to_bits(), "{}", p.name);
    }
    let ponticello = &bank[7];
    assert_eq!(f(ponticello.bow_pos), 0.045);
    assert_eq!(f(ponticello.bow_force), 1.4);
    assert_eq!(f(ponticello.bow_noise), 0.22);
    let cinematic = &bank[17];
    assert_eq!((f(cinematic.ensemble), cinematic.polyphony, cinematic.auto_range), (24.0, 40, true));
    assert_eq!(f(cinematic.bridge_hill_db), 10.0);
    let bass = &bank[20];
    assert_eq!(bass.instrument, Instrument::DoubleBass);
    assert_eq!((f(bass.loss), f(bass.vib_rate), f(bass.vib_depth)), (0.22, 4.4, 0.0));
    let section = &bank[10];
    assert_eq!((f(section.ensemble), section.polyphony), (14.0, 24));
    assert_eq!((f(section.attack), f(section.release), f(section.vib_depth)), (0.06, 0.16, 16.0));
}

#[test]
fn a_picker_sorts_the_bank_by_what_it_plays() {
    let bank = ArchetPatch::factory_presets();
    let of = |n: &str| bank.iter().find(|p| p.name == n).unwrap().preset_category().unwrap().to_string();
    assert_eq!(of("Violin Solo"), "Violin");
    assert_eq!(of("Viola Section"), "Viola");
    assert_eq!(of("Lyrical Cello"), "Cello");
    assert_eq!(of("Bass Section"), "Double Bass");
    assert_eq!(of("Cinematic Strings"), "Ensemble");
    assert_eq!(of("Pizzicato Section"), "Ensemble");
    assert_eq!(of("Cello Pizzicato"), "Plucked");
}

#[test]
fn each_space_fits_what_is_played() {
    let mut p = ArchetPatch::violin();
    assert_eq!(space_for(&p).width, chamber().width);
    p.ensemble = s(1.5);
    assert_eq!(space_for(&p).mix, hall().mix);
    p.ensemble = s(1.4999999);
    assert_eq!(space_for(&p).mix, chamber().mix);
    p.auto_range = true;
    assert_eq!(space_for(&p).mix, concert().mix);
    p.pluck = true;
    assert_eq!(space_for(&p).kind, room().kind);
    assert_eq!(f(chamber().predelay), 0.012);
    assert_eq!(f(hall().size), 0.55);
    assert_eq!(f(concert().width), 1.3);
    assert_eq!(f(room().damping), 0.60);
}

#[test]
fn a_slot_is_written_only_where_it_moves() {
    let mut slot = chain(chamber()).slots[1].clone();
    assert!(!slot.write("size", SpecValue::F(s(0.30))), "writing the same value is not an edit");
    assert!(slot.write("size", SpecValue::F(s(0.5))));
    assert_eq!(slot.get("size"), Some(&SpecValue::F(s(0.5))));
    assert!(slot.write("type", SpecValue::S("cathedral".to_string())));
    assert_eq!(slot.variant("type"), Some("cathedral"));
    assert_eq!(slot.variant("size"), None);
    assert_eq!(slot.get("tilt"), None);
    assert!(slot.write("tilt", SpecValue::B(true)));
    assert_eq!(slot.get("tilt"), Some(&SpecValue::B(true)));
    assert_eq!(slot.get("decay"), Some(&SpecValue::F(s(0.35))), "another value was disturbed");
    assert_eq!(slot.mix, Some(s(0.18)));
    assert!(slot.write("size", SpecValue::F(s(-0.0))));
    assert!(!slot.write("size", SpecValue::F(s(0.0))), "the two zeros are one number");
}

#[test]
fn an_index_names_its_instrument() {
    for i in 0..4 {
        assert_eq!(Instrument::from_index(i).to_index(), i);
        assert_eq!(Instrument::from_index(i).body_index(), i);
    }
    assert_eq!(Instrument::from_index(4), Instrument::DoubleBass);
    assert_eq!(Instrument::from_index(usize::MAX), Instrument::DoubleBass);
    assert_eq!(f(Instrument::Violin.body_scale()), 1.0);
    assert_eq!(f(Instrument::Viola.body_scale()), 0.82);
    assert_eq!(f(Instrument::Cello.body_scale()), 0.50);
    assert_eq!(f(Instrument::DoubleBass.body_scale()), 0.33);
}

#[test]
fn a_field_travels_as_a_number() {
    let mut p = ArchetPatch::violin();
    ArchetParam::Friction.apply(&mut p, s(0.5));
    assert_eq!(p.friction, FrictionKind::ElastoPlastic);
    ArchetParam::Friction.apply(&mut p, s(0.49999997));
    assert_eq!(p.friction, FrictionKind::Static);
    ArchetParam::Friction.apply(&mut p, s(f32::NAN));
    assert_eq!(p.friction, FrictionKind::Static);
    ArchetParam::Instrument.apply(&mut p, s(2.9));
    assert_eq!(p.instrument, Instrument::Cello);
    ArchetParam::Instrument.apply(&mut p, s(-1.0));
    assert_eq!(p.instrument, Instrument::Violin);
    ArchetParam::Instrument.apply(&mut p, s(99.0));
    assert_eq!(p.instrument, Instrument::DoubleBass);
    ArchetParam::AutoRange.apply(&mut p, s(1.0));
    assert!(p.auto_range);
    ArchetParam::Pluck.apply(&mut p, s(1.0));
    assert!(p.pluck);
    ArchetParam::TuneCents.apply(&mut p, s(-12.5));
    assert_eq!(f(p.tune_cents), -12.5);
    assert_eq!(f(ArchetParam::Instrument.value(&p)), 3.0);
    assert_eq!(f(ArchetParam::Pluck.value(&p)), 1.0);
    assert_eq!(f(ArchetParam::TuneCents.value(&p)), -12.5);
}

#[test]
fn only_the_body_choice_restrings() {
    for p in [ArchetParam::Instrument, ArchetParam::AutoRange] {
        assert!(p.needs_symp_rebuild());
    }
    for p in [
        ArchetParam::BowPos,
        ArchetParam::Friction,
        ArchetParam::Ensemble,
        ArchetParam::TuneCents,
        ArchetParam::Pluck,
    ] {
        assert!(!p.needs_symp_rebuild());
    }
}

#[test]
fn two_controls_commute_and_the_last_turn_stands() {
    let mut a = ArchetPatch::violin();
    let mut b = ArchetPatch::violin();
    ArchetParam::BowPos.apply(&mut a, s(0.11));
    ArchetParam::Instrument.apply(&mut a, s(2.0));
    ArchetParam::Instrument.apply(&mut b, s(2.0));
    ArchetParam::BowPos.apply(&mut b, s(0.05));
    ArchetParam::BowPos.apply(&mut b, s(0.11));
    assert_eq!(a, b);
    assert_eq!((a.polyphony, a.seed_offset), (ArchetPatch::violin().polyphony, ArchetPatch::violin().seed_offset));
}

/// No two neighbours of a measured curve read alike.
#[test]
fn the_measured_curves_rise() {
    for body in 0..4 {
        for string in 0..4 {
            let curve = archet::strings::measured_pizz_t60(body, string);
            assert!(!curve.is_empty());
            for w in curve.windows(2) {
                assert!(f(w[0].0) < f(w[1].0));
            }
        }
    }
}

#[test]
fn a_kind_asks_for_its_mode() {
    assert_eq!(FrictionMode::from(FrictionKind::Static), FrictionMode::Static);
    assert_eq!(FrictionMode::from(FrictionKind::ElastoPlastic), FrictionMode::ElastoPlastic);
    assert_eq!(def_poly(), 8);
    assert_eq!(f(def_one()), 1.0);
}

/// The plucked presets are plucked where a finger plucks, and no bowed one is
/// bowed there.
#[test]
fn the_plucked_presets_carry_the_plucking_spot() {
    assert_eq!(plucking_spot(), s(0.185));
    let mut plucked = vec![];
    for p in ArchetPatch::factory_presets() {
        if p.pluck {
            assert_eq!(f(p.bow_pos), 0.185, "{}", p.name);
            plucked.push(p.name);
        } else {
            assert_ne!(f(p.bow_pos), 0.185, "{}", p.name);
        }
    }
    assert_eq!(plucked, vec!["Violin Pizzicato", "Cello Pizzicato", "Bass Pizzicato", "Pizzicato Section"]);
}
