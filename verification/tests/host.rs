use archet::engine::ArchetCommand;
use archet::fx::{chain, chamber, ChainSpec, SpecValue, FX_SLOTS};
use archet::host::{
    build_init_patch, chain_for, command_for, init_sig, map_patch_to_nih_params, param_table, articulation_name, full_range_name, instrument_name, preset_from_text, preset_name_for, preset_names,
    preset_path, HostEvent, InitValues, Load, ParamValue, PresetState, CLAP_ID, INIT_SIG_LEN, NAME, VENDOR, VST3_CLASS_ID,
};
use archet::link::FxLink;
use archet::patch::{ArchetPatch, Instrument};
use archet::single::Single;
use archet::text::{same, same_ignoring_case, whole_number};

fn s(x: f32) -> Single {
    Single { bits: x.to_bits() }
}

fn pushed(mut spec: ChainSpec) -> ChainSpec {
    spec.slots[1].set("size", SpecValue::F(s(0.9)));
    spec
}

fn size(chain: &ChainSpec) -> Single {
    match chain.slots[1].get("size") {
        Some(SpecValue::F(v)) => *v,
        _ => panic!("the space has no size"),
    }
}

/// The editor edits the space, then picks the preset it is already on. The
/// host parameter does not move, so nothing but the link can put the chain
/// back; the audio thread must end on the preset's values.
#[test]
fn picking_the_current_preset_again_puts_its_chain_back() {
    let preset = chain(chamber());
    let mut link = FxLink::new(preset.clone());
    let mut audio_seen = link.rev();

    let editor_seen = link.publish(pushed(preset.clone()));
    let running = link.apply_if_new(&mut audio_seen, true).expect("the edit did not arrive").clone();
    assert_eq!(size(&running), s(0.9));
    assert_eq!(audio_seen, editor_seen);

    let _ = link.publish(preset.clone());
    let running = link.apply_if_new(&mut audio_seen, true).expect("the preset did not arrive").clone();
    assert_eq!(size(&running), chamber().size);
    assert_eq!(running.len(), FX_SLOTS);
}

/// A counter that did not move applies nothing.
#[test]
fn a_block_with_nothing_new_applies_nothing() {
    let mut link = FxLink::new(chain(chamber()));
    let mut seen = link.rev();
    assert!(link.apply_if_new(&mut seen, true).is_none());
    link.seed(ChainSpec::new(vec![]));
    assert!(link.apply_if_new(&mut seen, true).is_none(), "a seed moves no counter");
}

#[test]
fn a_block_that_finds_the_chain_taken_tries_the_next() {
    let mut link = FxLink::new(chain(chamber()));
    let mut seen = link.rev();
    let _ = link.publish(pushed(chain(chamber())));
    assert!(link.apply_if_new(&mut seen, false).is_none());
    assert_eq!(seen, 0);
    assert!(link.apply_if_new(&mut seen, true).is_some());
    let mut editor = 0;
    assert_eq!(size(&link.adopt(&mut editor).unwrap()), s(0.9));
    assert_eq!(link.adopt(&mut editor), None);
}

#[test]
fn the_four_identifiers_are_frozen() {
    assert_eq!(NAME, "Aethon Archet");
    assert_eq!(VENDOR, "Aethon Audio");
    assert_eq!(CLAP_ID, "com.aethon-audio.archet");
    assert_eq!(&VST3_CLASS_ID, b"VxArchetBow00001");
}

/// The `.vstpreset` writer must use the very same class id as the plugin, or
/// a generated bank is invisible to the host that scanned the plugin.
#[test]
fn the_vstpreset_writer_uses_the_plugins_class_id() {
    assert_eq!(b"VxArchetBow00001", &VST3_CLASS_ID);
}

fn defaults() -> InitValues {
    let f = |id: &str| match param_table().iter().find(|d| d.id == id).unwrap().default {
        ParamValue::F32(v) => v,
        _ => panic!("{id} is a count"),
    };
    let n = |id: &str| match param_table().iter().find(|d| d.id == id).unwrap().default {
        ParamValue::I32(v) => v,
        _ => panic!("{id} is a level"),
    };
    InitValues {
        output_level: f("output_level"),
        polyphony: n("polyphony"),
        instrument: n("instrument"),
        articulation: n("articulation"),
        full_range: n("full_range"),
        bow_pos: f("bow_pos"),
        bow_vel: f("bow_vel"),
        bow_force: f("bow_force"),
        bow_noise: f("bow_noise"),
        loss: f("loss"),
        bridge_hill: f("bridge_hill"),
        attack: f("attack"),
        release: f("release"),
        vel_sens: f("vel_sens"),
        vib_rate: f("vib_rate"),
        vib_depth: f("vib_depth"),
        vib_delay: f("vib_delay"),
        ensemble: f("ensemble"),
        tune_cents: f("tune_cents"),
    }
}

#[test]
fn init_is_the_default_patch_under_its_own_name() {
    let init = build_init_patch(&defaults());
    assert_eq!(init, ArchetPatch { name: "Init".to_string(), ..Default::default() });
}

#[test]
fn init_takes_what_the_parameters_say() {
    let p = build_init_patch(&InitValues {
        polyphony: 99,
        instrument: 3,
        articulation: 1,
        full_range: 7,
        bow_pos: s(0.2),
        tune_cents: s(-50.0),
        ..defaults()
    });
    assert_eq!((p.polyphony, p.instrument, p.pluck, p.auto_range), (48, Instrument::DoubleBass, true, true));
    assert_eq!((p.bow_pos, p.tune_cents), (s(0.2), s(-50.0)));
    let p = build_init_patch(&InitValues { polyphony: -3, instrument: 9, ..defaults() });
    assert_eq!((p.polyphony, p.instrument), (1, Instrument::Violin));
}

#[test]
fn the_parameters_are_declared_with_their_ranges() {
    let t = param_table();
    assert_eq!(t.len(), INIT_SIG_LEN);
    let d = |id: &str| t.iter().find(|d| d.id == id).unwrap();
    assert_eq!(d("bow_pos").min, ParamValue::F32(s(0.03)));
    assert_eq!(d("bow_pos").max, ParamValue::F32(s(0.20)));
    assert_eq!(d("bow_pos").digits, 3);
    assert_eq!(d("attack").min, ParamValue::F32(s(0.005)));
    assert!(d("attack").skewed && d("release").skewed && !d("vel_sens").skewed);
    assert_eq!(d("tune_cents").min, ParamValue::F32(s(-50.0)));
    assert_eq!(d("tune_cents").unit, " ct");
    assert_eq!(d("ensemble").max, ParamValue::F32(s(60.0)));
    assert_eq!(d("polyphony").max, ParamValue::I32(48));
}

#[test]
fn a_preset_file_holds_what_the_patch_says() {
    let bank = ArchetPatch::factory_presets();
    let m = map_patch_to_nih_params(&bank[17]);
    let ids: Vec<&str> = m.iter().map(|p| p.0).collect();
    let declared: Vec<&str> = param_table().iter().map(|d| d.id).collect();
    assert_eq!(ids, declared);
    assert_eq!(m[0].1, ParamValue::F32(s(1.4)));
    assert_eq!(m[1].1, ParamValue::I32(40));
    assert_eq!(m[4].1, ParamValue::I32(1));
    assert_eq!(m[17].1, ParamValue::F32(s(24.0)));
    let loud = ArchetPatch { output_level: s(3.0), ..Default::default() };
    assert_eq!(map_patch_to_nih_params(&loud)[0].1, ParamValue::F32(s(1.5)));
    assert_eq!(preset_path(&bank[0]), "Violin/Violin Solo");
    assert_eq!(preset_path(&bank[17]), "Ensemble/Cinematic Strings");
}

#[test]
fn a_preset_is_asked_for_by_name_or_by_number() {
    let names = preset_names(&ArchetPatch::factory_presets());
    assert_eq!(names.len(), 23);
    assert_eq!(preset_from_text(&names, "init"), Some(0));
    assert_eq!(preset_from_text(&names, "VIOLA solo"), Some(2));
    assert_eq!(preset_from_text(&names, "17"), Some(17));
    assert_eq!(preset_from_text(&names, "nonsense"), None);
    assert_eq!(preset_name_for(&names, 3), Some("Cello Solo".to_string()));
    assert_eq!(preset_name_for(&names, 23), None);
    assert_eq!(preset_name_for(&names, -1), None);
}

#[test]
fn a_number_is_read_as_the_library_of_the_language_reads_it() {
    for t in [
        "", "+", "-", "0", "-0", "+7", "007", "2147483647", "2147483648", "-2147483648", "-2147483649", " 1", "1 ", "1_0",
        "99999999999999999999999999", "-5", "4a", "\u{0663}", "--1",
    ] {
        assert_eq!(whole_number(t), t.parse::<i32>().ok(), "{t:?}");
    }
}

#[test]
fn names_are_alike_whatever_their_case() {
    for (a, b) in [("Init", "iNIT"), ("Init", "Inits"), ("", ""), ("\u{e9}", "\u{c9}"), ("[", "{"), ("@", "`"), ("Z", "z")] {
        assert_eq!(same_ignoring_case(a, b), a.eq_ignore_ascii_case(b), "{a} {b}");
        assert_eq!(same(a, b), a == b);
    }
}

#[test]
fn a_block_loads_only_what_moved() {
    let mut st = PresetState { last_preset: 1, init_pushed: false };
    let still = vec![s(0.0); INIT_SIG_LEN];
    let mut turned = still.clone();
    turned[7] = s(0.01);
    assert_eq!(st.block(1, 22, &still), Load::Nothing);
    assert_eq!(st.block(4, 22, &still), Load::Factory(3));
    assert_eq!(st.block(4, 22, &turned), Load::Nothing, "the parameters are not the preset's");
    assert_eq!(st.block(23, 22, &still), Load::Nothing, "past the bank");
    assert_eq!(st.block(0, 22, &still), Load::Init);
    assert_eq!(st.block(0, 22, &still), Load::Nothing);
    assert_eq!(st.block(0, 22, &vec![s(0.000001); INIT_SIG_LEN]), Load::Nothing);
    assert_eq!(st.block(0, 22, &turned), Load::Init);
    assert_eq!(st.block(2, 22, &still), Load::Factory(1));
    assert_eq!(st.block(0, 22, &still), Load::Init);
}

#[test]
fn a_choice_is_shown_by_name() {
    let names: Vec<&str> = (-1..5).map(instrument_name).collect();
    assert_eq!(names, vec!["?", "Violin", "Viola", "Cello", "Double Bass", "?"]);
    assert_eq!((articulation_name(0), articulation_name(1)), ("Bow", "Pluck"));
    assert_eq!((full_range_name(0), full_range_name(1)), ("Single", "Composite"));
}

#[test]
fn an_event_comes_to_its_command() {
    for (v, want) in [(0.0f32, 0u8), (0.5, 63), (1.0, 127), (0.999, 126), (-1.0, 0), (9.0, 255), (f32::NAN, 0)] {
        let velocity = s(v * 127.0);
        assert_eq!((v * 127.0) as u8, want);
        assert!(matches!(command_for(HostEvent::NoteOn { note: 60, velocity }), Some(ArchetCommand::NoteOn(60, w)) if w == want));
    }
    assert!(matches!(command_for(HostEvent::NoteOff { note: 61 }), Some(ArchetCommand::NoteOff(61))));
    assert!(matches!(command_for(HostEvent::PitchBend(s(-2.0))), Some(ArchetCommand::PitchBend(b)) if b == s(-2.0)));
    assert!(command_for(HostEvent::Other).is_none());
}

#[test]
fn a_preset_is_heard_through_its_own_chain_and_init_through_none() {
    let bank = ArchetPatch::factory_presets();
    assert_eq!(chain_for(Load::Factory(12), &bank), Some(bank[12].fx.clone()));
    assert_eq!(chain_for(Load::Init, &bank), Some(ChainSpec::new(vec![])));
    assert_eq!(chain_for(Load::Nothing, &bank), None);
}

#[test]
fn a_signature_holds_every_value_in_order() {
    let v = InitValues { polyphony: 48, instrument: 3, full_range: -2, tune_cents: s(-12.5), ..defaults() };
    let sig = init_sig(&v);
    assert_eq!(sig.len(), INIT_SIG_LEN);
    assert_eq!((sig[0], sig[1], sig[2], sig[4], sig[18]), (s(0.9), s(48.0), s(3.0), s(-2.0), s(-12.5)));
    for (i, d) in param_table().iter().enumerate() {
        let want = match d.default {
            ParamValue::F32(x) => x,
            ParamValue::I32(n) => s(n as f32),
        };
        assert_eq!(init_sig(&defaults())[i], want, "{}", d.id);
    }
}

/// Any count has a signature, rounded where it is too long for a number.
#[test]
fn a_long_count_is_rounded_in_the_signature() {
    let mut v = defaults();
    v.polyphony = 16_777_217;
    v.instrument = i32::MIN;
    assert_eq!(init_sig(&v)[1].bits, 16_777_216f32.to_bits());
    assert_eq!(init_sig(&v)[2].bits, (i32::MIN as f32).to_bits());
}
