use archet::controls::{bodies, body_controls, bow_controls, player_controls, section_controls};
use archet::editor::{ArchetApp, KeyEvent, COOLDOWN};
use archet::engine::ArchetCommand;
use archet::fx::{chain, chamber, room, SlotSpec, SpecValue};
use archet::fx_page::{band_id, edit, is_turned, SlotEdit, panel_for, picked, plain_cell, shown, toggle, Panel, Shown};
use archet::meter::ArchetMeterState;
use archet::patch::{ArchetParam, ArchetPatch, Instrument};
use archet::single::Single;

fn s(x: f32) -> Single {
    Single { bits: x.to_bits() }
}

fn f(x: Single) -> f32 {
    f32::from_bits(x.bits)
}

fn reading(patch: ArchetPatch) -> ArchetMeterState {
    ArchetMeterState {
        peak_l: s(0.58),
        peak_r: s(0.6),
        voice_count: 3,
        active_notes: vec![55, 62, 67],
        cpu_percent: s(11.0),
        patch_snapshot: Some(patch),
    }
}

/// The rail's order is the engine's order: a body chosen here is the body the
/// engine builds.
#[test]
fn the_rail_names_the_bodies_the_engine_has() {
    let mut app = ArchetApp::new();
    for (i, inst) in [Instrument::Violin, Instrument::Viola, Instrument::Cello, Instrument::DoubleBass]
        .into_iter()
        .enumerate()
    {
        app.set(ArchetParam::Instrument, s(i as f32));
        assert_eq!(app.patch.instrument, inst, "rail cell {i} is not {inst:?}");
        assert_eq!(app.body(), i, "the panel reads {inst:?} back at the wrong cell");
    }
    assert_eq!(bodies().len(), 4);
}

/// A knob writes the field it names, and sends the engine the same field.
#[test]
fn a_control_writes_the_field_it_names() {
    let mut app = ArchetApp::new();
    app.set(ArchetParam::BowForce, s(0.42));
    assert!((f(app.patch.bow_force) - 0.42).abs() < 1e-6);
    match app.take_outbox().first().expect("nothing was sent") {
        ArchetCommand::SetParam { param, value } => {
            assert_eq!(*param, ArchetParam::BowForce);
            assert!((f(*value) - 0.42).abs() < 1e-6);
        }
        other => panic!("a knob sent {other:?} instead of SetParam"),
    }
}

#[test]
fn the_editor_opens_on_the_first_preset() {
    let app = ArchetApp::new();
    assert_eq!(app.patch.name, ArchetPatch::factory_presets()[0].name);
}

#[test]
fn a_picked_preset_asks_for_the_parameter() {
    let mut app = ArchetApp::new();
    app.pick_preset(3);
    assert_eq!(app.patch.name, ArchetPatch::factory_presets()[3].name);
    assert_eq!(app.take_wants_preset(), Some(4), "the parameter counts from one");
    assert_eq!(app.take_wants_preset(), None, "the ask is taken once");
}

/// The editor adopts what the engine publishes, but not while a knob here has
/// just moved: a snapshot from before the move would undo it.
#[test]
fn the_editor_mirrors_the_engine_but_not_over_a_fresh_edit() {
    let mut app = ArchetApp::new();
    let engine_patch = ArchetPatch { name: "From the engine".to_string(), bow_force: s(0.77), ..Default::default() };
    app.set(ArchetParam::BowForce, s(0.1));
    app.refresh_meters(Some(reading(engine_patch)), true);
    assert_ne!(app.patch.name, "From the engine", "a fresh edit was overwritten");
    app.sync_cooldown = 0;
    app.refresh_meters(None, true);
    assert_eq!(app.patch.name, "From the engine");
    assert!((f(app.patch.bow_force) - 0.77).abs() < 1e-3);
}

/// The engine mirror must not carry the chain back.
#[test]
fn the_engine_mirror_does_not_erase_an_fx_edit() {
    let mut app = ArchetApp::new();
    let engine_patch = ArchetPatch::default();
    assert_eq!(engine_patch.fx.slots[1].variant("type"), Some("hall"));
    app.set_fx(ArchetPatch::default().fx);
    let mut edited = app.fx().clone();
    edited.slots[1].set("type", SpecValue::S("cathedral".to_string()));
    app.edit_fx(edited);
    assert!(app.take_fx_changed());
    app.sync_cooldown = 0;
    app.refresh_meters(Some(reading(engine_patch)), true);
    assert_eq!(app.patch.fx.slots[1].variant("type"), Some("cathedral"), "the mirror put the preset's space back");
}

/// A clicked pill turns the page; the page opens on the instrument.
#[test]
fn the_editor_opens_on_the_instrument_page() {
    let mut app = ArchetApp::new();
    assert_eq!(app.tab, 0);
    app.turn_to(1);
    assert_eq!(app.tab, 1);
}

#[test]
fn an_edit_stands_for_as_long_as_the_cooldown() {
    let mut app = ArchetApp::new();
    app.set(ArchetParam::BowForce, s(0.1));
    assert_eq!(app.sync_cooldown, COOLDOWN);
    let other = ArchetPatch { name: "From the engine".to_string(), ..Default::default() };
    app.refresh_meters(Some(reading(other)), true);
    for _ in 1..COOLDOWN {
        app.refresh_meters(None, true);
    }
    assert_eq!(app.patch.name, "Violin Solo");
    app.refresh_meters(None, false);
    assert_eq!(app.patch.name, "Violin Solo", "nothing is adopted where it is not allowed");
    app.refresh_meters(None, true);
    assert_eq!(app.patch.name, "From the engine");
    assert_eq!(app.cached_meter.active_notes, vec![55, 62, 67]);
    assert_eq!(app.take_moved(), vec![(ArchetParam::BowForce, s(0.1))]);
    assert!(app.take_moved().is_empty());
}

/// A picked preset and a restored patch hold the mirror off as a knob does,
/// and no longer.
#[test]
fn a_picked_or_restored_patch_stands_for_the_cooldown() {
    let restored = || ArchetPatch { name: "Restored".to_string(), ..Default::default() };
    for (name, restore) in [(ArchetPatch::factory_presets()[2].name.clone(), false), ("Restored".to_string(), true)] {
        let mut app = ArchetApp::new();
        if restore {
            app.set_patch(restored());
        } else {
            app.pick_preset(2);
        }
        let chain = app.fx().clone();
        let other = ArchetPatch { name: "From the engine".to_string(), ..Default::default() };
        app.refresh_meters(Some(reading(other)), true);
        for _ in 1..COOLDOWN {
            app.refresh_meters(None, true);
        }
        assert_eq!(app.patch.name, name);
        app.refresh_meters(None, true);
        assert_eq!(app.patch.name, "From the engine");
        assert_eq!(*app.fx(), chain, "the chain is never brought back");
    }
}

#[test]
fn picking_past_the_bank_does_nothing() {
    let mut app = ArchetApp::new();
    app.pick_preset(22);
    assert_eq!(app.patch.name, "Violin Solo");
    assert_eq!(app.take_wants_preset(), None);
    assert!(app.take_outbox().is_empty());
}

#[test]
fn a_bow_that_is_dragged_moves_what_moved() {
    let mut app = ArchetApp::new();
    app.drag_bow(s(0.2), s(0.05), s(1.1), s(0.0));
    assert_eq!(f(app.patch.bow_pos), 0.2);
    assert_eq!(app.take_moved(), vec![(ArchetParam::BowPos, s(0.2))]);
    app.drag_bow(s(0.2), s(0.0), s(1.1), s(0.1));
    assert_eq!(app.take_moved(), vec![(ArchetParam::BowForce, s(1.1))]);
}

#[test]
fn keys_are_sent_as_commands() {
    let mut app = ArchetApp::new();
    app.key(KeyEvent::On { note: 60, velocity: 90 });
    app.key(KeyEvent::Off { note: 60 });
    app.key(KeyEvent::PitchBend(s(0.5)));
    app.key(KeyEvent::ModWheel(s(0.5)));
    let sent = app.take_outbox();
    assert!(matches!(sent[0], ArchetCommand::NoteOn(60, 90)));
    assert!(matches!(sent[1], ArchetCommand::NoteOff(60)));
    assert!(matches!(sent[2], ArchetCommand::PitchBend(v) if v == s(0.5)));
    assert_eq!(sent.len(), 3, "the wheel is not the engine's");
}

#[test]
fn the_rail_follows_the_name() {
    let mut app = ArchetApp::new();
    app.patch.name = "Bass Section".to_string();
    app.follow_name();
    assert_eq!(app.current_idx, 15);
    app.patch.name = "Nobody's".to_string();
    app.follow_name();
    assert_eq!(app.current_idx, 15);
}

#[test]
fn no_two_knobs_turn_one_field() {
    let mut all: Vec<_> = bow_controls();
    all.extend(body_controls());
    all.extend(player_controls());
    all.extend(section_controls());
    for (i, a) in all.iter().enumerate() {
        for b in all.iter().skip(i + 1) {
            assert_ne!(a.param, b.param, "{} and {}", a.label, b.label);
        }
        assert!(a.lo.lt(a.hi), "{} has no travel", a.label);
    }
}

#[test]
fn a_page_draws_a_panel_for_each_kind() {
    assert_eq!(panel_for("parametric-eq"), Panel::Equaliser);
    assert_eq!(panel_for("reverb"), Panel::Space);
    assert_eq!(panel_for("stereo-imager"), Panel::Width);
    assert_eq!(panel_for("delay"), Panel::Plain);
    for slot in chain(chamber()).slots {
        assert_ne!(panel_for(&slot.kind), Panel::Plain, "{} has no panel of its own", slot.kind);
    }
}

#[test]
fn a_value_is_shown_as_written_or_by_default() {
    let slot = SlotSpec::new("reverb").with("size", SpecValue::F(s(0.35)));
    assert!(matches!(shown(&slot, "size", true), Shown::Written(SpecValue::F(v)) if *v == s(0.35)));
    assert!(matches!(shown(&slot, "decay", true), Shown::Default));
    assert!(matches!(shown(&slot, "size", false), Shown::Still));
}

#[test]
fn a_slot_is_switched_and_its_cells_are_placed() {
    let mut slot = chain(room()).slots[0].clone();
    toggle(&mut slot);
    assert!(!slot.enabled);
    toggle(&mut slot);
    assert!(slot.enabled);
    assert_eq!(band_id(0, "freq"), "band.0.freq");
    assert_eq!(band_id(3, "gain"), "band.3.gain");
    assert_eq!([plain_cell(0), plain_cell(3), plain_cell(4), plain_cell(9)], [(0, 0), (3, 0), (0, 1), (1, 2)]);
    assert_eq!(picked(&vec![false, true, true]), Some(2));
    assert_eq!(picked(&vec![false, false]), None);
}

/// Which effects run and in what order is not editable, and the page says it
/// moved something only where it did.
#[test]
fn the_page_edits_inside_a_slot_only() {
    let say = |id: &str, v: SpecValue| SlotEdit::Say { id: id.to_string(), value: v };
    let first = chain(chamber());
    let mut c = chain(chamber());
    let size = c.slots[1].get("size").unwrap().clone();
    assert!(!edit(&mut c, 1, say("size", size)), "the same value again is no edit");
    assert!(!edit(&mut c, 3, SlotEdit::Switch), "there is no such slot");
    assert_eq!(c, first);
    assert!(edit(&mut c, 1, say("size", SpecValue::F(s(0.9)))));
    assert_eq!(c.slots[1].get("size"), Some(&SpecValue::F(s(0.9))));
    assert!(edit(&mut c, 1, SlotEdit::Mix(s(0.5))));
    assert!(!edit(&mut c, 1, SlotEdit::Mix(s(0.5))));
    assert_eq!(c.slots[1].mix, Some(s(0.5)));
    assert!(edit(&mut c, 2, SlotEdit::Switch));
    assert_eq!(c.slots[2].enabled, !first.slots[2].enabled);
    assert_eq!(c.slots[0], first.slots[0]);
    assert_eq!(c.kinds(), first.kinds());
    let mut none = archet::fx::ChainSpec::new(vec![]);
    assert!(!edit(&mut none, 0, SlotEdit::Switch));
    assert!(none.is_empty());
}

#[test]
fn a_knob_is_turned_past_a_millionth() {
    assert!(!is_turned(s(1e-6)) && !is_turned(s(0.0)) && !is_turned(s(f32::NAN)));
    assert!(is_turned(s(1.1e-6)));
}
