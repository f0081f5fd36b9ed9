use domers::color::PaletteEntry;
use domers::config::{
    add_adsr_binding, apply_spectrum_settings, is_false, level_driver_preset_kind,
    normalize_palette_slots, spectrum_settings, LevelDriverPresetKind, RigSettings,
    tempo_source_from_beat_input, ColorPaletteToml, MidiBindingAction, MidiBindingCommandKind,
    MidiInputConfig, TempoSource,
};

#[test]
fn beat_input_codes_name_tempo_sources() {
    assert_eq!(tempo_source_from_beat_input(Some(1)), TempoSource::Madmom);
    assert_eq!(tempo_source_from_beat_input(Some(2)), TempoSource::Link);
    assert_eq!(tempo_source_from_beat_input(Some(0)), TempoSource::Human);
    assert_eq!(tempo_source_from_beat_input(None), TempoSource::Human);
}

#[test]
fn default_midi_bindings_cover_flash_volume_and_tap() {
    let midi = MidiInputConfig::default();
    assert!(midi.bindings.iter().any(|b| b.action == MidiBindingAction::Flash && b.index == 64));
    assert!(midi
        .bindings
        .iter()
        .any(|b| b.action == MidiBindingAction::Volume && b.command_kind == MidiBindingCommandKind::ControlChange));
}

#[test]
fn adsr_binding_added_once() {
    let mut midi = MidiInputConfig::default();
    let before = midi.bindings.len();
    add_adsr_binding(&mut midi, Some(36));
    assert_eq!(midi.bindings.len(), before + 1);
    let last = midi.bindings[before];
    assert_eq!(last.action, MidiBindingAction::AdsrLevelDriver);
    assert_eq!(last.index, 36);
    assert_eq!(last.device_index, None);
    add_adsr_binding(&mut midi, Some(36));
    assert_eq!(midi.bindings.len(), before + 1);
    add_adsr_binding(&mut midi, None);
    assert_eq!(midi.bindings.len(), before + 1);
}

#[test]
fn palette_slots_are_padded_and_cut() {
    let short = normalize_palette_slots(vec![PaletteEntry::solid(5)]);
    assert_eq!(short.len(), 64);
    assert_eq!(short[0], PaletteEntry::solid(5));
    assert_eq!(short[1], PaletteEntry::solid(0));
    let long = normalize_palette_slots(vec![PaletteEntry::solid(7); 70]);
    assert_eq!(long.len(), 64);
}

#[test]
fn toml_palette_lays_out_named_banks() {
    let toml = ColorPaletteToml {
        colors: Vec::new(),
        entries: vec![
            ("red".to_string(), PaletteEntry::solid(0xff_00_00)),
            ("blue".to_string(), PaletteEntry::solid(0x00_00_ff)),
        ],
        banks: vec![vec!["blue".to_string(), "red".to_string(), "missing".to_string()]],
        slots: Vec::new(),
    };
    let palette = toml.into_color_palette();
    assert_eq!(palette.colors.len(), 64);
    assert_eq!(palette.colors[0], PaletteEntry::solid(0x00_00_ff));
    assert_eq!(palette.colors[1], PaletteEntry::solid(0xff_00_00));
    assert_eq!(palette.colors[2], PaletteEntry::solid(0));
}

#[test]
fn toml_palette_explicit_colors_win() {
    let toml = ColorPaletteToml {
        colors: vec![PaletteEntry::solid(9)],
        entries: vec![("red".to_string(), PaletteEntry::solid(0xff_00_00))],
        banks: vec![vec!["red".to_string()]],
        slots: Vec::new(),
    };
    assert_eq!(toml.into_color_palette().colors[0], PaletteEntry::solid(9));
}

#[test]
fn off_flags_are_skipped() {
    assert!(is_false(&false));
    assert!(!is_false(&true));
}

#[test]
fn reads_spectrum_settings() {
    let xml = "<SpectrumConfig>\
        <domeEnabled>true</domeEnabled>\
        <domeBeagleboneOPCAddress>10.0.0.5:7890</domeBeagleboneOPCAddress>\
        <domeActiveVis>3</domeActiveVis>\
        <barInfinityWidth>12</barInfinityWidth>\
        <barTestPattern>300</barTestPattern>\
        <stageSideLengths><Int32>5</Int32><Int32> 7 </Int32><Int32>x</Int32></stageSideLengths>\
        <beatInput>2</beatInput>\
        <audioDeviceID>{abc}</audioDeviceID>\
        <colorPaletteIndex>4</colorPaletteIndex>\
        </SpectrumConfig>";
    let settings = spectrum_settings(xml);
    assert_eq!(settings.dome_enabled, Some(true));
    assert_eq!(settings.dome_opc_address.as_deref(), Some("127.0.0.1:7890"));
    assert_eq!(settings.dome_active_visualizer, Some(3));
    assert_eq!(settings.bar_infinity_width, Some(12));
    assert_eq!(settings.bar_test_pattern, None);
    assert_eq!(settings.bar_enabled, None);
    assert_eq!(settings.stage_side_lengths, vec![5, 7]);
    assert_eq!(settings.tempo_source, TempoSource::Link);
    assert_eq!(settings.audio_device_id.as_deref(), Some("{abc}"));
    assert_eq!(settings.color_palette_index, Some(4));
    assert_eq!(settings.adsr_binding_index, None);
}

fn native_defaults() -> RigSettings {
    RigSettings {
        dome_enabled: false,
        dome_simulation_enabled: true,
        dome_opc_address: "127.0.0.1:7890".to_string(),
        dome_active_visualizer: 0,
        dome_test_pattern: 0,
        bar_enabled: false,
        bar_simulation_enabled: false,
        bar_infinity_width: 50,
        bar_infinity_length: 50,
        bar_runner_length: 50,
        bar_test_pattern: 0,
        stage_enabled: false,
        stage_simulation_enabled: false,
        stage_opc_address: "127.0.0.1:7890".to_string(),
        stage_side_lengths: Vec::new(),
        stage_test_pattern: 0,
        tempo_source: TempoSource::Human,
        human_link_output: false,
        madmom_link_output: false,
        audio_device_id: None,
        color_palette_index: 0,
    }
}

#[test]
fn import_fills_read_settings_over_defaults() {
    let xml = "<domeEnabled>true</domeEnabled><domeActiveVis>3</domeActiveVis>\
        <barEnabled>true</barEnabled><barInfinityWidth>12</barInfinityWidth>\
        <stageSideLengths><Int32>3</Int32><Int32>4</Int32></stageSideLengths>\
        <beatInput>2</beatInput><colorPaletteIndex>5</colorPaletteIndex>\
        <domeBeagleboneOPCAddress>10.0.0.2:7891:2</domeBeagleboneOPCAddress>";
    let rig = apply_spectrum_settings(spectrum_settings(xml), native_defaults());
    assert!(rig.dome_enabled);
    assert!(rig.dome_simulation_enabled);
    assert_eq!(rig.dome_opc_address, "127.0.0.1:7891:2");
    assert_eq!(rig.dome_active_visualizer, 3);
    assert!(rig.bar_enabled);
    assert!(rig.bar_simulation_enabled);
    assert_eq!(rig.bar_infinity_width, 12);
    assert_eq!(rig.bar_infinity_length, 50);
    assert!(!rig.stage_enabled);
    assert_eq!(rig.stage_side_lengths, vec![3, 4]);
    assert!(rig.stage_simulation_enabled);
    assert_eq!(rig.stage_opc_address, "127.0.0.1:7890");
    assert_eq!(rig.tempo_source, TempoSource::Link);
    assert_eq!(rig.color_palette_index, 5);
    assert_eq!(rig.audio_device_id, None);

    let empty = apply_spectrum_settings(spectrum_settings(""), native_defaults());
    assert!(!empty.bar_simulation_enabled);
    assert!(!empty.stage_simulation_enabled);
    assert!(empty.dome_simulation_enabled);
    assert_eq!(empty.bar_runner_length, 50);
}

#[test]
fn preset_kind_by_declared_type() {
    assert_eq!(
        level_driver_preset_kind(r#"<Value xsi:type="AudioLevelDriverPreset">"#),
        Some(LevelDriverPresetKind::Audio)
    );
    assert_eq!(
        level_driver_preset_kind(r#"<Value xsi:type="MidiLevelDriverPreset">"#),
        Some(LevelDriverPresetKind::Midi)
    );
    assert_eq!(level_driver_preset_kind("<Value>"), None);
}
