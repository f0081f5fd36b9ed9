use domers::config::{MidiBindingAction, MidiBindingCommandKind, MidiBindingConfig};
use domers::midi::{
    midi_binding_matches, midi_kind_matches, midi_message_fields, parse_midi_fields,
    MidiCommandKind, MidiMessage, MidiReplay,
};

#[test]
fn parses_live_midi_payload_fields() {
    let note = parse_midi_fields("note,64,1.0").expect("note payload");
    assert_eq!(note.kind, MidiCommandKind::Note);
    assert_eq!(note.index, 64);
    assert_eq!(note.value_text, "1.0");

    let cc = parse_midi_fields(" cc , 1 , 0.5 ").expect("cc payload");
    assert_eq!(cc.kind, MidiCommandKind::ControlChange);
    assert_eq!(cc.index, 1);
    assert_eq!(cc.value_text, "0.5");

    let program = parse_midi_fields("control_change,+7,x").expect("long kind name");
    assert_eq!(program.kind, MidiCommandKind::ControlChange);
    assert_eq!(program.index, 7);
    assert_eq!(program.value_text, "x");
}

#[test]
fn rejects_bad_midi_payload_fields() {
    assert!(parse_midi_fields("bad,1,1").is_none());
    assert!(parse_midi_fields("note,256,1").is_none());
    assert!(parse_midi_fields("note,1").is_none());
    assert!(parse_midi_fields("note,1,1,1").is_none());
    assert!(parse_midi_fields("").is_none());
    assert!(parse_midi_fields("program,-1,1").is_none());
}

#[test]
fn decodes_raw_midi_messages() {
    assert_eq!(
        midi_message_fields(&[0x90, 60, 127]),
        Some(MidiMessage { kind: MidiCommandKind::Note, index: 60, level: 127 })
    );
    assert_eq!(
        midi_message_fields(&[0x83, 60]),
        Some(MidiMessage { kind: MidiCommandKind::Note, index: 60, level: 0 })
    );
    assert_eq!(
        midi_message_fields(&[0xb1, 7, 200]),
        Some(MidiMessage { kind: MidiCommandKind::ControlChange, index: 7, level: 127 })
    );
    assert_eq!(
        midi_message_fields(&[0xc0, 3]),
        Some(MidiMessage { kind: MidiCommandKind::Program, index: 3, level: 127 })
    );
    assert_eq!(midi_message_fields(&[0x90, 60]), None);
    assert_eq!(midi_message_fields(&[0xe0, 1, 2]), None);
    assert_eq!(midi_message_fields(&[0x90]), None);
}

fn binding(action: MidiBindingAction, kind: MidiBindingCommandKind, index: u8, device: Option<u8>) -> MidiBindingConfig {
    MidiBindingConfig {
        device_index: device,
        command_kind: kind,
        index,
        action,
        target_index: None,
    }
}

#[test]
fn bindings_match_kind_index_and_device() {
    let flash = binding(MidiBindingAction::Flash, MidiBindingCommandKind::Note, 64, None);
    assert!(midi_binding_matches(&flash, MidiCommandKind::Note, 64, 3));
    assert!(!midi_binding_matches(&flash, MidiCommandKind::ControlChange, 64, 3));
    assert!(!midi_binding_matches(&flash, MidiCommandKind::Note, 65, 3));

    let device_bound = binding(MidiBindingAction::Volume, MidiBindingCommandKind::ControlChange, 1, Some(2));
    assert!(midi_binding_matches(&device_bound, MidiCommandKind::ControlChange, 1, 2));
    assert!(!midi_binding_matches(&device_bound, MidiCommandKind::ControlChange, 1, 0));
}

#[test]
fn adsr_bindings_span_eight_notes() {
    let adsr = binding(MidiBindingAction::AdsrLevelDriver, MidiBindingCommandKind::Note, 36, None);
    assert!(midi_binding_matches(&adsr, MidiCommandKind::Note, 36, 0));
    assert!(midi_binding_matches(&adsr, MidiCommandKind::Note, 43, 0));
    assert!(!midi_binding_matches(&adsr, MidiCommandKind::Note, 44, 0));
    assert!(!midi_binding_matches(&adsr, MidiCommandKind::Note, 35, 0));
    let high = binding(MidiBindingAction::AdsrLevelDriver, MidiBindingCommandKind::Note, 250, None);
    assert!(midi_binding_matches(&high, MidiCommandKind::Note, 254, 0));
    assert!(!midi_binding_matches(&high, MidiCommandKind::Note, 255, 0));
    let cc_adsr = binding(MidiBindingAction::AdsrLevelDriver, MidiBindingCommandKind::ControlChange, 36, None);
    assert!(!midi_binding_matches(&cc_adsr, MidiCommandKind::ControlChange, 36, 0));
}

#[test]
fn kinds_match_only_themselves() {
    assert!(midi_kind_matches(MidiBindingCommandKind::Program, MidiCommandKind::Program));
    assert!(!midi_kind_matches(MidiBindingCommandKind::Program, MidiCommandKind::Note));
}

#[test]
fn drains_midi_commands_once() {
    let command = MidiMessage {
        kind: MidiCommandKind::Note,
        index: 64,
        level: 127,
    };
    let mut replay = MidiReplay::new(vec![command]);

    assert_eq!(replay.commands_since_last_tick(), vec![command]);
    assert!(replay.commands_since_last_tick().is_empty());
}
