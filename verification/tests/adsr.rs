use domers::adsr::{
    adsr_action_label, adsr_binding_action, envelope_stage, level_reading, AdsrBindingAction,
    EnvelopeStage, LevelReading, LEVEL_DRIVER_IDLE_MS,
};

#[test]
fn envelope_goes_attack_decay_sustain() {
    // attack 100 ms, decay 200 ms, pressed at 1000.
    assert_eq!(envelope_stage(1000, 100, 200, 1000), EnvelopeStage::Attack { elapsed: 0 });
    assert_eq!(envelope_stage(1000, 100, 200, 1099), EnvelopeStage::Attack { elapsed: 99 });
    assert_eq!(envelope_stage(1000, 100, 200, 1100), EnvelopeStage::Decay { elapsed: 0 });
    assert_eq!(envelope_stage(1000, 100, 200, 1300), EnvelopeStage::Decay { elapsed: 200 });
    assert_eq!(envelope_stage(1000, 100, 200, 1301), EnvelopeStage::Sustain);
    // Before the press the clock reads zero elapsed.
    assert_eq!(envelope_stage(1000, 100, 200, 500), EnvelopeStage::Attack { elapsed: 0 });
    // No attack and no decay: straight to sustain.
    assert_eq!(envelope_stage(1000, 0, 0, 1000), EnvelopeStage::Sustain);
    assert_eq!(envelope_stage(1000, 0, 50, 1020), EnvelopeStage::Decay { elapsed: 20 });
}

#[test]
fn release_fades_then_goes_silent_then_idle() {
    let read = |now| level_reading(0, Some(1000), 100, 200, 400, 1000, now);
    assert_eq!(read(900), LevelReading::Held { stage: EnvelopeStage::Sustain });
    assert_eq!(
        read(1000),
        LevelReading::Releasing { at_release: EnvelopeStage::Sustain, remaining: 400 }
    );
    assert_eq!(
        read(1300),
        LevelReading::Releasing { at_release: EnvelopeStage::Sustain, remaining: 100 }
    );
    assert_eq!(read(1401), LevelReading::Silent);
    assert_eq!(read(1000 + LEVEL_DRIVER_IDLE_MS), LevelReading::Silent);
    assert_eq!(read(1001 + LEVEL_DRIVER_IDLE_MS), LevelReading::Idle);
    // Released during the attack: the fade starts from the attack.
    assert_eq!(
        level_reading(0, Some(50), 100, 200, 400, 50, 60),
        LevelReading::Releasing { at_release: EnvelopeStage::Attack { elapsed: 50 }, remaining: 390 }
    );
    // A zero release time ends at once.
    assert_eq!(level_reading(0, Some(50), 100, 200, 0, 50, 50), LevelReading::Silent);
    // Still held.
    assert_eq!(
        level_reading(0, None, 100, 200, 400, 0, 150),
        LevelReading::Held { stage: EnvelopeStage::Decay { elapsed: 50 } }
    );
}

#[test]
fn adsr_binding_picks_channel_from_note_offset() {
    let assigned = [true, false, true, true, true, true, true, true];
    assert_eq!(adsr_binding_action(36, 38, &assigned, false), AdsrBindingAction::Press(2));
    assert_eq!(adsr_binding_action(36, 38, &assigned, true), AdsrBindingAction::Release(2));
    assert_eq!(adsr_binding_action(36, 37, &assigned, false), AdsrBindingAction::Unassigned(1));
    assert_eq!(adsr_binding_action(36, 44, &assigned, false), AdsrBindingAction::OutOfRange);
    // Below the range the offset saturates to channel 0.
    assert_eq!(adsr_binding_action(36, 20, &assigned, false), AdsrBindingAction::Press(0));
}

#[test]
fn adsr_labels() {
    assert_eq!(adsr_action_label(AdsrBindingAction::OutOfRange), "adsr:out_of_range");
    assert_eq!(adsr_action_label(AdsrBindingAction::Unassigned(1)), "adsr:1:unassigned");
    assert_eq!(adsr_action_label(AdsrBindingAction::Release(2)), "adsr:2:release");
    assert_eq!(adsr_action_label(AdsrBindingAction::Press(7)), "adsr:7:press");
}
