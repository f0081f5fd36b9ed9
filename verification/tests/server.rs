use domers::color::{ColorPalette, PaletteEntry};
use domers::outputs::{BarCommand, DomeCommand, StageCommand};
use domers::config::TempoSource;
use domers::server::{
    configure_input_adapters, configure_live_adapter, record_input_adapter_error, InputAdapter,
    InputAdapterStatus, InputAdapters,
    LiveInputConfig,
    active_dome_visualizer_inputs, active_dome_visualizer_name, apply_diagnostic_patch,
    apply_dome_patch, apply_palette_patch, diagnostic_state, dome_pixel_count, DomeSelection, stage_pixel_count,
    DOME_CONTROL_BOX_PIXEL_COUNT, diagnostic_step, dome_diagnostic_name, health,
    scheduled_renderer, serialize_bar_commands, serialize_commands, serialize_stage_commands,
    visualizer_from_index, BarSimulatorCommand, DiagnosticConfigPatch, DiagnosticControls,
    PaletteEntryPatch, ScheduledRenderer, SimulatorCommand, StageSimulatorCommand,
};
use domers::visualizers::{
    BarDiagnosticVisualizer, DomeDiagnosticVisualizer, LiveVisualizer, StageVisualizer,
};
use domers::color::Rgb;

#[test]
fn health_is_ok() {
    assert_eq!(health(), "ok");
}

#[test]
fn diagnostic_patch_caps_patterns() {
    let mut controls = DiagnosticControls::default();
    apply_diagnostic_patch(
        &mut controls,
        DiagnosticConfigPatch {
            dome_test_pattern: Some(9),
            bar_test_pattern: Some(1),
            stage_test_pattern: None,
        },
    );
    assert_eq!(controls.dome_test_pattern, 4);
    assert_eq!(controls.bar_test_pattern, 1);
    assert_eq!(controls.stage_test_pattern, 0);
}

#[test]
fn palette_patch_writes_active_bank_slot() {
    let mut palette = ColorPalette::default();
    apply_palette_patch(
        &mut palette,
        2,
        PaletteEntryPatch {
            color_palette_index: None,
            relative_index: 3,
            color1: 0x11_22_33,
            color2: Some(0x44_55_66),
            color2_enabled: Some(true),
        },
    );
    assert_eq!(palette.colors.len(), 64);
    assert_eq!(palette.colors[19], PaletteEntry::gradient(0x11_22_33, 0x44_55_66));
    assert_eq!(palette.colors[0], PaletteEntry::solid(0x00_ff_00));
}

#[test]
fn palette_patch_grows_short_palette_and_caps_indices() {
    let mut palette = ColorPalette { colors: Vec::new() };
    apply_palette_patch(
        &mut palette,
        0,
        PaletteEntryPatch {
            color_palette_index: Some(12),
            relative_index: 9,
            color1: 0xab_cd_ef,
            color2: None,
            color2_enabled: None,
        },
    );
    assert_eq!(palette.colors.len(), 64);
    assert_eq!(palette.colors[63], PaletteEntry::solid(0xab_cd_ef));
    assert_eq!(palette.colors[10], PaletteEntry::solid(0));
}

#[test]
fn serializes_dome_commands_with_packed_colors() {
    let out = serialize_commands(vec![
        DomeCommand::Pixel {
            strut_index: 3,
            led_index: 4,
            color: Rgb::from_u24(0x01_02_03),
        },
        DomeCommand::Flush,
    ]);
    assert_eq!(out.len(), 2);
    assert_eq!(
        out[0],
        SimulatorCommand::Pixel {
            strut_index: 3,
            led_index: 4,
            color: 0x01_02_03
        }
    );
    assert_eq!(out[1], SimulatorCommand::Flush);
}

#[test]
fn diagnostic_timing() {
    assert_eq!(diagnostic_state(0), 0);
    assert_eq!(diagnostic_state(20), 1);
    assert_eq!(diagnostic_state(65), 0);
    assert_eq!(diagnostic_step(9), 2);
}

#[test]
fn operator_index_selects_visualizer_and_name() {
    assert_eq!(visualizer_from_index(8), LiveVisualizer::TvStatic);
    assert_eq!(active_dome_visualizer_name(8), "LEDDomeTVStaticVisualizer");
    assert_eq!(visualizer_from_index(42), LiveVisualizer::Volume);
    assert_eq!(active_dome_visualizer_name(0), "LEDDomeVolumeVisualizer");
    assert_eq!(active_dome_visualizer_inputs(6), vec!["audio", "orientation"]);
    assert_eq!(active_dome_visualizer_inputs(4), vec!["orientation"]);
    assert_eq!(active_dome_visualizer_inputs(1), vec!["audio"]);
}

#[test]
fn test_patterns_name_dome_diagnostics() {
    assert_eq!(dome_diagnostic_name(2), Some("LEDDomeStrutIterationDiagnosticVisualizer"));
    assert_eq!(dome_diagnostic_name(0), None);
    assert_eq!(dome_diagnostic_name(5), None);
}

#[test]
fn scheduled_names_select_renderers() {
    assert_eq!(
        scheduled_renderer("LEDDomeFlashVisualizer"),
        Some(ScheduledRenderer::Dome(LiveVisualizer::Flash))
    );
    assert_eq!(
        scheduled_renderer("LEDDomeStrandTestDiagnosticVisualizer"),
        Some(ScheduledRenderer::DomeDiagnostic(DomeDiagnosticVisualizer::StrandTest))
    );
    assert_eq!(
        scheduled_renderer("LEDBarFlashColorsDiagnosticVisualizer"),
        Some(ScheduledRenderer::BarDiagnostic(BarDiagnosticVisualizer::FlashColors))
    );
    assert_eq!(
        scheduled_renderer("LEDStageDepthLevelVisualizer"),
        Some(ScheduledRenderer::Stage(StageVisualizer::DepthLevel))
    );
    assert_eq!(scheduled_renderer("volume"), None);
}

#[test]
fn every_operator_index_name_renders_its_visualizer() {
    for index in 0..=10u8 {
        assert_eq!(
            scheduled_renderer(active_dome_visualizer_name(index)),
            Some(ScheduledRenderer::Dome(visualizer_from_index(index)))
        );
    }
}

#[test]
fn serializes_bar_and_stage_commands() {
    let bar = serialize_bar_commands(vec![
        BarCommand::Pixel {
            is_runner: true,
            led_index: 9,
            color: Rgb::from_u24(0xaa_bb_cc),
        },
        BarCommand::Flush,
    ]);
    assert_eq!(
        bar,
        vec![
            BarSimulatorCommand::Pixel {
                is_runner: true,
                led_index: 9,
                color: 0xaa_bb_cc
            },
            BarSimulatorCommand::Flush
        ]
    );
    let stage = serialize_stage_commands(vec![StageCommand::Pixel {
        side_index: 2,
        led_index: 3,
        layer_index: 1,
        color: Rgb::from_u24(0x00_00_01),
    }]);
    assert_eq!(
        stage,
        vec![StageSimulatorCommand::Pixel {
            side_index: 2,
            led_index: 3,
            layer_index: 1,
            color: 1
        }]
    );
}

#[test]
fn every_test_pattern_renders_a_dome_diagnostic() {
    for pattern in 1..=4u8 {
        let name = dome_diagnostic_name(pattern).expect("pattern names a diagnostic");
        assert!(matches!(
            scheduled_renderer(name),
            Some(ScheduledRenderer::DomeDiagnostic(_))
        ));
    }
}

#[test]
fn serializes_whole_frames() {
    let out = serialize_commands(vec![DomeCommand::Frame(vec![
        Rgb::from_u24(0x01_02_03),
        Rgb::from_u24(0xff_ff_ff),
    ])]);
    assert_eq!(
        out,
        vec![SimulatorCommand::Frame {
            colors: vec![0x01_02_03, 0xff_ff_ff]
        }]
    );
}

#[test]
fn dome_frame_covers_five_or_six_control_boxes() {
    assert_eq!(dome_pixel_count(false), 5 * 1712);
    assert_eq!(dome_pixel_count(true), 6 * 1712);
    assert_eq!(DOME_CONTROL_BOX_PIXEL_COUNT, 1712);
}

#[test]
fn stage_frame_fits_the_largest_triangle() {
    assert_eq!(stage_pixel_count(&[]), 0);
    assert_eq!(stage_pixel_count(&[10, 20, 30, 1, 2, 3]), 60 * 48);
    assert_eq!(stage_pixel_count(&[1, 2, 3, 40, 50]), 90 * 48);
    assert_eq!(stage_pixel_count(&[7]), 7 * 48);
}

#[test]
fn dome_patch_sets_visualizer_and_caps_palette() {
    let mut selection = DomeSelection { active_visualizer: 2, color_palette_index: 3 };
    apply_dome_patch(&mut selection, Some(8), Some(12));
    assert_eq!(selection, DomeSelection { active_visualizer: 8, color_palette_index: 7 });
    apply_dome_patch(&mut selection, None, Some(5));
    assert_eq!(selection, DomeSelection { active_visualizer: 8, color_palette_index: 5 });
    apply_dome_patch(&mut selection, None, None);
    assert_eq!(selection, DomeSelection { active_visualizer: 8, color_palette_index: 5 });
}

#[test]
fn input_adapters_follow_config() {
    let mut adapters = InputAdapters::default();
    adapters.audio.events = 4;
    let audio = LiveInputConfig {
        bind: Some("0.0.0.0:5005".to_string()),
        native_enabled: false,
        device_id: None,
    };
    let midi = LiveInputConfig {
        bind: None,
        native_enabled: true,
        device_id: Some("launchpad".to_string()),
    };
    configure_input_adapters(
        &mut adapters,
        &audio,
        &midi,
        &None,
        TempoSource::Madmom,
        "python3 beat.py",
        "carabiner",
    );
    assert!(adapters.audio.enabled);
    assert_eq!(adapters.audio.target.as_deref(), Some("0.0.0.0:5005"));
    assert_eq!(adapters.audio.events, 4);
    assert!(adapters.midi.enabled);
    assert_eq!(adapters.midi.target.as_deref(), Some("native:launchpad"));
    assert!(!adapters.orientation.enabled);
    assert_eq!(adapters.orientation.target, None);
    assert!(adapters.madmom.enabled);
    assert_eq!(adapters.madmom.target.as_deref(), Some("python3 beat.py"));
    assert!(!adapters.link.enabled);
    assert_eq!(adapters.link.target, None);

    let audio = LiveInputConfig { bind: None, native_enabled: true, device_id: None };
    let midi = LiveInputConfig { bind: None, native_enabled: false, device_id: None };
    configure_input_adapters(
        &mut adapters,
        &audio,
        &midi,
        &Some("0.0.0.0:9000".to_string()),
        TempoSource::Link,
        "python3 beat.py",
        "carabiner",
    );
    assert_eq!(adapters.audio.target.as_deref(), Some("native audio"));
    assert!(!adapters.midi.enabled);
    assert_eq!(adapters.midi.target, None);
    assert!(adapters.orientation.enabled);
    assert_eq!(adapters.orientation.target.as_deref(), Some("0.0.0.0:9000"));
    assert!(!adapters.madmom.enabled);
    assert_eq!(adapters.link.target.as_deref(), Some("carabiner"));

    let mut status = InputAdapterStatus::default();
    configure_live_adapter(&mut status, &None, true, &None, "native MIDI");
    assert_eq!(status.target.as_deref(), Some("native MIDI"));
}

#[test]
fn adapter_error_marks_only_that_adapter() {
    let mut adapters = InputAdapters::default();
    record_input_adapter_error(&mut adapters, InputAdapter::Link, "malformed Link tempo line".to_string());
    assert!(adapters.link.enabled);
    assert_eq!(adapters.link.last_error.as_deref(), Some("malformed Link tempo line"));
    assert!(!adapters.audio.enabled);
    assert_eq!(adapters.audio.last_error, None);
    assert_eq!(adapters.madmom.last_error, None);
}
