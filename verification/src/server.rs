//! Operator-facing state: status records, simulator command streams,
//! runtime patches and the mapping from operator indices to visualizers.
use vstd::prelude::*;

use crate::beat::{beat_reported, tapped, BeatBroadcaster};
use crate::config::TempoSource;
use crate::color::{pack_rgb, solid_entry, ColorPalette, PaletteEntry};
use crate::outputs::{BarCommand, DomeCommand, StageCommand};
use crate::scan::same_chars;
use crate::scheduler::{names_at, scheduled_names, top_priority, VisualizerSpec};
use crate::text::chars_of;
use crate::visualizers::{
    BarDiagnosticVisualizer, DomeDiagnosticVisualizer, LiveVisualizer, StageVisualizer,
};

verus! {

/// Health status returned by the API.
pub fn health() -> (r: &'static str)
    ensures
        r@ == "ok"@,
{
    "ok"
}

/// Runtime metrics exposed by the server contract.
#[derive(Clone, Copy, Debug, Default, PartialEq, Eq, Structural)]
pub struct Metrics {
    /// Operator frames produced.
    pub frames: u64,
    /// Simulator frames produced.
    pub simulator_frames: u64,
}

/// Diagnostic/test-pattern controls.
#[derive(Clone, Copy, Debug, Default, PartialEq, Eq, Structural)]
pub struct DiagnosticControls {
    /// Active dome diagnostic pattern.
    pub dome_test_pattern: u8,
    /// Active bar diagnostic pattern.
    pub bar_test_pattern: u8,
    /// Active stage diagnostic pattern.
    pub stage_test_pattern: u8,
}

/// Live input adapter status.
#[derive(Clone, Debug, Default)]
pub struct InputAdapterStatus {
    /// Whether this adapter is configured.
    pub enabled: bool,
    /// Bind address or command used by the adapter.
    pub target: Option<String>,
    /// Number of accepted events from this adapter.
    pub events: u64,
    /// Last lifecycle or parse error.
    pub last_error: Option<String>,
}

/// The characters of an optional string.
pub open spec fn opt_chars(o: Option<String>) -> Option<Seq<char>> {
    match o {
        Some(s) => Some(s@),
        None => None,
    }
}

/// The prefix of a native device target.
pub open spec fn native_prefix() -> Seq<char> {
    seq!['n', 'a', 't', 'i', 'v', 'e', ':']
}

/// The target a live input reports: with native capture enabled,
/// `native:` and the selected device, or the native input's name when none
/// is selected; otherwise its UDP bind address, if any.
pub open spec fn live_target(
    bind: Option<Seq<char>>,
    native_enabled: bool,
    device_id: Option<Seq<char>>,
    native_name: Seq<char>,
) -> Option<Seq<char>> {
    if native_enabled {
        Some(
            match device_id {
                Some(d) => native_prefix() + d,
                None => native_name,
            },
        )
    } else {
        bind
    }
}

fn clone_opt(o: &Option<String>) -> (r: Option<String>)
    ensures
        opt_chars(r) == opt_chars(*o),
{
    match o {
        Some(s) => Some(s.clone()),
        None => None,
    }
}

/// Configure a live input's status from where it listens: enabled when it
/// has a bind address or native capture; its target as `live_target`
/// says. Its event count and last error stay.
pub fn configure_live_adapter(
    status: &mut InputAdapterStatus,
    bind: &Option<String>,
    native_enabled: bool,
    device_id: &Option<String>,
    native_name: &str,
)
    ensures
        final(status).enabled == (bind is Some || native_enabled),
        opt_chars(final(status).target) == live_target(
            opt_chars(*bind),
            native_enabled,
            opt_chars(*device_id),
            native_name@,
        ),
        final(status).events == old(status).events,
        final(status).last_error == old(status).last_error,
{
    status.enabled = bind.is_some() || native_enabled;
    status.target = if native_enabled {
        match device_id {
            Some(d) => {
                let mut t = "native:".to_owned();
                proof {
                    reveal_strlit("native:");
                }
                assert(t@ == native_prefix());
                t.append(d.as_str());
                Some(t)
            },
            None => Some(native_name.to_owned()),
        }
    } else {
        clone_opt(bind)
    };
}

/// Configure a sidecar's status: enabled when the tempo comes from it, its
/// command as the target then, else no target. Its event count and last
/// error stay.
pub fn configure_sidecar_adapter(status: &mut InputAdapterStatus, enabled: bool, command: &str)
    ensures
        final(status).enabled == enabled,
        opt_chars(final(status).target) == if enabled {
            Some(command@)
        } else {
            None
        },
        final(status).events == old(status).events,
        final(status).last_error == old(status).last_error,
{
    status.enabled = enabled;
    status.target = if enabled {
        Some(command.to_owned())
    } else {
        None
    };
}

/// Statuses of the live inputs and sidecars.
#[derive(Clone, Debug, Default)]
pub struct InputAdapters {
    /// Audio volume input.
    pub audio: InputAdapterStatus,
    /// MIDI input.
    pub midi: InputAdapterStatus,
    /// Orientation datagram input.
    pub orientation: InputAdapterStatus,
    /// Beat-tracker sidecar.
    pub madmom: InputAdapterStatus,
    /// Link tempo sidecar.
    pub link: InputAdapterStatus,
}

/// One of the inputs whose status is reported.
#[derive(Clone, Copy, Debug, PartialEq, Eq, Structural)]
pub enum InputAdapter {
    /// Audio volume input.
    Audio,
    /// MIDI input.
    Midi,
    /// Orientation datagram input.
    Orientation,
    /// Beat-tracker sidecar.
    Madmom,
    /// Link tempo sidecar.
    Link,
}

/// An adapter's status after an error: enabled, with the error as its
/// last one.
pub open spec fn with_error(s: InputAdapterStatus, error: String) -> InputAdapterStatus {
    InputAdapterStatus { enabled: true, last_error: Some(error), ..s }
}

/// Record an error of one adapter: it counts as enabled and the error is
/// its last one; the other adapters stay as they were.
pub fn record_input_adapter_error(adapters: &mut InputAdapters, adapter: InputAdapter, error: String)
    ensures
        final(adapters).audio == if adapter == InputAdapter::Audio {
            with_error(old(adapters).audio, error)
        } else {
            old(adapters).audio
        },
        final(adapters).midi == if adapter == InputAdapter::Midi {
            with_error(old(adapters).midi, error)
        } else {
            old(adapters).midi
        },
        final(adapters).orientation == if adapter == InputAdapter::Orientation {
            with_error(old(adapters).orientation, error)
        } else {
            old(adapters).orientation
        },
        final(adapters).madmom == if adapter == InputAdapter::Madmom {
            with_error(old(adapters).madmom, error)
        } else {
            old(adapters).madmom
        },
        final(adapters).link == if adapter == InputAdapter::Link {
            with_error(old(adapters).link, error)
        } else {
            old(adapters).link
        },
{
    match adapter {
        InputAdapter::Audio => {
            adapters.audio.enabled = true;
            adapters.audio.last_error = Some(error);
        },
        InputAdapter::Midi => {
            adapters.midi.enabled = true;
            adapters.midi.last_error = Some(error);
        },
        InputAdapter::Orientation => {
            adapters.orientation.enabled = true;
            adapters.orientation.last_error = Some(error);
        },
        InputAdapter::Madmom => {
            adapters.madmom.enabled = true;
            adapters.madmom.last_error = Some(error);
        },
        InputAdapter::Link => {
            adapters.link.enabled = true;
            adapters.link.last_error = Some(error);
        },
    }
}

/// An adapter status with nothing configured or recorded.
pub open spec fn idle_status(s: InputAdapterStatus) -> bool {
    &&& !s.enabled
    &&& s.target is None
    &&& s.events == 0
    &&& s.last_error is None
}

fn idle_adapter() -> (r: InputAdapterStatus)
    ensures
        idle_status(r),
{
    InputAdapterStatus { enabled: false, target: None, events: 0, last_error: None }
}

/// `n` more, saturating.
pub open spec fn plus_saturating(x: u64, n: u64) -> u64 {
    if x + n > u64::MAX {
        u64::MAX
    } else {
        (x + n) as u64
    }
}

/// An adapter's status after it accepted `n` events: counted, and no error.
pub open spec fn accepted(s: InputAdapterStatus, n: u64) -> InputAdapterStatus {
    InputAdapterStatus { events: plus_saturating(s.events, n), last_error: None, ..s }
}

/// The live tempo and input counters: the beat state, how many taps,
/// Madmom beats and MIDI commands came in, and each adapter's status.
pub struct InputRuntime {
    /// Tap, Madmom and Link tempo state.
    pub beat: BeatBroadcaster,
    /// Taps since the last reset.
    pub taps: u64,
    /// Madmom beats since the last reset.
    pub madmom_beats: u64,
    /// MIDI commands received.
    pub midi_commands: u64,
    /// Adapter statuses.
    pub adapters: InputAdapters,
}

impl InputRuntime {
    /// The beat state is well formed.
    pub open spec fn wf(&self) -> bool {
        self.beat.wf()
    }

    /// Nothing received yet.
    pub fn new() -> (r: InputRuntime)
        ensures
            r.wf(),
            r.beat.taps() == Seq::<u64>::empty(),
            r.beat.madmom() == Seq::<u64>::empty(),
            r.beat.clock() is None,
            r.taps == 0,
            r.madmom_beats == 0,
            r.midi_commands == 0,
            idle_status(r.adapters.audio),
            idle_status(r.adapters.midi),
            idle_status(r.adapters.orientation),
            idle_status(r.adapters.madmom),
            idle_status(r.adapters.link),
    {
        InputRuntime {
            beat: BeatBroadcaster::new(),
            taps: 0,
            madmom_beats: 0,
            midi_commands: 0,
            adapters: InputAdapters {
                audio: idle_adapter(),
                midi: idle_adapter(),
                orientation: idle_adapter(),
                madmom: idle_adapter(),
                link: idle_adapter(),
            },
        }
    }

    /// A human tap at `timestamp_ms`: counted, and added to the tap window.
    pub fn tap_tempo_at(&mut self, timestamp_ms: u64)
        requires
            old(self).wf(),
        ensures
            final(self).wf(),
            final(self).taps == plus_saturating(old(self).taps, 1),
            tapped(old(self).beat, final(self).beat, timestamp_ms),
            final(self).madmom_beats == old(self).madmom_beats,
            final(self).midi_commands == old(self).midi_commands,
            final(self).adapters == old(self).adapters,
    {
        self.taps = self.taps.saturating_add(1);
        self.beat.add_tap(timestamp_ms);
    }

    /// Forget the tempo: both windows and the clock, and the tap and beat
    /// counts.
    pub fn reset_tempo(&mut self)
        requires
            old(self).wf(),
        ensures
            final(self).wf(),
            final(self).beat.taps() == Seq::<u64>::empty(),
            final(self).beat.madmom() == Seq::<u64>::empty(),
            final(self).beat.clock() is None,
            final(self).taps == 0,
            final(self).madmom_beats == 0,
            final(self).midi_commands == old(self).midi_commands,
            final(self).adapters == old(self).adapters,
    {
        self.beat.reset();
        self.taps = 0;
        self.madmom_beats = 0;
    }

    /// Record a beat-tracker output line, given its beat time as read from
    /// it (`None` for a malformed line): a beat is counted, accepted and
    /// reported to the beat state, anchored at `now_ms`; a malformed line
    /// is recorded as the sidecar's error. Returns whether it was a beat.
    pub fn report_madmom_line(&mut self, beat_ms: Option<u64>, now_ms: u64) -> (r: bool)
        requires
            old(self).wf(),
        ensures
            final(self).wf(),
            r == (beat_ms is Some),
            final(self).taps == old(self).taps,
            final(self).midi_commands == old(self).midi_commands,
            final(self).adapters.audio == old(self).adapters.audio,
            final(self).adapters.midi == old(self).adapters.midi,
            final(self).adapters.orientation == old(self).adapters.orientation,
            final(self).adapters.link == old(self).adapters.link,
            match beat_ms {
                Some(b) => {
                    &&& final(self).madmom_beats == plus_saturating(old(self).madmom_beats, 1)
                    &&& final(self).adapters.madmom == accepted(old(self).adapters.madmom, 1)
                    &&& beat_reported(old(self).beat, final(self).beat, b, now_ms)
                },
                None => {
                    &&& final(self).madmom_beats == old(self).madmom_beats
                    &&& final(self).beat == old(self).beat
                    &&& final(self).adapters.madmom.enabled == old(self).adapters.madmom.enabled
                    &&& final(self).adapters.madmom.target == old(self).adapters.madmom.target
                    &&& final(self).adapters.madmom.events == old(self).adapters.madmom.events
                    &&& final(self).adapters.madmom.last_error matches Some(e)
                    &&& e@ == "malformed BEAT line"@
                },
            },
    {
        match beat_ms {
            Some(b) => {
                self.madmom_beats = self.madmom_beats.saturating_add(1);
                self.adapters.madmom.events = self.adapters.madmom.events.saturating_add(1);
                self.adapters.madmom.last_error = None;
                self.beat.report_madmom_beat(b, now_ms);
                true
            },
            None => {
                self.adapters.madmom.last_error = Some("malformed BEAT line".to_owned());
                false
            },
        }
    }

    /// Record a Link sidecar output line, given the beat length and anchor
    /// read from it (`None` for a malformed line): a tempo is accepted and
    /// installed; a malformed line is recorded as the sidecar's error.
    /// Returns whether it was a tempo.
    pub fn report_link_line(&mut self, tempo: Option<(u64, u64)>) -> (r: bool)
        requires
            old(self).wf(),
            tempo matches Some((beat_ms, _)) ==> beat_ms >= 1,
        ensures
            final(self).wf(),
            r == (tempo is Some),
            final(self).taps == old(self).taps,
            final(self).madmom_beats == old(self).madmom_beats,
            final(self).midi_commands == old(self).midi_commands,
            final(self).adapters.audio == old(self).adapters.audio,
            final(self).adapters.midi == old(self).adapters.midi,
            final(self).adapters.orientation == old(self).adapters.orientation,
            final(self).adapters.madmom == old(self).adapters.madmom,
            match tempo {
                Some((beat_ms, anchor_ms)) => {
                    &&& final(self).adapters.link == accepted(old(self).adapters.link, 1)
                    &&& final(self).beat.clock() == Some((beat_ms, anchor_ms))
                    &&& final(self).beat.taps() == Seq::<u64>::empty()
                    &&& final(self).beat.madmom() == Seq::<u64>::empty()
                },
                None => {
                    &&& final(self).beat == old(self).beat
                    &&& final(self).adapters.link.enabled == old(self).adapters.link.enabled
                    &&& final(self).adapters.link.target == old(self).adapters.link.target
                    &&& final(self).adapters.link.events == old(self).adapters.link.events
                    &&& final(self).adapters.link.last_error matches Some(e)
                    &&& e@ == "malformed Link tempo line"@
                },
            },
    {
        match tempo {
            Some((beat_ms, anchor_ms)) => {
                self.adapters.link.events = self.adapters.link.events.saturating_add(1);
                self.adapters.link.last_error = None;
                self.beat.report_link_period(beat_ms, anchor_ms);
                true
            },
            None => {
                self.adapters.link.last_error = Some("malformed Link tempo line".to_owned());
                false
            },
        }
    }

    /// Count a batch of `n` MIDI commands; a non-empty batch is accepted by
    /// the MIDI adapter.
    pub fn count_midi_commands(&mut self, n: u64)
        ensures
            final(self).midi_commands == plus_saturating(old(self).midi_commands, n),
            final(self).adapters.midi == if n > 0 {
                accepted(old(self).adapters.midi, n)
            } else {
                old(self).adapters.midi
            },
            final(self).beat == old(self).beat,
            final(self).taps == old(self).taps,
            final(self).madmom_beats == old(self).madmom_beats,
            final(self).adapters.audio == old(self).adapters.audio,
            final(self).adapters.orientation == old(self).adapters.orientation,
            final(self).adapters.madmom == old(self).adapters.madmom,
            final(self).adapters.link == old(self).adapters.link,
    {
        self.midi_commands = self.midi_commands.saturating_add(n);
        if n > 0 {
            self.adapters.midi.events = self.adapters.midi.events.saturating_add(n);
            self.adapters.midi.last_error = None;
        }
    }
}

/// Where a live input listens.
#[derive(Clone, Debug)]
pub struct LiveInputConfig {
    /// UDP bind address.
    pub bind: Option<String>,
    /// Whether native capture is enabled.
    pub native_enabled: bool,
    /// The native device selected, if any.
    pub device_id: Option<String>,
}

/// Configure every adapter's status from the config: audio and MIDI as
/// live inputs (named `native audio` and `native MIDI` without a selected
/// device), orientation from its bind address only, and each sidecar
/// enabled when the tempo source is it.
pub fn configure_input_adapters(
    adapters: &mut InputAdapters,
    audio: &LiveInputConfig,
    midi: &LiveInputConfig,
    orientation_bind: &Option<String>,
    tempo_source: TempoSource,
    madmom_command: &str,
    carabiner_command: &str,
)
    ensures
        final(adapters).audio.enabled == (audio.bind is Some || audio.native_enabled),
        opt_chars(final(adapters).audio.target) == live_target(
            opt_chars(audio.bind),
            audio.native_enabled,
            opt_chars(audio.device_id),
            "native audio"@,
        ),
        final(adapters).midi.enabled == (midi.bind is Some || midi.native_enabled),
        opt_chars(final(adapters).midi.target) == live_target(
            opt_chars(midi.bind),
            midi.native_enabled,
            opt_chars(midi.device_id),
            "native MIDI"@,
        ),
        final(adapters).orientation.enabled == (orientation_bind is Some),
        opt_chars(final(adapters).orientation.target) == opt_chars(*orientation_bind),
        final(adapters).madmom.enabled == (tempo_source == TempoSource::Madmom),
        opt_chars(final(adapters).madmom.target) == if tempo_source == TempoSource::Madmom {
            Some(madmom_command@)
        } else {
            None
        },
        final(adapters).link.enabled == (tempo_source == TempoSource::Link),
        opt_chars(final(adapters).link.target) == if tempo_source == TempoSource::Link {
            Some(carabiner_command@)
        } else {
            None
        },
        final(adapters).audio.events == old(adapters).audio.events,
        final(adapters).midi.events == old(adapters).midi.events,
        final(adapters).orientation.events == old(adapters).orientation.events,
        final(adapters).madmom.events == old(adapters).madmom.events,
        final(adapters).link.events == old(adapters).link.events,
{
    configure_live_adapter(
        &mut adapters.audio,
        &audio.bind,
        audio.native_enabled,
        &audio.device_id,
        "native audio",
    );
    configure_live_adapter(
        &mut adapters.midi,
        &midi.bind,
        midi.native_enabled,
        &midi.device_id,
        "native MIDI",
    );
    configure_live_adapter(&mut adapters.orientation, orientation_bind, false, &None, "");
    let madmom = match tempo_source {
        TempoSource::Madmom => true,
        _ => false,
    };
    configure_sidecar_adapter(&mut adapters.madmom, madmom, madmom_command);
    let link = match tempo_source {
        TempoSource::Link => true,
        _ => false,
    };
    configure_sidecar_adapter(&mut adapters.link, link, carabiner_command);
}

/// Hardware output status.
#[derive(Clone, Debug, Default)]
pub struct HardwareStatus {
    /// Dome/bar OPC target status.
    pub dome: HardwareTargetStatus,
    /// Stage OPC target status.
    pub stage: HardwareTargetStatus,
}

/// One hardware target status.
#[derive(Clone, Debug, Default)]
pub struct HardwareTargetStatus {
    /// Whether this target is enabled by config.
    pub enabled: bool,
    /// Last configured address.
    pub address: Option<String>,
    /// Whether a TCP client is currently connected.
    pub connected: bool,
    /// Number of frames successfully written to the TCP target.
    pub frames_sent: u64,
    /// Last connection or write error, if any.
    pub last_error: Option<String>,
}

/// Browser-facing simulator frame.
#[derive(Clone, Debug)]
pub struct SimulatorFrame {
    /// Metrics after this frame was produced.
    pub metrics: Metrics,
    /// Dome simulator commands for the frame.
    pub commands: Vec<SimulatorCommand>,
    /// Bar simulator commands for the frame.
    pub bar_commands: Vec<BarSimulatorCommand>,
    /// Stage simulator commands for the frame.
    pub stage_commands: Vec<StageSimulatorCommand>,
}

/// Browser-facing dome simulator command.
#[derive(Clone, Debug, PartialEq, Eq)]
pub enum SimulatorCommand {
    /// Flush/redraw marker.
    Flush,
    /// Whole dome frame encoded as `0xRRGGBB` colors.
    Frame {
        /// Colors in canonical strut-major order.
        colors: Vec<u32>,
    },
    /// Single logical dome pixel write.
    Pixel {
        /// Strut index.
        strut_index: usize,
        /// LED index within the strut.
        led_index: usize,
        /// Color encoded as `0xRRGGBB`.
        color: u32,
    },
}

/// Browser-facing bar simulator command.
#[derive(Clone, Copy, Debug, PartialEq, Eq, Structural)]
pub enum BarSimulatorCommand {
    /// Flush marker.
    Flush,
    /// Bar pixel write.
    Pixel {
        /// Whether the pixel is on the runner strip.
        is_runner: bool,
        /// Logical LED index.
        led_index: usize,
        /// RGB color encoded as `0xRRGGBB`.
        color: u32,
    },
}

/// Browser-facing stage simulator command.
#[derive(Clone, Copy, Debug, PartialEq, Eq, Structural)]
pub enum StageSimulatorCommand {
    /// Flush marker.
    Flush,
    /// Stage pixel write.
    Pixel {
        /// Side index.
        side_index: usize,
        /// LED index.
        led_index: usize,
        /// Layer index.
        layer_index: usize,
        /// RGB color encoded as `0xRRGGBB`.
        color: u32,
    },
}

/// Runtime diagnostic/test-pattern patch.
#[derive(Clone, Copy, Debug)]
pub struct DiagnosticConfigPatch {
    /// Dome diagnostic pattern.
    pub dome_test_pattern: Option<u8>,
    /// Bar diagnostic pattern: 0 off, 1 flash colors.
    pub bar_test_pattern: Option<u8>,
    /// Stage diagnostic pattern: 0 off, 1 flash colors.
    pub stage_test_pattern: Option<u8>,
}

/// Runtime color palette patch.
#[derive(Clone, Copy, Debug)]
pub struct PaletteEntryPatch {
    /// Optional palette bank to patch. Defaults to the active palette bank.
    pub color_palette_index: Option<u8>,
    /// Color index within the selected palette bank.
    pub relative_index: u8,
    /// First color encoded as `0xRRGGBB`.
    pub color1: u32,
    /// Optional second color encoded as `0xRRGGBB`.
    pub color2: Option<u32>,
    /// Whether to enable gradient blending for this entry.
    pub color2_enabled: Option<bool>,
}

/// A patched pattern: the requested one capped at `max`, or the current one.
pub open spec fn patched_pattern(current: u8, requested: Option<u8>, max: u8) -> u8 {
    match requested {
        Some(p) => if p < max {
            p
        } else {
            max
        },
        None => current,
    }
}

fn patch_pattern(current: u8, requested: Option<u8>, max: u8) -> (r: u8)
    ensures
        r == patched_pattern(current, requested, max),
{
    match requested {
        Some(p) => if p < max {
            p
        } else {
            max
        },
        None => current,
    }
}

/// Apply a diagnostic patch: the dome takes patterns 0 to 4, bar and stage
/// 0 or 1; absent fields keep their pattern.
pub fn apply_diagnostic_patch(controls: &mut DiagnosticControls, patch: DiagnosticConfigPatch)
    ensures
        final(controls).dome_test_pattern == patched_pattern(
            old(controls).dome_test_pattern,
            patch.dome_test_pattern,
            4,
        ),
        final(controls).bar_test_pattern == patched_pattern(
            old(controls).bar_test_pattern,
            patch.bar_test_pattern,
            1,
        ),
        final(controls).stage_test_pattern == patched_pattern(
            old(controls).stage_test_pattern,
            patch.stage_test_pattern,
            1,
        ),
{
    controls.dome_test_pattern = patch_pattern(controls.dome_test_pattern, patch.dome_test_pattern, 4);
    controls.bar_test_pattern = patch_pattern(controls.bar_test_pattern, patch.bar_test_pattern, 1);
    controls.stage_test_pattern = patch_pattern(
        controls.stage_test_pattern,
        patch.stage_test_pattern,
        1,
    );
}

/// The dome's selections a dome patch can change.
#[derive(Clone, Copy, Debug, Default, PartialEq, Eq, Structural)]
pub struct DomeSelection {
    /// Active dome visualizer index.
    pub active_visualizer: u8,
    /// Active color palette bank.
    pub color_palette_index: u8,
}

/// Apply the selection fields of a dome patch: the visualizer index as
/// given, the palette bank capped at 7; absent fields keep their value.
/// (The patch's flash speed is a fraction and is applied beside this.)
pub fn apply_dome_patch(
    selection: &mut DomeSelection,
    active_visualizer: Option<u8>,
    color_palette_index: Option<u8>,
)
    ensures
        final(selection).active_visualizer == match active_visualizer {
            Some(v) => v,
            None => old(selection).active_visualizer,
        },
        final(selection).color_palette_index == patched_pattern(
            old(selection).color_palette_index,
            color_palette_index,
            7,
        ),
{
    if let Some(v) = active_visualizer {
        selection.active_visualizer = v;
    }
    selection.color_palette_index = patch_pattern(
        selection.color_palette_index,
        color_palette_index,
        7,
    );
}

/// The absolute slot a palette patch writes: bank and relative index each
/// capped at 7, the bank defaulting to the active one.
pub open spec fn patch_slot(active_bank: u8, patch: PaletteEntryPatch) -> int {
    let bank = match patch.color_palette_index {
        Some(b) => b,
        None => active_bank,
    };
    let bank = if bank < 7 {
        bank
    } else {
        7
    };
    let rel = if patch.relative_index < 7 {
        patch.relative_index
    } else {
        7
    };
    rel + bank * 8
}

/// The entry a palette patch writes: a gradient (second color defaulting to
/// the first) when enabled, else a solid color.
pub open spec fn patch_entry(patch: PaletteEntryPatch) -> PaletteEntry {
    if patch.color2_enabled == Some(true) {
        PaletteEntry {
            color1: patch.color1,
            color2: match patch.color2 {
                Some(c) => c,
                None => patch.color1,
            },
            color2_enabled: true,
        }
    } else {
        solid_entry(patch.color1)
    }
}

/// What a palette patch writes: always its first color; a gradient exactly
/// when the patch enables one, blending to the second color, or to the
/// first again when no second color is given (so a gradient without a
/// second color writes the same entry as one whose second color is the
/// first); otherwise a solid entry with no second color.
pub proof fn law_patch_entry_colors(patch: PaletteEntryPatch)
    ensures
        patch_entry(patch).color1 == patch.color1,
        patch_entry(patch).color2_enabled == (patch.color2_enabled == Some(true)),
        patch.color2_enabled == Some(true) && patch.color2 is None ==> patch_entry(patch).color2
            == patch_entry(patch).color1,
        patch.color2_enabled == Some(true) && patch.color2 is Some ==> patch_entry(patch).color2
            == patch.color2->0,
        patch.color2_enabled != Some(true) ==> patch_entry(patch).color2 == 0,
        patch_entry(PaletteEntryPatch { color2: None, ..patch }) == patch_entry(
            PaletteEntryPatch { color2: Some(patch.color1), ..patch },
        ),
{
}

/// Write one palette entry, growing the palette with black entries when it
/// is too short to hold the slot.
pub fn apply_palette_patch(palette: &mut ColorPalette, active_bank: u8, patch: PaletteEntryPatch)
    ensures
        ({
            let slot = patch_slot(active_bank, patch);
            let old_len = old(palette).colors@.len();
            let new_len = if old_len > slot {
                old_len
            } else {
                (slot + 1) as nat
            };
            &&& final(palette).colors@.len() == new_len
            &&& final(palette).colors@[slot] == patch_entry(patch)
            &&& forall|i: int|
                0 <= i < new_len && i != slot ==> #[trigger] final(palette).colors@[i] == if i
                    < old_len {
                    old(palette).colors@[i]
                } else {
                    solid_entry(0)
                }
        }),
{
    let bank = match patch.color_palette_index {
        Some(b) => b,
        None => active_bank,
    };
    let bank = if bank < 7 {
        bank
    } else {
        7
    };
    let rel = if patch.relative_index < 7 {
        patch.relative_index
    } else {
        7
    };
    let slot = ColorPalette::absolute_index(rel as usize, bank);
    while palette.colors.len() <= slot
        invariant
            slot == patch_slot(active_bank, patch),
            old(palette).colors@.len() <= palette.colors@.len(),
            palette.colors@.len() <= if old(palette).colors@.len() > slot {
                old(palette).colors@.len() as int
            } else {
                slot + 1
            },
            forall|i: int|
                0 <= i < palette.colors@.len() ==> #[trigger] palette.colors@[i] == if i < old(
                    palette,
                ).colors@.len() {
                    old(palette).colors@[i]
                } else {
                    solid_entry(0)
                },
        decreases slot + 1 - palette.colors@.len(),
    {
        palette.colors.push(PaletteEntry::default());
    }
    let entry = if patch.color2_enabled == Some(true) {
        let c2 = match patch.color2 {
            Some(c) => c,
            None => patch.color1,
        };
        PaletteEntry::gradient(patch.color1, c2)
    } else {
        PaletteEntry::solid(patch.color1)
    };
    palette.colors.set(slot, entry);
}

/// A simulator dome command carries the dome command with packed colors.
pub open spec fn simulates_dome(c: DomeCommand, s: SimulatorCommand) -> bool {
    match (c, s) {
        (DomeCommand::Flush, SimulatorCommand::Flush) => true,
        (DomeCommand::Frame(v), SimulatorCommand::Frame { colors }) => colors@.len() == v@.len()
            && forall|k: int|
            0 <= k < v@.len() ==> colors@[k] == pack_rgb(
                #[trigger] v@[k].r,
                v@[k].g,
                v@[k].b,
            ),
        (
            DomeCommand::Pixel { strut_index, led_index, color },
            SimulatorCommand::Pixel { strut_index: s2, led_index: l2, color: c2 },
        ) => strut_index == s2 && led_index == l2 && c2 == pack_rgb(color.r, color.g, color.b),
        _ => false,
    }
}

/// A simulator bar command carries the bar command with a packed color.
pub open spec fn simulates_bar(c: BarCommand, s: BarSimulatorCommand) -> bool {
    match (c, s) {
        (BarCommand::Flush, BarSimulatorCommand::Flush) => true,
        (
            BarCommand::Pixel { is_runner, led_index, color },
            BarSimulatorCommand::Pixel { is_runner: r2, led_index: l2, color: c2 },
        ) => is_runner == r2 && led_index == l2 && c2 == pack_rgb(color.r, color.g, color.b),
        _ => false,
    }
}

/// A simulator stage command carries the stage command with a packed color.
pub open spec fn simulates_stage(c: StageCommand, s: StageSimulatorCommand) -> bool {
    match (c, s) {
        (StageCommand::Flush, StageSimulatorCommand::Flush) => true,
        (
            StageCommand::Pixel { side_index, led_index, layer_index, color },
            StageSimulatorCommand::Pixel {
                side_index: s2,
                led_index: l2,
                layer_index: y2,
                color: c2,
            },
        ) => side_index == s2 && led_index == l2 && layer_index == y2 && c2 == pack_rgb(
            color.r,
            color.g,
            color.b,
        ),
        _ => false,
    }
}

fn simulate_dome(c: &DomeCommand) -> (s: SimulatorCommand)
    ensures
        simulates_dome(*c, s),
{
    match c {
        DomeCommand::Flush => SimulatorCommand::Flush,
        DomeCommand::Frame(v) => {
            let mut colors: Vec<u32> = Vec::new();
            let mut i: usize = 0;
            while i < v.len()
                invariant
                    i <= v@.len(),
                    colors@.len() == i,
                    forall|k: int|
                        0 <= k < i ==> colors@[k] == pack_rgb(#[trigger] v@[k].r, v@[k].g, v@[k].b),
                decreases v@.len() - i,
            {
                colors.push(v[i].to_u24());
                i = i + 1;
            }
            SimulatorCommand::Frame { colors }
        },
        DomeCommand::Pixel { strut_index, led_index, color } => SimulatorCommand::Pixel {
            strut_index: *strut_index,
            led_index: *led_index,
            color: color.to_u24(),
        },
    }
}

/// Browser-facing dome commands, one per command in the same order.
pub fn serialize_commands(commands: Vec<DomeCommand>) -> (r: Vec<SimulatorCommand>)
    ensures
        r@.len() == commands@.len(),
        forall|k: int| 0 <= k < r@.len() ==> simulates_dome(commands@[k], #[trigger] r@[k]),
{
    let mut out: Vec<SimulatorCommand> = Vec::new();
    let mut i: usize = 0;
    while i < commands.len()
        invariant
            i <= commands@.len(),
            out@.len() == i,
            forall|k: int| 0 <= k < i ==> simulates_dome(commands@[k], #[trigger] out@[k]),
        decreases commands@.len() - i,
    {
        out.push(simulate_dome(&commands[i]));
        i = i + 1;
    }
    out
}

/// Browser-facing bar commands, one per command in the same order.
pub fn serialize_bar_commands(commands: Vec<BarCommand>) -> (r: Vec<BarSimulatorCommand>)
    ensures
        r@.len() == commands@.len(),
        forall|k: int| 0 <= k < r@.len() ==> simulates_bar(commands@[k], #[trigger] r@[k]),
{
    let mut out: Vec<BarSimulatorCommand> = Vec::new();
    let mut i: usize = 0;
    while i < commands.len()
        invariant
            i <= commands@.len(),
            out@.len() == i,
            forall|k: int| 0 <= k < i ==> simulates_bar(commands@[k], #[trigger] out@[k]),
        decreases commands@.len() - i,
    {
        let s = match commands[i] {
            BarCommand::Flush => BarSimulatorCommand::Flush,
            BarCommand::Pixel { is_runner, led_index, color } => BarSimulatorCommand::Pixel {
                is_runner,
                led_index,
                color: color.to_u24(),
            },
        };
        out.push(s);
        i = i + 1;
    }
    out
}

/// Browser-facing stage commands, one per command in the same order.
pub fn serialize_stage_commands(commands: Vec<StageCommand>) -> (r: Vec<StageSimulatorCommand>)
    ensures
        r@.len() == commands@.len(),
        forall|k: int| 0 <= k < r@.len() ==> simulates_stage(commands@[k], #[trigger] r@[k]),
{
    let mut out: Vec<StageSimulatorCommand> = Vec::new();
    let mut i: usize = 0;
    while i < commands.len()
        invariant
            i <= commands@.len(),
            out@.len() == i,
            forall|k: int| 0 <= k < i ==> simulates_stage(commands@[k], #[trigger] out@[k]),
        decreases commands@.len() - i,
    {
        let s = match commands[i] {
            StageCommand::Flush => StageSimulatorCommand::Flush,
            StageCommand::Pixel { side_index, led_index, layer_index, color } =>
                StageSimulatorCommand::Pixel {
                side_index,
                led_index,
                layer_index,
                color: color.to_u24(),
            },
        };
        out.push(s);
        i = i + 1;
    }
    out
}

/// Diagnostic animation state: a three-state cycle advancing every 20 frames.
pub fn diagnostic_state(frame_index: u64) -> (r: u8)
    ensures
        r == (frame_index / 20) % 3,
{
    ((frame_index / 20) % 3) as u8
}

/// Diagnostic iteration step: one step every 4 frames.
pub fn diagnostic_step(frame_index: u64) -> (r: usize)
    ensures
        r == (frame_index / 4) as usize,
{
    (frame_index / 4) as usize
}

/// Name of the dome visualizer an operator index selects (Volume by default).
pub open spec fn dome_visualizer_name_spec(index: u8) -> Seq<char> {
    if index == 1 {
        "LEDDomeRadialVisualizer"@
    } else if index == 2 {
        "LEDDomeRaceVisualizer"@
    } else if index == 3 {
        "LEDDomeSnakesVisualizer"@
    } else if index == 4 {
        "LEDDomeQuaternionTestVisualizer"@
    } else if index == 5 {
        "LEDDomeQuaternionMultiTestVisualizer"@
    } else if index == 6 {
        "LEDDomeQuaternionPaintbrushVisualizer"@
    } else if index == 7 {
        "LEDDomeSplatVisualizer"@
    } else if index == 8 {
        "LEDDomeTVStaticVisualizer"@
    } else {
        "LEDDomeVolumeVisualizer"@
    }
}

/// Name of the dome visualizer an operator index selects.
pub fn active_dome_visualizer_name(index: u8) -> (r: &'static str)
    ensures
        r@ == dome_visualizer_name_spec(index),
{
    match index {
        1 => "LEDDomeRadialVisualizer",
        2 => "LEDDomeRaceVisualizer",
        3 => "LEDDomeSnakesVisualizer",
        4 => "LEDDomeQuaternionTestVisualizer",
        5 => "LEDDomeQuaternionMultiTestVisualizer",
        6 => "LEDDomeQuaternionPaintbrushVisualizer",
        7 => "LEDDomeSplatVisualizer",
        8 => "LEDDomeTVStaticVisualizer",
        _ => "LEDDomeVolumeVisualizer",
    }
}

/// Inputs the selected dome visualizer needs: orientation for the
/// quaternion tests, audio and orientation for the paintbrush, audio else.
pub open spec fn dome_visualizer_inputs_spec(index: u8) -> Seq<Seq<char>> {
    if index == 4 || index == 5 {
        seq!["orientation"@]
    } else if index == 6 {
        seq!["audio"@, "orientation"@]
    } else {
        seq!["audio"@]
    }
}

/// Inputs the selected dome visualizer needs.
pub fn active_dome_visualizer_inputs(index: u8) -> (r: Vec<&'static str>)
    ensures
        r@.map_values(|s: &'static str| s@) == dome_visualizer_inputs_spec(index),
{
    let mut v: Vec<&'static str> = Vec::new();
    if index == 4 || index == 5 {
        v.push("orientation");
    } else if index == 6 {
        v.push("audio");
        v.push("orientation");
    } else {
        v.push("audio");
    }
    assert(v@.map_values(|s: &'static str| s@) == dome_visualizer_inputs_spec(index));
    v
}

/// Name of the dome diagnostic a test pattern selects, if any.
pub open spec fn dome_diagnostic_name_spec(test_pattern: u8) -> Option<Seq<char>> {
    if test_pattern == 1 {
        Some("LEDDomeFlashColorsDiagnosticVisualizer"@)
    } else if test_pattern == 2 {
        Some("LEDDomeStrutIterationDiagnosticVisualizer"@)
    } else if test_pattern == 3 {
        Some("LEDDomeStrandTestDiagnosticVisualizer"@)
    } else if test_pattern == 4 {
        Some("LEDDomeFullColorFlashDiagnosticVisualizer"@)
    } else {
        None
    }
}

/// Name of the dome diagnostic a test pattern selects, if any.
pub fn dome_diagnostic_name(test_pattern: u8) -> (r: Option<&'static str>)
    ensures
        r matches Some(s) ==> dome_diagnostic_name_spec(test_pattern) == Some(s@),
        r is None ==> dome_diagnostic_name_spec(test_pattern) is None,
{
    match test_pattern {
        1 => Some("LEDDomeFlashColorsDiagnosticVisualizer"),
        2 => Some("LEDDomeStrutIterationDiagnosticVisualizer"),
        3 => Some("LEDDomeStrandTestDiagnosticVisualizer"),
        4 => Some("LEDDomeFullColorFlashDiagnosticVisualizer"),
        _ => None,
    }
}

/// The live visualizer an operator index selects (Volume by default).
pub open spec fn visualizer_from_index_spec(index: u8) -> LiveVisualizer {
    if index == 1 {
        LiveVisualizer::Radial
    } else if index == 2 {
        LiveVisualizer::Race
    } else if index == 3 {
        LiveVisualizer::Snakes
    } else if index == 4 {
        LiveVisualizer::QuaternionTest
    } else if index == 5 {
        LiveVisualizer::QuaternionMultiTest
    } else if index == 6 {
        LiveVisualizer::QuaternionPaintbrush
    } else if index == 7 {
        LiveVisualizer::Splat
    } else if index == 8 {
        LiveVisualizer::TvStatic
    } else {
        LiveVisualizer::Volume
    }
}

/// The live visualizer an operator index selects.
pub fn visualizer_from_index(index: u8) -> (v: LiveVisualizer)
    ensures
        v == visualizer_from_index_spec(index),
{
    match index {
        1 => LiveVisualizer::Radial,
        2 => LiveVisualizer::Race,
        3 => LiveVisualizer::Snakes,
        4 => LiveVisualizer::QuaternionTest,
        5 => LiveVisualizer::QuaternionMultiTest,
        6 => LiveVisualizer::QuaternionPaintbrush,
        7 => LiveVisualizer::Splat,
        8 => LiveVisualizer::TvStatic,
        _ => LiveVisualizer::Volume,
    }
}

/// The renderer a scheduled visualizer is drawn with, and so the output it
/// draws on: the dome, the bar or the stage.
#[derive(Clone, Copy, Debug, PartialEq, Eq, Structural)]
pub enum ScheduledRenderer {
    /// A live dome visualizer.
    Dome(LiveVisualizer),
    /// A dome diagnostic.
    DomeDiagnostic(DomeDiagnosticVisualizer),
    /// A bar diagnostic.
    BarDiagnostic(BarDiagnosticVisualizer),
    /// A stage visualizer.
    Stage(StageVisualizer),
}

/// The renderer a scheduled visualizer name selects; `None` for a name no
/// renderer draws.
pub open spec fn scheduled_renderer_spec(name: Seq<char>) -> Option<ScheduledRenderer> {
    if name == "LEDDomeVolumeVisualizer"@ {
        Some(ScheduledRenderer::Dome(LiveVisualizer::Volume))
    } else if name == "LEDDomeRadialVisualizer"@ {
        Some(ScheduledRenderer::Dome(LiveVisualizer::Radial))
    } else if name == "LEDDomeRaceVisualizer"@ {
        Some(ScheduledRenderer::Dome(LiveVisualizer::Race))
    } else if name == "LEDDomeSnakesVisualizer"@ {
        Some(ScheduledRenderer::Dome(LiveVisualizer::Snakes))
    } else if name == "LEDDomeSplatVisualizer"@ {
        Some(ScheduledRenderer::Dome(LiveVisualizer::Splat))
    } else if name == "LEDDomeQuaternionTestVisualizer"@ {
        Some(ScheduledRenderer::Dome(LiveVisualizer::QuaternionTest))
    } else if name == "LEDDomeQuaternionMultiTestVisualizer"@ {
        Some(ScheduledRenderer::Dome(LiveVisualizer::QuaternionMultiTest))
    } else if name == "LEDDomeQuaternionPaintbrushVisualizer"@ {
        Some(ScheduledRenderer::Dome(LiveVisualizer::QuaternionPaintbrush))
    } else if name == "LEDDomeFlashVisualizer"@ {
        Some(ScheduledRenderer::Dome(LiveVisualizer::Flash))
    } else if name == "LEDDomeTVStaticVisualizer"@ {
        Some(ScheduledRenderer::Dome(LiveVisualizer::TvStatic))
    } else if name == "LEDDomeFlashColorsDiagnosticVisualizer"@ {
        Some(ScheduledRenderer::DomeDiagnostic(DomeDiagnosticVisualizer::FlashColors))
    } else if name == "LEDDomeStrutIterationDiagnosticVisualizer"@ {
        Some(ScheduledRenderer::DomeDiagnostic(DomeDiagnosticVisualizer::StrutIteration))
    } else if name == "LEDDomeStrandTestDiagnosticVisualizer"@ {
        Some(ScheduledRenderer::DomeDiagnostic(DomeDiagnosticVisualizer::StrandTest))
    } else if name == "LEDDomeFullColorFlashDiagnosticVisualizer"@ {
        Some(ScheduledRenderer::DomeDiagnostic(DomeDiagnosticVisualizer::FullColorFlash))
    } else if name == "LEDBarFlashColorsDiagnosticVisualizer"@ {
        Some(ScheduledRenderer::BarDiagnostic(BarDiagnosticVisualizer::FlashColors))
    } else if name == "LEDStageFlashColorsDiagnosticVisualizer"@ {
        Some(ScheduledRenderer::Stage(StageVisualizer::FlashColorsDiagnostic))
    } else if name == "LEDStageDepthLevelVisualizer"@ {
        Some(ScheduledRenderer::Stage(StageVisualizer::DepthLevel))
    } else {
        None
    }
}

fn is_name(chars: &Vec<char>, name: &str) -> (r: bool)
    ensures
        r == (chars@ == name@),
{
    let expected = chars_of(name);
    same_chars(chars.as_slice(), expected.as_slice())
}

/// The renderer a scheduled visualizer name selects.
pub fn scheduled_renderer(name: &str) -> (r: Option<ScheduledRenderer>)
    ensures
        r == scheduled_renderer_spec(name@),
{
    let chars = chars_of(name);
    if is_name(&chars, "LEDDomeVolumeVisualizer") {
        return Some(ScheduledRenderer::Dome(LiveVisualizer::Volume));
    }
    if is_name(&chars, "LEDDomeRadialVisualizer") {
        return Some(ScheduledRenderer::Dome(LiveVisualizer::Radial));
    }
    if is_name(&chars, "LEDDomeRaceVisualizer") {
        return Some(ScheduledRenderer::Dome(LiveVisualizer::Race));
    }
    if is_name(&chars, "LEDDomeSnakesVisualizer") {
        return Some(ScheduledRenderer::Dome(LiveVisualizer::Snakes));
    }
    if is_name(&chars, "LEDDomeSplatVisualizer") {
        return Some(ScheduledRenderer::Dome(LiveVisualizer::Splat));
    }
    if is_name(&chars, "LEDDomeQuaternionTestVisualizer") {
        return Some(ScheduledRenderer::Dome(LiveVisualizer::QuaternionTest));
    }
    if is_name(&chars, "LEDDomeQuaternionMultiTestVisualizer") {
        return Some(ScheduledRenderer::Dome(LiveVisualizer::QuaternionMultiTest));
    }
    if is_name(&chars, "LEDDomeQuaternionPaintbrushVisualizer") {
        return Some(ScheduledRenderer::Dome(LiveVisualizer::QuaternionPaintbrush));
    }
    if is_name(&chars, "LEDDomeFlashVisualizer") {
        return Some(ScheduledRenderer::Dome(LiveVisualizer::Flash));
    }
    if is_name(&chars, "LEDDomeTVStaticVisualizer") {
        return Some(ScheduledRenderer::Dome(LiveVisualizer::TvStatic));
    }
    if is_name(&chars, "LEDDomeFlashColorsDiagnosticVisualizer") {
        return Some(ScheduledRenderer::DomeDiagnostic(DomeDiagnosticVisualizer::FlashColors));
    }
    if is_name(&chars, "LEDDomeStrutIterationDiagnosticVisualizer") {
        return Some(ScheduledRenderer::DomeDiagnostic(DomeDiagnosticVisualizer::StrutIteration));
    }
    if is_name(&chars, "LEDDomeStrandTestDiagnosticVisualizer") {
        return Some(ScheduledRenderer::DomeDiagnostic(DomeDiagnosticVisualizer::StrandTest));
    }
    if is_name(&chars, "LEDDomeFullColorFlashDiagnosticVisualizer") {
        return Some(ScheduledRenderer::DomeDiagnostic(DomeDiagnosticVisualizer::FullColorFlash));
    }
    if is_name(&chars, "LEDBarFlashColorsDiagnosticVisualizer") {
        return Some(ScheduledRenderer::BarDiagnostic(BarDiagnosticVisualizer::FlashColors));
    }
    if is_name(&chars, "LEDStageFlashColorsDiagnosticVisualizer") {
        return Some(ScheduledRenderer::Stage(StageVisualizer::FlashColorsDiagnostic));
    }
    if is_name(&chars, "LEDStageDepthLevelVisualizer") {
        return Some(ScheduledRenderer::Stage(StageVisualizer::DepthLevel));
    }
    None
}

/// The dome visualizer an operator index names is drawn by the renderer of
/// the live visualizer that index selects.
pub proof fn law_selected_name_renders_selected_visualizer(index: u8)
    ensures
        scheduled_renderer_spec(dome_visualizer_name_spec(index)) == Some(
            ScheduledRenderer::Dome(visualizer_from_index_spec(index)),
        ),
{
    if index == 1 {
        reveal_strlit("LEDDomeRadialVisualizer");
        reveal_strlit("LEDDomeVolumeVisualizer");
        assert("LEDDomeRadialVisualizer"@[7] != "LEDDomeVolumeVisualizer"@[7]);
        assert("LEDDomeRadialVisualizer"@ != "LEDDomeVolumeVisualizer"@);
    } else if index == 2 {
        reveal_strlit("LEDDomeRaceVisualizer");
        reveal_strlit("LEDDomeVolumeVisualizer");
        assert("LEDDomeRaceVisualizer"@.len() != "LEDDomeVolumeVisualizer"@.len());
        assert("LEDDomeRaceVisualizer"@ != "LEDDomeVolumeVisualizer"@);
        reveal_strlit("LEDDomeRadialVisualizer");
        assert("LEDDomeRaceVisualizer"@.len() != "LEDDomeRadialVisualizer"@.len());
        assert("LEDDomeRaceVisualizer"@ != "LEDDomeRadialVisualizer"@);
    } else if index == 3 {
        reveal_strlit("LEDDomeSnakesVisualizer");
        reveal_strlit("LEDDomeVolumeVisualizer");
        assert("LEDDomeSnakesVisualizer"@[7] != "LEDDomeVolumeVisualizer"@[7]);
        assert("LEDDomeSnakesVisualizer"@ != "LEDDomeVolumeVisualizer"@);
        reveal_strlit("LEDDomeRadialVisualizer");
        assert("LEDDomeSnakesVisualizer"@[7] != "LEDDomeRadialVisualizer"@[7]);
        assert("LEDDomeSnakesVisualizer"@ != "LEDDomeRadialVisualizer"@);
        reveal_strlit("LEDDomeRaceVisualizer");
        assert("LEDDomeSnakesVisualizer"@.len() != "LEDDomeRaceVisualizer"@.len());
        assert("LEDDomeSnakesVisualizer"@ != "LEDDomeRaceVisualizer"@);
    } else if index == 4 {
        reveal_strlit("LEDDomeQuaternionTestVisualizer");
        reveal_strlit("LEDDomeVolumeVisualizer");
        assert("LEDDomeQuaternionTestVisualizer"@.len() != "LEDDomeVolumeVisualizer"@.len());
        assert("LEDDomeQuaternionTestVisualizer"@ != "LEDDomeVolumeVisualizer"@);
        reveal_strlit("LEDDomeRadialVisualizer");
        assert("LEDDomeQuaternionTestVisualizer"@.len() != "LEDDomeRadialVisualizer"@.len());
        assert("LEDDomeQuaternionTestVisualizer"@ != "LEDDomeRadialVisualizer"@);
        reveal_strlit("LEDDomeRaceVisualizer");
        assert("LEDDomeQuaternionTestVisualizer"@.len() != "LEDDomeRaceVisualizer"@.len());
        assert("LEDDomeQuaternionTestVisualizer"@ != "LEDDomeRaceVisualizer"@);
        reveal_strlit("LEDDomeSnakesVisualizer");
        assert("LEDDomeQuaternionTestVisualizer"@.len() != "LEDDomeSnakesVisualizer"@.len());
        assert("LEDDomeQuaternionTestVisualizer"@ != "LEDDomeSnakesVisualizer"@);
        reveal_strlit("LEDDomeSplatVisualizer");
        assert("LEDDomeQuaternionTestVisualizer"@.len() != "LEDDomeSplatVisualizer"@.len());
        assert("LEDDomeQuaternionTestVisualizer"@ != "LEDDomeSplatVisualizer"@);
    } else if index == 5 {
        reveal_strlit("LEDDomeQuaternionMultiTestVisualizer");
        reveal_strlit("LEDDomeVolumeVisualizer");
        assert("LEDDomeQuaternionMultiTestVisualizer"@.len() != "LEDDomeVolumeVisualizer"@.len());
        assert("LEDDomeQuaternionMultiTestVisualizer"@ != "LEDDomeVolumeVisualizer"@);
        reveal_strlit("LEDDomeRadialVisualizer");
        assert("LEDDomeQuaternionMultiTestVisualizer"@.len() != "LEDDomeRadialVisualizer"@.len());
        assert("LEDDomeQuaternionMultiTestVisualizer"@ != "LEDDomeRadialVisualizer"@);
        reveal_strlit("LEDDomeRaceVisualizer");
        assert("LEDDomeQuaternionMultiTestVisualizer"@.len() != "LEDDomeRaceVisualizer"@.len());
        assert("LEDDomeQuaternionMultiTestVisualizer"@ != "LEDDomeRaceVisualizer"@);
        reveal_strlit("LEDDomeSnakesVisualizer");
        assert("LEDDomeQuaternionMultiTestVisualizer"@.len() != "LEDDomeSnakesVisualizer"@.len());
        assert("LEDDomeQuaternionMultiTestVisualizer"@ != "LEDDomeSnakesVisualizer"@);
        reveal_strlit("LEDDomeSplatVisualizer");
        assert("LEDDomeQuaternionMultiTestVisualizer"@.len() != "LEDDomeSplatVisualizer"@.len());
        assert("LEDDomeQuaternionMultiTestVisualizer"@ != "LEDDomeSplatVisualizer"@);
        reveal_strlit("LEDDomeQuaternionTestVisualizer");
        assert("LEDDomeQuaternionMultiTestVisualizer"@.len() != "LEDDomeQuaternionTestVisualizer"@.len());
        assert("LEDDomeQuaternionMultiTestVisualizer"@ != "LEDDomeQuaternionTestVisualizer"@);
    } else if index == 6 {
        reveal_strlit("LEDDomeQuaternionPaintbrushVisualizer");
        reveal_strlit("LEDDomeVolumeVisualizer");
        assert("LEDDomeQuaternionPaintbrushVisualizer"@.len() != "LEDDomeVolumeVisualizer"@.len());
        assert("LEDDomeQuaternionPaintbrushVisualizer"@ != "LEDDomeVolumeVisualizer"@);
        reveal_strlit("LEDDomeRadialVisualizer");
        assert("LEDDomeQuaternionPaintbrushVisualizer"@.len() != "LEDDomeRadialVisualizer"@.len());
        assert("LEDDomeQuaternionPaintbrushVisualizer"@ != "LEDDomeRadialVisualizer"@);
        reveal_strlit("LEDDomeRaceVisualizer");
        assert("LEDDomeQuaternionPaintbrushVisualizer"@.len() != "LEDDomeRaceVisualizer"@.len());
        assert("LEDDomeQuaternionPaintbrushVisualizer"@ != "LEDDomeRaceVisualizer"@);
        reveal_strlit("LEDDomeSnakesVisualizer");
        assert("LEDDomeQuaternionPaintbrushVisualizer"@.len() != "LEDDomeSnakesVisualizer"@.len());
        assert("LEDDomeQuaternionPaintbrushVisualizer"@ != "LEDDomeSnakesVisualizer"@);
        reveal_strlit("LEDDomeSplatVisualizer");
        assert("LEDDomeQuaternionPaintbrushVisualizer"@.len() != "LEDDomeSplatVisualizer"@.len());
        assert("LEDDomeQuaternionPaintbrushVisualizer"@ != "LEDDomeSplatVisualizer"@);
        reveal_strlit("LEDDomeQuaternionTestVisualizer");
        assert("LEDDomeQuaternionPaintbrushVisualizer"@.len() != "LEDDomeQuaternionTestVisualizer"@.len());
        assert("LEDDomeQuaternionPaintbrushVisualizer"@ != "LEDDomeQuaternionTestVisualizer"@);
        reveal_strlit("LEDDomeQuaternionMultiTestVisualizer");
        assert("LEDDomeQuaternionPaintbrushVisualizer"@.len() != "LEDDomeQuaternionMultiTestVisualizer"@.len());
        assert("LEDDomeQuaternionPaintbrushVisualizer"@ != "LEDDomeQuaternionMultiTestVisualizer"@);
    } else if index == 7 {
        reveal_strlit("LEDDomeSplatVisualizer");
        reveal_strlit("LEDDomeVolumeVisualizer");
        assert("LEDDomeSplatVisualizer"@.len() != "LEDDomeVolumeVisualizer"@.len());
        assert("LEDDomeSplatVisualizer"@ != "LEDDomeVolumeVisualizer"@);
        reveal_strlit("LEDDomeRadialVisualizer");
        assert("LEDDomeSplatVisualizer"@.len() != "LEDDomeRadialVisualizer"@.len());
        assert("LEDDomeSplatVisualizer"@ != "LEDDomeRadialVisualizer"@);
        reveal_strlit("LEDDomeRaceVisualizer");
        assert("LEDDomeSplatVisualizer"@.len() != "LEDDomeRaceVisualizer"@.len());
        assert("LEDDomeSplatVisualizer"@ != "LEDDomeRaceVisualizer"@);
        reveal_strlit("LEDDomeSnakesVisualizer");
        assert("LEDDomeSplatVisualizer"@.len() != "LEDDomeSnakesVisualizer"@.len());
        assert("LEDDomeSplatVisualizer"@ != "LEDDomeSnakesVisualizer"@);
    } else if index == 8 {
        reveal_strlit("LEDDomeTVStaticVisualizer");
        reveal_strlit("LEDDomeVolumeVisualizer");
        assert("LEDDomeTVStaticVisualizer"@.len() != "LEDDomeVolumeVisualizer"@.len());
        assert("LEDDomeTVStaticVisualizer"@ != "LEDDomeVolumeVisualizer"@);
        reveal_strlit("LEDDomeRadialVisualizer");
        assert("LEDDomeTVStaticVisualizer"@.len() != "LEDDomeRadialVisualizer"@.len());
        assert("LEDDomeTVStaticVisualizer"@ != "LEDDomeRadialVisualizer"@);
        reveal_strlit("LEDDomeRaceVisualizer");
        assert("LEDDomeTVStaticVisualizer"@.len() != "LEDDomeRaceVisualizer"@.len());
        assert("LEDDomeTVStaticVisualizer"@ != "LEDDomeRaceVisualizer"@);
        reveal_strlit("LEDDomeSnakesVisualizer");
        assert("LEDDomeTVStaticVisualizer"@.len() != "LEDDomeSnakesVisualizer"@.len());
        assert("LEDDomeTVStaticVisualizer"@ != "LEDDomeSnakesVisualizer"@);
        reveal_strlit("LEDDomeSplatVisualizer");
        assert("LEDDomeTVStaticVisualizer"@.len() != "LEDDomeSplatVisualizer"@.len());
        assert("LEDDomeTVStaticVisualizer"@ != "LEDDomeSplatVisualizer"@);
        reveal_strlit("LEDDomeQuaternionTestVisualizer");
        assert("LEDDomeTVStaticVisualizer"@.len() != "LEDDomeQuaternionTestVisualizer"@.len());
        assert("LEDDomeTVStaticVisualizer"@ != "LEDDomeQuaternionTestVisualizer"@);
        reveal_strlit("LEDDomeQuaternionMultiTestVisualizer");
        assert("LEDDomeTVStaticVisualizer"@.len() != "LEDDomeQuaternionMultiTestVisualizer"@.len());
        assert("LEDDomeTVStaticVisualizer"@ != "LEDDomeQuaternionMultiTestVisualizer"@);
        reveal_strlit("LEDDomeQuaternionPaintbrushVisualizer");
        assert("LEDDomeTVStaticVisualizer"@.len() != "LEDDomeQuaternionPaintbrushVisualizer"@.len());
        assert("LEDDomeTVStaticVisualizer"@ != "LEDDomeQuaternionPaintbrushVisualizer"@);
        reveal_strlit("LEDDomeFlashVisualizer");
        assert("LEDDomeTVStaticVisualizer"@.len() != "LEDDomeFlashVisualizer"@.len());
        assert("LEDDomeTVStaticVisualizer"@ != "LEDDomeFlashVisualizer"@);
    } else {
        reveal_strlit("LEDDomeVolumeVisualizer");
    }
}

/// Each dome test pattern's diagnostic name is drawn by a dome diagnostic
/// renderer.
pub proof fn law_test_pattern_renders_dome_diagnostic(test_pattern: u8)
    ensures
        dome_diagnostic_name_spec(test_pattern) matches Some(name) ==> scheduled_renderer_spec(name)
            matches Some(ScheduledRenderer::DomeDiagnostic(_)),
{
    if test_pattern == 1 {
        reveal_strlit("LEDDomeFlashColorsDiagnosticVisualizer");
        reveal_strlit("LEDDomeVolumeVisualizer");
        assert("LEDDomeFlashColorsDiagnosticVisualizer"@.len() != "LEDDomeVolumeVisualizer"@.len());
        assert("LEDDomeFlashColorsDiagnosticVisualizer"@ != "LEDDomeVolumeVisualizer"@);
        reveal_strlit("LEDDomeRadialVisualizer");
        assert("LEDDomeFlashColorsDiagnosticVisualizer"@.len() != "LEDDomeRadialVisualizer"@.len());
        assert("LEDDomeFlashColorsDiagnosticVisualizer"@ != "LEDDomeRadialVisualizer"@);
        reveal_strlit("LEDDomeRaceVisualizer");
        assert("LEDDomeFlashColorsDiagnosticVisualizer"@.len() != "LEDDomeRaceVisualizer"@.len());
        assert("LEDDomeFlashColorsDiagnosticVisualizer"@ != "LEDDomeRaceVisualizer"@);
        reveal_strlit("LEDDomeSnakesVisualizer");
        assert("LEDDomeFlashColorsDiagnosticVisualizer"@.len() != "LEDDomeSnakesVisualizer"@.len());
        assert("LEDDomeFlashColorsDiagnosticVisualizer"@ != "LEDDomeSnakesVisualizer"@);
        reveal_strlit("LEDDomeSplatVisualizer");
        assert("LEDDomeFlashColorsDiagnosticVisualizer"@.len() != "LEDDomeSplatVisualizer"@.len());
        assert("LEDDomeFlashColorsDiagnosticVisualizer"@ != "LEDDomeSplatVisualizer"@);
        reveal_strlit("LEDDomeQuaternionTestVisualizer");
        assert("LEDDomeFlashColorsDiagnosticVisualizer"@.len() != "LEDDomeQuaternionTestVisualizer"@.len());
        assert("LEDDomeFlashColorsDiagnosticVisualizer"@ != "LEDDomeQuaternionTestVisualizer"@);
        reveal_strlit("LEDDomeQuaternionMultiTestVisualizer");
        assert("LEDDomeFlashColorsDiagnosticVisualizer"@.len() != "LEDDomeQuaternionMultiTestVisualizer"@.len());
        assert("LEDDomeFlashColorsDiagnosticVisualizer"@ != "LEDDomeQuaternionMultiTestVisualizer"@);
        reveal_strlit("LEDDomeQuaternionPaintbrushVisualizer");
        assert("LEDDomeFlashColorsDiagnosticVisualizer"@.len() != "LEDDomeQuaternionPaintbrushVisualizer"@.len());
        assert("LEDDomeFlashColorsDiagnosticVisualizer"@ != "LEDDomeQuaternionPaintbrushVisualizer"@);
        reveal_strlit("LEDDomeFlashVisualizer");
        assert("LEDDomeFlashColorsDiagnosticVisualizer"@.len() != "LEDDomeFlashVisualizer"@.len());
        assert("LEDDomeFlashColorsDiagnosticVisualizer"@ != "LEDDomeFlashVisualizer"@);
        reveal_strlit("LEDDomeTVStaticVisualizer");
        assert("LEDDomeFlashColorsDiagnosticVisualizer"@.len() != "LEDDomeTVStaticVisualizer"@.len());
        assert("LEDDomeFlashColorsDiagnosticVisualizer"@ != "LEDDomeTVStaticVisualizer"@);
    } else if test_pattern == 2 {
        reveal_strlit("LEDDomeStrutIterationDiagnosticVisualizer");
        reveal_strlit("LEDDomeVolumeVisualizer");
        assert("LEDDomeStrutIterationDiagnosticVisualizer"@.len() != "LEDDomeVolumeVisualizer"@.len());
        assert("LEDDomeStrutIterationDiagnosticVisualizer"@ != "LEDDomeVolumeVisualizer"@);
        reveal_strlit("LEDDomeRadialVisualizer");
        assert("LEDDomeStrutIterationDiagnosticVisualizer"@.len() != "LEDDomeRadialVisualizer"@.len());
        assert("LEDDomeStrutIterationDiagnosticVisualizer"@ != "LEDDomeRadialVisualizer"@);
        reveal_strlit("LEDDomeRaceVisualizer");
        assert("LEDDomeStrutIterationDiagnosticVisualizer"@.len() != "LEDDomeRaceVisualizer"@.len());
        assert("LEDDomeStrutIterationDiagnosticVisualizer"@ != "LEDDomeRaceVisualizer"@);
        reveal_strlit("LEDDomeSnakesVisualizer");
        assert("LEDDomeStrutIterationDiagnosticVisualizer"@.len() != "LEDDomeSnakesVisualizer"@.len());
        assert("LEDDomeStrutIterationDiagnosticVisualizer"@ != "LEDDomeSnakesVisualizer"@);
        reveal_strlit("LEDDomeSplatVisualizer");
        assert("LEDDomeStrutIterationDiagnosticVisualizer"@.len() != "LEDDomeSplatVisualizer"@.len());
        assert("LEDDomeStrutIterationDiagnosticVisualizer"@ != "LEDDomeSplatVisualizer"@);
        reveal_strlit("LEDDomeQuaternionTestVisualizer");
        assert("LEDDomeStrutIterationDiagnosticVisualizer"@.len() != "LEDDomeQuaternionTestVisualizer"@.len());
        assert("LEDDomeStrutIterationDiagnosticVisualizer"@ != "LEDDomeQuaternionTestVisualizer"@);
        reveal_strlit("LEDDomeQuaternionMultiTestVisualizer");
        assert("LEDDomeStrutIterationDiagnosticVisualizer"@.len() != "LEDDomeQuaternionMultiTestVisualizer"@.len());
        assert("LEDDomeStrutIterationDiagnosticVisualizer"@ != "LEDDomeQuaternionMultiTestVisualizer"@);
        reveal_strlit("LEDDomeQuaternionPaintbrushVisualizer");
        assert("LEDDomeStrutIterationDiagnosticVisualizer"@.len() != "LEDDomeQuaternionPaintbrushVisualizer"@.len());
        assert("LEDDomeStrutIterationDiagnosticVisualizer"@ != "LEDDomeQuaternionPaintbrushVisualizer"@);
        reveal_strlit("LEDDomeFlashVisualizer");
        assert("LEDDomeStrutIterationDiagnosticVisualizer"@.len() != "LEDDomeFlashVisualizer"@.len());
        assert("LEDDomeStrutIterationDiagnosticVisualizer"@ != "LEDDomeFlashVisualizer"@);
        reveal_strlit("LEDDomeTVStaticVisualizer");
        assert("LEDDomeStrutIterationDiagnosticVisualizer"@.len() != "LEDDomeTVStaticVisualizer"@.len());
        assert("LEDDomeStrutIterationDiagnosticVisualizer"@ != "LEDDomeTVStaticVisualizer"@);
        reveal_strlit("LEDDomeFlashColorsDiagnosticVisualizer");
        assert("LEDDomeStrutIterationDiagnosticVisualizer"@.len() != "LEDDomeFlashColorsDiagnosticVisualizer"@.len());
        assert("LEDDomeStrutIterationDiagnosticVisualizer"@ != "LEDDomeFlashColorsDiagnosticVisualizer"@);
    } else if test_pattern == 3 {
        reveal_strlit("LEDDomeStrandTestDiagnosticVisualizer");
        reveal_strlit("LEDDomeVolumeVisualizer");
        assert("LEDDomeStrandTestDiagnosticVisualizer"@.len() != "LEDDomeVolumeVisualizer"@.len());
        assert("LEDDomeStrandTestDiagnosticVisualizer"@ != "LEDDomeVolumeVisualizer"@);
        reveal_strlit("LEDDomeRadialVisualizer");
        assert("LEDDomeStrandTestDiagnosticVisualizer"@.len() != "LEDDomeRadialVisualizer"@.len());
        assert("LEDDomeStrandTestDiagnosticVisualizer"@ != "LEDDomeRadialVisualizer"@);
        reveal_strlit("LEDDomeRaceVisualizer");
        assert("LEDDomeStrandTestDiagnosticVisualizer"@.len() != "LEDDomeRaceVisualizer"@.len());
        assert("LEDDomeStrandTestDiagnosticVisualizer"@ != "LEDDomeRaceVisualizer"@);
        reveal_strlit("LEDDomeSnakesVisualizer");
        assert("LEDDomeStrandTestDiagnosticVisualizer"@.len() != "LEDDomeSnakesVisualizer"@.len());
        assert("LEDDomeStrandTestDiagnosticVisualizer"@ != "LEDDomeSnakesVisualizer"@);
        reveal_strlit("LEDDomeSplatVisualizer");
        assert("LEDDomeStrandTestDiagnosticVisualizer"@.len() != "LEDDomeSplatVisualizer"@.len());
        assert("LEDDomeStrandTestDiagnosticVisualizer"@ != "LEDDomeSplatVisualizer"@);
        reveal_strlit("LEDDomeQuaternionTestVisualizer");
        assert("LEDDomeStrandTestDiagnosticVisualizer"@.len() != "LEDDomeQuaternionTestVisualizer"@.len());
        assert("LEDDomeStrandTestDiagnosticVisualizer"@ != "LEDDomeQuaternionTestVisualizer"@);
        reveal_strlit("LEDDomeQuaternionMultiTestVisualizer");
        assert("LEDDomeStrandTestDiagnosticVisualizer"@.len() != "LEDDomeQuaternionMultiTestVisualizer"@.len());
        assert("LEDDomeStrandTestDiagnosticVisualizer"@ != "LEDDomeQuaternionMultiTestVisualizer"@);
        reveal_strlit("LEDDomeQuaternionPaintbrushVisualizer");
        assert("LEDDomeStrandTestDiagnosticVisualizer"@[7] != "LEDDomeQuaternionPaintbrushVisualizer"@[7]);
        assert("LEDDomeStrandTestDiagnosticVisualizer"@ != "LEDDomeQuaternionPaintbrushVisualizer"@);
        reveal_strlit("LEDDomeFlashVisualizer");
        assert("LEDDomeStrandTestDiagnosticVisualizer"@.len() != "LEDDomeFlashVisualizer"@.len());
        assert("LEDDomeStrandTestDiagnosticVisualizer"@ != "LEDDomeFlashVisualizer"@);
        reveal_strlit("LEDDomeTVStaticVisualizer");
        assert("LEDDomeStrandTestDiagnosticVisualizer"@.len() != "LEDDomeTVStaticVisualizer"@.len());
        assert("LEDDomeStrandTestDiagnosticVisualizer"@ != "LEDDomeTVStaticVisualizer"@);
        reveal_strlit("LEDDomeFlashColorsDiagnosticVisualizer");
        assert("LEDDomeStrandTestDiagnosticVisualizer"@.len() != "LEDDomeFlashColorsDiagnosticVisualizer"@.len());
        assert("LEDDomeStrandTestDiagnosticVisualizer"@ != "LEDDomeFlashColorsDiagnosticVisualizer"@);
        reveal_strlit("LEDDomeStrutIterationDiagnosticVisualizer");
        assert("LEDDomeStrandTestDiagnosticVisualizer"@.len() != "LEDDomeStrutIterationDiagnosticVisualizer"@.len());
        assert("LEDDomeStrandTestDiagnosticVisualizer"@ != "LEDDomeStrutIterationDiagnosticVisualizer"@);
    } else if test_pattern == 4 {
        reveal_strlit("LEDDomeFullColorFlashDiagnosticVisualizer");
        reveal_strlit("LEDDomeVolumeVisualizer");
        assert("LEDDomeFullColorFlashDiagnosticVisualizer"@.len() != "LEDDomeVolumeVisualizer"@.len());
        assert("LEDDomeFullColorFlashDiagnosticVisualizer"@ != "LEDDomeVolumeVisualizer"@);
        reveal_strlit("LEDDomeRadialVisualizer");
        assert("LEDDomeFullColorFlashDiagnosticVisualizer"@.len() != "LEDDomeRadialVisualizer"@.len());
        assert("LEDDomeFullColorFlashDiagnosticVisualizer"@ != "LEDDomeRadialVisualizer"@);
        reveal_strlit("LEDDomeRaceVisualizer");
        assert("LEDDomeFullColorFlashDiagnosticVisualizer"@.len() != "LEDDomeRaceVisualizer"@.len());
        assert("LEDDomeFullColorFlashDiagnosticVisualizer"@ != "LEDDomeRaceVisualizer"@);
        reveal_strlit("LEDDomeSnakesVisualizer");
        assert("LEDDomeFullColorFlashDiagnosticVisualizer"@.len() != "LEDDomeSnakesVisualizer"@.len());
        assert("LEDDomeFullColorFlashDiagnosticVisualizer"@ != "LEDDomeSnakesVisualizer"@);
        reveal_strlit("LEDDomeSplatVisualizer");
        assert("LEDDomeFullColorFlashDiagnosticVisualizer"@.len() != "LEDDomeSplatVisualizer"@.len());
        assert("LEDDomeFullColorFlashDiagnosticVisualizer"@ != "LEDDomeSplatVisualizer"@);
        reveal_strlit("LEDDomeQuaternionTestVisualizer");
        assert("LEDDomeFullColorFlashDiagnosticVisualizer"@.len() != "LEDDomeQuaternionTestVisualizer"@.len());
        assert("LEDDomeFullColorFlashDiagnosticVisualizer"@ != "LEDDomeQuaternionTestVisualizer"@);
        reveal_strlit("LEDDomeQuaternionMultiTestVisualizer");
        assert("LEDDomeFullColorFlashDiagnosticVisualizer"@.len() != "LEDDomeQuaternionMultiTestVisualizer"@.len());
        assert("LEDDomeFullColorFlashDiagnosticVisualizer"@ != "LEDDomeQuaternionMultiTestVisualizer"@);
        reveal_strlit("LEDDomeQuaternionPaintbrushVisualizer");
        assert("LEDDomeFullColorFlashDiagnosticVisualizer"@.len() != "LEDDomeQuaternionPaintbrushVisualizer"@.len());
        assert("LEDDomeFullColorFlashDiagnosticVisualizer"@ != "LEDDomeQuaternionPaintbrushVisualizer"@);
        reveal_strlit("LEDDomeFlashVisualizer");
        assert("LEDDomeFullColorFlashDiagnosticVisualizer"@.len() != "LEDDomeFlashVisualizer"@.len());
        assert("LEDDomeFullColorFlashDiagnosticVisualizer"@ != "LEDDomeFlashVisualizer"@);
        reveal_strlit("LEDDomeTVStaticVisualizer");
        assert("LEDDomeFullColorFlashDiagnosticVisualizer"@.len() != "LEDDomeTVStaticVisualizer"@.len());
        assert("LEDDomeFullColorFlashDiagnosticVisualizer"@ != "LEDDomeTVStaticVisualizer"@);
        reveal_strlit("LEDDomeFlashColorsDiagnosticVisualizer");
        assert("LEDDomeFullColorFlashDiagnosticVisualizer"@.len() != "LEDDomeFlashColorsDiagnosticVisualizer"@.len());
        assert("LEDDomeFullColorFlashDiagnosticVisualizer"@ != "LEDDomeFlashColorsDiagnosticVisualizer"@);
        reveal_strlit("LEDDomeStrutIterationDiagnosticVisualizer");
        assert("LEDDomeFullColorFlashDiagnosticVisualizer"@[7] != "LEDDomeStrutIterationDiagnosticVisualizer"@[7]);
        assert("LEDDomeFullColorFlashDiagnosticVisualizer"@ != "LEDDomeStrutIterationDiagnosticVisualizer"@);
        reveal_strlit("LEDDomeStrandTestDiagnosticVisualizer");
        assert("LEDDomeFullColorFlashDiagnosticVisualizer"@.len() != "LEDDomeStrandTestDiagnosticVisualizer"@.len());
        assert("LEDDomeFullColorFlashDiagnosticVisualizer"@ != "LEDDomeStrandTestDiagnosticVisualizer"@);
    }
}

/// A visualizer offered to the operator's scheduler: its name, priority
/// and the inputs it needs.
#[derive(Clone, Debug)]
pub struct FullVisualizerSpec {
    /// Stable visualizer name.
    pub name: &'static str,
    /// Priority; 1000 marks a diagnostic that overrides normal modes.
    pub priority: i32,
    /// Names of the inputs it needs.
    pub inputs: Vec<&'static str>,
}

/// An input as the operator's scheduler sees it.
#[derive(Clone, Copy, Debug)]
pub struct InputSpec {
    /// Input name.
    pub name: &'static str,
    /// Whether the input is enabled.
    pub enabled: bool,
    /// Whether the input counts as active whether or not it sends anything.
    pub always_active: bool,
}

/// An output and the visualizers offered on it.
#[derive(Clone, Debug)]
pub struct OutputSpec {
    /// Output name.
    pub name: &'static str,
    /// Whether the output is drawn, on hardware or in the simulator.
    pub enabled: bool,
    /// Visualizers offered on this output.
    pub visualizers: Vec<FullVisualizerSpec>,
}

/// The fixture settings the offered visualizers depend on.
#[derive(Clone, Copy, Debug)]
pub struct OutputSettings {
    /// Dome hardware output.
    pub dome_enabled: bool,
    /// Dome simulator output.
    pub dome_simulation_enabled: bool,
    /// Active dome visualizer index.
    pub dome_active_visualizer: u8,
    /// Dome diagnostic pattern.
    pub dome_test_pattern: u8,
    /// Bar hardware output.
    pub bar_enabled: bool,
    /// Bar simulator output.
    pub bar_simulation_enabled: bool,
    /// Bar diagnostic pattern.
    pub bar_test_pattern: u8,
    /// Stage hardware output.
    pub stage_enabled: bool,
    /// Stage simulator output.
    pub stage_simulation_enabled: bool,
    /// Stage diagnostic pattern.
    pub stage_test_pattern: u8,
}

/// Name, priority and input names of an offered visualizer.
pub type OfferView = (Seq<char>, i32, Seq<Seq<char>>);

/// The view of an offered visualizer.
pub open spec fn offer_view(v: FullVisualizerSpec) -> OfferView {
    (v.name@, v.priority, v.inputs@.map_values(|s: &'static str| s@))
}

/// The views of a list of offered visualizers.
pub open spec fn offer_views(v: Seq<FullVisualizerSpec>) -> Seq<OfferView> {
    v.map_values(|x: FullVisualizerSpec| offer_view(x))
}

/// The dome's offered visualizers: the selected one and the flash overlay
/// at priority 2, TV static at 1, and the selected diagnostic at 1000.
pub open spec fn dome_visualizers_spec(active_visualizer: u8, test_pattern: u8) -> Seq<OfferView> {
    let base = seq![
        (dome_visualizer_name_spec(active_visualizer), 2i32, dome_visualizer_inputs_spec(active_visualizer)),
        ("LEDDomeFlashVisualizer"@, 2i32, seq!["audio"@, "midi"@]),
        ("LEDDomeTVStaticVisualizer"@, 1i32, Seq::<Seq<char>>::empty()),
    ];
    match dome_diagnostic_name_spec(test_pattern) {
        Some(name) => base.push((name, 1000i32, Seq::<Seq<char>>::empty())),
        None => base,
    }
}

fn offer(name: &'static str, priority: i32, inputs: Vec<&'static str>) -> (r: FullVisualizerSpec)
    ensures
        r.name == name,
        r.priority == priority,
        r.inputs@ == inputs@,
{
    FullVisualizerSpec { name, priority, inputs }
}

/// The visualizers offered on the dome.
pub fn dome_visualizers(active_visualizer: u8, test_pattern: u8) -> (r: Vec<FullVisualizerSpec>)
    ensures
        offer_views(r@) == dome_visualizers_spec(active_visualizer, test_pattern),
{
    let mut v: Vec<FullVisualizerSpec> = Vec::new();
    v.push(offer(
        active_dome_visualizer_name(active_visualizer),
        2,
        active_dome_visualizer_inputs(active_visualizer),
    ));
    let mut flash_inputs: Vec<&'static str> = Vec::new();
    flash_inputs.push("audio");
    flash_inputs.push("midi");
    v.push(offer("LEDDomeFlashVisualizer", 2, flash_inputs));
    v.push(offer("LEDDomeTVStaticVisualizer", 1, Vec::new()));
    match dome_diagnostic_name(test_pattern) {
        Some(name) => {
            v.push(offer(name, 1000, Vec::new()));
        },
        None => {},
    }
    assert(offer_views(v@) =~~= dome_visualizers_spec(active_visualizer, test_pattern));
    v
}

/// The bar's offered visualizers: its flash-colors diagnostic under
/// pattern 1, else none.
pub open spec fn bar_visualizers_spec(test_pattern: u8) -> Seq<OfferView> {
    if test_pattern == 1 {
        seq![("LEDBarFlashColorsDiagnosticVisualizer"@, 1000i32, Seq::<Seq<char>>::empty())]
    } else {
        Seq::empty()
    }
}

/// The visualizers offered on the bar.
pub fn bar_visualizers(test_pattern: u8) -> (r: Vec<FullVisualizerSpec>)
    ensures
        offer_views(r@) == bar_visualizers_spec(test_pattern),
{
    let mut v: Vec<FullVisualizerSpec> = Vec::new();
    if test_pattern == 1 {
        v.push(offer("LEDBarFlashColorsDiagnosticVisualizer", 1000, Vec::new()));
    }
    assert(offer_views(v@) =~~= bar_visualizers_spec(test_pattern));
    v
}

/// The stage's offered visualizers: the depth level at priority 3, and its
/// flash-colors diagnostic under pattern 1.
pub open spec fn stage_visualizers_spec(test_pattern: u8) -> Seq<OfferView> {
    let base = seq![("LEDStageDepthLevelVisualizer"@, 3i32, seq!["audio"@])];
    if test_pattern == 1 {
        base.push(("LEDStageFlashColorsDiagnosticVisualizer"@, 1000i32, Seq::<Seq<char>>::empty()))
    } else {
        base
    }
}

/// The visualizers offered on the stage.
pub fn stage_visualizers(test_pattern: u8) -> (r: Vec<FullVisualizerSpec>)
    ensures
        offer_views(r@) == stage_visualizers_spec(test_pattern),
{
    let mut v: Vec<FullVisualizerSpec> = Vec::new();
    let mut inputs: Vec<&'static str> = Vec::new();
    inputs.push("audio");
    v.push(offer("LEDStageDepthLevelVisualizer", 3, inputs));
    if test_pattern == 1 {
        v.push(offer("LEDStageFlashColorsDiagnosticVisualizer", 1000, Vec::new()));
    }
    assert(offer_views(v@) =~~= stage_visualizers_spec(test_pattern));
    v
}

/// Name, enabled flag and always-active flag of an input.
pub open spec fn input_view(i: InputSpec) -> (Seq<char>, bool, bool) {
    (i.name@, i.enabled, i.always_active)
}

/// The operator's inputs: audio and orientation always active, MIDI
/// enabled while the flash overlay is on.
pub fn input_specs(flash_active: bool) -> (r: Vec<InputSpec>)
    ensures
        r@.map_values(|i: InputSpec| input_view(i)) == seq![
            ("audio"@, true, true),
            ("midi"@, flash_active, false),
            ("orientation"@, true, true),
        ],
{
    let mut v: Vec<InputSpec> = Vec::new();
    v.push(InputSpec { name: "audio", enabled: true, always_active: true });
    v.push(InputSpec { name: "midi", enabled: flash_active, always_active: false });
    v.push(InputSpec { name: "orientation", enabled: true, always_active: true });
    assert(v@.map_values(|i: InputSpec| input_view(i)) == seq![
        ("audio"@, true, true),
        ("midi"@, flash_active, false),
        ("orientation"@, true, true),
    ]);
    v
}

/// Name, enabled flag and offered visualizers of an output.
pub open spec fn output_view(o: OutputSpec) -> (Seq<char>, bool, Seq<OfferView>) {
    (o.name@, o.enabled, offer_views(o.visualizers@))
}

/// The operator's outputs: the dome, the bar and the stage, each drawn
/// when its hardware or simulator output is on.
pub fn output_specs(settings: OutputSettings) -> (r: Vec<OutputSpec>)
    ensures
        r@.map_values(|o: OutputSpec| output_view(o)) == seq![
            (
                "dome"@,
                settings.dome_enabled || settings.dome_simulation_enabled,
                dome_visualizers_spec(settings.dome_active_visualizer, settings.dome_test_pattern),
            ),
            (
                "bar"@,
                settings.bar_enabled || settings.bar_simulation_enabled,
                bar_visualizers_spec(settings.bar_test_pattern),
            ),
            (
                "stage"@,
                settings.stage_enabled || settings.stage_simulation_enabled,
                stage_visualizers_spec(settings.stage_test_pattern),
            ),
        ],
{
    let mut v: Vec<OutputSpec> = Vec::new();
    v.push(
        OutputSpec {
            name: "dome",
            enabled: settings.dome_enabled || settings.dome_simulation_enabled,
            visualizers: dome_visualizers(settings.dome_active_visualizer, settings.dome_test_pattern),
        },
    );
    v.push(
        OutputSpec {
            name: "bar",
            enabled: settings.bar_enabled || settings.bar_simulation_enabled,
            visualizers: bar_visualizers(settings.bar_test_pattern),
        },
    );
    v.push(
        OutputSpec {
            name: "stage",
            enabled: settings.stage_enabled || settings.stage_simulation_enabled,
            visualizers: stage_visualizers(settings.stage_test_pattern),
        },
    );
    assert(v@.map_values(|o: OutputSpec| output_view(o)) == seq![
        (
            "dome"@,
            settings.dome_enabled || settings.dome_simulation_enabled,
            dome_visualizers_spec(settings.dome_active_visualizer, settings.dome_test_pattern),
        ),
        (
            "bar"@,
            settings.bar_enabled || settings.bar_simulation_enabled,
            bar_visualizers_spec(settings.bar_test_pattern),
        ),
        (
            "stage"@,
            settings.stage_enabled || settings.stage_simulation_enabled,
            stage_visualizers_spec(settings.stage_test_pattern),
        ),
    ]);
    v
}

/// A dome diagnostic overrides the normal dome modes: when a test pattern
/// selects one and its inputs are on, scheduling the dome's offered
/// visualizers (whichever of the others are enabled) selects the
/// diagnostic alone.
pub proof fn law_dome_diagnostic_overrides(
    active_visualizer: u8,
    test_pattern: u8,
    specs: Seq<VisualizerSpec>,
)
    requires
        dome_diagnostic_name_spec(test_pattern) is Some,
        specs.len() == dome_visualizers_spec(active_visualizer, test_pattern).len(),
        forall|k: int|
            0 <= k < specs.len() ==> (#[trigger] specs[k]).name@ == dome_visualizers_spec(
                active_visualizer,
                test_pattern,
            )[k].0 && specs[k].priority == dome_visualizers_spec(active_visualizer, test_pattern)[k].1,
        specs[specs.len() - 1].inputs_enabled,
    ensures
        scheduled_names(specs).len() == 1,
        scheduled_names(specs)[0]@ == dome_diagnostic_name_spec(test_pattern)->0,
{
    let offers = dome_visualizers_spec(active_visualizer, test_pattern);
    assert(specs.len() == 4);
    assert(specs[0].priority == 2 && specs[1].priority == 2 && specs[2].priority == 1
        && specs[3].priority == 1000) by {
        assert(specs[0].priority == offers[0].1);
        assert(specs[1].priority == offers[1].1);
        assert(specs[2].priority == offers[2].1);
        assert(specs[3].priority == offers[3].1);
    }
    assert(specs[3].name@ == offers[3].0);
    reveal_with_fuel(top_priority, 5);
    reveal_with_fuel(names_at, 5);
    assert(specs.drop_last().drop_last().drop_last().drop_last().len() == 0);
    assert(top_priority(specs) == 1000);
    assert(names_at(specs.drop_last(), 1000) == Seq::<&'static str>::empty());
    assert(names_at(specs, 1000) == seq![specs[3].name]);
    assert(names_at(specs, -1i32) == Seq::<&'static str>::empty());
    assert(scheduled_names(specs) == seq![specs[3].name]);
}

/// Pixels behind one dome control box: eight strands of 214.
pub const DOME_CONTROL_BOX_PIXEL_COUNT: usize = 214 * 8;

/// Size of the dome's output frame in pixels: five control boxes, or six
/// when the bar shares the dome's output.
pub fn dome_pixel_count(bar_enabled: bool) -> (r: usize)
    ensures
        r == (if bar_enabled {
            6int
        } else {
            5int
        }) * DOME_CONTROL_BOX_PIXEL_COUNT,
{
    let control_boxes: usize = if bar_enabled {
        6
    } else {
        5
    };
    control_boxes * DOME_CONTROL_BOX_PIXEL_COUNT
}

/// The LEDs of stage triangle `t`: its (up to) three sides together.
pub open spec fn triangle_sum(lens: Seq<u32>, t: int) -> int {
    let a = 3 * t;
    (if a < lens.len() {
        lens[a] as int
    } else {
        0
    }) + (if a + 1 < lens.len() {
        lens[a + 1] as int
    } else {
        0
    }) + (if a + 2 < lens.len() {
        lens[a + 2] as int
    } else {
        0
    })
}

/// The most LEDs of any of the first `n` triangles, 0 if none.
pub open spec fn largest_triangle(lens: Seq<u32>, n: nat) -> int
    decreases n,
{
    if n == 0 {
        0
    } else {
        let prev = largest_triangle(lens, (n - 1) as nat);
        let here = triangle_sum(lens, n - 1);
        if here > prev {
            here
        } else {
            prev
        }
    }
}

/// Number of triangles the sides make, the last possibly short.
pub open spec fn triangle_count(len: nat) -> nat {
    ((len + 2) / 3) as nat
}

/// The largest of the first `n` triangles is at least each of them, and is
/// one of them (0 when there are none).
pub proof fn law_largest_triangle_is_the_maximum(lens: Seq<u32>, n: nat)
    ensures
        forall|t: int| 0 <= t < n ==> #[trigger] triangle_sum(lens, t) <= largest_triangle(lens, n),
        n == 0 ==> largest_triangle(lens, n) == 0,
        n > 0 ==> exists|t: int|
            0 <= t < n && largest_triangle(lens, n) == #[trigger] triangle_sum(lens, t),
    decreases n,
{
    if n > 0 {
        law_largest_triangle_is_the_maximum(lens, (n - 1) as nat);
        let here = triangle_sum(lens, n - 1);
        assert(here >= 0);
        if n == 1 {
            assert(largest_triangle(lens, 0) == 0);
            if here > 0 {
                assert(largest_triangle(lens, n) == triangle_sum(lens, 0));
            } else {
                assert(largest_triangle(lens, n) == triangle_sum(lens, 0));
            }
        } else {
            let prev = largest_triangle(lens, (n - 1) as nat);
            if here > prev {
                assert(largest_triangle(lens, n) == triangle_sum(lens, n - 1));
            } else {
                let t = choose|t: int|
                    0 <= t < n - 1 && prev == #[trigger] triangle_sum(lens, t);
                assert(largest_triangle(lens, n) == triangle_sum(lens, t));
            }
        }
    }
}

/// The stage's frame holds 48 pixels for each LED of its largest triangle:
/// at least that many for every triangle, and exactly that many for one of
/// them (none without sides).
pub proof fn law_stage_frame_fits_every_triangle(lens: Seq<u32>)
    ensures
        forall|t: int|
            0 <= t < triangle_count(lens.len()) ==> #[trigger] triangle_sum(lens, t) * 48
                <= largest_triangle(lens, triangle_count(lens.len())) * 48,
        lens.len() == 0 ==> largest_triangle(lens, triangle_count(lens.len())) == 0,
        lens.len() > 0 ==> exists|t: int|
            0 <= t < triangle_count(lens.len()) && largest_triangle(
                lens,
                triangle_count(lens.len()),
            ) == #[trigger] triangle_sum(lens, t),
{
    law_largest_triangle_is_the_maximum(lens, triangle_count(lens.len()));
}

/// Size of the stage's output frame in pixels: the largest triangle's
/// LEDs, on each of three layers, for sixteen strands.
pub fn stage_pixel_count(side_lengths: &[u32]) -> (r: usize)
    requires
        forall|t: int|
            0 <= t < triangle_count(side_lengths@.len()) ==> #[trigger] triangle_sum(
                side_lengths@,
                t,
            ) <= u32::MAX,
        largest_triangle(side_lengths@, triangle_count(side_lengths@.len())) * 48 <= usize::MAX,
    ensures
        r == largest_triangle(side_lengths@, triangle_count(side_lengths@.len())) * 48,
{
    let n = side_lengths.len();
    let ghost lens = side_lengths@;
    let mut best: u32 = 0;
    let mut i: usize = 0;
    let ghost mut t: nat = 0;
    while i < n
        invariant
            n == lens.len(),
            lens == side_lengths@,
            i < n ==> i == 3 * t,
            i <= n,
            t <= triangle_count(lens.len()),
            i < n ==> t < triangle_count(lens.len()),
            i >= n ==> t == triangle_count(lens.len()),
            best == largest_triangle(lens, t),
            forall|u: int|
                0 <= u < triangle_count(lens.len()) ==> #[trigger] triangle_sum(lens, u)
                    <= u32::MAX,
        decreases n - i,
    {
        assert(triangle_sum(lens, t as int) <= u32::MAX);
        let mut sum: u32 = side_lengths[i];
        if n - i > 1 {
            sum = sum + side_lengths[i + 1];
        }
        if n - i > 2 {
            sum = sum + side_lengths[i + 2];
        }
        assert(sum == triangle_sum(lens, t as int));
        if sum > best {
            best = sum;
        }
        proof {
            t = t + 1;
        }
        if n - i > 3 {
            i = i + 3;
        } else {
            i = n;
            assert(t == triangle_count(lens.len()));
        }
    }
    (best as usize) * 48
}

} // verus!
