//! Configuration model: input adapters, MIDI bindings, tempo source and
//! the palette layout of native configs.
use vstd::prelude::*;

use crate::color::{solid_entry, ColorPalette, PaletteEntry, ENTRY_COUNT};
use crate::scan::{find_chars, find_from};
use crate::text::chars_of;
use crate::xml::{
    adsr_binding_index, adsr_binding_index_spec, bool_tag, bool_tag_spec, color_palette,
    color_palette_spec, localhost_opc_address, localhost_opc_address_spec, stage_side_lengths,
    stage_side_lengths_spec, string_tag, tag_value, tag_value_spec, u32_tag, u8_tag,
    unsigned_tag_spec,
};

verus! {

/// Live input adapter config.
#[derive(Clone, Debug)]
pub struct InputConfig {
    /// Audio input source and selected device config.
    pub audio: AudioInputConfig,
    /// MIDI command source and binding config.
    pub midi: MidiInputConfig,
    /// Optional UDP orientation datagram source.
    pub orientation: UdpInputConfig,
}

/// Optional UDP input binding.
#[derive(Clone, Debug)]
pub struct UdpInputConfig {
    /// Bind address. When unset, this input adapter is disabled.
    pub bind: Option<String>,
}

/// Audio input config.
#[derive(Clone, Debug)]
pub struct AudioInputConfig {
    /// Optional UDP volume bind. When unset, the UDP bridge is disabled.
    pub bind: Option<String>,
    /// Enable native audio capture.
    pub native_enabled: bool,
    /// Stable audio endpoint id.
    pub device_id: Option<String>,
    /// Optional endpoint list, standing in for the machine's devices.
    pub devices: Vec<AudioDeviceConfig>,
}

/// Configured audio endpoint.
#[derive(Clone, Debug)]
pub struct AudioDeviceConfig {
    /// Stable endpoint id.
    pub id: String,
    /// Friendly display name.
    pub name: String,
    /// Endpoint flow.
    pub flow: AudioDeviceFlowConfig,
}

/// Configured endpoint flow.
#[derive(Clone, Copy, Debug, PartialEq, Eq, Structural)]
pub enum AudioDeviceFlowConfig {
    /// Capture/recording endpoint.
    Capture,
    /// Render/playback endpoint.
    Render,
}

/// MIDI input binding config.
#[derive(Clone, Debug)]
pub struct MidiInputConfig {
    /// Bind address. When unset, this input adapter is disabled.
    pub bind: Option<String>,
    /// Enable native MIDI capture.
    pub native_enabled: bool,
    /// Optional native MIDI port name to open.
    pub device_id: Option<String>,
    /// Runtime MIDI bindings.
    pub bindings: Vec<MidiBindingConfig>,
}

/// MIDI command kind used by config bindings.
#[derive(Clone, Copy, Debug, PartialEq, Eq, Structural)]
pub enum MidiBindingCommandKind {
    /// Note on/off command.
    Note,
    /// Continuous controller command.
    ControlChange,
    /// Program change command.
    Program,
}

/// Runtime action driven by a MIDI binding.
#[derive(Clone, Copy, Debug, PartialEq, Eq, Structural)]
pub enum MidiBindingAction {
    /// Toggle flash overlay from command value.
    Flash,
    /// Set normalized volume from command value.
    Volume,
    /// Trigger tap tempo when command value is positive.
    TapTempo,
    /// Select color palette.
    Palette,
    /// Select dome visualizer.
    Visualizer,
    /// Trigger ADSR MIDI level-driver channels; `index` is the first note of
    /// an 8-note range.
    AdsrLevelDriver,
}

/// One MIDI command binding.
#[derive(Clone, Copy, Debug, PartialEq, Eq, Structural)]
pub struct MidiBindingConfig {
    /// Optional MIDI device index. When unset, the binding applies to every device.
    pub device_index: Option<u8>,
    /// MIDI command kind.
    pub command_kind: MidiBindingCommandKind,
    /// Note/controller/program index.
    pub index: u8,
    /// Runtime action.
    pub action: MidiBindingAction,
    /// Optional fixed target index for palette/visualizer actions.
    pub target_index: Option<u8>,
}

/// A binding of `kind` and `index` to `action` for every device.
pub open spec fn any_device_binding(
    kind: MidiBindingCommandKind,
    index: u8,
    action: MidiBindingAction,
) -> MidiBindingConfig {
    MidiBindingConfig {
        device_index: None,
        command_kind: kind,
        index,
        action,
        target_index: None,
    }
}

/// The built-in bindings: note 64 flashes, controller 1 sets the volume and
/// notes from 48 drive the ADSR level drivers.
pub open spec fn default_bindings() -> Seq<MidiBindingConfig> {
    seq![
        any_device_binding(MidiBindingCommandKind::Note, 64, MidiBindingAction::Flash),
        any_device_binding(MidiBindingCommandKind::ControlChange, 1, MidiBindingAction::Volume),
        any_device_binding(MidiBindingCommandKind::Note, 48, MidiBindingAction::AdsrLevelDriver),
    ]
}

impl Default for MidiInputConfig {
    fn default() -> (c: MidiInputConfig)
        ensures
            c.bind is None,
            !c.native_enabled,
            c.device_id is None,
            c.bindings@ == default_bindings(),
    {
        let mut bindings: Vec<MidiBindingConfig> = Vec::new();
        bindings.push(
            MidiBindingConfig {
                device_index: None,
                command_kind: MidiBindingCommandKind::Note,
                index: 64,
                action: MidiBindingAction::Flash,
                target_index: None,
            },
        );
        bindings.push(
            MidiBindingConfig {
                device_index: None,
                command_kind: MidiBindingCommandKind::ControlChange,
                index: 1,
                action: MidiBindingAction::Volume,
                target_index: None,
            },
        );
        bindings.push(
            MidiBindingConfig {
                device_index: None,
                command_kind: MidiBindingCommandKind::Note,
                index: 48,
                action: MidiBindingAction::AdsrLevelDriver,
                target_index: None,
            },
        );
        assert(bindings@ == default_bindings());
        MidiInputConfig { bind: None, native_enabled: false, device_id: None, bindings }
    }
}

impl Default for UdpInputConfig {
    fn default() -> (c: UdpInputConfig)
        ensures
            c.bind is None,
    {
        UdpInputConfig { bind: None }
    }
}

impl Default for AudioInputConfig {
    fn default() -> (c: AudioInputConfig)
        ensures
            c.bind is None,
            !c.native_enabled,
            c.device_id is None,
            c.devices@.len() == 0,
    {
        AudioInputConfig { bind: None, native_enabled: false, device_id: None, devices: Vec::new() }
    }
}

impl Default for InputConfig {
    fn default() -> (c: InputConfig)
        ensures
            c.audio.bind is None,
            !c.audio.native_enabled,
            c.audio.device_id is None,
            c.audio.devices@.len() == 0,
            c.midi.bind is None,
            !c.midi.native_enabled,
            c.midi.device_id is None,
            c.midi.bindings@ == default_bindings(),
            c.orientation.bind is None,
    {
        InputConfig {
            audio: AudioInputConfig::default(),
            midi: MidiInputConfig::default(),
            orientation: UdpInputConfig::default(),
        }
    }
}

/// Whether `bindings` already has an ADSR level-driver binding at `index`.
pub open spec fn has_adsr_binding(bindings: Seq<MidiBindingConfig>, index: u8) -> bool {
    exists|k: int|
        0 <= k < bindings.len() && #[trigger] bindings[k].action
            == MidiBindingAction::AdsrLevelDriver && bindings[k].index == index
}

/// Make sure an imported ADSR level-driver range start has a note binding
/// for every device, appending one unless one exists.
pub fn add_adsr_binding(midi: &mut MidiInputConfig, index: Option<u8>)
    ensures
        final(midi).bind == old(midi).bind,
        final(midi).native_enabled == old(midi).native_enabled,
        final(midi).device_id == old(midi).device_id,
        final(midi).bindings@ == match index {
            Some(i) => if has_adsr_binding(old(midi).bindings@, i) {
                old(midi).bindings@
            } else {
                old(midi).bindings@.push(
                    any_device_binding(
                        MidiBindingCommandKind::Note,
                        i,
                        MidiBindingAction::AdsrLevelDriver,
                    ),
                )
            },
            None => old(midi).bindings@,
        },
{
    let wanted = match index {
        Some(i) => i,
        None => {
            return ;
        },
    };
    let mut k: usize = 0;
    while k < midi.bindings.len()
        invariant
            index == Some(wanted),
            k <= midi.bindings@.len(),
            midi.bindings@ == old(midi).bindings@,
            midi.bind == old(midi).bind,
            midi.native_enabled == old(midi).native_enabled,
            midi.device_id == old(midi).device_id,
            forall|j: int|
                0 <= j < k ==> !(#[trigger] midi.bindings@[j].action
                    == MidiBindingAction::AdsrLevelDriver && midi.bindings@[j].index == wanted),
        decreases midi.bindings@.len() - k,
    {
        let b = midi.bindings[k];
        if b.action == MidiBindingAction::AdsrLevelDriver && b.index == wanted {
            assert(midi.bindings@[k as int].action == MidiBindingAction::AdsrLevelDriver);
            assert(has_adsr_binding(old(midi).bindings@, wanted));
            return ;
        }
        k = k + 1;
    }
    midi.bindings.push(
        MidiBindingConfig {
            device_index: None,
            command_kind: MidiBindingCommandKind::Note,
            index: wanted,
            action: MidiBindingAction::AdsrLevelDriver,
            target_index: None,
        },
    );
}

/// Tempo source.
#[derive(Clone, Copy, Debug, PartialEq, Eq, Structural)]
pub enum TempoSource {
    /// Human tap tempo.
    Human,
    /// Madmom sidecar beat detector.
    Madmom,
    /// DJ Link / Carabiner tempo sync.
    Link,
}

/// The tempo source a legacy `beatInput` code names: 1 Madmom, 2 Link,
/// anything else (or nothing) human tap tempo.
pub fn tempo_source_from_beat_input(beat_input: Option<u8>) -> (s: TempoSource)
    ensures
        s == (match beat_input {
            Some(1) => TempoSource::Madmom,
            Some(2) => TempoSource::Link,
            _ => TempoSource::Human,
        }),
{
    match beat_input {
        Some(1) => TempoSource::Madmom,
        Some(2) => TempoSource::Link,
        _ => TempoSource::Human,
    }
}

/// Madmom sidecar config.
#[derive(Clone, Debug)]
pub struct MadmomConfig {
    /// Sidecar executable or command name.
    pub command: String,
    /// Optional tracker/script argument for Python-style launches.
    pub tracker: Option<String>,
    /// Optional audio input index to pass through.
    pub audio_input_index: Option<u32>,
}

/// DJ Link / Carabiner-compatible sidecar config.
#[derive(Clone, Debug)]
pub struct CarabinerConfig {
    /// Sidecar executable or command name.
    pub command: String,
    /// Extra command-line arguments.
    pub args: Vec<String>,
    /// Whether human tap tempo should be sent to Link.
    pub human_link_output: bool,
    /// Whether Madmom tempo should be sent to Link.
    pub madmom_link_output: bool,
}

impl Default for CarabinerConfig {
    fn default() -> (c: CarabinerConfig)
        ensures
            c.command@ == "carabiner"@,
            c.args@.len() == 0,
            !c.human_link_output,
            !c.madmom_link_output,
    {
        CarabinerConfig {
            command: "carabiner".to_owned(),
            args: Vec::new(),
            human_link_output: false,
            madmom_link_output: false,
        }
    }
}

/// Whether a flag is off; used to leave off-flags out of written configs.
pub fn is_false(value: &bool) -> (r: bool)
    ensures
        r == !*value,
{
    !*value
}

/// A palette cut or padded with black entries to exactly 64 slots.
pub open spec fn normalized_slots(colors: Seq<PaletteEntry>) -> Seq<PaletteEntry> {
    Seq::new(
        ENTRY_COUNT as nat,
        |i: int|
            if i < colors.len() {
                colors[i]
            } else {
                solid_entry(0)
            },
    )
}

/// Cut or pad a palette to exactly 64 slots.
pub fn normalize_palette_slots(colors: Vec<PaletteEntry>) -> (r: Vec<PaletteEntry>)
    ensures
        r@ == normalized_slots(colors@),
{
    let mut out: Vec<PaletteEntry> = Vec::new();
    let mut i: usize = 0;
    while i < ENTRY_COUNT
        invariant
            i <= ENTRY_COUNT,
            out@ == normalized_slots(colors@).subrange(0, i as int),
        decreases ENTRY_COUNT - i,
    {
        let e = if i < colors.len() {
            colors[i]
        } else {
            PaletteEntry::default()
        };
        out.push(e);
        assert(normalized_slots(colors@).subrange(0, i + 1) == normalized_slots(
            colors@,
        ).subrange(0, i as int).push(e));
        i = i + 1;
    }
    assert(normalized_slots(colors@).subrange(0, ENTRY_COUNT as int) == normalized_slots(colors@));
    out
}

/// A palette as a native config writes it: explicit slot colors, or named
/// entries laid out by banks (or by a flat slot list).
#[derive(Clone, Debug)]
pub struct ColorPaletteToml {
    /// Explicit colors in slot order; when present they win.
    pub colors: Vec<PaletteEntry>,
    /// Named entries; `wf` says no name repeats, and where one does,
    /// the first entry of that name is the one read.
    pub entries: Vec<(String, PaletteEntry)>,
    /// Entry names bank by bank.
    pub banks: Vec<Vec<String>>,
    /// Entry names in slot order, used without banks.
    pub slots: Vec<String>,
}

/// The entry named `name`, black when no entry has that name.
pub open spec fn named_entry(entries: Seq<(String, PaletteEntry)>, name: Seq<char>) -> PaletteEntry
    decreases entries.len(),
{
    if entries.len() == 0 {
        solid_entry(0)
    } else if entries[0].0@ == name {
        entries[0].1
    } else {
        named_entry(entries.drop_first(), name)
    }
}

/// All bank names, bank after bank.
pub open spec fn flattened(banks: Seq<Seq<Seq<char>>>) -> Seq<Seq<char>>
    decreases banks.len(),
{
    if banks.len() == 0 {
        Seq::empty()
    } else {
        flattened(banks.drop_last()) + banks.last()
    }
}

impl ColorPaletteToml {
    /// No two named entries share a name.
    pub open spec fn wf(self) -> bool {
        forall|i: int, j: int|
            0 <= i < j < self.entries@.len() ==> (#[trigger] self.entries@[i]).0@
                != (#[trigger] self.entries@[j]).0@
    }

    /// Names of the banks, as character sequences.
    pub open spec fn bank_names(self) -> Seq<Seq<Seq<char>>> {
        self.banks@.map_values(|b: Vec<String>| b@.map_values(|s: String| s@))
    }

    /// The slot names the palette is laid out by.
    pub open spec fn slot_names(self) -> Seq<Seq<char>> {
        if self.banks@.len() == 0 {
            self.slots@.map_values(|s: String| s@)
        } else {
            flattened(self.bank_names())
        }
    }

    /// The palette these fields describe, normalized to 64 slots.
    pub open spec fn palette_spec(self) -> Seq<PaletteEntry> {
        if self.colors@.len() > 0 {
            normalized_slots(self.colors@)
        } else if self.slot_names().len() == 0 {
            crate::color::default_palette_colors()
        } else {
            normalized_slots(
                self.slot_names().map_values(|n: Seq<char>| named_entry(self.entries@, n)),
            )
        }
    }

    /// The runtime palette these fields describe.
    pub fn into_color_palette(self) -> (p: ColorPalette)
        ensures
            p.colors@ == self.palette_spec(),
    {
        if self.colors.len() > 0 {
            return ColorPalette { colors: normalize_palette_slots(self.colors) };
        }
        let names = self.collect_slot_names();
        if names.len() == 0 {
            return ColorPalette::default();
        }
        let mut colors: Vec<PaletteEntry> = Vec::new();
        let mut i: usize = 0;
        while i < names.len()
            invariant
                i <= names@.len(),
                names@.map_values(|s: String| s@) == self.slot_names(),
                colors@ == self.slot_names().map_values(
                    |n: Seq<char>| named_entry(self.entries@, n),
                ).subrange(0, i as int),
            decreases names@.len() - i,
        {
            assert(names@.map_values(|s: String| s@)[i as int] == names@[i as int]@);
            let e = lookup_entry(&self.entries, &names[i]);
            colors.push(e);
            assert(self.slot_names().map_values(
                |n: Seq<char>| named_entry(self.entries@, n),
            ).subrange(0, i + 1) == self.slot_names().map_values(
                |n: Seq<char>| named_entry(self.entries@, n),
            ).subrange(0, i as int).push(e));
            i = i + 1;
        }
        assert(self.slot_names().map_values(|n: Seq<char>| named_entry(self.entries@, n)).subrange(
            0,
            names@.len() as int,
        ) == self.slot_names().map_values(|n: Seq<char>| named_entry(self.entries@, n)));
        ColorPalette { colors: normalize_palette_slots(colors) }
    }

    fn collect_slot_names(&self) -> (r: Vec<String>)
        ensures
            r@.map_values(|s: String| s@) == self.slot_names(),
    {
        if self.banks.len() == 0 {
            return self.slots.clone();
        }
        let mut out: Vec<String> = Vec::new();
        let mut b: usize = 0;
        while b < self.banks.len()
            invariant
                b <= self.banks@.len(),
                self.banks@.len() > 0,
                out@.map_values(|s: String| s@) == flattened(self.bank_names().subrange(0, b as int)),
            decreases self.banks@.len() - b,
        {
            let ghost before = out@.map_values(|s: String| s@);
            let bank = &self.banks[b];
            let mut k: usize = 0;
            while k < bank.len()
                invariant
                    k <= bank@.len(),
                    out@.map_values(|s: String| s@) == before + bank@.map_values(
                        |s: String| s@,
                    ).subrange(0, k as int),
                decreases bank@.len() - k,
            {
                let ghost prior = out@;
                let name = bank[k].clone();
                out.push(name);
                assert(out@ == prior.push(name));
                assert(out@.map_values(|s: String| s@) == prior.map_values(|s: String| s@).push(
                    name@,
                ));
                assert(bank@.map_values(|s: String| s@).subrange(0, k + 1) == bank@.map_values(
                    |s: String| s@,
                ).subrange(0, k as int).push(bank@[k as int]@));
                k = k + 1;
            }
            assert(bank@.map_values(|s: String| s@).subrange(0, bank@.len() as int)
                == bank@.map_values(|s: String| s@));
            assert(self.bank_names().subrange(0, b + 1).drop_last() == self.bank_names().subrange(
                0,
                b as int,
            ));
            assert(self.bank_names()[b as int] == bank@.map_values(|s: String| s@));
            b = b + 1;
        }
        assert(self.bank_names().subrange(0, self.banks@.len() as int) == self.bank_names());
        out
    }
}

fn lookup_entry(entries: &Vec<(String, PaletteEntry)>, name: &String) -> (e: PaletteEntry)
    ensures
        e == named_entry(entries@, name@),
{
    let mut i: usize = 0;
    assert(entries@.subrange(0, entries@.len() as int) == entries@);
    while i < entries.len()
        invariant
            i <= entries@.len(),
            named_entry(entries@, name@) == named_entry(entries@.subrange(i as int, entries@.len() as int), name@),
        decreases entries@.len() - i,
    {
        let ghost rest = entries@.subrange(i as int, entries@.len() as int);
        assert(rest[0] == entries@[i as int]);
        assert(rest.drop_first() == entries@.subrange(i + 1, entries@.len() as int));
        if entries[i].0 == *name {
            return entries[i].1;
        }
        i = i + 1;
    }
    PaletteEntry::default()
}

/// The settings of a legacy Spectrum XML config that carry no fraction:
/// each is what its tag holds, `None` where the tag is missing or does not
/// parse.
#[derive(Clone, Debug)]
pub struct SpectrumSettings {
    /// `domeEnabled`.
    pub dome_enabled: Option<bool>,
    /// `domeBeagleboneOPCAddress`, moved to the local host.
    pub dome_opc_address: Option<String>,
    /// `domeActiveVis`.
    pub dome_active_visualizer: Option<u8>,
    /// `domeTestPattern`.
    pub dome_test_pattern: Option<u8>,
    /// `barEnabled`.
    pub bar_enabled: Option<bool>,
    /// `barInfinityWidth`.
    pub bar_infinity_width: Option<u32>,
    /// `barInfinityLength`.
    pub bar_infinity_length: Option<u32>,
    /// `barRunnerLength`.
    pub bar_runner_length: Option<u32>,
    /// `barTestPattern`.
    pub bar_test_pattern: Option<u8>,
    /// `stageEnabled`.
    pub stage_enabled: Option<bool>,
    /// `stageBeagleboneOPCAddress`, moved to the local host.
    pub stage_opc_address: Option<String>,
    /// `stageSideLengths`.
    pub stage_side_lengths: Vec<u32>,
    /// `stageTestPattern`.
    pub stage_test_pattern: Option<u8>,
    /// The tempo source `beatInput` names.
    pub tempo_source: TempoSource,
    /// `humanLinkOutput`.
    pub human_link_output: Option<bool>,
    /// `madmomLinkOutput`.
    pub madmom_link_output: Option<bool>,
    /// `audioDeviceID`.
    pub audio_device_id: Option<String>,
    /// The note range start of an ADSR level-driver MIDI binding.
    pub adsr_binding_index: Option<u8>,
    /// `colors`, as a palette.
    pub color_palette: ColorPalette,
    /// `colorPaletteIndex`.
    pub color_palette_index: Option<u8>,
}

/// The `u8` a tag holds.
pub open spec fn u8_tag_spec(x: Seq<char>, tag: Seq<char>) -> Option<u8> {
    match unsigned_tag_spec(x, tag, u8::MAX as int) {
        Some(v) => Some(v as u8),
        None => None,
    }
}

/// The `u32` a tag holds.
pub open spec fn u32_tag_spec(x: Seq<char>, tag: Seq<char>) -> Option<u32> {
    match unsigned_tag_spec(x, tag, u32::MAX as int) {
        Some(v) => Some(v as u32),
        None => None,
    }
}

/// The OPC address a tag holds, moved to the local host.
pub open spec fn opc_address_tag_spec(x: Seq<char>, tag: Seq<char>) -> Option<Seq<char>> {
    match tag_value_spec(x, tag) {
        Some(a) => Some(localhost_opc_address_spec(a)),
        None => None,
    }
}

/// The text of an optional string.
pub open spec fn opt_text(o: Option<String>) -> Option<Seq<char>> {
    match o {
        Some(s) => Some(s@),
        None => None,
    }
}

fn opc_address_tag(xml: &str, tag: &str) -> (r: Option<String>)
    ensures
        opt_text(r) == opc_address_tag_spec(xml@, tag@),
{
    match string_tag(xml, tag) {
        Some(address) => Some(localhost_opc_address(&address)),
        None => None,
    }
}

fn text_tag(xml: &str, tag: &str) -> (r: Option<String>)
    ensures
        opt_text(r) == tag_value_spec(xml@, tag@),
{
    tag_value(xml, tag)
}

/// Read the settings of a legacy Spectrum XML config.
pub fn spectrum_settings(xml: &str) -> (r: SpectrumSettings)
    ensures
        r.dome_enabled == bool_tag_spec(xml@, "domeEnabled"@),
        opt_text(r.dome_opc_address) == opc_address_tag_spec(xml@, "domeBeagleboneOPCAddress"@),
        r.dome_active_visualizer == u8_tag_spec(xml@, "domeActiveVis"@),
        r.dome_test_pattern == u8_tag_spec(xml@, "domeTestPattern"@),
        r.bar_enabled == bool_tag_spec(xml@, "barEnabled"@),
        r.bar_infinity_width == u32_tag_spec(xml@, "barInfinityWidth"@),
        r.bar_infinity_length == u32_tag_spec(xml@, "barInfinityLength"@),
        r.bar_runner_length == u32_tag_spec(xml@, "barRunnerLength"@),
        r.bar_test_pattern == u8_tag_spec(xml@, "barTestPattern"@),
        r.stage_enabled == bool_tag_spec(xml@, "stageEnabled"@),
        opt_text(r.stage_opc_address) == opc_address_tag_spec(xml@, "stageBeagleboneOPCAddress"@),
        r.stage_side_lengths@ == stage_side_lengths_spec(xml@),
        r.stage_test_pattern == u8_tag_spec(xml@, "stageTestPattern"@),
        r.tempo_source == (match u8_tag_spec(xml@, "beatInput"@) {
            Some(1) => TempoSource::Madmom,
            Some(2) => TempoSource::Link,
            _ => TempoSource::Human,
        }),
        r.human_link_output == bool_tag_spec(xml@, "humanLinkOutput"@),
        r.madmom_link_output == bool_tag_spec(xml@, "madmomLinkOutput"@),
        opt_text(r.audio_device_id) == tag_value_spec(xml@, "audioDeviceID"@),
        r.adsr_binding_index matches Some(i) ==> adsr_binding_index_spec(xml@) == Some(i as int),
        r.adsr_binding_index is None ==> adsr_binding_index_spec(xml@) is None,
        r.color_palette.colors@ == color_palette_spec(xml@),
        r.color_palette_index == u8_tag_spec(xml@, "colorPaletteIndex"@),
{
    SpectrumSettings {
        dome_enabled: bool_tag(xml, "domeEnabled"),
        dome_opc_address: opc_address_tag(xml, "domeBeagleboneOPCAddress"),
        dome_active_visualizer: u8_tag(xml, "domeActiveVis"),
        dome_test_pattern: u8_tag(xml, "domeTestPattern"),
        bar_enabled: bool_tag(xml, "barEnabled"),
        bar_infinity_width: u32_tag(xml, "barInfinityWidth"),
        bar_infinity_length: u32_tag(xml, "barInfinityLength"),
        bar_runner_length: u32_tag(xml, "barRunnerLength"),
        bar_test_pattern: u8_tag(xml, "barTestPattern"),
        stage_enabled: bool_tag(xml, "stageEnabled"),
        stage_opc_address: opc_address_tag(xml, "stageBeagleboneOPCAddress"),
        stage_side_lengths: stage_side_lengths(xml),
        stage_test_pattern: u8_tag(xml, "stageTestPattern"),
        tempo_source: tempo_source_from_beat_input(u8_tag(xml, "beatInput")),
        human_link_output: bool_tag(xml, "humanLinkOutput"),
        madmom_link_output: bool_tag(xml, "madmomLinkOutput"),
        audio_device_id: text_tag(xml, "audioDeviceID"),
        adsr_binding_index: adsr_binding_index(xml),
        color_palette: color_palette(xml),
        color_palette_index: u8_tag(xml, "colorPaletteIndex"),
    }
}

/// The float-free settings of the native config that an import fills: the
/// rig's outputs, the tempo source and Link outputs, the audio device and
/// the active palette bank.
#[derive(Clone, Debug)]
pub struct RigSettings {
    /// Whether the dome output is enabled.
    pub dome_enabled: bool,
    /// Whether the dome is simulated.
    pub dome_simulation_enabled: bool,
    /// The dome's OPC address.
    pub dome_opc_address: String,
    /// The active dome visualizer.
    pub dome_active_visualizer: u8,
    /// The dome test pattern.
    pub dome_test_pattern: u8,
    /// Whether the bar output is enabled.
    pub bar_enabled: bool,
    /// Whether the bar is simulated.
    pub bar_simulation_enabled: bool,
    /// The bar's infinity width.
    pub bar_infinity_width: u32,
    /// The bar's infinity length.
    pub bar_infinity_length: u32,
    /// The bar's runner length.
    pub bar_runner_length: u32,
    /// The bar test pattern.
    pub bar_test_pattern: u8,
    /// Whether the stage output is enabled.
    pub stage_enabled: bool,
    /// Whether the stage is simulated.
    pub stage_simulation_enabled: bool,
    /// The stage's OPC address.
    pub stage_opc_address: String,
    /// The stage's side lengths.
    pub stage_side_lengths: Vec<u32>,
    /// The stage test pattern.
    pub stage_test_pattern: u8,
    /// Where the tempo comes from.
    pub tempo_source: TempoSource,
    /// Whether human tempo goes out over Link.
    pub human_link_output: bool,
    /// Whether Madmom tempo goes out over Link.
    pub madmom_link_output: bool,
    /// The selected audio device.
    pub audio_device_id: Option<String>,
    /// The active palette bank.
    pub color_palette_index: u8,
}

/// A setting read from the legacy config, or the default where it had none.
pub open spec fn or_default<T>(read: Option<T>, default: T) -> T {
    match read {
        Some(v) => v,
        None => default,
    }
}

fn pick<T>(read: Option<T>, default: T) -> (r: T)
    ensures
        r == or_default(read, default),
{
    match read {
        Some(v) => v,
        None => default,
    }
}

/// Fill the native settings from a legacy config's settings over the
/// native defaults: each setting the legacy config holds replaces its
/// default; the dome is always simulated, the bar when it is enabled, and
/// the stage when it is enabled or has sides; the stage's sides, the tempo
/// source and the audio device are taken as read.
pub fn apply_spectrum_settings(settings: SpectrumSettings, defaults: RigSettings) -> (r: RigSettings)
    ensures
        r.dome_enabled == or_default(settings.dome_enabled, defaults.dome_enabled),
        r.dome_simulation_enabled,
        r.dome_opc_address@ == or_default(opt_text(settings.dome_opc_address), defaults.dome_opc_address@),
        r.dome_active_visualizer == or_default(
            settings.dome_active_visualizer,
            defaults.dome_active_visualizer,
        ),
        r.dome_test_pattern == or_default(settings.dome_test_pattern, defaults.dome_test_pattern),
        r.bar_enabled == or_default(settings.bar_enabled, defaults.bar_enabled),
        r.bar_simulation_enabled == r.bar_enabled,
        r.bar_infinity_width == or_default(settings.bar_infinity_width, defaults.bar_infinity_width),
        r.bar_infinity_length == or_default(
            settings.bar_infinity_length,
            defaults.bar_infinity_length,
        ),
        r.bar_runner_length == or_default(settings.bar_runner_length, defaults.bar_runner_length),
        r.bar_test_pattern == or_default(settings.bar_test_pattern, defaults.bar_test_pattern),
        r.stage_enabled == or_default(settings.stage_enabled, defaults.stage_enabled),
        r.stage_opc_address@ == or_default(
            opt_text(settings.stage_opc_address),
            defaults.stage_opc_address@,
        ),
        r.stage_side_lengths@ == settings.stage_side_lengths@,
        r.stage_simulation_enabled == (r.stage_enabled || settings.stage_side_lengths@.len() > 0),
        r.stage_test_pattern == or_default(settings.stage_test_pattern, defaults.stage_test_pattern),
        r.tempo_source == settings.tempo_source,
        r.human_link_output == or_default(settings.human_link_output, defaults.human_link_output),
        r.madmom_link_output == or_default(settings.madmom_link_output, defaults.madmom_link_output),
        opt_text(r.audio_device_id) == opt_text(settings.audio_device_id),
        r.color_palette_index == or_default(
            settings.color_palette_index,
            defaults.color_palette_index,
        ),
{
    let dome_opc_address = match settings.dome_opc_address {
        Some(a) => a,
        None => defaults.dome_opc_address,
    };
    let stage_opc_address = match settings.stage_opc_address {
        Some(a) => a,
        None => defaults.stage_opc_address,
    };
    let bar_enabled = pick(settings.bar_enabled, defaults.bar_enabled);
    let stage_enabled = pick(settings.stage_enabled, defaults.stage_enabled);
    let stage_simulation_enabled = stage_enabled || settings.stage_side_lengths.len() > 0;
    RigSettings {
        dome_enabled: pick(settings.dome_enabled, defaults.dome_enabled),
        dome_simulation_enabled: true,
        dome_opc_address,
        dome_active_visualizer: pick(
            settings.dome_active_visualizer,
            defaults.dome_active_visualizer,
        ),
        dome_test_pattern: pick(settings.dome_test_pattern, defaults.dome_test_pattern),
        bar_enabled,
        bar_simulation_enabled: bar_enabled,
        bar_infinity_width: pick(settings.bar_infinity_width, defaults.bar_infinity_width),
        bar_infinity_length: pick(settings.bar_infinity_length, defaults.bar_infinity_length),
        bar_runner_length: pick(settings.bar_runner_length, defaults.bar_runner_length),
        bar_test_pattern: pick(settings.bar_test_pattern, defaults.bar_test_pattern),
        stage_enabled,
        stage_simulation_enabled,
        stage_opc_address,
        stage_side_lengths: settings.stage_side_lengths,
        stage_test_pattern: pick(settings.stage_test_pattern, defaults.stage_test_pattern),
        tempo_source: settings.tempo_source,
        human_link_output: pick(settings.human_link_output, defaults.human_link_output),
        madmom_link_output: pick(settings.madmom_link_output, defaults.madmom_link_output),
        audio_device_id: settings.audio_device_id,
        color_palette_index: pick(settings.color_palette_index, defaults.color_palette_index),
    }
}

/// The two kinds of level-driver preset a legacy config holds.
#[derive(Clone, Copy, Debug, PartialEq, Eq, Structural)]
pub enum LevelDriverPresetKind {
    /// Driven by audio levels.
    Audio,
    /// Driven by MIDI notes through an envelope.
    Midi,
}

/// The kind of a legacy preset item, by the `xsi:type` it declares: audio
/// when it names `AudioLevelDriverPreset`, else MIDI when it names
/// `MidiLevelDriverPreset`, else none.
pub open spec fn preset_kind_spec(item: Seq<char>) -> Option<LevelDriverPresetKind> {
    if find_from(item, "xsi:type=\"AudioLevelDriverPreset\""@, 0) is Some {
        Some(LevelDriverPresetKind::Audio)
    } else if find_from(item, "xsi:type=\"MidiLevelDriverPreset\""@, 0) is Some {
        Some(LevelDriverPresetKind::Midi)
    } else {
        None
    }
}

/// The kind of a legacy level-driver preset item.
pub fn level_driver_preset_kind(item: &str) -> (r: Option<LevelDriverPresetKind>)
    ensures
        r == preset_kind_spec(item@),
{
    let chars = chars_of(item);
    let audio = chars_of("xsi:type=\"AudioLevelDriverPreset\"");
    let midi = chars_of("xsi:type=\"MidiLevelDriverPreset\"");
    if find_chars(chars.as_slice(), audio.as_slice(), 0).is_some() {
        Some(LevelDriverPresetKind::Audio)
    } else if find_chars(chars.as_slice(), midi.as_slice(), 0).is_some() {
        Some(LevelDriverPresetKind::Midi)
    } else {
        None
    }
}

} // verus!
