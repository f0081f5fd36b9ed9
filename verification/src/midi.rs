//! Live MIDI command payloads: `note,64,1.0`, `cc,1,0.5`, `program,3,1.0`.
//!
//! The command kind and the index are decided here; the value field is
//! handed back as text, since it is a fraction that the caller reads.
use vstd::prelude::*;

use crate::scan::{parse_unsigned, parse_unsigned_chars, same_chars, split_chars, split_from,
    trim_chars, trimmed};
use crate::config::{MidiBindingAction, MidiBindingCommandKind, MidiBindingConfig};
use crate::text::{chars_of, string_from_chars};

verus! {

/// Kind of a normalized MIDI command.
#[derive(Clone, Copy, Debug, PartialEq, Eq, Structural)]
pub enum MidiCommandKind {
    /// Note on/off command.
    Note,
    /// Continuous controller command.
    ControlChange,
    /// Program change command.
    Program,
}

/// The command kind a payload's first field names.
pub open spec fn midi_kind_spec(name: Seq<char>) -> Option<MidiCommandKind> {
    if name == "note"@ {
        Some(MidiCommandKind::Note)
    } else if name == "cc"@ || name == "control_change"@ {
        Some(MidiCommandKind::ControlChange)
    } else if name == "program"@ {
        Some(MidiCommandKind::Program)
    } else {
        None
    }
}

/// The trimmed comma-separated fields of a trimmed payload.
pub open spec fn midi_parts(text: Seq<char>) -> Seq<Seq<char>> {
    split_from(trimmed(text), seq![','], 0).map_values(|p: Seq<char>| trimmed(p))
}

/// Kind, index and value text of a payload, when it has exactly three
/// fields, a known kind and an index that fits in a byte.
pub open spec fn midi_fields_spec(text: Seq<char>) -> Option<(MidiCommandKind, int, Seq<char>)> {
    let parts = midi_parts(text);
    if parts.len() != 3 {
        None
    } else {
        match (midi_kind_spec(parts[0]), parse_unsigned(parts[1], 255)) {
            (Some(kind), Some(index)) => Some((kind, index, parts[2])),
            _ => None,
        }
    }
}

/// The fields of a live MIDI payload that name the command.
#[derive(Clone, Debug)]
pub struct MidiFields {
    /// Command kind.
    pub kind: MidiCommandKind,
    /// Note/controller/program index.
    pub index: u8,
    /// The value field, trimmed, not yet read as a number.
    pub value_text: String,
}

/// The command kind a payload field names.
pub fn midi_kind_of(name: &[char]) -> (r: Option<MidiCommandKind>)
    ensures
        r == midi_kind_spec(name@),
{
    let note = chars_of("note");
    let cc = chars_of("cc");
    let control_change = chars_of("control_change");
    let program = chars_of("program");
    if same_chars(name, note.as_slice()) {
        Some(MidiCommandKind::Note)
    } else if same_chars(name, cc.as_slice()) || same_chars(name, control_change.as_slice()) {
        Some(MidiCommandKind::ControlChange)
    } else if same_chars(name, program.as_slice()) {
        Some(MidiCommandKind::Program)
    } else {
        None
    }
}

/// Split a live MIDI payload into its kind, its index and its value text.
///
/// The payload is trimmed and split at commas, and each field trimmed; it
/// is accepted with exactly three fields, a first field of `note`, `cc`,
/// `control_change` or `program`, and a second field that parses as a `u8`.
pub fn parse_midi_fields(text: &str) -> (r: Option<MidiFields>)
    ensures
        r matches Some(f) ==> midi_fields_spec(text@) == Some((f.kind, f.index as int, f.value_text@)),
        r is None ==> midi_fields_spec(text@) is None,
{
    let chars = chars_of(text);
    let body = trim_chars(chars.as_slice());
    let sep: Vec<char> = vec![','];
    assert(sep@ == seq![',']);
    let parts = split_chars(body.as_slice(), sep.as_slice());
    let ghost spec_parts = midi_parts(text@);
    assert(spec_parts.len() == parts@.len());
    if parts.len() != 3 {
        return None;
    }
    let kind_text = trim_chars(parts[0].as_slice());
    assert(kind_text@ == spec_parts[0]);
    let kind = match midi_kind_of(kind_text.as_slice()) {
        Some(k) => k,
        None => {
            return None;
        },
    };
    let index_text = trim_chars(parts[1].as_slice());
    assert(index_text@ == spec_parts[1]);
    let index = match parse_unsigned_chars(index_text.as_slice(), 255) {
        Some(i) => i,
        None => {
            return None;
        },
    };
    let value_text = trim_chars(parts[2].as_slice());
    assert(value_text@ == spec_parts[2]);
    Some(MidiFields { kind, index: index as u8, value_text: string_from_chars(value_text.as_slice()) })
}

/// A decoded MIDI channel message: its kind, its note/controller/program
/// index, and its level in 127ths (0 for note off, 127 for a program change).
#[derive(Clone, Copy, Debug, PartialEq, Eq, Structural)]
pub struct MidiMessage {
    /// Command kind.
    pub kind: MidiCommandKind,
    /// Note/controller/program index.
    pub index: u8,
    /// Level in 127ths, at most 127.
    pub level: u8,
}

/// The level byte, clamped to 127.
pub open spec fn level_of(b: u8) -> u8 {
    if b > 127 {
        127
    } else {
        b
    }
}

/// A raw MIDI message decoded by the high nibble of its status byte: note
/// off (`0x8_`), note on (`0x9_`), control change (`0xB_`) and program
/// change (`0xC_`); `None` for other messages or missing data bytes.
pub open spec fn midi_message_spec(m: Seq<u8>) -> Option<MidiMessage> {
    if m.len() < 2 {
        None
    } else {
        let status = m[0] / 16;
        if status == 8 {
            Some(MidiMessage { kind: MidiCommandKind::Note, index: m[1], level: 0 })
        } else if status == 9 && m.len() >= 3 {
            Some(MidiMessage { kind: MidiCommandKind::Note, index: m[1], level: level_of(m[2]) })
        } else if status == 11 && m.len() >= 3 {
            Some(MidiMessage { kind: MidiCommandKind::ControlChange, index: m[1], level: level_of(m[2]) })
        } else if status == 12 {
            Some(MidiMessage { kind: MidiCommandKind::Program, index: m[1], level: 127 })
        } else {
            None
        }
    }
}

/// Decode a raw MIDI message.
pub fn midi_message_fields(message: &[u8]) -> (r: Option<MidiMessage>)
    ensures
        r == midi_message_spec(message@),
{
    if message.len() < 2 {
        return None;
    }
    let status = message[0] / 16;
    let index = message[1];
    if status == 8 {
        Some(MidiMessage { kind: MidiCommandKind::Note, index, level: 0 })
    } else if status == 9 && message.len() >= 3 {
        let level = if message[2] > 127 { 127 } else { message[2] };
        Some(MidiMessage { kind: MidiCommandKind::Note, index, level })
    } else if status == 11 && message.len() >= 3 {
        let level = if message[2] > 127 { 127 } else { message[2] };
        Some(MidiMessage { kind: MidiCommandKind::ControlChange, index, level })
    } else if status == 12 {
        Some(MidiMessage { kind: MidiCommandKind::Program, index, level: 127 })
    } else {
        None
    }
}

/// Number of ADSR level-driver channels a binding spans.
pub const MIDI_LEVEL_DRIVER_CHANNELS: u8 = 8;

/// Whether a binding's command kind is the command's kind.
pub open spec fn midi_kind_matches_spec(binding: MidiBindingCommandKind, command: MidiCommandKind) -> bool {
    ||| (binding == MidiBindingCommandKind::Note && command == MidiCommandKind::Note)
    ||| (binding == MidiBindingCommandKind::ControlChange && command
        == MidiCommandKind::ControlChange)
    ||| (binding == MidiBindingCommandKind::Program && command == MidiCommandKind::Program)
}

/// Whether a binding's command kind is the command's kind.
pub fn midi_kind_matches(binding: MidiBindingCommandKind, command: MidiCommandKind) -> (r: bool)
    ensures
        r == midi_kind_matches_spec(binding, command),
{
    match (binding, command) {
        (MidiBindingCommandKind::Note, MidiCommandKind::Note) => true,
        (MidiBindingCommandKind::ControlChange, MidiCommandKind::ControlChange) => true,
        (MidiBindingCommandKind::Program, MidiCommandKind::Program) => true,
        _ => false,
    }
}

/// Whether a binding fires for a command of `kind` and `index` from device
/// `device_index`: the device matches (or the binding is for every
/// device), the kinds match, and the index is the binding's, or for an
/// ADSR level-driver binding on notes, one of the eight notes from it.
pub open spec fn midi_binding_matches_spec(
    binding: MidiBindingConfig,
    kind: MidiCommandKind,
    index: u8,
    device_index: u8,
) -> bool {
    let index_matches = if binding.action == MidiBindingAction::AdsrLevelDriver {
        binding.command_kind == MidiBindingCommandKind::Note && binding.index <= index && index
            < if binding.index + MIDI_LEVEL_DRIVER_CHANNELS > 255 {
            255
        } else {
            binding.index + MIDI_LEVEL_DRIVER_CHANNELS
        }
    } else {
        binding.index == index
    };
    &&& (binding.device_index matches Some(d) ==> d == device_index)
    &&& index_matches
    &&& midi_kind_matches_spec(binding.command_kind, kind)
}

/// Whether a binding fires for a command.
pub fn midi_binding_matches(
    binding: &MidiBindingConfig,
    kind: MidiCommandKind,
    index: u8,
    device_index: u8,
) -> (r: bool)
    ensures
        r == midi_binding_matches_spec(*binding, kind, index, device_index),
{
    let index_matches = if binding.action == MidiBindingAction::AdsrLevelDriver {
        let is_note = match binding.command_kind {
            MidiBindingCommandKind::Note => true,
            _ => false,
        };
        is_note && index >= binding.index && index < binding.index.saturating_add(
            MIDI_LEVEL_DRIVER_CHANNELS,
        )
    } else {
        binding.index == index
    };
    let device_matches = match binding.device_index {
        Some(d) => d == device_index,
        None => true,
    };
    device_matches && index_matches && midi_kind_matches(binding.command_kind, kind)
}

/// A recorded stream of MIDI commands, handed out once each: every tick
/// takes the commands that arrived since the last.
pub struct MidiReplay<C> {
    commands: Vec<C>,
    cursor: usize,
}

impl<C: Copy> MidiReplay<C> {
    /// The commands not handed out yet, in order.
    pub closed spec fn pending(self) -> Seq<C> {
        self.commands@.subrange(self.cursor as int, self.commands@.len() as int)
    }

    /// The cursor stays within the recording.
    pub closed spec fn wf(self) -> bool {
        self.cursor <= self.commands@.len()
    }

    /// A replay of `commands`, none handed out yet.
    pub fn new(commands: Vec<C>) -> (r: Self)
        ensures
            r.wf(),
            r.pending() == commands@,
    {
        let r = MidiReplay { commands, cursor: 0 };
        assert(r.commands@.subrange(0, r.commands@.len() as int) == r.commands@);
        r
    }

    /// The commands since the last tick, in order; afterwards none are
    /// pending, so a second tick without new commands takes nothing.
    pub fn commands_since_last_tick(&mut self) -> (r: Vec<C>)
        requires
            old(self).wf(),
        ensures
            final(self).wf(),
            r@ == old(self).pending(),
            final(self).pending() == Seq::<C>::empty(),
    {
        let mut out: Vec<C> = Vec::new();
        let mut i = self.cursor;
        while i < self.commands.len()
            invariant
                self.cursor <= i <= self.commands@.len(),
                out@ == self.commands@.subrange(self.cursor as int, i as int),
            decreases self.commands@.len() - i,
        {
            out.push(self.commands[i]);
            assert(self.commands@.subrange(self.cursor as int, i + 1) == self.commands@.subrange(
                self.cursor as int,
                i as int,
            ).push(self.commands@[i as int]));
            i = i + 1;
        }
        self.cursor = self.commands.len();
        assert(self.commands@.subrange(self.cursor as int, self.commands@.len() as int)
            == Seq::<C>::empty());
        out
    }
}

} // verus!
