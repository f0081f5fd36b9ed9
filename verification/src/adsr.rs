//! Timing of the MIDI level drivers' ADSR envelopes, and the actions a
//! level-driver binding takes on a note. The levels themselves are
//! fractions of the press velocity; what is decided here is which part of
//! the envelope applies and how far into it the clock is.
use vstd::prelude::*;

use crate::midi::MIDI_LEVEL_DRIVER_CHANNELS;
use crate::text::{decimal, push_char, push_decimal};

verus! {

/// Where a held envelope stands.
#[derive(Clone, Copy, Debug, PartialEq, Eq, Structural)]
pub enum EnvelopeStage {
    /// Rising to the peak, `elapsed` milliseconds into the attack.
    Attack {
        /// Milliseconds since the press.
        elapsed: u64,
    },
    /// Falling from the peak to the sustain level, `elapsed` milliseconds
    /// into the decay.
    Decay {
        /// Milliseconds since the attack ended.
        elapsed: u64,
    },
    /// Holding at the sustain level.
    Sustain,
}

/// The stage of an envelope pressed at `press_ms`, at `at_ms`: the attack
/// while it lasts, then the decay while it lasts, then the sustain.
pub open spec fn envelope_stage_spec(press_ms: u64, attack_time: u64, decay_time: u64, at_ms: u64) -> EnvelopeStage {
    let since_press: int = if at_ms > press_ms {
        at_ms - press_ms
    } else {
        0
    };
    let since_decay: int = if since_press > attack_time {
        since_press - attack_time
    } else {
        0
    };
    if attack_time > 0 && since_press < attack_time {
        EnvelopeStage::Attack { elapsed: since_press as u64 }
    } else if decay_time == 0 || since_decay > decay_time {
        EnvelopeStage::Sustain
    } else {
        EnvelopeStage::Decay { elapsed: since_decay as u64 }
    }
}

/// The stage of an envelope pressed at `press_ms`, at `at_ms`.
pub fn envelope_stage(press_ms: u64, attack_time: u64, decay_time: u64, at_ms: u64) -> (r: EnvelopeStage)
    ensures
        r == envelope_stage_spec(press_ms, attack_time, decay_time, at_ms),
{
    let since_press = at_ms.saturating_sub(press_ms);
    if attack_time > 0 && since_press < attack_time {
        return EnvelopeStage::Attack { elapsed: since_press };
    }
    let since_decay = since_press.saturating_sub(attack_time);
    if decay_time == 0 || since_decay > decay_time {
        EnvelopeStage::Sustain
    } else {
        EnvelopeStage::Decay { elapsed: since_decay }
    }
}

/// Milliseconds without any level-driver interaction after which a
/// finished envelope stops reporting a level.
pub const LEVEL_DRIVER_IDLE_MS: u64 = 5_000;

/// What a level-driver channel reads at a moment.
#[derive(Clone, Copy, Debug, PartialEq, Eq, Structural)]
pub enum LevelReading {
    /// Still held (or released later than now): the envelope at this stage.
    Held {
        /// The envelope's stage now.
        stage: EnvelopeStage,
    },
    /// Fading after the release: the level the envelope had at the
    /// release, times `remaining` over the release time.
    Releasing {
        /// The envelope's stage at the release.
        at_release: EnvelopeStage,
        /// Milliseconds of the release still to go.
        remaining: u64,
    },
    /// Finished: level zero.
    Silent,
    /// Finished and idle for a while: no level.
    Idle,
}

/// What a channel pressed at `press_ms` (and released at `release_ms`, if
/// it was) reads at `now_ms`.
pub open spec fn level_reading_spec(
    press_ms: u64,
    release_ms: Option<u64>,
    attack_time: u64,
    decay_time: u64,
    release_time: u64,
    last_interaction_ms: u64,
    now_ms: u64,
) -> LevelReading {
    match release_ms {
        None => LevelReading::Held {
            stage: envelope_stage_spec(press_ms, attack_time, decay_time, now_ms),
        },
        Some(r) => if now_ms < r {
            LevelReading::Held {
                stage: envelope_stage_spec(press_ms, attack_time, decay_time, now_ms),
            }
        } else if now_ms - r > release_time {
            if now_ms > last_interaction_ms + LEVEL_DRIVER_IDLE_MS {
                LevelReading::Idle
            } else {
                LevelReading::Silent
            }
        } else if release_time == 0 {
            LevelReading::Silent
        } else {
            LevelReading::Releasing {
                at_release: envelope_stage_spec(press_ms, attack_time, decay_time, r),
                remaining: (release_time - (now_ms - r)) as u64,
            }
        },
    }
}

/// What a level-driver channel reads at `now_ms`.
pub fn level_reading(
    press_ms: u64,
    release_ms: Option<u64>,
    attack_time: u64,
    decay_time: u64,
    release_time: u64,
    last_interaction_ms: u64,
    now_ms: u64,
) -> (r: LevelReading)
    ensures
        r == level_reading_spec(
            press_ms,
            release_ms,
            attack_time,
            decay_time,
            release_time,
            last_interaction_ms,
            now_ms,
        ),
{
    let held = envelope_stage(press_ms, attack_time, decay_time, now_ms);
    let release = match release_ms {
        None => {
            return LevelReading::Held { stage: held };
        },
        Some(r) => r,
    };
    if now_ms < release {
        return LevelReading::Held { stage: held };
    }
    let since_release = now_ms - release;
    if since_release > release_time {
        if now_ms > last_interaction_ms.saturating_add(LEVEL_DRIVER_IDLE_MS) {
            return LevelReading::Idle;
        }
        return LevelReading::Silent;
    }
    if release_time == 0 {
        return LevelReading::Silent;
    }
    LevelReading::Releasing {
        at_release: envelope_stage(press_ms, attack_time, decay_time, release),
        remaining: release_time - since_release,
    }
}

/// The stage of an envelope is read off the time since the press: in the
/// attack while that is under a nonzero attack time, with all of it
/// elapsed; then in the decay with the time past the attack elapsed, while
/// that is at most a nonzero decay time; after that in the sustain.
pub proof fn law_envelope_stage_follows_the_clock(
    press_ms: u64,
    attack_time: u64,
    decay_time: u64,
    at_ms: u64,
)
    requires
        press_ms <= at_ms,
    ensures
        ({
            let since = at_ms - press_ms;
            match envelope_stage_spec(press_ms, attack_time, decay_time, at_ms) {
                EnvelopeStage::Attack { elapsed } => elapsed == since && since < attack_time,
                EnvelopeStage::Decay { elapsed } => {
                    &&& elapsed + attack_time == since
                    &&& elapsed <= decay_time
                    &&& decay_time > 0
                    &&& (attack_time == 0 || since >= attack_time)
                },
                EnvelopeStage::Sustain => {
                    &&& (attack_time == 0 || since >= attack_time)
                    &&& (decay_time == 0 || since > attack_time + decay_time)
                },
            }
        }),
{
}

/// A released channel fades from where its envelope stood at the release:
/// until the release time is over its reading names the stage it read,
/// still held, at the moment of the release, and the part of the release
/// time still to go.
pub proof fn law_release_fades_from_stage_at_release(
    press_ms: u64,
    release_ms: u64,
    attack_time: u64,
    decay_time: u64,
    release_time: u64,
    last_interaction_ms: u64,
    now_ms: u64,
)
    requires
        release_ms <= now_ms,
        now_ms - release_ms <= release_time,
        release_time > 0,
    ensures
        ({
            let held = level_reading_spec(
                press_ms,
                None,
                attack_time,
                decay_time,
                release_time,
                last_interaction_ms,
                release_ms,
            );
            &&& held is Held
            &&& level_reading_spec(
                press_ms,
                Some(release_ms),
                attack_time,
                decay_time,
                release_time,
                last_interaction_ms,
                now_ms,
            ) == LevelReading::Releasing {
                at_release: held->stage,
                remaining: (release_time - (now_ms - release_ms)) as u64,
            }
        }),
{
}

/// Before its release time a channel reads as if it were not released.
pub proof fn law_release_not_yet_reached(
    press_ms: u64,
    release_ms: u64,
    attack_time: u64,
    decay_time: u64,
    release_time: u64,
    last_interaction_ms: u64,
    now_ms: u64,
)
    requires
        now_ms < release_ms,
    ensures
        level_reading_spec(
            press_ms,
            Some(release_ms),
            attack_time,
            decay_time,
            release_time,
            last_interaction_ms,
            now_ms,
        ) == level_reading_spec(
            press_ms,
            None,
            attack_time,
            decay_time,
            release_time,
            last_interaction_ms,
            now_ms,
        ),
{
}

/// What a level-driver binding does with a note.
#[derive(Clone, Copy, Debug, PartialEq, Eq, Structural)]
pub enum AdsrBindingAction {
    /// The note is beyond the binding's channels.
    OutOfRange,
    /// The channel has no MIDI envelope preset.
    Unassigned(usize),
    /// A note off: the channel's envelope is released.
    Release(usize),
    /// A note on: the channel's envelope starts.
    Press(usize),
}

/// The action for note `note_index` on a binding whose channels start at
/// `range_start`: the channel is the note's offset from it; `assigned`
/// says which channels have a MIDI envelope preset.
pub open spec fn adsr_action_spec(
    range_start: u8,
    note_index: u8,
    assigned: Seq<bool>,
    note_off: bool,
) -> AdsrBindingAction {
    let channel: int = if note_index > range_start {
        note_index - range_start
    } else {
        0
    };
    if channel >= MIDI_LEVEL_DRIVER_CHANNELS {
        AdsrBindingAction::OutOfRange
    } else if !assigned[channel] {
        AdsrBindingAction::Unassigned(channel as usize)
    } else if note_off {
        AdsrBindingAction::Release(channel as usize)
    } else {
        AdsrBindingAction::Press(channel as usize)
    }
}

/// The action a level-driver binding takes on a note.
pub fn adsr_binding_action(range_start: u8, note_index: u8, assigned: &[bool], note_off: bool) -> (r:
    AdsrBindingAction)
    requires
        assigned@.len() == MIDI_LEVEL_DRIVER_CHANNELS,
    ensures
        r == adsr_action_spec(range_start, note_index, assigned@, note_off),
{
    let channel = note_index.saturating_sub(range_start);
    if channel >= MIDI_LEVEL_DRIVER_CHANNELS {
        return AdsrBindingAction::OutOfRange;
    }
    let channel = channel as usize;
    if !assigned[channel] {
        AdsrBindingAction::Unassigned(channel)
    } else if note_off {
        AdsrBindingAction::Release(channel)
    } else {
        AdsrBindingAction::Press(channel)
    }
}

/// The action's entry in the MIDI log.
pub open spec fn adsr_label_spec(action: AdsrBindingAction) -> Seq<char> {
    let prefix = seq!['a', 'd', 's', 'r', ':'];
    match action {
        AdsrBindingAction::OutOfRange => prefix + seq![
            'o',
            'u',
            't',
            '_',
            'o',
            'f',
            '_',
            'r',
            'a',
            'n',
            'g',
            'e',
        ],
        AdsrBindingAction::Unassigned(c) => prefix + decimal(c as nat) + seq![
            ':',
            'u',
            'n',
            'a',
            's',
            's',
            'i',
            'g',
            'n',
            'e',
            'd',
        ],
        AdsrBindingAction::Release(c) => prefix + decimal(c as nat) + seq![
            ':',
            'r',
            'e',
            'l',
            'e',
            'a',
            's',
            'e',
        ],
        AdsrBindingAction::Press(c) => prefix + decimal(c as nat) + seq![':', 'p', 'r', 'e', 's', 's'],
    }
}

/// Appends each character of `chars`.
fn push_chars(s: &mut String, chars: &[char])
    ensures
        final(s)@ == old(s)@ + chars@,
{
    let mut i: usize = 0;
    while i < chars.len()
        invariant
            i <= chars@.len(),
            s@ == old(s)@ + chars@.subrange(0, i as int),
        decreases chars@.len() - i,
    {
        push_char(s, chars[i]);
        i = i + 1;
        assert(s@ =~= old(s)@ + chars@.subrange(0, i as int));
    }
    assert(chars@.subrange(0, chars@.len() as int) =~= chars@);
}

/// The action's entry in the MIDI log: `adsr:out_of_range`, or
/// `adsr:` with the channel and `:unassigned`, `:release` or `:press`.
pub fn adsr_action_label(action: AdsrBindingAction) -> (r: String)
    ensures
        r@ == adsr_label_spec(action),
{
    let mut s = String::new();
    push_chars(&mut s, &['a', 'd', 's', 'r', ':']);
    let channel: u64 = match action {
        AdsrBindingAction::OutOfRange => {
            push_chars(&mut s, &['o', 'u', 't', '_', 'o', 'f', '_', 'r', 'a', 'n', 'g', 'e']);
            assert(s@ =~= adsr_label_spec(action));
            return s;
        },
        AdsrBindingAction::Unassigned(c) => c as u64,
        AdsrBindingAction::Release(c) => c as u64,
        AdsrBindingAction::Press(c) => c as u64,
    };
    push_decimal(&mut s, channel);
    match action {
        AdsrBindingAction::Unassigned(_) => {
            push_chars(&mut s, &[':', 'u', 'n', 'a', 's', 's', 'i', 'g', 'n', 'e', 'd']);
        },
        AdsrBindingAction::Release(_) => {
            push_chars(&mut s, &[':', 'r', 'e', 'l', 'e', 'a', 's', 'e']);
        },
        _ => {
            push_chars(&mut s, &[':', 'p', 'r', 'e', 's', 's']);
        },
    }
    assert(s@ =~= adsr_label_spec(action));
    s
}

} // verus!
