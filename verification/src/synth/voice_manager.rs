//! Voice modes, and what the voices are asked to do for a MIDI event.

use crate::midi::event::MidiEvent;
use vstd::prelude::*;

verus! {

/// Whether voices play the synthesizer or the sampler.
#[derive(Debug, Clone, Copy, PartialEq, Eq)]
pub enum VoiceMode {
    Synth,
    Sampler,
}

/// `{:?}` of a voice mode.
pub open spec fn voice_mode_name(m: VoiceMode) -> Seq<char> {
    match m {
        VoiceMode::Synth => "Synth"@,
        VoiceMode::Sampler => "Sampler"@,
    }
}

impl VoiceMode {
    /// The name of the mode, as `{:?}` shows it.
    pub fn name(&self) -> (r: &'static str)
        ensures
            r@ == voice_mode_name(*self),
    {
        match self {
            VoiceMode::Synth => "Synth",
            VoiceMode::Sampler => "Sampler",
        }
    }
}

/// The mode a user-interface name selects.
pub open spec fn spec_parse_voice_mode(s: Seq<char>) -> Option<VoiceMode> {
    if s == "synth"@ {
        Some(VoiceMode::Synth)
    } else if s == "sampler"@ {
        Some(VoiceMode::Sampler)
    } else {
        None
    }
}

/// Selects the mode named `name` ("synth", "sampler").
pub fn parse_voice_mode(name: &str) -> (r: Option<VoiceMode>)
    ensures
        r == spec_parse_voice_mode(name@),
{
    let s = name.to_owned();
    if s == String::from_str("synth") {
        Some(VoiceMode::Synth)
    } else if s == String::from_str("sampler") {
        Some(VoiceMode::Sampler)
    } else {
        None
    }
}

/// What the voice manager is asked to do for one incoming MIDI event.
#[derive(Debug, Clone, Copy, PartialEq, Eq)]
#[allow(inconsistent_fields)]
pub enum VoiceAction {
    /// Start a note.
    NoteOn { note: u8, velocity: u8 },
    /// Release a note.
    NoteOff { note: u8 },
    /// Nothing to do.
    Ignore,
}

/// The voice action of an event: notes start and stop, the other events
/// (control change, pitch bend) are not handled by the voices.
pub open spec fn spec_voice_action(event: MidiEvent) -> VoiceAction {
    match event {
        MidiEvent::NoteOn { note, velocity } => VoiceAction::NoteOn { note, velocity },
        MidiEvent::NoteOff { note } => VoiceAction::NoteOff { note },
        _ => VoiceAction::Ignore,
    }
}

/// The voice action of `event`.
pub fn voice_action(event: MidiEvent) -> (r: VoiceAction)
    ensures
        r == spec_voice_action(event),
{
    match event {
        MidiEvent::NoteOn { note, velocity } => VoiceAction::NoteOn { note, velocity },
        MidiEvent::NoteOff { note } => VoiceAction::NoteOff { note },
        _ => VoiceAction::Ignore,
    }
}

/// Voice-mode names select modes one to one ("synth", "sampler"); every other name selects none.
pub proof fn law_voice_mode_names(s: Seq<char>)
    ensures
        (spec_parse_voice_mode(s) == Some(VoiceMode::Synth)) <==> s == "synth"@,
        (spec_parse_voice_mode(s) == Some(VoiceMode::Sampler)) <==> s == "sampler"@,
        spec_parse_voice_mode(s) is None <==> !(s == "synth"@ || s == "sampler"@),
{
    reveal_strlit("synth");
    reveal_strlit("sampler");
    assert("synth"@.len() != "sampler"@.len());
}

} // verus!
