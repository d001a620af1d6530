//! Requests of the user interface, checked and turned into messages for
//! the audio thread.

use crate::messaging::channels::CommandProducer;
use crate::messaging::command::Command;
use crate::synth::filter::{parse_filter_type, spec_parse_filter_type, FilterType};
use crate::synth::lfo::{parse_lfo_destination, spec_parse_lfo_destination, LfoDestination};
use crate::synth::modulation::{
    parse_mod_destination, parse_mod_source, spec_parse_mod_destination, spec_parse_mod_source,
    ModDestination, ModSource,
};
use crate::synth::oscillator::WaveformType;
use crate::midi::event::{MidiEvent, MidiEventTimed};
use crate::synth::oscillator::{parse_waveform, spec_parse_waveform};
use crate::synth::poly_mode::{parse_poly_mode, spec_parse_poly_mode};
use crate::synth::voice_manager::{parse_voice_mode, spec_parse_voice_mode};
use vstd::prelude::*;

verus! {

/// A MIDI event to play now.
pub open spec fn immediate(event: MidiEvent) -> Command {
    Command::Midi(MidiEventTimed { event, samples_from_now: 0 })
}

/// The message that starts `note`; a zero velocity is refused.
pub fn play_note_command(note: u8, velocity: u8) -> (r: Result<Command, String>)
    ensures
        velocity == 0 ==> (r matches Err(e) && e@ == "Velocity must be greater than 0"@),
        velocity != 0 ==> r == Ok::<Command, String>(immediate(MidiEvent::NoteOn { note, velocity })),
{
    if velocity == 0 {
        return Err(String::from_str("Velocity must be greater than 0"));
    }
    Ok(Command::Midi(MidiEventTimed { event: MidiEvent::NoteOn { note, velocity }, samples_from_now: 0 }))
}

/// The message that stops `note`.
pub fn stop_note_command(note: u8) -> (r: Command)
    ensures
        r == immediate(MidiEvent::NoteOff { note }),
{
    Command::Midi(MidiEventTimed { event: MidiEvent::NoteOff { note }, samples_from_now: 0 })
}

/// The message that selects the waveform named `name`.
pub fn waveform_command(name: &str) -> (r: Result<Command, String>)
    ensures
        match spec_parse_waveform(name@) {
            Some(w) => r == Ok::<Command, String>(Command::SetWaveform(w)),
            None => r matches Err(e) && e@ == "Invalid waveform: "@ + name@,
        },
{
    match parse_waveform(name) {
        Some(w) => Ok(Command::SetWaveform(w)),
        None => Err(String::from_str("Invalid waveform: ").concat(name)),
    }
}

/// The message that selects the polyphony mode named `name`.
pub fn poly_mode_command(name: &str) -> (r: Result<Command, String>)
    ensures
        match spec_parse_poly_mode(name@) {
            Some(m) => r == Ok::<Command, String>(Command::SetPolyMode(m)),
            None => r matches Err(e) && e@ == "Invalid polyphony mode: "@ + name@,
        },
{
    match parse_poly_mode(name) {
        Some(m) => Ok(Command::SetPolyMode(m)),
        None => Err(String::from_str("Invalid polyphony mode: ").concat(name)),
    }
}

/// The message that selects the voice mode named `name`.
pub fn voice_mode_command(name: &str) -> (r: Result<Command, String>)
    ensures
        match spec_parse_voice_mode(name@) {
            Some(m) => r == Ok::<Command, String>(Command::SetVoiceMode(m)),
            None => r matches Err(e) && e@ == "Invalid voice mode: "@ + name@,
        },
{
    match parse_voice_mode(name) {
        Some(m) => Ok(Command::SetVoiceMode(m)),
        None => Err(String::from_str("Invalid voice mode: ").concat(name)),
    }
}

/// The message that clears modulation slot `index`.
pub fn clear_mod_routing_command(index: u8) -> (r: Command)
    ensures
        r == (Command::ClearModRouting { index }),
{
    Command::ClearModRouting { index }
}

/// Sends a message to the audio thread; refused, with nothing sent, when the
/// channel is full.
pub fn send_command_to_engine(sender: &mut CommandProducer, command: Command) -> (r: Result<(), String>)
    ensures
        match r {
            Ok(()) => final(sender).spec_sent() == old(sender).spec_sent().push(command),
            Err(e) => e@ == "Failed to send command (buffer full)"@ && final(sender).spec_sent()
                == old(sender).spec_sent(),
        },
{
    match sender.try_push(command) {
        Ok(()) => Ok(()),
        Err(_) => Err(String::from_str("Failed to send command (buffer full)")),
    }
}

/// The waveform and destination of an LFO, selected by name; the waveform
/// is checked first.
pub fn lfo_selection(waveform: &str, destination: &str) -> (r: Result<(WaveformType, LfoDestination), String>)
    ensures
        match (spec_parse_waveform(waveform@), spec_parse_lfo_destination(destination@)) {
            (Some(w), Some(d)) => r == Ok::<(WaveformType, LfoDestination), String>((w, d)),
            (None, _) => r matches Err(e) && e@ == "Invalid LFO waveform: "@ + waveform@,
            (Some(_), None) => r matches Err(e) && e@ == "Invalid LFO destination: "@ + destination@,
        },
{
    let w = match parse_waveform(waveform) {
        Some(w) => w,
        None => {
            return Err(String::from_str("Invalid LFO waveform: ").concat(waveform));
        },
    };
    match parse_lfo_destination(destination) {
        Some(d) => Ok((w, d)),
        None => Err(String::from_str("Invalid LFO destination: ").concat(destination)),
    }
}

/// The filter type selected by name.
pub fn filter_selection(filter_type: &str) -> (r: Result<FilterType, String>)
    ensures
        match spec_parse_filter_type(filter_type@) {
            Some(t) => r == Ok::<FilterType, String>(t),
            None => r matches Err(e) && e@ == "Invalid filter type: "@ + filter_type@,
        },
{
    match parse_filter_type(filter_type) {
        Some(t) => Ok(t),
        None => Err(String::from_str("Invalid filter type: ").concat(filter_type)),
    }
}

/// The source and destination of a modulation routing, selected by name;
/// the source is checked first.
pub fn mod_routing_selection(source: &str, destination: &str) -> (r: Result<(ModSource, ModDestination), String>)
    ensures
        match (spec_parse_mod_source(source@), spec_parse_mod_destination(destination@)) {
            (Some(s), Some(d)) => r == Ok::<(ModSource, ModDestination), String>((s, d)),
            (None, _) => r matches Err(e) && e@ == "Invalid modulation source: "@ + source@,
            (Some(_), None) => r matches Err(e) && e@ == "Invalid modulation destination: "@
                + destination@,
        },
{
    let s = match parse_mod_source(source) {
        Some(s) => s,
        None => {
            return Err(String::from_str("Invalid modulation source: ").concat(source));
        },
    };
    match parse_mod_destination(destination) {
        Some(d) => Ok((s, d)),
        None => Err(String::from_str("Invalid modulation destination: ").concat(destination)),
    }
}

} // verus!
