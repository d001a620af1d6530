//! Messages from the user interface to the audio thread.

use crate::midi::event::MidiEventTimed;
use crate::synth::oscillator::WaveformType;
use crate::synth::poly_mode::PolyMode;
use crate::synth::voice_manager::VoiceMode;
use vstd::prelude::*;

verus! {

/// A message to the audio thread. Floating-point values travel as their
/// IEEE-754 bit patterns (`f32::to_bits`, `f64::to_bits`).
#[derive(Debug, Clone)]
pub enum Command {
    Midi(MidiEventTimed),
    /// Master volume (bits of an `f32`, 0.0 to 1.0)
    SetVolume(u32),
    SetWaveform(WaveformType),
    SetPolyMode(PolyMode),
    SetVoiceMode(VoiceMode),
    RemoveSample(usize),
    SetNoteSampleMapping { note: u8, sample_index: usize },
    /// Clear a modulation routing slot
    ClearModRouting { index: u8 },
    /// Enable/disable metronome
    SetMetronomeEnabled(bool),
    /// Metronome volume (bits of an `f32`, 0.0 to 1.0)
    SetMetronomeVolume(u32),
    /// Transport tempo in BPM (bits of an `f64`)
    SetTempo(u64),
    /// Transport time signature (numerator, denominator)
    SetTimeSignature(u8, u8),
    /// Transport playing state (true = playing, false = stopped)
    SetTransportPlaying(bool),
    /// Transport position in samples
    SetTransportPosition(u64),
    Quit,
}

} // verus!
