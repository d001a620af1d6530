//! The state that commands change, and its link to the audio thread.

use crate::messaging::channels::CommandProducer;
use crate::messaging::command::Command;
use crate::synth::oscillator::WaveformType;
use crate::synth::poly_mode::PolyMode;
use crate::synth::voice_manager::VoiceMode;
use vstd::prelude::*;

verus! {

/// Bit pattern of the `f32` 0.5, the initial volume.
pub const HALF_VOLUME_BITS: u32 = 0x3F00_0000;

/// The user-interface state of the DAW that commands change; each change
/// is also sent to the audio thread.
pub struct DawState {
    /// Current volume (bits of an `f32` between 0.0 and 1.0)
    pub volume_bits: u32,
    /// Current waveform
    pub waveform: WaveformType,
    /// Polyphony mode
    pub poly_mode: PolyMode,
    /// Voice mode
    pub voice_mode: VoiceMode,
    /// Sending end of the channel to the audio thread
    pub command_sender: CommandProducer,
}

impl DawState {
    /// Default values: volume 0.5, sine, polyphonic, synthesizer.
    pub fn new(command_sender: CommandProducer) -> (r: Self)
        ensures
            r.volume_bits == HALF_VOLUME_BITS,
            r.waveform == WaveformType::Sine,
            r.poly_mode == PolyMode::Poly,
            r.voice_mode == VoiceMode::Synth,
    {
        Self {
            volume_bits: HALF_VOLUME_BITS,
            waveform: WaveformType::Sine,
            poly_mode: PolyMode::Poly,
            voice_mode: VoiceMode::Synth,
            command_sender,
        }
    }

    /// Sends a command to the audio thread; false, with nothing sent, when
    /// the channel is full.
    pub fn send_to_audio(&mut self, command: Command) -> (r: bool)
        ensures
            r ==> final(self).command_sender.spec_sent() == old(self).command_sender.spec_sent().push(command),
            !r ==> final(self).command_sender.spec_sent() == old(self).command_sender.spec_sent(),
            final(self).volume_bits == old(self).volume_bits,
            final(self).waveform == old(self).waveform,
            final(self).poly_mode == old(self).poly_mode,
            final(self).voice_mode == old(self).voice_mode,
    {
        match self.command_sender.try_push(command) {
            Ok(()) => true,
            Err(_) => false,
        }
    }
}

} // verus!
