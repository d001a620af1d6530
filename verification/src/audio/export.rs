//! Settings of the offline export of a project to an audio file.

use crate::midi::event::MidiEventTimed;
use crate::text::{replace_all, replace_text};
use crate::synth::voice_manager::{spec_voice_action, voice_action, VoiceAction};
use vstd::prelude::*;

verus! {

/// Audio export format.
#[derive(Debug, Clone, Copy, PartialEq, Eq)]
pub enum ExportFormat {
    /// WAV format (uncompressed)
    Wav,
    /// FLAC format (lossless compression)
    Flac,
}

impl ExportFormat {
    /// File extension for this format.
    pub fn extension(&self) -> (r: &'static str)
        ensures
            r@ == match *self {
                ExportFormat::Wav => "wav"@,
                ExportFormat::Flac => "flac"@,
            },
    {
        match self {
            ExportFormat::Wav => "wav",
            ExportFormat::Flac => "flac",
        }
    }
}

/// Audio export settings.
#[derive(Debug, Clone)]
pub struct ExportSettings {
    /// Output file path
    pub output_path: String,
    /// Export format (WAV or FLAC)
    pub format: ExportFormat,
    /// Sample rate (Hz)
    pub sample_rate: u32,
    /// Bit depth (16 or 24)
    pub bit_depth: u16,
    /// Number of channels (1=mono, 2=stereo)
    pub channels: u16,
    /// Include metronome in export
    pub include_metronome: bool,
}

impl Default for ExportSettings {
    /// `export.wav`, WAV, 44.1 kHz, 16 bits, stereo, no metronome.
    fn default() -> (r: Self)
        ensures
            r.output_path@ == "export.wav"@,
            r.format == ExportFormat::Wav,
            r.sample_rate == 44100,
            r.bit_depth == 16,
            r.channels == 2,
            !r.include_metronome,
    {
        Self {
            output_path: String::from_str("export.wav"),
            format: ExportFormat::Wav,
            sample_rate: 44100,
            bit_depth: 16,
            channels: 2,
            include_metronome: false,
        }
    }
}

/// Audio exporter: renders a project to an audio file with given settings.
pub struct AudioExporter {
    settings: ExportSettings,
}

impl AudioExporter {
    /// An exporter with these settings.
    pub fn new(settings: ExportSettings) -> (r: Self)
        ensures
            r.spec_settings() == settings,
    {
        Self { settings }
    }

    pub closed spec fn spec_settings(&self) -> ExportSettings {
        self.settings
    }

    /// The settings of this exporter.
    pub fn settings(&self) -> (r: &ExportSettings)
        ensures
            *r == self.spec_settings(),
    {
        &self.settings
    }

    /// The settings a FLAC export is written with: FLAC is not encoded, the
    /// audio goes to a WAV file instead, whose path has every ".flac"
    /// replaced by ".wav"; the other settings are kept.
    pub fn flac_fallback_settings(&self) -> (r: ExportSettings)
        ensures
            r.output_path@ == replace_all(self.spec_settings().output_path@, ".flac"@, ".wav"@),
            r.format == self.spec_settings().format,
            r.sample_rate == self.spec_settings().sample_rate,
            r.bit_depth == self.spec_settings().bit_depth,
            r.channels == self.spec_settings().channels,
            r.include_metronome == self.spec_settings().include_metronome,
    {
        proof {
            reveal_strlit(".flac");
        }
        ExportSettings {
            output_path: replace_text(self.settings.output_path.as_str(), ".flac", ".wav"),
            format: self.settings.format,
            sample_rate: self.settings.sample_rate,
            bit_depth: self.settings.bit_depth,
            channels: self.settings.channels,
            include_metronome: self.settings.include_metronome,
        }
    }

    /// What the rendering voices do for an event of the pattern: it is
    /// applied at once, whatever its offset (the sequencer has placed it).
    pub fn process_midi_event(&self, timed_event: MidiEventTimed) -> (r: VoiceAction)
        ensures
            r == spec_voice_action(timed_event.event),
    {
        voice_action(timed_event.event)
    }
}

} // verus!
