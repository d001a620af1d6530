use mymusic_daw::audio::export::{AudioExporter, ExportFormat, ExportSettings};
use mymusic_daw::midi::event::{MidiEvent, MidiEventTimed};
use mymusic_daw::synth::voice_manager::VoiceAction;

#[test]
fn test_export_settings_default() {
    let settings = ExportSettings::default();
    assert_eq!(settings.sample_rate, 44100);
    assert_eq!(settings.bit_depth, 16);
    assert_eq!(settings.channels, 2);
    assert_eq!(settings.format, ExportFormat::Wav);
}

#[test]
fn test_export_format_extension() {
    assert_eq!(ExportFormat::Wav.extension(), "wav");
    assert_eq!(ExportFormat::Flac.extension(), "flac");
}

#[test]
fn exporter_keeps_its_settings() {
    let settings = ExportSettings {
        output_path: "out.flac".to_string(),
        format: ExportFormat::Flac,
        sample_rate: 48000,
        bit_depth: 24,
        channels: 1,
        include_metronome: true,
    };
    let exporter = AudioExporter::new(settings);
    assert_eq!(exporter.settings().output_path, "out.flac");
    assert_eq!(exporter.settings().sample_rate, 48000);
    assert_eq!(ExportSettings::default().output_path, "export.wav");
}

#[test]
fn flac_exports_fall_back_to_wav_paths() {
    let settings = ExportSettings {
        output_path: "/music/song.flac".to_string(),
        format: ExportFormat::Flac,
        sample_rate: 48000,
        bit_depth: 24,
        channels: 1,
        include_metronome: true,
    };
    let fallback = AudioExporter::new(settings).flac_fallback_settings();
    assert_eq!(fallback.output_path, "/music/song.wav");
    assert_eq!(fallback.format, ExportFormat::Flac);
    assert_eq!(fallback.sample_rate, 48000);
    assert_eq!(fallback.bit_depth, 24);
    assert_eq!(fallback.channels, 1);
    assert!(fallback.include_metronome);

    let twice = ExportSettings { output_path: "a.flac.flac".to_string(), ..ExportSettings::default() };
    assert_eq!(AudioExporter::new(twice).flac_fallback_settings().output_path, "a.wav.wav");
    let none = ExportSettings { output_path: "mix.wav".to_string(), ..ExportSettings::default() };
    assert_eq!(AudioExporter::new(none).flac_fallback_settings().output_path, "mix.wav");
}

#[test]
fn exported_patterns_start_and_stop_notes() {
    let exporter = AudioExporter::new(ExportSettings::default());
    let on = MidiEventTimed { event: MidiEvent::NoteOn { note: 64, velocity: 80 }, samples_from_now: 12 };
    assert_eq!(exporter.process_midi_event(on), VoiceAction::NoteOn { note: 64, velocity: 80 });
    let off = MidiEventTimed { event: MidiEvent::NoteOff { note: 64 }, samples_from_now: 0 };
    assert_eq!(exporter.process_midi_event(off), VoiceAction::NoteOff { note: 64 });
    let cc = MidiEventTimed { event: MidiEvent::ControlChange { controller: 1, value: 2 }, samples_from_now: 0 };
    assert_eq!(exporter.process_midi_event(cc), VoiceAction::Ignore);
}
