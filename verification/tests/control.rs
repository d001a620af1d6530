use mymusic_daw::control::{
    clear_mod_routing_command, filter_selection, lfo_selection, mod_routing_selection,
    play_note_command, poly_mode_command, send_command_to_engine, stop_note_command,
    voice_mode_command, waveform_command,
};
use mymusic_daw::messaging::channels::create_command_channel;
use mymusic_daw::messaging::command::Command;
use mymusic_daw::midi::event::MidiEvent;
use mymusic_daw::synth::filter::FilterType;
use mymusic_daw::synth::lfo::LfoDestination;
use mymusic_daw::synth::modulation::{ModDestination, ModSource};
use mymusic_daw::synth::oscillator::WaveformType;
use mymusic_daw::synth::poly_mode::PolyMode;
use mymusic_daw::synth::voice_manager::VoiceMode;

#[test]
fn basic_test_play_note_valid_velocity() {
    assert!(play_note_command(60, 1).is_ok());
    assert!(play_note_command(60, 127).is_ok());
}

#[test]
fn basic_test_play_note_zero_velocity() {
    let result = play_note_command(60, 0);
    assert!(result.is_err());
    assert!(result.unwrap_err().contains("Velocity must be greater than 0"));
}

#[test]
fn basic_test_set_waveform_valid() {
    assert!(waveform_command("sine").is_ok());
    assert!(waveform_command("square").is_ok());
    assert!(waveform_command("saw").is_ok());
    assert!(waveform_command("triangle").is_ok());
}

#[test]
fn basic_test_set_waveform_invalid() {
    let result = waveform_command("invalid");
    assert!(result.is_err());
    assert!(result.unwrap_err().contains("Invalid waveform"));
}

#[test]
fn mod_test_play_note_valid_velocity() {
    assert!(play_note_command(60, 1).is_ok());
    assert!(play_note_command(60, 127).is_ok());
}

#[test]
fn mod_test_play_note_zero_velocity() {
    let result = play_note_command(60, 0);
    assert!(result.is_err());
    assert!(result.unwrap_err().contains("Velocity must be greater than 0"));
}

#[test]
fn test_stop_note() {
    match stop_note_command(60) {
        Command::Midi(t) => {
            assert!(matches!(t.event, MidiEvent::NoteOff { note: 60 }));
            assert_eq!(t.samples_from_now, 0);
        }
        _ => panic!("expected a MIDI message"),
    }
}

#[test]
fn mod_test_set_waveform_valid() {
    for (name, w) in [
        ("sine", WaveformType::Sine),
        ("square", WaveformType::Square),
        ("saw", WaveformType::Saw),
        ("triangle", WaveformType::Triangle),
    ] {
        match waveform_command(name).unwrap() {
            Command::SetWaveform(x) => assert_eq!(x, w),
            _ => panic!("expected a waveform message"),
        }
    }
}

#[test]
fn mod_test_set_waveform_invalid() {
    assert_eq!(waveform_command("invalid").unwrap_err(), "Invalid waveform: invalid");
}

#[test]
fn test_set_lfo_valid() {
    assert_eq!(lfo_selection("sine", "pitch").unwrap(), (WaveformType::Sine, LfoDestination::Pitch));
    assert_eq!(lfo_selection("saw", "filter").unwrap(), (WaveformType::Saw, LfoDestination::FilterCutoff));
    assert_eq!(lfo_selection("square", "volume").unwrap().1, LfoDestination::Volume);
}

#[test]
fn test_set_lfo_invalid_waveform() {
    let result = lfo_selection("invalid", "pitch");
    assert!(result.is_err());
    assert!(result.unwrap_err().contains("Invalid LFO waveform"));
}

#[test]
fn test_set_lfo_invalid_destination() {
    let result = lfo_selection("sine", "invalid");
    assert!(result.is_err());
    assert!(result.unwrap_err().contains("Invalid LFO destination"));
}

#[test]
fn test_set_filter_valid() {
    assert_eq!(filter_selection("lowpass").unwrap(), FilterType::LowPass);
    assert_eq!(filter_selection("highpass").unwrap(), FilterType::HighPass);
    assert_eq!(filter_selection("bandpass").unwrap(), FilterType::BandPass);
    assert_eq!(filter_selection("notch").unwrap(), FilterType::Notch);
}

#[test]
fn test_set_filter_invalid_type() {
    let result = filter_selection("invalid");
    assert!(result.is_err());
    assert!(result.unwrap_err().contains("Invalid filter type"));
}

#[test]
fn test_set_poly_mode_valid() {
    for (name, m) in [("poly", PolyMode::Poly), ("mono", PolyMode::Mono), ("legato", PolyMode::Legato)] {
        match poly_mode_command(name).unwrap() {
            Command::SetPolyMode(x) => assert_eq!(x, m),
            _ => panic!(),
        }
    }
}

#[test]
fn test_set_poly_mode_invalid() {
    let result = poly_mode_command("invalid");
    assert!(result.is_err());
    assert!(result.unwrap_err().contains("Invalid polyphony mode"));
}

#[test]
fn test_set_voice_mode_valid() {
    assert!(matches!(voice_mode_command("synth").unwrap(), Command::SetVoiceMode(VoiceMode::Synth)));
    assert!(matches!(voice_mode_command("sampler").unwrap(), Command::SetVoiceMode(VoiceMode::Sampler)));
}

#[test]
fn test_set_voice_mode_invalid() {
    let result = voice_mode_command("invalid");
    assert!(result.is_err());
    assert!(result.unwrap_err().contains("Invalid voice mode"));
}

#[test]
fn test_set_mod_routing_valid() {
    assert_eq!(
        mod_routing_selection("lfo", "pitch").unwrap(),
        (ModSource::Lfo(0), ModDestination::OscillatorPitch(0))
    );
    assert_eq!(
        mod_routing_selection("velocity", "amplitude").unwrap(),
        (ModSource::Velocity, ModDestination::Amplitude)
    );
}

#[test]
fn test_set_mod_routing_invalid_source() {
    let result = mod_routing_selection("invalid", "pitch");
    assert!(result.is_err());
    assert!(result.unwrap_err().contains("Invalid modulation source"));
}

#[test]
fn test_set_mod_routing_invalid_destination() {
    let result = mod_routing_selection("lfo", "invalid");
    assert!(result.is_err());
    assert!(result.unwrap_err().contains("Invalid modulation destination"));
}

#[test]
fn test_clear_mod_routing() {
    assert!(matches!(clear_mod_routing_command(0), Command::ClearModRouting { index: 0 }));
    assert!(matches!(clear_mod_routing_command(5), Command::ClearModRouting { index: 5 }));
}

#[test]
fn test_send_command_to_engine_success() {
    let (mut tx, _rx) = create_command_channel(100);
    let command = play_note_command(60, 100).unwrap();
    assert!(send_command_to_engine(&mut tx, command).is_ok());
}

#[test]
fn test_send_command_to_engine_buffer_full() {
    let (mut tx, _rx) = create_command_channel(100);
    for _ in 0..100 {
        let command = play_note_command(60, 127).unwrap();
        let _ = send_command_to_engine(&mut tx, command);
    }
    let command = play_note_command(61, 127).unwrap();
    let result = send_command_to_engine(&mut tx, command);
    assert!(result.is_err());
    assert!(result.unwrap_err().contains("buffer full"));
}

#[test]
fn test_note_sequence() {
    let (mut tx, _rx) = create_command_channel(100);
    assert!(send_command_to_engine(&mut tx, play_note_command(60, 100).unwrap()).is_ok());
    assert!(send_command_to_engine(&mut tx, stop_note_command(60)).is_ok());
}

#[test]
fn test_boundary_midi_values() {
    let (mut tx, _rx) = create_command_channel(100);
    assert!(send_command_to_engine(&mut tx, play_note_command(0, 1).unwrap()).is_ok());
    assert!(send_command_to_engine(&mut tx, play_note_command(127, 127).unwrap()).is_ok());
}
