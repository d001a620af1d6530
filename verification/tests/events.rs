use mymusic_daw::events::{event_name, get_timestamp, AudioEvent, AudioEventEmitter};

#[test]
fn events_wait_for_the_interface_and_keep_their_order() {
    let mut emitter = AudioEventEmitter::new();
    assert!(emitter.midi_note(60, 100, true, 1).is_none());
    assert!(emitter.active_voices(3, 2).is_none());
    assert!(emitter.error("overload".to_string(), "warning".to_string(), 3).is_none());
    let held = emitter.set_app_handle();
    let names: Vec<&str> = held.iter().map(event_name).collect();
    assert_eq!(names, vec!["audio:midi-note", "audio:active-voices", "audio:error"]);
    assert!(matches!(held[0], AudioEvent::MidiNote { note: 60, velocity: 100, on: true, timestamp: 1 }));

    // Once attached, events are handed back at once and nothing is held.
    let now = emitter.metronome_tick(2, true, 4);
    assert!(matches!(now, Some(AudioEvent::MetronomeTick { beat: 2, is_accent: true, timestamp: 4 })));
    assert!(emitter.set_app_handle().is_empty());
}

#[test]
fn every_event_kind_has_its_channel_name() {
    let events = vec![
        AudioEvent::MidiNote { note: 1, velocity: 2, on: false, timestamp: 0 },
        AudioEvent::ActiveVoices { count: 1, timestamp: 0 },
        AudioEvent::CpuUsage { percentage_bits: 12.5f32.to_bits(), timestamp: 0 },
        AudioEvent::AudioLevel {
            left_bits: 0.1f32.to_bits(),
            right_bits: 0.2f32.to_bits(),
            peak_left_bits: 0.3f32.to_bits(),
            peak_right_bits: 0.4f32.to_bits(),
            timestamp: 0,
        },
        AudioEvent::ParameterChanged {
            parameter: "volume".to_string(),
            value: serde_json::Value::Bool(true),
            timestamp: 0,
        },
        AudioEvent::TransportPosition {
            samples: 44100,
            musical_time: "1:2:0".to_string(),
            is_playing: true,
            tempo_bits: 120.0f32.to_bits(),
            timestamp: 0,
        },
        AudioEvent::MetronomeTick { beat: 1, is_accent: false, timestamp: 0 },
        AudioEvent::Error { message: "x".to_string(), severity: "error".to_string(), timestamp: 0 },
    ];
    let names: Vec<&str> = events.iter().map(event_name).collect();
    assert_eq!(
        names,
        vec![
            "audio:midi-note",
            "audio:active-voices",
            "audio:cpu-usage",
            "audio:level",
            "audio:parameter-changed",
            "audio:transport-position",
            "audio:metronome-tick",
            "audio:error",
        ]
    );
}

#[test]
fn float_payloads_travel_as_bits() {
    let mut emitter = AudioEventEmitter::default();
    emitter.set_app_handle();
    match emitter.cpu_usage(42.5f32.to_bits(), 9) {
        Some(AudioEvent::CpuUsage { percentage_bits, timestamp }) => {
            assert_eq!(f32::from_bits(percentage_bits), 42.5);
            assert_eq!(timestamp, 9);
        }
        _ => panic!("expected a CPU event"),
    }
    match emitter.transport_position(10, "2:1:0".to_string(), false, 90.0f32.to_bits(), 5) {
        Some(AudioEvent::TransportPosition { musical_time, tempo_bits, .. }) => {
            assert_eq!(musical_time, "2:1:0");
            assert_eq!(f32::from_bits(tempo_bits), 90.0);
        }
        _ => panic!("expected a transport event"),
    }
    assert!(emitter.audio_level(0, 0, 0, 0, 1).is_some());
    assert!(emitter.parameter_changed("gain".to_string(), serde_json::Value::Null, 1).is_some());
}

#[test]
fn timestamps_are_recent_milliseconds() {
    let t = get_timestamp();
    // Later than 2020-01-01 in milliseconds since the epoch.
    assert!(t > 1_577_836_800_000);
}
