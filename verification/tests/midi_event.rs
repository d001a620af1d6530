use mymusic_daw::midi::event::MidiEvent;

#[test]
fn test_note_on() {
    let bytes = [0x90, 60, 100];
    let event = MidiEvent::from_bytes(&bytes).unwrap();
    match event {
        MidiEvent::NoteOn { note, velocity } => {
            assert_eq!(note, 60);
            assert_eq!(velocity, 100);
        }
        _ => panic!("Expected NoteOn event"),
    }
}

#[test]
fn test_note_off_explicit() {
    let bytes = [0x80, 60, 0];
    let event = MidiEvent::from_bytes(&bytes).unwrap();
    match event {
        MidiEvent::NoteOff { note } => {
            assert_eq!(note, 60);
        }
        _ => panic!("Expected NoteOff event"),
    }
}

#[test]
fn test_note_off_velocity_zero() {
    let bytes = [0x90, 64, 0];
    let event = MidiEvent::from_bytes(&bytes).unwrap();
    match event {
        MidiEvent::NoteOff { note } => {
            assert_eq!(note, 64);
        }
        _ => panic!("Expected NoteOff event (velocity 0)"),
    }
}

#[test]
fn test_control_change() {
    let bytes = [0xB0, 7, 127];
    let event = MidiEvent::from_bytes(&bytes).unwrap();
    match event {
        MidiEvent::ControlChange { controller, value } => {
            assert_eq!(controller, 7);
            assert_eq!(value, 127);
        }
        _ => panic!("Expected ControlChange event"),
    }
}

#[test]
fn test_pitch_bend() {
    let bytes = [0xE0, 0x00, 0x40];
    let event = MidiEvent::from_bytes(&bytes).unwrap();
    match event {
        MidiEvent::PitchBend { value } => {
            assert_eq!(value, 8192);
        }
        _ => panic!("Expected PitchBend event"),
    }
}

#[test]
fn test_invalid_empty_message() {
    let bytes: [u8; 0] = [];
    let event = MidiEvent::from_bytes(&bytes);
    assert!(event.is_none());
}

#[test]
fn test_invalid_incomplete_message() {
    let bytes = [0x90, 60];
    let event = MidiEvent::from_bytes(&bytes);
    assert!(event.is_none());
}

#[test]
fn test_invalid_unknown_status() {
    let bytes = [0xF0, 0x00, 0x00];
    let event = MidiEvent::from_bytes(&bytes);
    assert!(event.is_none());
}

#[test]
fn test_midi_channel_ignored() {
    let bytes1 = [0x90, 60, 100];
    let bytes2 = [0x9F, 60, 100];
    let event1 = MidiEvent::from_bytes(&bytes1).unwrap();
    let event2 = MidiEvent::from_bytes(&bytes2).unwrap();
    match (event1, event2) {
        (
            MidiEvent::NoteOn { note: n1, velocity: v1 },
            MidiEvent::NoteOn { note: n2, velocity: v2 },
        ) => {
            assert_eq!(n1, n2);
            assert_eq!(v1, v2);
        }
        _ => panic!("Expected both to be NoteOn events"),
    }
}

#[test]
fn test_valid_note_range() {
    for note_num in [0, 60, 127] {
        let bytes = [0x90, note_num, 100];
        let event = MidiEvent::from_bytes(&bytes).unwrap();
        match event {
            MidiEvent::NoteOn { note, .. } => {
                assert_eq!(note, note_num);
            }
            _ => panic!("Expected NoteOn"),
        }
    }
}

#[test]
fn test_velocity_range() {
    for vel in [1, 64, 127] {
        let bytes = [0x90, 60, vel];
        let event = MidiEvent::from_bytes(&bytes).unwrap();
        match event {
            MidiEvent::NoteOn { velocity, .. } => {
                assert_eq!(velocity, vel);
            }
            _ => panic!("Expected NoteOn"),
        }
    }
}

#[test]
fn pitch_bend_data_bytes_combine_msb_first() {
    // LSB 0x7F, MSB 0x7F: the largest 14-bit value
    assert_eq!(
        MidiEvent::from_bytes(&[0xE3, 0x7F, 0x7F]),
        Some(MidiEvent::PitchBend { value: 16383 })
    );
    assert_eq!(
        MidiEvent::from_bytes(&[0xE0, 0x01, 0x00]),
        Some(MidiEvent::PitchBend { value: 1 })
    );
}

#[test]
fn extra_bytes_are_ignored_and_other_types_refused() {
    assert_eq!(
        MidiEvent::from_bytes(&[0x80, 61, 5, 99]),
        Some(MidiEvent::NoteOff { note: 61 })
    );
    assert_eq!(MidiEvent::from_bytes(&[0xA0, 61, 5]), None);
    assert_eq!(MidiEvent::from_bytes(&[0xB5, 1]), None);
}
