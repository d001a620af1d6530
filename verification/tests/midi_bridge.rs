use mymusic_daw::plugin::midi_bridge::default_cc_assignments::default_midi_assignments;
use mymusic_daw::midi::event::{MidiEvent, MidiEventTimed};
use mymusic_daw::plugin::midi_bridge::{MidiMapping, MidiPluginBridge, MidiRoute};
use mymusic_daw::plugin::parameters::PluginInstanceId;

fn id() -> PluginInstanceId {
    "a1a2a3a4-b1b2-c1c2-d1d2-d3d4d5d6d7d8".parse().unwrap()
}

fn mapping(cc: u8, index: u32, name: &str) -> MidiMapping {
    MidiMapping {
        cc_number: cc,
        plugin_instance_id: id(),
        parameter_index: index,
        name: name.to_string(),
        min_value_bits: 0.25f32.to_bits(),
        max_value_bits: 0.75f32.to_bits(),
    }
}

fn cc(controller: u8, value: u8) -> MidiEventTimed {
    MidiEventTimed { event: MidiEvent::ControlChange { controller, value }, samples_from_now: 0 }
}

#[test]
fn mapped_controllers_set_their_parameter() {
    let mut bridge = MidiPluginBridge::new();
    bridge.add_mapping(mapping(74, 3, "Cutoff")).unwrap();
    match bridge.process_midi_input(&cc(74, 64)) {
        MidiRoute::SetParameter { plugin_instance_id, parameter_index, value, min_value_bits, max_value_bits } => {
            assert_eq!(plugin_instance_id, id());
            assert_eq!(parameter_index, 3);
            assert_eq!(value, 64);
            assert_eq!(f32::from_bits(min_value_bits), 0.25);
            assert_eq!(f32::from_bits(max_value_bits), 0.75);
        }
        other => panic!("unexpected route {:?}", other),
    }
    assert!(matches!(bridge.process_midi_input(&cc(75, 1)), MidiRoute::Unmapped));
    let note = MidiEventTimed { event: MidiEvent::NoteOn { note: 60, velocity: 90 }, samples_from_now: 5 };
    match bridge.process_midi_input(&note) {
        MidiRoute::Forward(e) => {
            assert!(matches!(e.event, MidiEvent::NoteOn { note: 60, velocity: 90 }));
            assert_eq!(e.samples_from_now, 5);
        }
        other => panic!("unexpected route {:?}", other),
    }
}

#[test]
fn a_controller_has_one_mapping_and_can_lose_it() {
    let mut bridge = MidiPluginBridge::new();
    bridge.add_mapping(mapping(7, 0, "Volume")).unwrap();
    bridge.add_mapping(mapping(10, 1, "Pan")).unwrap();
    bridge.add_mapping(mapping(7, 5, "Gain")).unwrap();
    let m = bridge.get_mappings();
    let seen: Vec<(u8, u32, &str)> = m.iter().map(|m| (m.cc_number, m.parameter_index, m.name.as_str())).collect();
    assert_eq!(seen, vec![(7, 5, "Gain"), (10, 1, "Pan")]);
    bridge.remove_mapping(7).unwrap();
    bridge.remove_mapping(99).unwrap();
    assert_eq!(bridge.get_mappings().len(), 1);
    assert!(matches!(bridge.process_midi_input(&cc(7, 1)), MidiRoute::Unmapped));
}

#[test]
fn automatic_mapping_covers_eight_parameters() {
    let mut bridge = MidiPluginBridge::new();
    let made = bridge.auto_map_plugin(id(), 20).unwrap();
    let names: Vec<&str> = made.iter().map(|m| m.name.as_str()).collect();
    assert_eq!(
        names,
        vec!["Volume", "Pan", "Cutoff", "Resonance", "Attack", "Decay", "Sustain", "Release"]
    );
    for (i, m) in made.iter().enumerate() {
        assert_eq!(m.cc_number as usize, 20 + i);
        assert_eq!(m.parameter_index as usize, i);
        assert_eq!(f32::from_bits(m.min_value_bits), 0.0);
        assert_eq!(f32::from_bits(m.max_value_bits), 1.0);
    }
    assert_eq!(bridge.get_mappings().len(), 8);
    // The highest start that fits in the controller range.
    let mut last = MidiPluginBridge::new();
    assert_eq!(last.auto_map_plugin(id(), 248).unwrap()[7].cc_number, 255);
}

#[test]
fn instance_ids_parse_from_uuid_text() {
    let a = id();
    assert_eq!(a.as_u128(), 0xa1a2a3a4b1b2c1c2d1d2d3d4d5d6d7d8);
    assert!("not-a-uuid".parse::<PluginInstanceId>().is_err());
}

#[test]
fn test_plugin_id() {
    let id1 = PluginInstanceId::new();
    let id2 = PluginInstanceId::new();
    assert_ne!(id1, id2);
    assert_eq!((id1.as_u128() >> 76) & 0xf, 4);
}

#[test]
fn test_midi_mapping_creation() {
    let mapping = MidiMapping {
        cc_number: 7,
        plugin_instance_id: PluginInstanceId::new(),
        parameter_index: 0,
        name: "Volume".to_string(),
        min_value_bits: 0.0f32.to_bits(),
        max_value_bits: 1.0f32.to_bits(),
    };

    assert_eq!(mapping.cc_number, 7);
    assert_eq!(mapping.name, "Volume");
    assert_eq!(f32::from_bits(mapping.min_value_bits), 0.0);
    assert_eq!(f32::from_bits(mapping.max_value_bits), 1.0);
}

#[test]
fn default_assignments_list_general_midi_controllers() {
    let a = default_midi_assignments();
    let expected: Vec<(u8, String)> = vec![
        (7, "Volume".to_string()),
        (10, "Pan".to_string()),
        (11, "Expression".to_string()),
        (64, "Sustain".to_string()),
        (65, "Portamento".to_string()),
        (66, "Sostenuto".to_string()),
        (67, "Soft Pedal".to_string()),
        (68, "Legato".to_string()),
        (69, "Hold 2".to_string()),
    ];
    assert_eq!(a, expected);
}
