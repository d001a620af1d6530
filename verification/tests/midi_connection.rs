use mymusic_daw::connection::status::DeviceStatus;
use mymusic_daw::messaging::notification::NotificationLevel;
use mymusic_daw::midi::device::MidiDeviceManager;
use mymusic_daw::midi::manager::{
    connect_report, default_target, reconnect_report, ConnectOutcome, DefaultTarget, MidiMonitor,
    MonitorAction,
};

#[test]
fn connected_device_needs_no_action() {
    let mut m = MidiMonitor::new();
    assert_eq!(m.poll(DeviceStatus::Connected), MonitorAction::Wait);
    assert_eq!(m.poll(DeviceStatus::Connecting), MonitorAction::Wait);
    assert_eq!(m.current_attempt(), 0);
}

#[test]
fn lost_device_is_retried_with_growing_delays_then_replaced() {
    let mut m = MidiMonitor::new();
    let mut delays = Vec::new();
    for _ in 0..10 {
        match m.poll(DeviceStatus::Disconnected) {
            MonitorAction::Reconnect { delay_ms } => delays.push(delay_ms.unwrap()),
            other => panic!("unexpected {:?}", other),
        }
    }
    assert_eq!(delays, vec![1000, 2000, 4000, 8000, 16000, 30000, 30000, 30000, 30000, 30000]);
    assert_eq!(m.poll(DeviceStatus::Error), MonitorAction::FallBack);
    assert_eq!(m.fallback_done(true), 5000);
    assert_eq!(m.current_attempt(), 0);
}

#[test]
fn repeated_fallback_failures_slow_the_monitor_down() {
    let mut m = MidiMonitor::new();
    let waits: Vec<u64> = (0..7).map(|_| m.fallback_done(false)).collect();
    assert_eq!(waits, vec![5000, 5000, 5000, 5000, 5000, 30000, 30000]);
}

#[test]
fn a_successful_reconnection_resets_the_attempts() {
    let mut m = MidiMonitor::new();
    m.poll(DeviceStatus::Disconnected);
    m.poll(DeviceStatus::Disconnected);
    assert_eq!(m.current_attempt(), 2);
    let (status, note) = reconnect_report(&mut m, &ConnectOutcome::Connected, "Keys");
    assert_eq!(status, Some(DeviceStatus::Connected));
    let (level, text) = note.unwrap();
    assert_eq!(level, NotificationLevel::Info);
    assert_eq!(text, "MIDI reconnected: Keys");
    assert_eq!(m.current_attempt(), 0);

    let (status, note) = reconnect_report(&mut m, &ConnectOutcome::ConnectFailed("busy".to_string()), "Keys");
    assert_eq!(status, Some(DeviceStatus::Error));
    assert_eq!(note.unwrap().1, "MIDI reconnection failed");
    let (status, note) = reconnect_report(&mut m, &ConnectOutcome::NotFound, "Keys");
    assert_eq!(status, Some(DeviceStatus::Disconnected));
    assert!(note.is_none());
    let (status, note) = reconnect_report(&mut m, &ConnectOutcome::MidiUnavailable("x".to_string()), "Keys");
    assert!(status.is_none() && note.is_none());
}

#[test]
fn first_connection_reports() {
    let r = connect_report(&ConnectOutcome::Connected, "Keys");
    assert_eq!((r.status, r.connected, r.level), (DeviceStatus::Connected, true, NotificationLevel::Info));
    assert_eq!(r.message, "MIDI connected: Keys");
    let r = connect_report(&ConnectOutcome::NotFound, "Pads");
    assert_eq!(r.status, DeviceStatus::Disconnected);
    assert_eq!(r.message, "MIDI device 'Pads' not found");
    let r = connect_report(&ConnectOutcome::MidiUnavailable("no ALSA".to_string()), "Pads");
    assert_eq!(r.status, DeviceStatus::Error);
    assert_eq!(r.message, "Failed to initialize MIDI: no ALSA");
    let r = connect_report(&ConnectOutcome::ConnectFailed("busy".to_string()), "Pads");
    assert!(!r.connected);
    assert_eq!(r.message, "Failed to connect to MIDI: busy");
}

#[test]
fn default_device_choice() {
    match default_target(Some("boom".to_string()), None) {
        DefaultTarget::Unavailable(r) => assert_eq!(r.message, "Failed to initialize MIDI: boom"),
        _ => panic!(),
    }
    match default_target(None, None) {
        DefaultTarget::NoDevice(r) => {
            assert_eq!(r.level, NotificationLevel::Warning);
            assert_eq!(r.message, "No MIDI devices found");
        }
        _ => panic!(),
    }
    match default_target(None, Some(Some("Keys".to_string()))) {
        DefaultTarget::Target(t) => assert_eq!(t, "Keys"),
        _ => panic!(),
    }
    match default_target(None, Some(None)) {
        DefaultTarget::Target(t) => assert_eq!(t, "Unknown"),
        _ => panic!(),
    }
}

#[test]
fn input_ports_are_numbered_and_the_first_is_default() {
    let manager = MidiDeviceManager::new();
    let ports = manager.describe_input_ports(&vec![Some("A".to_string()), None, Some("C".to_string())]);
    assert_eq!(ports.len(), 2);
    assert_eq!((ports[0].id.as_str(), ports[0].name.as_str(), ports[0].is_default), ("midi_in_0", "A", true));
    assert_eq!((ports[1].id.as_str(), ports[1].name.as_str(), ports[1].is_default), ("midi_in_2", "C", false));
}
