use mymusic_daw::audio::transport::TransportState;
use mymusic_daw::messaging::command::Command;

#[test]
fn transport_starts_stopped_at_zero() {
    let t = TransportState::new();
    assert!(!t.is_playing);
    assert_eq!(t.position, 0);
}

#[test]
fn play_then_advance_moves_position() {
    let mut t = TransportState::new();
    assert!(!t.apply_command(&Command::SetTransportPlaying(true)));
    assert!(t.is_playing);
    t.advance(512);
    t.advance(512);
    assert_eq!(t.position, 1024);
}

#[test]
fn stop_rewinds_and_resets_metronome() {
    let mut t = TransportState { is_playing: true, position: 48_000 };
    assert!(t.apply_command(&Command::SetTransportPlaying(false)));
    assert_eq!(t, TransportState { is_playing: false, position: 0 });
}

#[test]
fn stop_while_stopped_keeps_position() {
    let mut t = TransportState { is_playing: false, position: 300 };
    assert!(!t.apply_command(&Command::SetTransportPlaying(false)));
    assert_eq!(t.position, 300);
}

#[test]
fn play_while_playing_changes_nothing() {
    let mut t = TransportState { is_playing: true, position: 77 };
    assert!(!t.apply_command(&Command::SetTransportPlaying(true)));
    assert_eq!(t, TransportState { is_playing: true, position: 77 });
}

#[test]
fn position_jump_resets_metronome() {
    let mut t = TransportState::new();
    assert!(t.apply_command(&Command::SetTransportPosition(96_000)));
    assert_eq!(t.position, 96_000);
    assert!(!t.is_playing);
    t.advance(100);
    assert_eq!(t.position, 96_000);
}

#[test]
fn other_commands_leave_transport_alone() {
    let mut t = TransportState { is_playing: true, position: 5 };
    assert!(!t.apply_command(&Command::SetMetronomeEnabled(true)));
    assert!(!t.apply_command(&Command::Quit));
    assert_eq!(t, TransportState { is_playing: true, position: 5 });
}
