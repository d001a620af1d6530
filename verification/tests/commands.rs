use mymusic_daw::command::commands::{DawCommand, SetPolyModeCommand, SetVoiceModeCommand, SetWaveformCommand};
use mymusic_daw::command::manager::CommandManager;
use mymusic_daw::command::state::DawState;
use mymusic_daw::command::trait_def::{CommandError, CommandResult, UndoableCommand};
use mymusic_daw::messaging::channels::create_command_channel;
use mymusic_daw::synth::oscillator::{parse_waveform, WaveformType};
use mymusic_daw::synth::poly_mode::{parse_poly_mode, PolyMode};
use mymusic_daw::synth::voice_manager::{parse_voice_mode, VoiceMode};

struct MockCommand {
    value: i32,
    old_value: Option<i32>,
    executed: bool,
}

impl MockCommand {
    fn new(value: i32) -> Self {
        Self { value, old_value: None, executed: false }
    }
}

impl UndoableCommand for MockCommand {
    fn execute(&mut self, _state: &mut DawState) -> CommandResult<()> {
        self.old_value = Some(0);
        self.executed = true;
        Ok(())
    }

    fn undo(&mut self, _state: &mut DawState) -> CommandResult<()> {
        if self.old_value.is_none() {
            return Err(CommandError::UndoFailed("Not executed".into()));
        }
        self.executed = false;
        Ok(())
    }

    fn description(&self) -> String {
        format!("Set value to {}", self.value)
    }
}

fn create_test_state() -> DawState {
    let (tx, _rx) = create_command_channel(128);
    DawState::new(tx)
}

#[test]
fn test_waveform_description() {
    let cmd = SetWaveformCommand::new(WaveformType::Saw);
    assert_eq!(cmd.description(), "Set Waveform to Saw");
}

#[test]
fn test_set_waveform_command() {
    let mut state = create_test_state();
    let mut cmd = SetWaveformCommand::new(WaveformType::Square);
    assert_eq!(state.waveform, WaveformType::Sine);
    cmd.execute(&mut state).unwrap();
    assert_eq!(state.waveform, WaveformType::Square);
    cmd.undo(&mut state).unwrap();
    assert_eq!(state.waveform, WaveformType::Sine);
}

#[test]
fn test_execute_command() {
    let mut manager = CommandManager::new();
    let mut state = create_test_state();
    manager.execute(MockCommand::new(42), &mut state).unwrap();
    assert_eq!(manager.undo_count(), 1);
    assert_eq!(manager.redo_count(), 0);
    assert!(manager.can_undo());
    assert!(!manager.can_redo());
}

#[test]
fn test_undo() {
    let mut manager = CommandManager::new();
    let mut state = create_test_state();
    manager.execute(MockCommand::new(42), &mut state).unwrap();
    let description = manager.undo(&mut state).unwrap();
    assert_eq!(description, "Set value to 42");
    assert_eq!(manager.undo_count(), 0);
    assert_eq!(manager.redo_count(), 1);
}

#[test]
fn test_redo() {
    let mut manager = CommandManager::new();
    let mut state = create_test_state();
    manager.execute(MockCommand::new(42), &mut state).unwrap();
    manager.undo(&mut state).unwrap();
    let description = manager.redo(&mut state).unwrap();
    assert_eq!(description, "Set value to 42");
    assert_eq!(manager.undo_count(), 1);
    assert_eq!(manager.redo_count(), 0);
}

#[test]
fn test_redo_stack_cleared_on_new_command() {
    let mut manager = CommandManager::new();
    let mut state = create_test_state();
    manager.execute(MockCommand::new(1), &mut state).unwrap();
    manager.undo(&mut state).unwrap();
    manager.execute(MockCommand::new(2), &mut state).unwrap();
    assert!(!manager.can_redo());
    assert_eq!(manager.redo_count(), 0);
}

#[test]
fn test_history_limit() {
    let mut manager = CommandManager::with_capacity(3);
    let mut state = create_test_state();
    for i in 0..5 {
        manager.execute(MockCommand::new(i), &mut state).unwrap();
    }
    assert_eq!(manager.undo_count(), 3);
    assert_eq!(manager.undo_description().unwrap(), "Set value to 4");
}

#[test]
fn test_undo_with_empty_stack() {
    let mut manager: CommandManager<MockCommand> = CommandManager::new();
    let mut state = create_test_state();
    let result = manager.undo(&mut state);
    assert!(result.is_err());
}

#[test]
fn test_redo_with_empty_stack() {
    let mut manager: CommandManager<MockCommand> = CommandManager::new();
    let mut state = create_test_state();
    let result = manager.redo(&mut state);
    assert!(result.is_err());
}

#[test]
fn undo_without_execution_fails_and_keeps_state() {
    let mut state = create_test_state();
    let mut cmd = SetPolyModeCommand::new(PolyMode::Legato);
    let e = cmd.undo(&mut state).unwrap_err();
    assert_eq!(e.to_string(), "Undo failed: No previous polyphony mode stored");
    assert_eq!(state.poly_mode, PolyMode::Poly);
}

#[test]
fn full_channel_fails_execution_but_changes_state() {
    let (tx, _rx) = create_command_channel(1);
    let mut state = DawState::new(tx);
    let mut first = SetVoiceModeCommand::new(VoiceMode::Sampler);
    first.execute(&mut state).unwrap();
    let mut second = SetVoiceModeCommand::new(VoiceMode::Synth);
    let e = second.execute(&mut state).unwrap_err();
    assert_eq!(
        e.to_string(),
        "Execution failed: Failed to send VoiceMode command to audio thread (ringbuffer full)"
    );
    assert_eq!(state.voice_mode, VoiceMode::Synth);
    assert_eq!(second.description(), "Set Voice Mode to Synth");
}

#[test]
fn manager_undo_redo_with_real_commands() {
    let mut manager = CommandManager::new();
    let mut state = create_test_state();
    manager.execute(SetWaveformCommand::new(WaveformType::Triangle), &mut state).unwrap();
    manager.execute(SetWaveformCommand::new(WaveformType::Saw), &mut state).unwrap();
    assert_eq!(state.waveform, WaveformType::Saw);
    assert_eq!(manager.undo(&mut state).unwrap(), "Set Waveform to Saw");
    assert_eq!(state.waveform, WaveformType::Triangle);
    assert_eq!(manager.redo_description().unwrap(), "Set Waveform to Saw");
    assert_eq!(manager.undo(&mut state).unwrap(), "Set Waveform to Triangle");
    assert_eq!(state.waveform, WaveformType::Sine);
    assert_eq!(manager.redo(&mut state).unwrap(), "Set Waveform to Triangle");
    assert_eq!(state.waveform, WaveformType::Triangle);
    manager.clear();
    assert_eq!(manager.undo_count() + manager.redo_count(), 0);
}

#[test]
fn interface_names_select_settings() {
    assert_eq!(parse_waveform("saw"), Some(WaveformType::Saw));
    assert_eq!(parse_waveform("Saw"), None);
    assert_eq!(parse_poly_mode("legato"), Some(PolyMode::Legato));
    assert_eq!(parse_poly_mode("stereo"), None);
    assert_eq!(parse_voice_mode("sampler"), Some(VoiceMode::Sampler));
    assert_eq!(PolyMode::default(), PolyMode::Poly);
}

#[test]
fn one_history_mixes_command_kinds() {
    let mut state = create_test_state();
    let mut manager: CommandManager<DawCommand> = CommandManager::with_capacity(3);
    manager.execute(DawCommand::Waveform(SetWaveformCommand::new(WaveformType::Saw)), &mut state).unwrap();
    manager.execute(DawCommand::PolyMode(SetPolyModeCommand::new(PolyMode::Mono)), &mut state).unwrap();
    manager.execute(DawCommand::VoiceMode(SetVoiceModeCommand::new(VoiceMode::Sampler)), &mut state).unwrap();
    assert_eq!((state.waveform, state.poly_mode, state.voice_mode), (WaveformType::Saw, PolyMode::Mono, VoiceMode::Sampler));

    assert_eq!(manager.undo(&mut state).unwrap(), "Set Voice Mode to Sampler");
    assert_eq!(state.voice_mode, VoiceMode::Synth);
    assert_eq!(manager.undo(&mut state).unwrap(), "Set Polyphony Mode to Mono");
    assert_eq!(state.poly_mode, PolyMode::Poly);
    assert_eq!(manager.redo(&mut state).unwrap(), "Set Polyphony Mode to Mono");
    assert_eq!(state.poly_mode, PolyMode::Mono);
    assert_eq!(manager.undo_count() + manager.redo_count(), 3);

    // a new command empties the redo history; the limit keeps three
    manager.execute(DawCommand::Waveform(SetWaveformCommand::new(WaveformType::Square)), &mut state).unwrap();
    manager.execute(DawCommand::Waveform(SetWaveformCommand::new(WaveformType::Triangle)), &mut state).unwrap();
    assert_eq!(manager.redo_count(), 0);
    assert_eq!(manager.undo_count(), 3);
    assert_eq!(manager.undo_description().unwrap(), "Set Waveform to Triangle");
}
