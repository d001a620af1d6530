//! Commands that change one setting of the DAW and can be undone.

use crate::command::state::DawState;
use crate::command::trait_def::{CommandError, CommandResult, UndoableCommand};
use crate::messaging::command::Command;
use crate::synth::oscillator::{waveform_name, WaveformType};
use crate::synth::poly_mode::{poly_mode_name, PolyMode};
use crate::synth::voice_manager::{voice_mode_name, VoiceMode};
use vstd::prelude::*;

verus! {

/// Whether `e` is the error with kind `undo` (undo failure, else execution
/// failure) and message `m`.
pub open spec fn is_error(e: CommandError, undo: bool, m: Seq<char>) -> bool {
    if undo {
        e matches CommandError::UndoFailed(x) && x@ == m
    } else {
        e matches CommandError::ExecutionFailed(x) && x@ == m
    }
}

/// What reached the audio thread's channel: `c` was sent where the step
/// succeeded, and nothing otherwise.
pub open spec fn sent_on_success(s0: &DawState, s1: &DawState, ok: bool, c: Command) -> bool {
    if ok {
        s1.command_sender.spec_sent() == s0.command_sender.spec_sent().push(c)
    } else {
        s1.command_sender.spec_sent() == s0.command_sender.spec_sent()
    }
}

/// Command that sets the waveform; undo restores the previous one.
pub struct SetWaveformCommand {
    new_waveform: WaveformType,
    old_waveform: Option<WaveformType>,
}

/// The state fields other than the waveform are equal.
pub open spec fn others_kept_waveform(a: &DawState, b: &DawState) -> bool {
    a.volume_bits == b.volume_bits && a.poly_mode == b.poly_mode && a.voice_mode == b.voice_mode
}

/// After executing `c0` on a state holding `s0`: the command remembers `s0`
/// and the state holds the command's new waveform.
pub open spec fn waveform_executed(c0: SetWaveformCommand, s0: WaveformType, c1: SetWaveformCommand, s1: WaveformType) -> bool {
    c1.spec_new() == c0.spec_new() && c1.spec_old() == Some(s0) && s1 == c0.spec_new()
}

/// After undoing `c1` on a state holding `s1`: the command is unchanged and
/// the state holds the remembered waveform (unchanged when none is remembered).
pub open spec fn waveform_undone(c1: SetWaveformCommand, s1: WaveformType, c2: SetWaveformCommand, s2: WaveformType) -> bool {
    c2.spec_new() == c1.spec_new() && c2.spec_old() == c1.spec_old() && s2 == match c1.spec_old() {
        Some(w) => w,
        None => s1,
    }
}

impl SetWaveformCommand {
    pub closed spec fn spec_new(&self) -> WaveformType {
        self.new_waveform
    }

    pub closed spec fn spec_old(&self) -> Option<WaveformType> {
        self.old_waveform
    }

    /// A command that will set the waveform to `waveform`.
    pub fn new(waveform: WaveformType) -> (r: Self)
        ensures
            r.spec_new() == waveform,
            r.spec_old() is None,
    {
        Self { new_waveform: waveform, old_waveform: None }
    }

    /// Remembers the current waveform, sets the new one and sends it to the
    /// audio thread; fails when the channel is full (the state is changed
    /// all the same).
    pub fn execute(&mut self, state: &mut DawState) -> (r: CommandResult<()>)
        ensures
            waveform_executed(*old(self), old(state).waveform, *final(self), final(state).waveform),
            others_kept_waveform(old(state), final(state)),
            r matches Err(e) ==> is_error(e, false, "Failed to send waveform command to audio thread (ringbuffer full)"@),
            sent_on_success(old(state), final(state), r is Ok, Command::SetWaveform(final(state).waveform)),
    {
        self.old_waveform = Some(state.waveform);
        state.waveform = self.new_waveform;
        if !state.send_to_audio(Command::SetWaveform(self.new_waveform)) {
            return Err(
                CommandError::ExecutionFailed(
                    String::from_str("Failed to send waveform command to audio thread (ringbuffer full)"),
                ),
            );
        }
        Ok(())
    }

    /// Restores the remembered waveform and sends it to the audio thread;
    /// fails without change when nothing is remembered, and when the channel
    /// is full (the state is restored all the same).
    pub fn undo(&mut self, state: &mut DawState) -> (r: CommandResult<()>)
        ensures
            waveform_undone(*old(self), old(state).waveform, *final(self), final(state).waveform),
            others_kept_waveform(old(state), final(state)),
            old(self).spec_old() is None ==> (r matches Err(e) && is_error(e, true, "No previous waveform stored"@)),
            old(self).spec_old() is Some ==> (r matches Err(e) ==> is_error(e, true, "Failed to send waveform command to audio thread (ringbuffer full)"@)),
            sent_on_success(old(state), final(state), r is Ok, Command::SetWaveform(final(state).waveform)),
    {
        let old_value = match self.old_waveform {
            Some(v) => v,
            None => {
                return Err(CommandError::UndoFailed(String::from_str("No previous waveform stored")));
            },
        };
        state.waveform = old_value;
        if !state.send_to_audio(Command::SetWaveform(old_value)) {
            return Err(
                CommandError::UndoFailed(
                    String::from_str("Failed to send waveform command to audio thread (ringbuffer full)"),
                ),
            );
        }
        Ok(())
    }

    /// "Set Waveform to " followed by the name of the new waveform.
    pub fn description(&self) -> (r: String)
        ensures
            r@ == "Set Waveform to "@ + waveform_name(self.spec_new()),
    {
        String::from_str("Set Waveform to ").concat(self.new_waveform.name())
    }
}

impl UndoableCommand for SetWaveformCommand {
    open spec fn spec_description(&self) -> Seq<char> {
        "Set Waveform to "@ + waveform_name(self.spec_new())
    }

    open spec fn spec_executes(&self, s0: DawState, c1: Self, s1: DawState, r: CommandResult<()>) -> bool {
        &&& waveform_executed(*self, s0.waveform, c1, s1.waveform)
        &&& others_kept_waveform(&s0, &s1)
        &&& (r matches Err(e) ==> is_error(e, false, "Failed to send waveform command to audio thread (ringbuffer full)"@))
        &&& sent_on_success(&s0, &s1, r is Ok, Command::SetWaveform(s1.waveform))
    }

    open spec fn spec_undoes(&self, s0: DawState, c1: Self, s1: DawState, r: CommandResult<()>) -> bool {
        &&& waveform_undone(*self, s0.waveform, c1, s1.waveform)
        &&& others_kept_waveform(&s0, &s1)
        &&& (self.spec_old() is None ==> (r matches Err(e) && is_error(e, true, "No previous waveform stored"@)))
        &&& (self.spec_old() is Some ==> (r matches Err(e) ==> is_error(e, true, "Failed to send waveform command to audio thread (ringbuffer full)"@)))
        &&& sent_on_success(&s0, &s1, r is Ok, Command::SetWaveform(s1.waveform))
    }

    fn execute(&mut self, state: &mut DawState) -> (r: CommandResult<()>) {
        SetWaveformCommand::execute(self, state)
    }

    fn undo(&mut self, state: &mut DawState) -> (r: CommandResult<()>) {
        SetWaveformCommand::undo(self, state)
    }

    fn description(&self) -> (r: String) {
        SetWaveformCommand::description(self)
    }
}

/// Undoing an executed command gives the state back the waveform it held
/// before; executing it again sets the new one once more.
pub proof fn law_waveform_undo_restores(c0: SetWaveformCommand, s0: WaveformType, c1: SetWaveformCommand, s1: WaveformType, c2: SetWaveformCommand, s2: WaveformType, c3: SetWaveformCommand, s3: WaveformType)
    requires
        waveform_executed(c0, s0, c1, s1),
        waveform_undone(c1, s1, c2, s2),
        waveform_executed(c2, s2, c3, s3),
    ensures
        s2 == s0,
        s3 == s1,
        c3.spec_old() == Some(s0),
{
}

/// Command that sets the polyphony mode; undo restores the previous one.
pub struct SetPolyModeCommand {
    new_mode: PolyMode,
    old_mode: Option<PolyMode>,
}

/// The state fields other than the polyphony mode are equal.
pub open spec fn others_kept_mode(a: &DawState, b: &DawState) -> bool {
    a.volume_bits == b.volume_bits && a.waveform == b.waveform && a.voice_mode == b.voice_mode
}

/// After executing `c0` on a state holding `s0`: the command remembers `s0`
/// and the state holds the command's new polyphony mode.
pub open spec fn mode_executed(c0: SetPolyModeCommand, s0: PolyMode, c1: SetPolyModeCommand, s1: PolyMode) -> bool {
    c1.spec_new() == c0.spec_new() && c1.spec_old() == Some(s0) && s1 == c0.spec_new()
}

/// After undoing `c1` on a state holding `s1`: the command is unchanged and
/// the state holds the remembered polyphony mode (unchanged when none is remembered).
pub open spec fn mode_undone(c1: SetPolyModeCommand, s1: PolyMode, c2: SetPolyModeCommand, s2: PolyMode) -> bool {
    c2.spec_new() == c1.spec_new() && c2.spec_old() == c1.spec_old() && s2 == match c1.spec_old() {
        Some(w) => w,
        None => s1,
    }
}

impl SetPolyModeCommand {
    pub closed spec fn spec_new(&self) -> PolyMode {
        self.new_mode
    }

    pub closed spec fn spec_old(&self) -> Option<PolyMode> {
        self.old_mode
    }

    /// A command that will set the polyphony mode to `mode`.
    pub fn new(mode: PolyMode) -> (r: Self)
        ensures
            r.spec_new() == mode,
            r.spec_old() is None,
    {
        Self { new_mode: mode, old_mode: None }
    }

    /// Remembers the current polyphony mode, sets the new one and sends it to the
    /// audio thread; fails when the channel is full (the state is changed
    /// all the same).
    pub fn execute(&mut self, state: &mut DawState) -> (r: CommandResult<()>)
        ensures
            mode_executed(*old(self), old(state).poly_mode, *final(self), final(state).poly_mode),
            others_kept_mode(old(state), final(state)),
            r matches Err(e) ==> is_error(e, false, "Failed to send PolyMode command to audio thread (ringbuffer full)"@),
            sent_on_success(old(state), final(state), r is Ok, Command::SetPolyMode(final(state).poly_mode)),
    {
        self.old_mode = Some(state.poly_mode);
        state.poly_mode = self.new_mode;
        if !state.send_to_audio(Command::SetPolyMode(self.new_mode)) {
            return Err(
                CommandError::ExecutionFailed(
                    String::from_str("Failed to send PolyMode command to audio thread (ringbuffer full)"),
                ),
            );
        }
        Ok(())
    }

    /// Restores the remembered polyphony mode and sends it to the audio thread;
    /// fails without change when nothing is remembered, and when the channel
    /// is full (the state is restored all the same).
    pub fn undo(&mut self, state: &mut DawState) -> (r: CommandResult<()>)
        ensures
            mode_undone(*old(self), old(state).poly_mode, *final(self), final(state).poly_mode),
            others_kept_mode(old(state), final(state)),
            old(self).spec_old() is None ==> (r matches Err(e) && is_error(e, true, "No previous polyphony mode stored"@)),
            old(self).spec_old() is Some ==> (r matches Err(e) ==> is_error(e, true, "Failed to send PolyMode command to audio thread (ringbuffer full)"@)),
            sent_on_success(old(state), final(state), r is Ok, Command::SetPolyMode(final(state).poly_mode)),
    {
        let old_value = match self.old_mode {
            Some(v) => v,
            None => {
                return Err(CommandError::UndoFailed(String::from_str("No previous polyphony mode stored")));
            },
        };
        state.poly_mode = old_value;
        if !state.send_to_audio(Command::SetPolyMode(old_value)) {
            return Err(
                CommandError::UndoFailed(
                    String::from_str("Failed to send PolyMode command to audio thread (ringbuffer full)"),
                ),
            );
        }
        Ok(())
    }

    /// "Set Polyphony Mode to " followed by the name of the new polyphony mode.
    pub fn description(&self) -> (r: String)
        ensures
            r@ == "Set Polyphony Mode to "@ + poly_mode_name(self.spec_new()),
    {
        String::from_str("Set Polyphony Mode to ").concat(self.new_mode.name())
    }
}

impl UndoableCommand for SetPolyModeCommand {
    open spec fn spec_description(&self) -> Seq<char> {
        "Set Polyphony Mode to "@ + poly_mode_name(self.spec_new())
    }

    open spec fn spec_executes(&self, s0: DawState, c1: Self, s1: DawState, r: CommandResult<()>) -> bool {
        &&& mode_executed(*self, s0.poly_mode, c1, s1.poly_mode)
        &&& others_kept_mode(&s0, &s1)
        &&& (r matches Err(e) ==> is_error(e, false, "Failed to send PolyMode command to audio thread (ringbuffer full)"@))
        &&& sent_on_success(&s0, &s1, r is Ok, Command::SetPolyMode(s1.poly_mode))
    }

    open spec fn spec_undoes(&self, s0: DawState, c1: Self, s1: DawState, r: CommandResult<()>) -> bool {
        &&& mode_undone(*self, s0.poly_mode, c1, s1.poly_mode)
        &&& others_kept_mode(&s0, &s1)
        &&& (self.spec_old() is None ==> (r matches Err(e) && is_error(e, true, "No previous polyphony mode stored"@)))
        &&& (self.spec_old() is Some ==> (r matches Err(e) ==> is_error(e, true, "Failed to send PolyMode command to audio thread (ringbuffer full)"@)))
        &&& sent_on_success(&s0, &s1, r is Ok, Command::SetPolyMode(s1.poly_mode))
    }

    fn execute(&mut self, state: &mut DawState) -> (r: CommandResult<()>) {
        SetPolyModeCommand::execute(self, state)
    }

    fn undo(&mut self, state: &mut DawState) -> (r: CommandResult<()>) {
        SetPolyModeCommand::undo(self, state)
    }

    fn description(&self) -> (r: String) {
        SetPolyModeCommand::description(self)
    }
}

/// Undoing an executed command gives the state back the polyphony mode it held
/// before; executing it again sets the new one once more.
pub proof fn law_mode_undo_restores(c0: SetPolyModeCommand, s0: PolyMode, c1: SetPolyModeCommand, s1: PolyMode, c2: SetPolyModeCommand, s2: PolyMode, c3: SetPolyModeCommand, s3: PolyMode)
    requires
        mode_executed(c0, s0, c1, s1),
        mode_undone(c1, s1, c2, s2),
        mode_executed(c2, s2, c3, s3),
    ensures
        s2 == s0,
        s3 == s1,
        c3.spec_old() == Some(s0),
{
}

/// Command that sets the voice mode; undo restores the previous one.
pub struct SetVoiceModeCommand {
    new_voice_mode: VoiceMode,
    old_voice_mode: Option<VoiceMode>,
}

/// The state fields other than the voice mode are equal.
pub open spec fn others_kept_voice_mode(a: &DawState, b: &DawState) -> bool {
    a.volume_bits == b.volume_bits && a.waveform == b.waveform && a.poly_mode == b.poly_mode
}

/// After executing `c0` on a state holding `s0`: the command remembers `s0`
/// and the state holds the command's new voice mode.
pub open spec fn voice_mode_executed(c0: SetVoiceModeCommand, s0: VoiceMode, c1: SetVoiceModeCommand, s1: VoiceMode) -> bool {
    c1.spec_new() == c0.spec_new() && c1.spec_old() == Some(s0) && s1 == c0.spec_new()
}

/// After undoing `c1` on a state holding `s1`: the command is unchanged and
/// the state holds the remembered voice mode (unchanged when none is remembered).
pub open spec fn voice_mode_undone(c1: SetVoiceModeCommand, s1: VoiceMode, c2: SetVoiceModeCommand, s2: VoiceMode) -> bool {
    c2.spec_new() == c1.spec_new() && c2.spec_old() == c1.spec_old() && s2 == match c1.spec_old() {
        Some(w) => w,
        None => s1,
    }
}

impl SetVoiceModeCommand {
    pub closed spec fn spec_new(&self) -> VoiceMode {
        self.new_voice_mode
    }

    pub closed spec fn spec_old(&self) -> Option<VoiceMode> {
        self.old_voice_mode
    }

    /// A command that will set the voice mode to `mode`.
    pub fn new(mode: VoiceMode) -> (r: Self)
        ensures
            r.spec_new() == mode,
            r.spec_old() is None,
    {
        Self { new_voice_mode: mode, old_voice_mode: None }
    }

    /// Remembers the current voice mode, sets the new one and sends it to the
    /// audio thread; fails when the channel is full (the state is changed
    /// all the same).
    pub fn execute(&mut self, state: &mut DawState) -> (r: CommandResult<()>)
        ensures
            voice_mode_executed(*old(self), old(state).voice_mode, *final(self), final(state).voice_mode),
            others_kept_voice_mode(old(state), final(state)),
            r matches Err(e) ==> is_error(e, false, "Failed to send VoiceMode command to audio thread (ringbuffer full)"@),
            sent_on_success(old(state), final(state), r is Ok, Command::SetVoiceMode(final(state).voice_mode)),
    {
        self.old_voice_mode = Some(state.voice_mode);
        state.voice_mode = self.new_voice_mode;
        if !state.send_to_audio(Command::SetVoiceMode(self.new_voice_mode)) {
            return Err(
                CommandError::ExecutionFailed(
                    String::from_str("Failed to send VoiceMode command to audio thread (ringbuffer full)"),
                ),
            );
        }
        Ok(())
    }

    /// Restores the remembered voice mode and sends it to the audio thread;
    /// fails without change when nothing is remembered, and when the channel
    /// is full (the state is restored all the same).
    pub fn undo(&mut self, state: &mut DawState) -> (r: CommandResult<()>)
        ensures
            voice_mode_undone(*old(self), old(state).voice_mode, *final(self), final(state).voice_mode),
            others_kept_voice_mode(old(state), final(state)),
            old(self).spec_old() is None ==> (r matches Err(e) && is_error(e, true, "No previous voice mode stored"@)),
            old(self).spec_old() is Some ==> (r matches Err(e) ==> is_error(e, true, "Failed to send VoiceMode command to audio thread (ringbuffer full)"@)),
            sent_on_success(old(state), final(state), r is Ok, Command::SetVoiceMode(final(state).voice_mode)),
    {
        let old_value = match self.old_voice_mode {
            Some(v) => v,
            None => {
                return Err(CommandError::UndoFailed(String::from_str("No previous voice mode stored")));
            },
        };
        state.voice_mode = old_value;
        if !state.send_to_audio(Command::SetVoiceMode(old_value)) {
            return Err(
                CommandError::UndoFailed(
                    String::from_str("Failed to send VoiceMode command to audio thread (ringbuffer full)"),
                ),
            );
        }
        Ok(())
    }

    /// "Set Voice Mode to " followed by the name of the new voice mode.
    pub fn description(&self) -> (r: String)
        ensures
            r@ == "Set Voice Mode to "@ + voice_mode_name(self.spec_new()),
    {
        String::from_str("Set Voice Mode to ").concat(self.new_voice_mode.name())
    }
}

impl UndoableCommand for SetVoiceModeCommand {
    open spec fn spec_description(&self) -> Seq<char> {
        "Set Voice Mode to "@ + voice_mode_name(self.spec_new())
    }

    open spec fn spec_executes(&self, s0: DawState, c1: Self, s1: DawState, r: CommandResult<()>) -> bool {
        &&& voice_mode_executed(*self, s0.voice_mode, c1, s1.voice_mode)
        &&& others_kept_voice_mode(&s0, &s1)
        &&& (r matches Err(e) ==> is_error(e, false, "Failed to send VoiceMode command to audio thread (ringbuffer full)"@))
        &&& sent_on_success(&s0, &s1, r is Ok, Command::SetVoiceMode(s1.voice_mode))
    }

    open spec fn spec_undoes(&self, s0: DawState, c1: Self, s1: DawState, r: CommandResult<()>) -> bool {
        &&& voice_mode_undone(*self, s0.voice_mode, c1, s1.voice_mode)
        &&& others_kept_voice_mode(&s0, &s1)
        &&& (self.spec_old() is None ==> (r matches Err(e) && is_error(e, true, "No previous voice mode stored"@)))
        &&& (self.spec_old() is Some ==> (r matches Err(e) ==> is_error(e, true, "Failed to send VoiceMode command to audio thread (ringbuffer full)"@)))
        &&& sent_on_success(&s0, &s1, r is Ok, Command::SetVoiceMode(s1.voice_mode))
    }

    fn execute(&mut self, state: &mut DawState) -> (r: CommandResult<()>) {
        SetVoiceModeCommand::execute(self, state)
    }

    fn undo(&mut self, state: &mut DawState) -> (r: CommandResult<()>) {
        SetVoiceModeCommand::undo(self, state)
    }

    fn description(&self) -> (r: String) {
        SetVoiceModeCommand::description(self)
    }
}

/// Undoing an executed command gives the state back the voice mode it held
/// before; executing it again sets the new one once more.
pub proof fn law_voice_mode_undo_restores(c0: SetVoiceModeCommand, s0: VoiceMode, c1: SetVoiceModeCommand, s1: VoiceMode, c2: SetVoiceModeCommand, s2: VoiceMode, c3: SetVoiceModeCommand, s3: VoiceMode)
    requires
        voice_mode_executed(c0, s0, c1, s1),
        voice_mode_undone(c1, s1, c2, s2),
        voice_mode_executed(c2, s2, c3, s3),
    ensures
        s2 == s0,
        s3 == s1,
        c3.spec_old() == Some(s0),
{
}

/// Any of the commands above, so that one history can hold them together.
pub enum DawCommand {
    Waveform(SetWaveformCommand),
    PolyMode(SetPolyModeCommand),
    VoiceMode(SetVoiceModeCommand),
}

impl UndoableCommand for DawCommand {
    open spec fn spec_description(&self) -> Seq<char> {
        match self {
            DawCommand::Waveform(c) => c.spec_description(),
            DawCommand::PolyMode(c) => c.spec_description(),
            DawCommand::VoiceMode(c) => c.spec_description(),
        }
    }

    /// The command it holds executes, and stays of the same kind.
    open spec fn spec_executes(&self, s0: DawState, c1: Self, s1: DawState, r: CommandResult<()>) -> bool {
        match (self, c1) {
            (DawCommand::Waveform(a), DawCommand::Waveform(b)) => a.spec_executes(s0, b, s1, r),
            (DawCommand::PolyMode(a), DawCommand::PolyMode(b)) => a.spec_executes(s0, b, s1, r),
            (DawCommand::VoiceMode(a), DawCommand::VoiceMode(b)) => a.spec_executes(s0, b, s1, r),
            _ => false,
        }
    }

    /// The command it holds is undone, and stays of the same kind.
    open spec fn spec_undoes(&self, s0: DawState, c1: Self, s1: DawState, r: CommandResult<()>) -> bool {
        match (self, c1) {
            (DawCommand::Waveform(a), DawCommand::Waveform(b)) => a.spec_undoes(s0, b, s1, r),
            (DawCommand::PolyMode(a), DawCommand::PolyMode(b)) => a.spec_undoes(s0, b, s1, r),
            (DawCommand::VoiceMode(a), DawCommand::VoiceMode(b)) => a.spec_undoes(s0, b, s1, r),
            _ => false,
        }
    }

    fn execute(&mut self, state: &mut DawState) -> (r: CommandResult<()>) {
        match self {
            DawCommand::Waveform(c) => SetWaveformCommand::execute(c, state),
            DawCommand::PolyMode(c) => SetPolyModeCommand::execute(c, state),
            DawCommand::VoiceMode(c) => SetVoiceModeCommand::execute(c, state),
        }
    }

    fn undo(&mut self, state: &mut DawState) -> (r: CommandResult<()>) {
        match self {
            DawCommand::Waveform(c) => SetWaveformCommand::undo(c, state),
            DawCommand::PolyMode(c) => SetPolyModeCommand::undo(c, state),
            DawCommand::VoiceMode(c) => SetVoiceModeCommand::undo(c, state),
        }
    }

    fn description(&self) -> (r: String) {
        match self {
            DawCommand::Waveform(c) => SetWaveformCommand::description(c),
            DawCommand::PolyMode(c) => SetPolyModeCommand::description(c),
            DawCommand::VoiceMode(c) => SetVoiceModeCommand::description(c),
        }
    }
}

/// Undoing an executed command gives back every setting the state held
/// before the execution, whichever kind of command it was and whether or not
/// the audio thread's channel took the messages.
pub proof fn law_undo_restores_settings(
    c0: DawCommand,
    s0: DawState,
    c1: DawCommand,
    s1: DawState,
    r1: CommandResult<()>,
    c2: DawCommand,
    s2: DawState,
    r2: CommandResult<()>,
)
    requires
        c0.spec_executes(s0, c1, s1, r1),
        c1.spec_undoes(s1, c2, s2, r2),
    ensures
        s2.waveform == s0.waveform,
        s2.poly_mode == s0.poly_mode,
        s2.voice_mode == s0.voice_mode,
        s2.volume_bits == s0.volume_bits,
{
}

} // verus!
