//! The command interface for undo and redo.

use crate::command::state::DawState;
use vstd::prelude::*;

verus! {

/// Errors of command execution.
#[derive(Debug, Clone)]
pub enum CommandError {
    /// Command execution failed
    ExecutionFailed(String),
    /// Undo operation failed
    UndoFailed(String),
    /// Invalid state for this operation
    InvalidState(String),
}

/// Result type for command operations.
pub type CommandResult<T> = Result<T, CommandError>;

/// The text of an error: its kind, then its message.
pub open spec fn error_text(e: CommandError) -> Seq<char> {
    match e {
        CommandError::ExecutionFailed(m) => "Execution failed: "@ + m@,
        CommandError::UndoFailed(m) => "Undo failed: "@ + m@,
        CommandError::InvalidState(m) => "Invalid state: "@ + m@,
    }
}

impl CommandError {
    /// The displayed text of the error.
    pub fn to_string(&self) -> (r: String)
        ensures
            r@ == error_text(*self),
    {
        match self {
            CommandError::ExecutionFailed(m) => String::from_str("Execution failed: ").concat(m.as_str()),
            CommandError::UndoFailed(m) => String::from_str("Undo failed: ").concat(m.as_str()),
            CommandError::InvalidState(m) => String::from_str("Invalid state: ").concat(m.as_str()),
        }
    }
}

/// A state change that can be undone. Executing stores what undoing needs;
/// neither changes the command's description.
pub trait UndoableCommand: Sized {
    /// The description shown to the user (implementations state theirs).
    open spec fn spec_description(&self) -> Seq<char> {
        Seq::empty()
    }

    /// What executing this command on state `s0` may give: the command
    /// becomes `c1`, the state `s1`, and the result is `r`.
    /// (An implementation that does not say promises nothing.)
    open spec fn spec_executes(&self, s0: DawState, c1: Self, s1: DawState, r: CommandResult<()>) -> bool {
        true
    }

    /// What undoing this command on state `s0` may give: the command
    /// becomes `c1`, the state `s1`, and the result is `r`.
    /// (An implementation that does not say promises nothing.)
    open spec fn spec_undoes(&self, s0: DawState, c1: Self, s1: DawState, r: CommandResult<()>) -> bool {
        true
    }

    /// Executes the command.
    fn execute(&mut self, state: &mut DawState) -> (r: CommandResult<()>)
        ensures
            final(self).spec_description() == old(self).spec_description(),
            old(self).spec_executes(*old(state), *final(self), *final(state), r),
    ;

    /// Restores the state from before the execution.
    fn undo(&mut self, state: &mut DawState) -> (r: CommandResult<()>)
        ensures
            final(self).spec_description() == old(self).spec_description(),
            old(self).spec_undoes(*old(state), *final(self), *final(state), r),
    ;

    /// A human-readable description of the command.
    fn description(&self) -> (r: String)
        ensures
            r@ == self.spec_description(),
    ;
}

} // verus!
