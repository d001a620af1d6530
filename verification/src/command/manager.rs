//! Undo and redo history.

use crate::command::state::DawState;
use crate::command::trait_def::{CommandError, CommandResult, UndoableCommand};
use std::collections::VecDeque;
use vstd::prelude::*;

verus! {

/// Default maximum number of commands kept in the history.
pub const DEFAULT_MAX_HISTORY: usize = 100;

/// The descriptions of a stack of commands, oldest first.
pub open spec fn descriptions<C: UndoableCommand>(s: Seq<C>) -> Seq<Seq<char>> {
    s.map_values(|c: C| c.spec_description())
}

/// An undo history after adding `d`: the oldest entry is dropped when the
/// history grows beyond `max`.
pub open spec fn trimmed_push<A>(h: Seq<A>, d: A, max: usize) -> Seq<A> {
    if h.len() + 1 > max {
        h.push(d).drop_first()
    } else {
        h.push(d)
    }
}

/// What a command's undo or execution gave, passed on by the manager: the
/// manager succeeds exactly when the command did, and fails with its error.
pub open spec fn passed_on(res: CommandResult<()>, r: CommandResult<String>) -> bool {
    &&& (res is Ok <==> r is Ok)
    &&& (res matches Err(e) ==> r == Err::<String, CommandError>(e))
}

/// Executes commands and keeps them for undo and redo. New commands start a
/// new timeline: the redo history is dropped.
pub struct CommandManager<C: UndoableCommand> {
    undo_stack: VecDeque<C>,
    redo_stack: VecDeque<C>,
    max_history: usize,
}

impl<C: UndoableCommand> CommandManager<C> {
    /// The commands that can be undone, oldest first.
    pub closed spec fn spec_undo_commands(&self) -> Seq<C> {
        self.undo_stack@
    }

    /// The commands that can be redone, oldest first.
    pub closed spec fn spec_redo_commands(&self) -> Seq<C> {
        self.redo_stack@
    }

    /// Descriptions of the commands that can be undone, oldest first.
    pub open spec fn spec_undo(&self) -> Seq<Seq<char>> {
        descriptions(self.spec_undo_commands())
    }

    /// Descriptions of the commands that can be redone, oldest first.
    pub open spec fn spec_redo(&self) -> Seq<Seq<char>> {
        descriptions(self.spec_redo_commands())
    }

    /// The history never holds more commands, undoable and redoable
    /// together, than the limit.
    pub open spec fn wf(&self) -> bool {
        self.spec_undo_commands().len() + self.spec_redo_commands().len() <= self.spec_max_history()
    }

    pub closed spec fn spec_max_history(&self) -> usize {
        self.max_history
    }

    /// A manager keeping up to 100 commands.
    pub fn new() -> (r: Self)
        ensures
            r.wf(),
            r.spec_undo() == Seq::<Seq<char>>::empty(),
            r.spec_redo() == Seq::<Seq<char>>::empty(),
            r.spec_max_history() == DEFAULT_MAX_HISTORY,
    {
        Self::with_capacity(DEFAULT_MAX_HISTORY)
    }

    /// A manager keeping up to `max_history` commands.
    pub fn with_capacity(max_history: usize) -> (r: Self)
        ensures
            r.wf(),
            r.spec_undo() == Seq::<Seq<char>>::empty(),
            r.spec_redo() == Seq::<Seq<char>>::empty(),
            r.spec_max_history() == max_history,
    {
        let r = Self { undo_stack: VecDeque::new(), redo_stack: VecDeque::new(), max_history };
        assert(r.spec_undo() =~= Seq::<Seq<char>>::empty());
        assert(r.spec_redo() =~= Seq::<Seq<char>>::empty());
        r
    }

    /// Executes `command`: the state changes as the command's execution
    /// changes it, and its result is returned. When it succeeds, the command
    /// becomes the newest undoable command (the oldest is dropped beyond the
    /// limit) and the redo history is cleared. When it fails, the histories
    /// are unchanged.
    pub fn execute(&mut self, command: C, state: &mut DawState) -> (r: CommandResult<()>)
        requires
            old(self).wf(),
        ensures
            final(self).wf(),
            exists|c1: C|
                #[trigger] command.spec_executes(*old(state), c1, *final(state), r) && if r is Ok {
                    final(self).spec_undo_commands() == trimmed_push(
                        old(self).spec_undo_commands(),
                        c1,
                        old(self).spec_max_history(),
                    )
                } else {
                    final(self).spec_undo_commands() == old(self).spec_undo_commands()
                        && final(self).spec_redo_commands() == old(self).spec_redo_commands()
                },
            final(self).spec_max_history() == old(self).spec_max_history(),
            match r {
                Ok(()) => final(self).spec_undo() == trimmed_push(
                    old(self).spec_undo(),
                    command.spec_description(),
                    old(self).spec_max_history(),
                ) && final(self).spec_redo() == Seq::<Seq<char>>::empty(),
                Err(_) => final(self).spec_undo() == old(self).spec_undo() && final(self).spec_redo()
                    == old(self).spec_redo(),
            },
    {
        let ghost c0 = command;
        let mut command = command;
        let ghost d = command.spec_description();
        let result = command.execute(state);
        let ghost c1 = command;
        proof {
            assert(c0.spec_executes(*old(state), c1, *state, result));
        }
        if result.is_err() {
            return result;
        }
        let ghost before = self.undo_stack@;
        self.undo_stack.push_back(command);
        assert(descriptions(self.undo_stack@) =~= descriptions(before).push(d));
        self.redo_stack.clear();
        assert(descriptions(self.redo_stack@) =~= Seq::<Seq<char>>::empty());
        if self.undo_stack.len() > self.max_history {
            let ghost full = self.undo_stack@;
            let _ = self.undo_stack.pop_front();
            assert(descriptions(self.undo_stack@) =~= descriptions(full).drop_first());
        }
        result
    }

    /// Undoes the newest undoable command and returns its description; it
    /// then becomes the newest redoable command. Fails when there is nothing
    /// to undo; when the command's undo fails, the command is dropped.
    pub fn undo(&mut self, state: &mut DawState) -> (r: CommandResult<String>)
        requires
            old(self).wf(),
        ensures
            final(self).wf(),
            final(self).spec_max_history() == old(self).spec_max_history(),
            old(self).spec_undo_commands().len() == 0 ==> *final(state) == *old(state),
            old(self).spec_undo_commands().len() > 0 ==> {
                &&& final(self).spec_undo_commands() == old(self).spec_undo_commands().drop_last()
                &&& exists|c1: C, res: CommandResult<()>|
                    #[trigger] old(self).spec_undo_commands().last().spec_undoes(*old(state), c1, *final(state), res)
                        && passed_on(res, r) && if r is Ok {
                        final(self).spec_redo_commands() == old(self).spec_redo_commands().push(c1)
                    } else {
                        final(self).spec_redo_commands() == old(self).spec_redo_commands()
                    }
            },
            old(self).spec_undo().len() == 0 ==> (r matches Err(e) && e matches CommandError::UndoFailed(m) && m@ == "Nothing to undo"@)
                && final(self).spec_undo() == old(self).spec_undo() && final(self).spec_redo() == old(self).spec_redo(),
            old(self).spec_undo().len() > 0 ==> final(self).spec_undo() == old(self).spec_undo().drop_last() && match r {
                Ok(d) => d@ == old(self).spec_undo().last() && final(self).spec_redo() == old(self).spec_redo().push(d@),
                Err(_) => final(self).spec_redo() == old(self).spec_redo(),
            },
    {
        let ghost before = self.undo_stack@;
        let popped = self.undo_stack.pop_back();
        let mut command = match popped {
            Some(c) => c,
            None => {
                return Err(CommandError::UndoFailed(String::from_str("Nothing to undo")));
            },
        };
        assert(descriptions(self.undo_stack@) =~= descriptions(before).drop_last());
        let ghost c0 = command;
        assert(c0 == before.last());
        let description = command.description();
        let res = command.undo(state);
        let ghost c1 = command;
        let ghost resg = res;
        assert(c0.spec_undoes(*old(state), c1, *state, resg));
        match res {
            Ok(()) => {},
            Err(e) => {
                assert(passed_on(resg, Err::<String, CommandError>(e)));
                return Err(e);
            },
        }
        assert(resg is Ok);
        let ghost redo_before = self.redo_stack@;
        self.redo_stack.push_back(command);
        assert(descriptions(self.redo_stack@) =~= descriptions(redo_before).push(description@));
        assert(passed_on(resg, Ok::<String, CommandError>(description)));
        Ok(description)
    }

    /// Executes again the newest redoable command and returns its
    /// description; it then becomes the newest undoable command. Fails when
    /// there is nothing to redo; when the execution fails, the command is
    /// dropped.
    pub fn redo(&mut self, state: &mut DawState) -> (r: CommandResult<String>)
        requires
            old(self).wf(),
        ensures
            final(self).wf(),
            final(self).spec_max_history() == old(self).spec_max_history(),
            old(self).spec_redo_commands().len() == 0 ==> *final(state) == *old(state),
            old(self).spec_redo_commands().len() > 0 ==> {
                &&& final(self).spec_redo_commands() == old(self).spec_redo_commands().drop_last()
                &&& exists|c1: C, res: CommandResult<()>|
                    #[trigger] old(self).spec_redo_commands().last().spec_executes(*old(state), c1, *final(state), res)
                        && passed_on(res, r) && if r is Ok {
                        final(self).spec_undo_commands() == old(self).spec_undo_commands().push(c1)
                    } else {
                        final(self).spec_undo_commands() == old(self).spec_undo_commands()
                    }
            },
            old(self).spec_redo().len() == 0 ==> (r matches Err(e) && e matches CommandError::ExecutionFailed(m) && m@ == "Nothing to redo"@)
                && final(self).spec_undo() == old(self).spec_undo() && final(self).spec_redo() == old(self).spec_redo(),
            old(self).spec_redo().len() > 0 ==> final(self).spec_redo() == old(self).spec_redo().drop_last() && match r {
                Ok(d) => d@ == old(self).spec_redo().last() && final(self).spec_undo() == old(self).spec_undo().push(d@),
                Err(_) => final(self).spec_undo() == old(self).spec_undo(),
            },
    {
        let ghost before = self.redo_stack@;
        let popped = self.redo_stack.pop_back();
        let mut command = match popped {
            Some(c) => c,
            None => {
                return Err(CommandError::ExecutionFailed(String::from_str("Nothing to redo")));
            },
        };
        assert(descriptions(self.redo_stack@) =~= descriptions(before).drop_last());
        let ghost c0 = command;
        assert(c0 == before.last());
        let description = command.description();
        let res = command.execute(state);
        let ghost c1 = command;
        let ghost resg = res;
        assert(c0.spec_executes(*old(state), c1, *state, resg));
        match res {
            Ok(()) => {},
            Err(e) => {
                assert(passed_on(resg, Err::<String, CommandError>(e)));
                return Err(e);
            },
        }
        assert(resg is Ok);
        let ghost undo_before = self.undo_stack@;
        self.undo_stack.push_back(command);
        assert(descriptions(self.undo_stack@) =~= descriptions(undo_before).push(description@));
        assert(passed_on(resg, Ok::<String, CommandError>(description)));
        Ok(description)
    }

    /// Whether a command can be undone.
    pub fn can_undo(&self) -> (r: bool)
        ensures
            r == (self.spec_undo().len() > 0),
    {
        self.undo_stack.len() > 0
    }

    /// Whether a command can be redone.
    pub fn can_redo(&self) -> (r: bool)
        ensures
            r == (self.spec_redo().len() > 0),
    {
        self.redo_stack.len() > 0
    }

    /// The description of the command that undo would undo.
    pub fn undo_description(&self) -> (r: Option<String>)
        ensures
            match r {
                Some(d) => self.spec_undo().len() > 0 && d@ == self.spec_undo().last(),
                None => self.spec_undo().len() == 0,
            },
    {
        let n = self.undo_stack.len();
        if n == 0 {
            None
        } else {
            Some(self.undo_stack[n - 1].description())
        }
    }

    /// The description of the command that redo would execute.
    pub fn redo_description(&self) -> (r: Option<String>)
        ensures
            match r {
                Some(d) => self.spec_redo().len() > 0 && d@ == self.spec_redo().last(),
                None => self.spec_redo().len() == 0,
            },
    {
        let n = self.redo_stack.len();
        if n == 0 {
            None
        } else {
            Some(self.redo_stack[n - 1].description())
        }
    }

    /// Forgets all history.
    pub fn clear(&mut self)
        ensures
            final(self).wf(),
            final(self).spec_undo() == Seq::<Seq<char>>::empty(),
            final(self).spec_redo() == Seq::<Seq<char>>::empty(),
            final(self).spec_max_history() == old(self).spec_max_history(),
    {
        self.undo_stack.clear();
        self.redo_stack.clear();
        assert(self.spec_undo() =~= Seq::<Seq<char>>::empty());
        assert(self.spec_redo() =~= Seq::<Seq<char>>::empty());
    }

    /// The number of undoable commands.
    pub fn undo_count(&self) -> (r: usize)
        ensures
            r == self.spec_undo().len(),
    {
        self.undo_stack.len()
    }

    /// The number of redoable commands.
    pub fn redo_count(&self) -> (r: usize)
        ensures
            r == self.spec_redo().len(),
    {
        self.redo_stack.len()
    }
}

/// A successful execution never leaves more undoable commands than the limit
/// allows, once the history is within it.
pub proof fn law_history_bounded(h: Seq<Seq<char>>, d: Seq<char>, max: usize)
    requires
        h.len() <= max,
    ensures
        trimmed_push(h, d, max).len() <= max,
        max > 0 ==> trimmed_push(h, d, max).last() == d,
{
}

/// Undoing and then redoing (both succeeding) gives back the same histories;
/// so does redoing and then undoing.
pub proof fn law_undo_redo_roundtrip(u: Seq<Seq<char>>, r: Seq<Seq<char>>)
    ensures
        u.len() > 0 ==> r.push(u.last()).drop_last() == r && u.drop_last().push(u.last()) == u,
        r.len() > 0 ==> u.push(r.last()).drop_last() == u && r.drop_last().push(r.last()) == r,
{
    if u.len() > 0 {
        assert(r.push(u.last()).drop_last() =~= r);
        assert(u.drop_last().push(u.last()) =~= u);
    }
    if r.len() > 0 {
        assert(u.push(r.last()).drop_last() =~= u);
        assert(r.drop_last().push(r.last()) =~= r);
    }
}

} // verus!
