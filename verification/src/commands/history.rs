//! Command history for undo/redo.

use vstd::prelude::*;
use crate::error::Error;
use crate::commands::command::{Command, CommandContext, executed, undone, can_run, command_name};

verus! {

/// Maximum number of commands to keep in history.
pub const MAX_HISTORY_SIZE: usize = 100;

/// The last `n` entries of `s` (all of them where it has no more).
pub open spec fn keep_last(s: Seq<Command>, n: nat) -> Seq<Command> {
    if s.len() > n {
        s.subrange(s.len() - n, s.len() as int)
    } else {
        s
    }
}

/// `h1` and `c1` are what executing `command` through `h0` in `c0` gives:
/// the executed command goes on top of the undo stack, which keeps its
/// last `MAX_HISTORY_SIZE` entries, and the redo stack is cleared.
pub open spec fn history_executed(
    h0: CommandHistory,
    command: Command,
    h1: CommandHistory,
    c0: CommandContext,
    c1: CommandContext,
) -> bool {
    &&& h1.undo_stack@.len() > 0
    &&& executed(command, h1.undo_stack@.last(), c0, c1)
    &&& h1.undo_stack@ == keep_last(h0.undo_stack@.push(h1.undo_stack@.last()), MAX_HISTORY_SIZE as nat)
    &&& h1.redo_stack@.len() == 0
    &&& h1.merge_enabled == h0.merge_enabled
    &&& h1.merge_timeout_ms == h0.merge_timeout_ms
}

/// `h1` and `c1` are what an undo through `h0` in `c0` gives: nothing
/// where the undo stack is empty; else its top command is undone and
/// moves to the redo stack.
pub open spec fn history_undone(h0: CommandHistory, h1: CommandHistory, c0: CommandContext, c1: CommandContext) -> bool {
    &&& h1.merge_enabled == h0.merge_enabled
    &&& h1.merge_timeout_ms == h0.merge_timeout_ms
    &&& if h0.undo_stack@.len() == 0 {
        &&& h1.undo_stack@ == h0.undo_stack@
        &&& h1.redo_stack@ == h0.redo_stack@
        &&& c1 == c0
    } else {
        &&& h1.redo_stack@.len() > 0
        &&& undone(h0.undo_stack@.last(), h1.redo_stack@.last(), c0, c1)
        &&& h1.undo_stack@ == h0.undo_stack@.drop_last()
        &&& h1.redo_stack@ == h0.redo_stack@.push(h1.redo_stack@.last())
    }
}

/// `h1` and `c1` are what a redo through `h0` in `c0` gives: nothing
/// where the redo stack is empty; else its top command is executed again
/// and moves to the undo stack.
pub open spec fn history_redone(h0: CommandHistory, h1: CommandHistory, c0: CommandContext, c1: CommandContext) -> bool {
    &&& h1.merge_enabled == h0.merge_enabled
    &&& h1.merge_timeout_ms == h0.merge_timeout_ms
    &&& if h0.redo_stack@.len() == 0 {
        &&& h1.undo_stack@ == h0.undo_stack@
        &&& h1.redo_stack@ == h0.redo_stack@
        &&& c1 == c0
    } else {
        &&& h1.undo_stack@.len() > 0
        &&& executed(h0.redo_stack@.last(), h1.undo_stack@.last(), c0, c1)
        &&& h1.redo_stack@ == h0.redo_stack@.drop_last()
        &&& h1.undo_stack@ == h0.undo_stack@.push(h1.undo_stack@.last())
    }
}

/// Executing a command through the history and then undoing gives back
/// the undo stack (where it held fewer than `MAX_HISTORY_SIZE` commands),
/// leaves the executed command alone on the redo stack, and the context
/// is what executing and undoing that command give. A redo then executes
/// it again and gives back the empty redo stack.
pub proof fn lemma_execute_undo_redo(
    h0: CommandHistory,
    command: Command,
    h1: CommandHistory,
    h2: CommandHistory,
    h3: CommandHistory,
    c0: CommandContext,
    c1: CommandContext,
    c2: CommandContext,
    c3: CommandContext,
)
    requires
        h0.undo_stack@.len() < MAX_HISTORY_SIZE,
        history_executed(h0, command, h1, c0, c1),
        history_undone(h1, h2, c1, c2),
        history_redone(h2, h3, c2, c3),
    ensures
        executed(command, h1.undo_stack@.last(), c0, c1),
        undone(h1.undo_stack@.last(), h2.redo_stack@.last(), c1, c2),
        h2.undo_stack@ == h0.undo_stack@,
        h2.redo_stack@ == seq![h2.redo_stack@.last()],
        executed(h2.redo_stack@.last(), h3.undo_stack@.last(), c2, c3),
        h3.undo_stack@ == h0.undo_stack@.push(h3.undo_stack@.last()),
        h3.redo_stack@.len() == 0,
{
    assert(h1.undo_stack@ == h0.undo_stack@.push(h1.undo_stack@.last()));
    assert(h1.undo_stack@.drop_last() =~= h0.undo_stack@);
    assert(h2.redo_stack@ =~= seq![h2.redo_stack@.last()]);
}

/// Command history manager.
pub struct CommandHistory {
    /// Undo stack
    pub undo_stack: Vec<Command>,
    /// Redo stack
    pub redo_stack: Vec<Command>,
    /// Whether to merge similar commands
    pub merge_enabled: bool,
    /// Merge timeout in milliseconds
    pub merge_timeout_ms: u64,
}

impl CommandHistory {
    /// An empty history with merging enabled and a 500 ms merge timeout.
    pub fn new() -> (h: CommandHistory)
        ensures
            h.undo_stack@.len() == 0,
            h.redo_stack@.len() == 0,
            h.merge_enabled,
            h.merge_timeout_ms == 500,
    {
        CommandHistory {
            undo_stack: Vec::new(),
            redo_stack: Vec::new(),
            merge_enabled: true,
            merge_timeout_ms: 500,
        }
    }

    /// Execute a command and add it to history.
    ///
    /// The executed command goes on top of the undo stack, which keeps its
    /// last `MAX_HISTORY_SIZE` entries, and the redo stack is cleared.
    pub fn execute(&mut self, command: Command, ctx: &mut CommandContext) -> (r: Result<(), Error>)
        requires
            can_run(command, *old(ctx)),
        ensures
            r is Ok,
            history_executed(*old(self), command, *final(self), *old(ctx), *final(ctx)),
    {
        let mut command = command;
        match command.execute(ctx) {
            Ok(()) => {},
            Err(e) => {
                return Err(e);
            },
        }
        let ghost c = command;
        self.undo_stack.push(command);
        let ghost full = self.undo_stack@;
        while self.undo_stack.len() > MAX_HISTORY_SIZE
            invariant
                full.len() > 0,
                full.last() == c,
                self.merge_enabled == old(self).merge_enabled,
                self.merge_timeout_ms == old(self).merge_timeout_ms,
                self.undo_stack@.len() <= full.len(),
                self.undo_stack@ == full.subrange(
                    full.len() - self.undo_stack@.len(),
                    full.len() as int,
                ),
                full.len() <= MAX_HISTORY_SIZE ==> self.undo_stack@ == full,
                full.len() > MAX_HISTORY_SIZE ==> self.undo_stack@.len() >= MAX_HISTORY_SIZE,
            decreases self.undo_stack@.len(),
        {
            let ghost before = self.undo_stack@;
            let _ = self.undo_stack.remove(0);
            proof {
                assert(self.undo_stack@ =~= full.subrange(
                    full.len() - self.undo_stack@.len(),
                    full.len() as int,
                ));
            }
        }
        proof {
            if full.len() <= MAX_HISTORY_SIZE {
                assert(self.undo_stack@ =~= full);
            } else {
                assert(self.undo_stack@ =~= keep_last(full, MAX_HISTORY_SIZE as nat));
            }
            assert(self.undo_stack@.last() == c);
        }
        self.redo_stack.clear();
        Ok(())
    }

    /// Undo the last command; `Ok(false)` where there is none.
    pub fn undo(&mut self, ctx: &mut CommandContext) -> (r: Result<bool, Error>)
        ensures
            r == Ok::<bool, Error>(old(self).undo_stack@.len() > 0),
            history_undone(*old(self), *final(self), *old(ctx), *final(ctx)),
    {
        match self.undo_stack.pop() {
            Some(command) => {
                let mut command = command;
                match command.undo(ctx) {
                    Ok(()) => {},
                    Err(e) => {
                        return Err(e);
                    },
                }
                self.redo_stack.push(command);
                Ok(true)
            },
            None => Ok(false),
        }
    }

    /// Redo the last undone command; `Ok(false)` where there is none.
    pub fn redo(&mut self, ctx: &mut CommandContext) -> (r: Result<bool, Error>)
        requires
            old(self).redo_stack@.len() > 0 ==> can_run(old(self).redo_stack@.last(), *old(ctx)),
        ensures
            r == Ok::<bool, Error>(old(self).redo_stack@.len() > 0),
            history_redone(*old(self), *final(self), *old(ctx), *final(ctx)),
    {
        match self.redo_stack.pop() {
            Some(command) => {
                let mut command = command;
                match command.execute(ctx) {
                    Ok(()) => {},
                    Err(e) => {
                        return Err(e);
                    },
                }
                self.undo_stack.push(command);
                Ok(true)
            },
            None => Ok(false),
        }
    }

    /// Check if undo is available.
    pub fn can_undo(&self) -> (b: bool)
        ensures
            b == (self.undo_stack@.len() > 0),
    {
        self.undo_stack.len() > 0
    }

    /// Check if redo is available.
    pub fn can_redo(&self) -> (b: bool)
        ensures
            b == (self.redo_stack@.len() > 0),
    {
        self.redo_stack.len() > 0
    }

    /// Get the name of the next undo command.
    pub fn undo_name(&self) -> (r: Option<&'static str>)
        ensures
            match r {
                Some(n) => self.undo_stack@.len() > 0 && n@ == command_name(self.undo_stack@.last()),
                None => self.undo_stack@.len() == 0,
            },
    {
        let n = self.undo_stack.len();
        if n > 0 {
            Some(self.undo_stack[n - 1].name())
        } else {
            None
        }
    }

    /// Get the name of the next redo command.
    pub fn redo_name(&self) -> (r: Option<&'static str>)
        ensures
            match r {
                Some(n) => self.redo_stack@.len() > 0 && n@ == command_name(self.redo_stack@.last()),
                None => self.redo_stack@.len() == 0,
            },
    {
        let n = self.redo_stack.len();
        if n > 0 {
            Some(self.redo_stack[n - 1].name())
        } else {
            None
        }
    }

    /// Clear all history.
    pub fn clear(&mut self)
        ensures
            final(self).undo_stack@.len() == 0,
            final(self).redo_stack@.len() == 0,
            final(self).merge_enabled == old(self).merge_enabled,
            final(self).merge_timeout_ms == old(self).merge_timeout_ms,
    {
        self.undo_stack.clear();
        self.redo_stack.clear();
    }

    /// Get undo stack size.
    pub fn undo_count(&self) -> (n: usize)
        ensures
            n == self.undo_stack@.len(),
    {
        self.undo_stack.len()
    }

    /// Get redo stack size.
    pub fn redo_count(&self) -> (n: usize)
        ensures
            n == self.redo_stack@.len(),
    {
        self.redo_stack.len()
    }

    /// Enable or disable command merging.
    pub fn set_merge_enabled(&mut self, enabled: bool)
        ensures
            final(self).merge_enabled == enabled,
            final(self).undo_stack@ == old(self).undo_stack@,
            final(self).redo_stack@ == old(self).redo_stack@,
            final(self).merge_timeout_ms == old(self).merge_timeout_ms,
    {
        self.merge_enabled = enabled;
    }
}

impl Default for CommandHistory {
    fn default() -> (h: CommandHistory)
        ensures
            h.undo_stack@.len() == 0,
            h.redo_stack@.len() == 0,
            h.merge_enabled,
            h.merge_timeout_ms == 500,
    {
        CommandHistory::new()
    }
}

} // verus!
