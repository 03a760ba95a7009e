//! Removal: one value, the rows that pass a filter, or the values of a list.
//!
//! Which of the three it is depends on what was asked for. One value is one
//! statement. The rows that pass a filter are read, filtered here, and
//! deleted in batches. The values of a list go through a staging table that
//! lives as long as the session: they are streamed into it, and one
//! statement deletes every row whose value is in it. No value is tested for
//! validity: any string can be removed.

use crate::store::{Command, Halt, Reply};
use vstd::prelude::*;

verus! {

/// The way in which a removal is carried out.
#[derive(Clone, Copy, PartialEq, Eq, Structural, Debug)]
pub enum RemovalMode {
    /// Delete the row that equals one value.
    Single,
    /// Delete the rows that pass a filter.
    Filtered,
    /// Delete the rows whose value is in a list.
    Staged,
}

/// The mode for what was asked: a single value comes first, then a filter,
/// and the list is what is left.
pub open spec fn removal_mode_for(
    has_value: bool,
    has_match: bool,
    has_regex: bool,
) -> RemovalMode {
    if has_value {
        RemovalMode::Single
    } else if has_match || has_regex {
        RemovalMode::Filtered
    } else {
        RemovalMode::Staged
    }
}

/// Picks the mode of a removal.
pub fn select_removal_mode(has_value: bool, has_match: bool, has_regex: bool) -> (mode:
    RemovalMode)
    ensures
        mode == removal_mode_for(has_value, has_match, has_regex),
{
    if has_value {
        RemovalMode::Single
    } else if has_match || has_regex {
        RemovalMode::Filtered
    } else {
        RemovalMode::Staged
    }
}

/// How the removal of one value ended.
#[derive(Clone, Copy, PartialEq, Eq, Structural, Debug)]
pub enum SingleOutcome {
    /// The value was there and is gone.
    Removed,
    /// The value was not there.
    NotFound,
    /// The removal did not take place.
    Stopped(Halt),
}

/// The outcome of the removal of one value, from the reply to
/// `Command::DeleteValue`: removed where a row was deleted, not found where
/// none was.
pub fn single_outcome(reply: Reply) -> (outcome: SingleOutcome)
    ensures
        outcome == match reply {
            Reply::Affected(n) => if n > 0 {
                SingleOutcome::Removed
            } else {
                SingleOutcome::NotFound
            },
            Reply::Failed => SingleOutcome::Stopped(Halt::StoreFailed),
            _ => SingleOutcome::Stopped(Halt::UnexpectedReply),
        },
{
    match reply {
        Reply::Affected(n) => if n > 0 {
            SingleOutcome::Removed
        } else {
            SingleOutcome::NotFound
        },
        Reply::Failed => SingleOutcome::Stopped(Halt::StoreFailed),
        _ => SingleOutcome::Stopped(Halt::UnexpectedReply),
    }
}

/// The step that a staged removal is at: the command that it asks for next.
#[derive(Clone, Copy, PartialEq, Eq, Structural, Debug)]
pub enum StagedPhase {
    /// Create the staging table.
    CreateStaging,
    /// Stream the values into it.
    Fill,
    /// Delete the rows whose value is in it.
    Delete,
    /// Nothing is left to do.
    Finished,
}

/// The state of a staged removal.
#[derive(Clone, Copy, PartialEq, Eq, Structural, Debug)]
pub struct StagedRemoval {
    /// The step that the run is at.
    pub phase: StagedPhase,
    /// The number of values to remove.
    pub count: usize,
    /// The number of rows that the store deleted.
    pub removed: u64,
    /// Why the run stopped, if it did.
    pub halt: Option<Halt>,
}

impl StagedRemoval {
    /// The state before the first command.
    pub open spec fn initial(count: usize) -> StagedRemoval {
        StagedRemoval { phase: StagedPhase::CreateStaging, count, removed: 0, halt: None }
    }

    /// Whether the run is over, to its end or not.
    pub open spec fn is_over(self) -> bool {
        self.halt is Some || self.phase == StagedPhase::Finished
    }

    /// The command to perform next; none when the run is over.
    pub open spec fn spec_pending(self) -> Option<Command> {
        if self.is_over() {
            None
        } else {
            Some(
                match self.phase {
                    StagedPhase::CreateStaging => Command::CreateStaging,
                    StagedPhase::Fill => Command::CopyStaging,
                    _ => Command::DeleteStaged,
                },
            )
        }
    }

    /// The state after the reply to the pending command. With no values
    /// the run ends once the staging table is there: nothing is streamed
    /// and nothing is deleted.
    pub open spec fn spec_accept(self, reply: Reply) -> StagedRemoval {
        if self.is_over() {
            self
        } else {
            match (self.phase, reply) {
                (_, Reply::Failed) => StagedRemoval { halt: Some(Halt::StoreFailed), ..self },
                (StagedPhase::CreateStaging, Reply::Done) => StagedRemoval {
                    phase: if self.count == 0 {
                        StagedPhase::Finished
                    } else {
                        StagedPhase::Fill
                    },
                    ..self
                },
                (StagedPhase::Fill, Reply::Done) => StagedRemoval {
                    phase: StagedPhase::Delete,
                    ..self
                },
                (StagedPhase::Delete, Reply::Affected(n)) => StagedRemoval {
                    phase: StagedPhase::Finished,
                    removed: n,
                    ..self
                },
                _ => StagedRemoval { halt: Some(Halt::UnexpectedReply), ..self },
            }
        }
    }

    /// A run that removes `count` values.
    pub fn new(count: usize) -> (run: StagedRemoval)
        ensures
            run == StagedRemoval::initial(count),
    {
        StagedRemoval { phase: StagedPhase::CreateStaging, count, removed: 0, halt: None }
    }

    /// The command to perform next; none when the run is over.
    pub fn pending(&self) -> (command: Option<Command>)
        ensures
            command == self.spec_pending(),
    {
        if self.halt.is_some() {
            return None;
        }
        match self.phase {
            StagedPhase::CreateStaging => Some(Command::CreateStaging),
            StagedPhase::Fill => Some(Command::CopyStaging),
            StagedPhase::Delete => Some(Command::DeleteStaged),
            StagedPhase::Finished => None,
        }
    }

    /// Takes the reply to the pending command.
    pub fn accept(&mut self, reply: Reply)
        ensures
            *final(self) == old(self).spec_accept(reply),
    {
        if self.halt.is_some() {
            return ;
        }
        match (self.phase, reply) {
            (StagedPhase::Finished, _) => {},
            (_, Reply::Failed) => {
                self.halt = Some(Halt::StoreFailed);
            },
            (StagedPhase::CreateStaging, Reply::Done) => {
                if self.count == 0 {
                    self.phase = StagedPhase::Finished;
                } else {
                    self.phase = StagedPhase::Fill;
                }
            },
            (StagedPhase::Fill, Reply::Done) => {
                self.phase = StagedPhase::Delete;
            },
            (StagedPhase::Delete, Reply::Affected(n)) => {
                self.removed = n;
                self.phase = StagedPhase::Finished;
            },
            _ => {
                self.halt = Some(Halt::UnexpectedReply);
            },
        }
    }

    /// Whether the run came to its end.
    pub fn is_finished(&self) -> (done: bool)
        ensures
            done == (self.halt is None && self.phase == StagedPhase::Finished),
    {
        self.halt.is_none() && self.phase == StagedPhase::Finished
    }
}

} // verus!
