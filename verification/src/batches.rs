//! A run that sends a list of values to the store in batches of a fixed
//! size: the direct-insert path of an ingestion, and the deletion of a list
//! of values.
//!
//! Each batch is one statement. The store says how many rows it inserted or
//! deleted, and the run adds these numbers up. Nothing wraps the batches
//! together: where one fails, those before it stay done.

use crate::store::{Command, Halt, Reply};
use crate::strategy::{
    lemma_pieces_tile, next_piece_end, piece_count, piece_end, piece_start, DELETE_BATCH_SIZE,
    INSERT_BATCH_SIZE,
};
use vstd::prelude::*;

verus! {

/// What a batch does with its values.
#[derive(Clone, Copy, PartialEq, Eq, Structural, Debug)]
pub enum BatchKind {
    /// Insert them, passing over those already there.
    Insert,
    /// Delete the rows that equal one of them.
    Delete,
}

/// The state of a run in batches.
#[derive(Clone, Copy, PartialEq, Eq, Structural, Debug)]
pub struct BatchRun {
    /// What each batch does.
    pub kind: BatchKind,
    /// The most values in one batch.
    pub size: usize,
    /// The number of values in all.
    pub count: usize,
    /// The number of values sent so far: where the next batch starts.
    pub cursor: usize,
    /// The number of rows that the store has inserted or deleted so far.
    pub affected: u64,
    /// Why the run stopped, if it did.
    pub halt: Option<Halt>,
}

/// Where a stopped run left the table.
#[derive(Clone, Copy, PartialEq, Eq, Structural, Debug)]
pub enum BatchCondition {
    /// Every batch was carried out.
    Complete,
    /// The run stopped at its first batch: the table is as it was.
    Unchanged,
    /// The run stopped after some batches: what they did stays done.
    PartlyDone,
}

impl BatchRun {
    /// The state is one that a run can reach.
    pub open spec fn wf(self) -> bool {
        &&& self.size > 0
        &&& self.cursor <= self.count
        &&& self.affected <= self.cursor
    }

    /// The state before the first batch.
    pub open spec fn initial(kind: BatchKind, count: usize, size: usize) -> BatchRun {
        BatchRun { kind, size, count, cursor: 0, affected: 0, halt: None }
    }

    /// Where the next batch ends.
    pub open spec fn batch_end(self) -> usize {
        piece_end(self.cursor as nat, self.count as nat, self.size as nat) as usize
    }

    /// Whether the run is over, to its end or not.
    pub open spec fn is_over(self) -> bool {
        self.halt is Some || self.cursor >= self.count
    }

    /// The command to perform next; none when the run is over.
    pub open spec fn spec_pending(self) -> Option<Command> {
        if self.is_over() {
            None
        } else {
            Some(
                match self.kind {
                    BatchKind::Insert => Command::InsertBatch {
                        start: self.cursor,
                        end: self.batch_end(),
                    },
                    BatchKind::Delete => Command::DeleteBatch {
                        start: self.cursor,
                        end: self.batch_end(),
                    },
                },
            )
        }
    }

    /// The state after the reply to the pending command. A count of rows
    /// that is no more than the batch holds moves the run on. A failure
    /// stops it, and so does any other reply. A run that is over stays as
    /// it is.
    pub open spec fn spec_accept(self, reply: Reply) -> BatchRun {
        if self.is_over() {
            self
        } else {
            match reply {
                Reply::Affected(n) => if n <= self.batch_end() - self.cursor {
                    BatchRun {
                        cursor: self.batch_end(),
                        affected: (self.affected + n) as u64,
                        ..self
                    }
                } else {
                    BatchRun { halt: Some(Halt::UnexpectedReply), ..self }
                },
                Reply::Failed => BatchRun { halt: Some(Halt::StoreFailed), ..self },
                _ => BatchRun { halt: Some(Halt::UnexpectedReply), ..self },
            }
        }
    }

    /// Where the run has left the table.
    pub open spec fn spec_condition(self) -> BatchCondition {
        if self.cursor >= self.count {
            BatchCondition::Complete
        } else if self.cursor == 0 {
            BatchCondition::Unchanged
        } else {
            BatchCondition::PartlyDone
        }
    }

    /// A run that inserts `count` candidates.
    pub fn inserting(count: usize) -> (run: BatchRun)
        ensures
            run == BatchRun::initial(BatchKind::Insert, count, INSERT_BATCH_SIZE),
            run.wf(),
    {
        BatchRun {
            kind: BatchKind::Insert,
            size: INSERT_BATCH_SIZE,
            count,
            cursor: 0,
            affected: 0,
            halt: None,
        }
    }

    /// A run that deletes `count` values.
    pub fn deleting(count: usize) -> (run: BatchRun)
        ensures
            run == BatchRun::initial(BatchKind::Delete, count, DELETE_BATCH_SIZE),
            run.wf(),
    {
        BatchRun {
            kind: BatchKind::Delete,
            size: DELETE_BATCH_SIZE,
            count,
            cursor: 0,
            affected: 0,
            halt: None,
        }
    }

    /// The command to perform next; none when the run is over.
    pub fn pending(&self) -> (command: Option<Command>)
        requires
            self.wf(),
        ensures
            command == self.spec_pending(),
            command matches Some(Command::InsertBatch { start, end }) ==> start < end <= self.count
                && end - start <= self.size,
            command matches Some(Command::DeleteBatch { start, end }) ==> start < end <= self.count
                && end - start <= self.size,
    {
        if self.halt.is_some() || self.cursor >= self.count {
            return None;
        }
        let end = next_piece_end(self.cursor, self.count, self.size);
        match self.kind {
            BatchKind::Insert => Some(Command::InsertBatch { start: self.cursor, end }),
            BatchKind::Delete => Some(Command::DeleteBatch { start: self.cursor, end }),
        }
    }

    /// Takes the reply to the pending command.
    pub fn accept(&mut self, reply: Reply)
        requires
            old(self).wf(),
        ensures
            final(self).wf(),
            *final(self) == old(self).spec_accept(reply),
    {
        if self.halt.is_some() || self.cursor >= self.count {
            return ;
        }
        let end = next_piece_end(self.cursor, self.count, self.size);
        match reply {
            Reply::Affected(n) => {
                if n <= (end - self.cursor) as u64 {
                    self.affected = self.affected + n;
                    self.cursor = end;
                } else {
                    self.halt = Some(Halt::UnexpectedReply);
                }
            },
            Reply::Failed => {
                self.halt = Some(Halt::StoreFailed);
            },
            _ => {
                self.halt = Some(Halt::UnexpectedReply);
            },
        }
    }

    /// Whether every batch was carried out.
    pub fn is_complete(&self) -> (done: bool)
        ensures
            done == (self.halt is None && self.cursor >= self.count),
    {
        self.halt.is_none() && self.cursor >= self.count
    }

    /// Where the run has left the table.
    pub fn condition(&self) -> (condition: BatchCondition)
        ensures
            condition == self.spec_condition(),
    {
        if self.cursor >= self.count {
            BatchCondition::Complete
        } else if self.cursor == 0 {
            BatchCondition::Unchanged
        } else {
            BatchCondition::PartlyDone
        }
    }
}

/// A reply moves a run on by one batch, or stops it, and keeps the state
/// one that a run can reach. The rows counted never exceed the values sent.
pub proof fn lemma_batch_progress(run: BatchRun, reply: Reply)
    requires
        run.wf(),
    ensures
        run.spec_accept(reply).wf(),
        run.spec_accept(reply).count == run.count,
        run.spec_accept(reply).size == run.size,
        run.spec_accept(reply).kind == run.kind,
        run.spec_accept(reply).cursor >= run.cursor,
        run.spec_accept(reply).halt is None && !run.is_over() ==> run.spec_accept(reply).cursor
            > run.cursor,
{
}

/// The batches of a run are the pieces of its values, in order: a run that
/// has come as far as the start of the piece with the number `index` has a
/// batch to send if and only if there is such a piece, the batch is that
/// piece, and a reply that the run takes brings it to the start of the next
/// piece. So a run that is not stopped sends `piece_count` batches, which
/// lie end to end and cover all the values.
pub proof fn lemma_batches_are_pieces(run: BatchRun, index: nat, rows: u64)
    requires
        run.wf(),
        run.halt is None,
        run.cursor == piece_start(index, run.count as nat, run.size as nat),
    ensures
        run.spec_pending() is Some <==> index < piece_count(run.count as nat, run.size as nat),
        run.spec_pending() is Some ==> run.batch_end() == piece_start(
            index + 1,
            run.count as nat,
            run.size as nat,
        ) && run.cursor < run.batch_end() && run.batch_end() - run.cursor <= run.size,
        run.spec_pending() is Some && rows <= run.batch_end() - run.cursor ==> run.spec_accept(
            Reply::Affected(rows),
        ).cursor == piece_start(index + 1, run.count as nat, run.size as nat) && run.spec_accept(
            Reply::Affected(rows),
        ).halt is None,
{
    lemma_pieces_tile(index, run.count as nat, run.size as nat);
}

} // verus!
