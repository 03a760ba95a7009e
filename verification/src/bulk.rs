//! The bulk-load path of an ingestion.
//!
//! The run counts the rows, drops the uniqueness constraint and the index,
//! relaxes the session, streams the candidates in, piece by piece, deletes
//! the duplicates, builds the constraint and the index again, and counts the
//! rows once more. Each step is one command to the store, and nothing wraps
//! them together: a run that stops between the drop and the rebuild leaves
//! the table without its constraint or its index.

use crate::store::{Command, Halt, Reply};
use crate::strategy::{next_piece_end, piece_end, COPY_CHUNK_SIZE};
use vstd::prelude::*;

verus! {

/// The step that a bulk load is at: the command that it asks for next.
#[derive(Clone, Copy, PartialEq, Eq, Structural, Debug)]
pub enum BulkPhase {
    /// Count the rows before anything changes.
    Baseline,
    /// Drop the uniqueness constraint.
    DropKey,
    /// Drop the index.
    DropIndex,
    /// Relax durability.
    RelaxCommit,
    /// Raise the working memory.
    RaiseWorkMem,
    /// Raise the maintenance memory.
    RaiseMaintenanceMem,
    /// Stream the next piece in.
    Load,
    /// Delete the duplicates.
    Deduplicate,
    /// Build the constraint again.
    AddKey,
    /// Build the index again.
    CreateIndex,
    /// Count the rows at the end.
    FinalCount,
    /// Nothing is left to do.
    Finished,
}

/// Where a bulk load has left the table.
#[derive(Clone, Copy, PartialEq, Eq, Structural, Debug)]
pub enum TableCondition {
    /// Nothing was changed: the run stopped before the constraint was
    /// dropped.
    Unchanged,
    /// The constraint, the index, or both are missing, and rows may have
    /// been loaded that are there twice.
    Degraded,
    /// The table is deduplicated and has its constraint and its index.
    Rebuilt,
}

/// The state of a bulk load.
#[derive(Clone, Copy, PartialEq, Eq, Structural, Debug)]
pub struct BulkLoad {
    /// The step that the run is at.
    pub phase: BulkPhase,
    /// The number of candidates.
    pub count: usize,
    /// The number of candidates streamed in so far.
    pub cursor: usize,
    /// The number of rows before the run.
    pub baseline: i64,
    /// The number of rows after the run.
    pub final_count: i64,
    /// Why the run stopped, if it did.
    pub halt: Option<Halt>,
}

/// The phase that follows the last session setting, and every piece: the
/// next piece while candidates are left, then the deduplication.
pub open spec fn load_or_deduplicate(cursor: usize, count: usize) -> BulkPhase {
    if cursor < count {
        BulkPhase::Load
    } else {
        BulkPhase::Deduplicate
    }
}

impl BulkLoad {
    /// The state is one that a run can reach.
    pub open spec fn wf(self) -> bool {
        &&& self.cursor <= self.count
        &&& self.baseline >= 0
        &&& self.final_count >= 0
        &&& match self.phase {
            BulkPhase::Baseline
            | BulkPhase::DropKey
            | BulkPhase::DropIndex
            | BulkPhase::RelaxCommit
            | BulkPhase::RaiseWorkMem
            | BulkPhase::RaiseMaintenanceMem => self.cursor == 0,
            BulkPhase::Load => self.cursor < self.count,
            _ => self.cursor == self.count,
        }
    }

    /// The state before the first command.
    pub open spec fn initial(count: usize) -> BulkLoad {
        BulkLoad {
            phase: BulkPhase::Baseline,
            count,
            cursor: 0,
            baseline: 0,
            final_count: 0,
            halt: None,
        }
    }

    /// Where the next piece ends.
    pub open spec fn chunk_end(self) -> usize {
        piece_end(self.cursor as nat, self.count as nat, COPY_CHUNK_SIZE as nat) as usize
    }

    /// Whether the run is over, to its end or not.
    pub open spec fn is_over(self) -> bool {
        self.halt is Some || self.phase == BulkPhase::Finished
    }

    /// The command to perform next; none when the run is over.
    pub open spec fn spec_pending(self) -> Option<Command> {
        if self.is_over() {
            None
        } else {
            Some(
                match self.phase {
                    BulkPhase::Baseline => Command::CountRows,
                    BulkPhase::DropKey => Command::DropKey,
                    BulkPhase::DropIndex => Command::DropIndex,
                    BulkPhase::RelaxCommit => Command::RelaxCommit,
                    BulkPhase::RaiseWorkMem => Command::RaiseWorkMem,
                    BulkPhase::RaiseMaintenanceMem => Command::RaiseMaintenanceMem,
                    BulkPhase::Load => Command::CopyIn {
                        start: self.cursor,
                        end: self.chunk_end(),
                    },
                    BulkPhase::Deduplicate => Command::Deduplicate,
                    BulkPhase::AddKey => Command::AddKey,
                    BulkPhase::CreateIndex => Command::CreateIndex,
                    BulkPhase::FinalCount => Command::CountRows,
                    BulkPhase::Finished => Command::CountRows,
                },
            )
        }
    }

    /// The state after a command was carried out with nothing to report.
    pub open spec fn after_done(self) -> BulkLoad {
        match self.phase {
            BulkPhase::DropKey => BulkLoad { phase: BulkPhase::DropIndex, ..self },
            BulkPhase::DropIndex => BulkLoad { phase: BulkPhase::RelaxCommit, ..self },
            BulkPhase::RelaxCommit => BulkLoad { phase: BulkPhase::RaiseWorkMem, ..self },
            BulkPhase::RaiseWorkMem => BulkLoad { phase: BulkPhase::RaiseMaintenanceMem, ..self },
            BulkPhase::RaiseMaintenanceMem => BulkLoad {
                phase: load_or_deduplicate(self.cursor, self.count),
                ..self
            },
            BulkPhase::Load => BulkLoad {
                phase: load_or_deduplicate(self.chunk_end(), self.count),
                cursor: self.chunk_end(),
                ..self
            },
            BulkPhase::Deduplicate => BulkLoad { phase: BulkPhase::AddKey, ..self },
            BulkPhase::AddKey => BulkLoad { phase: BulkPhase::CreateIndex, ..self },
            BulkPhase::CreateIndex => BulkLoad { phase: BulkPhase::FinalCount, ..self },
            _ => BulkLoad { halt: Some(Halt::UnexpectedReply), ..self },
        }
    }

    /// The state after a row count came back.
    pub open spec fn after_count(self, n: i64) -> BulkLoad {
        if n < 0 {
            BulkLoad { halt: Some(Halt::UnexpectedReply), ..self }
        } else {
            match self.phase {
                BulkPhase::Baseline => BulkLoad { phase: BulkPhase::DropKey, baseline: n, ..self },
                BulkPhase::FinalCount => BulkLoad {
                    phase: BulkPhase::Finished,
                    final_count: n,
                    ..self
                },
                _ => BulkLoad { halt: Some(Halt::UnexpectedReply), ..self },
            }
        }
    }

    /// The state after the reply to the pending command. The reply that the
    /// command can have moves the run on by one step. A failure stops it,
    /// and so does any other reply. A run that is over stays as it is.
    pub open spec fn spec_accept(self, reply: Reply) -> BulkLoad {
        if self.is_over() {
            self
        } else {
            match reply {
                Reply::Done => self.after_done(),
                Reply::Count(n) => self.after_count(n),
                Reply::Failed => BulkLoad { halt: Some(Halt::StoreFailed), ..self },
                _ => BulkLoad { halt: Some(Halt::UnexpectedReply), ..self },
            }
        }
    }

    /// Where the run has left the table, if the store did what it reported.
    /// A run that has not got past the drop of the constraint has changed
    /// nothing. From there until the index is built again the table is
    /// degraded. After that it is rebuilt, whether or not the last count
    /// came back.
    pub open spec fn spec_condition(self) -> TableCondition {
        match self.phase {
            BulkPhase::Baseline | BulkPhase::DropKey => TableCondition::Unchanged,
            BulkPhase::FinalCount | BulkPhase::Finished => TableCondition::Rebuilt,
            _ => TableCondition::Degraded,
        }
    }

    /// A run that loads `count` candidates.
    pub fn new(count: usize) -> (run: BulkLoad)
        ensures
            run == BulkLoad::initial(count),
            run.wf(),
    {
        BulkLoad {
            phase: BulkPhase::Baseline,
            count,
            cursor: 0,
            baseline: 0,
            final_count: 0,
            halt: None,
        }
    }

    /// The command to perform next; none when the run is over.
    pub fn pending(&self) -> (command: Option<Command>)
        requires
            self.wf(),
        ensures
            command == self.spec_pending(),
            command matches Some(Command::CopyIn { start, end }) ==> start < end <= self.count
                && end - start <= COPY_CHUNK_SIZE,
    {
        if self.halt.is_some() {
            return None;
        }
        match self.phase {
            BulkPhase::Baseline => Some(Command::CountRows),
            BulkPhase::DropKey => Some(Command::DropKey),
            BulkPhase::DropIndex => Some(Command::DropIndex),
            BulkPhase::RelaxCommit => Some(Command::RelaxCommit),
            BulkPhase::RaiseWorkMem => Some(Command::RaiseWorkMem),
            BulkPhase::RaiseMaintenanceMem => Some(Command::RaiseMaintenanceMem),
            BulkPhase::Load => {
                let end = next_piece_end(self.cursor, self.count, COPY_CHUNK_SIZE);
                Some(Command::CopyIn { start: self.cursor, end })
            },
            BulkPhase::Deduplicate => Some(Command::Deduplicate),
            BulkPhase::AddKey => Some(Command::AddKey),
            BulkPhase::CreateIndex => Some(Command::CreateIndex),
            BulkPhase::FinalCount => Some(Command::CountRows),
            BulkPhase::Finished => None,
        }
    }

    fn next_load_phase(cursor: usize, count: usize) -> (phase: BulkPhase)
        ensures
            phase == load_or_deduplicate(cursor, count),
    {
        if cursor < count {
            BulkPhase::Load
        } else {
            BulkPhase::Deduplicate
        }
    }

    /// Takes the reply to the pending command.
    pub fn accept(&mut self, reply: Reply)
        requires
            old(self).wf(),
        ensures
            final(self).wf(),
            *final(self) == old(self).spec_accept(reply),
    {
        if self.halt.is_some() {
            return ;
        }
        match (self.phase, reply) {
            (BulkPhase::Finished, _) => {},
            (_, Reply::Failed) => {
                self.halt = Some(Halt::StoreFailed);
            },
            (BulkPhase::Baseline, Reply::Count(n)) => {
                if n >= 0 {
                    self.baseline = n;
                    self.phase = BulkPhase::DropKey;
                } else {
                    self.halt = Some(Halt::UnexpectedReply);
                }
            },
            (BulkPhase::FinalCount, Reply::Count(n)) => {
                if n >= 0 {
                    self.final_count = n;
                    self.phase = BulkPhase::Finished;
                } else {
                    self.halt = Some(Halt::UnexpectedReply);
                }
            },
            (BulkPhase::DropKey, Reply::Done) => {
                self.phase = BulkPhase::DropIndex;
            },
            (BulkPhase::DropIndex, Reply::Done) => {
                self.phase = BulkPhase::RelaxCommit;
            },
            (BulkPhase::RelaxCommit, Reply::Done) => {
                self.phase = BulkPhase::RaiseWorkMem;
            },
            (BulkPhase::RaiseWorkMem, Reply::Done) => {
                self.phase = BulkPhase::RaiseMaintenanceMem;
            },
            (BulkPhase::RaiseMaintenanceMem, Reply::Done) => {
                self.phase = Self::next_load_phase(self.cursor, self.count);
            },
            (BulkPhase::Load, Reply::Done) => {
                let end = next_piece_end(self.cursor, self.count, COPY_CHUNK_SIZE);
                self.cursor = end;
                self.phase = Self::next_load_phase(end, self.count);
            },
            (BulkPhase::Deduplicate, Reply::Done) => {
                self.phase = BulkPhase::AddKey;
            },
            (BulkPhase::AddKey, Reply::Done) => {
                self.phase = BulkPhase::CreateIndex;
            },
            (BulkPhase::CreateIndex, Reply::Done) => {
                self.phase = BulkPhase::FinalCount;
            },
            _ => {
                self.halt = Some(Halt::UnexpectedReply);
            },
        }
    }

    /// Whether the run came to its end.
    pub fn is_finished(&self) -> (done: bool)
        ensures
            done == (self.halt is None && self.phase == BulkPhase::Finished),
    {
        self.halt.is_none() && self.phase == BulkPhase::Finished
    }

    /// Where the run has left the table.
    pub fn condition(&self) -> (condition: TableCondition)
        ensures
            condition == self.spec_condition(),
    {
        match self.phase {
            BulkPhase::Baseline | BulkPhase::DropKey => TableCondition::Unchanged,
            BulkPhase::FinalCount | BulkPhase::Finished => TableCondition::Rebuilt,
            _ => TableCondition::Degraded,
        }
    }
}

/// The order of the steps: the position of a phase in a run.
pub open spec fn phase_rank(phase: BulkPhase) -> nat {
    match phase {
        BulkPhase::Baseline => 0,
        BulkPhase::DropKey => 1,
        BulkPhase::DropIndex => 2,
        BulkPhase::RelaxCommit => 3,
        BulkPhase::RaiseWorkMem => 4,
        BulkPhase::RaiseMaintenanceMem => 5,
        BulkPhase::Load => 6,
        BulkPhase::Deduplicate => 7,
        BulkPhase::AddKey => 8,
        BulkPhase::CreateIndex => 9,
        BulkPhase::FinalCount => 10,
        BulkPhase::Finished => 11,
    }
}

/// A run keeps the order drop, load, deduplicate, rebuild: a reply never
/// takes it back to an earlier step, and it leaves the loading step only
/// when every candidate has been streamed in.
pub proof fn lemma_bulk_order(run: BulkLoad, reply: Reply)
    requires
        run.wf(),
    ensures
        run.spec_accept(reply).wf(),
        run.spec_accept(reply).count == run.count,
        phase_rank(run.spec_accept(reply).phase) >= phase_rank(run.phase),
        phase_rank(run.spec_accept(reply).phase) <= phase_rank(run.phase) + 1 || (run.phase
            == BulkPhase::RaiseMaintenanceMem && run.count == 0),
        run.spec_accept(reply).cursor >= run.cursor,
        phase_rank(run.spec_accept(reply).phase) > phase_rank(BulkPhase::Load)
            ==> run.spec_accept(reply).cursor == run.count,
{
}

} // verus!
