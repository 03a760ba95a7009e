//! The statistics of an ingestion.
//!
//! The direct path adds up what the store reports for each batch. The bulk
//! path does not look at single rows: it takes the number of new rows from
//! the row counts before and after, and the number of duplicates from that.

use crate::batches::{BatchKind, BatchRun};
use crate::bulk::{BulkLoad, BulkPhase};
use crate::intake::{Intake, IntakeView};
use vstd::prelude::*;

verus! {

/// The statistics of one ingestion.
#[derive(Clone, Copy, PartialEq, Eq, Structural, Debug)]
pub struct IngestReport {
    /// The lines seen that were not blank.
    pub total: u64,
    /// Those of them that were no valid domain.
    pub invalid: u64,
    /// The others: the candidates.
    pub valid: u64,
    /// The rows that the run added to the table.
    pub new_rows: i128,
    /// The candidates that added no row: `valid - new_rows`. Below zero only
    /// where the row counts of a bulk load were taken while something else
    /// wrote to the table.
    pub duplicates: i128,
}

/// The report of counts and a number of new rows.
pub open spec fn report_of(intake: IntakeView, new_rows: int) -> IngestReport {
    IngestReport {
        total: intake.total as u64,
        invalid: intake.invalid as u64,
        valid: (intake.total - intake.invalid) as u64,
        new_rows: new_rows as i128,
        duplicates: (intake.total - intake.invalid - new_rows) as i128,
    }
}

/// The report of a direct run: the new rows are those that the store
/// reported. There is one only for a run that inserted all the candidates
/// of the intake.
pub open spec fn spec_direct_report(intake: IntakeView, run: BatchRun) -> Option<IngestReport> {
    if run.kind == BatchKind::Insert && run.halt is None && run.cursor >= run.count && run.count
        == intake.candidates.len() {
        Some(report_of(intake, run.affected as int))
    } else {
        None
    }
}

/// The report of a bulk load: the new rows are the row count after the run
/// less the row count before it. There is one only for a run that came to
/// its end and loaded all the candidates of the intake.
pub open spec fn spec_bulk_report(intake: IntakeView, run: BulkLoad) -> Option<IngestReport> {
    if run.halt is None && run.phase == BulkPhase::Finished && run.count
        == intake.candidates.len() {
        Some(report_of(intake, run.final_count - run.baseline))
    } else {
        None
    }
}

/// The report of a direct run over the candidates of an intake.
pub fn direct_report(intake: &Intake, run: &BatchRun) -> (report: Option<IngestReport>)
    requires
        intake.wf(),
        run.wf(),
    ensures
        report == spec_direct_report(intake@, *run),
        report matches Some(r) ==> 0 <= r.new_rows <= r.valid && r.duplicates == r.valid
            - r.new_rows && r.total == r.invalid + r.valid,
{
    let valid = intake.valid();
    if !(run.kind == BatchKind::Insert && run.is_complete() && run.count == valid) {
        return None;
    }
    Some(
        IngestReport {
            total: intake.total(),
            invalid: intake.invalid(),
            valid: valid as u64,
            new_rows: run.affected as i128,
            duplicates: valid as i128 - run.affected as i128,
        },
    )
}

/// The report of a bulk load of the candidates of an intake.
pub fn bulk_report(intake: &Intake, run: &BulkLoad) -> (report: Option<IngestReport>)
    requires
        intake.wf(),
        run.wf(),
    ensures
        report == spec_bulk_report(intake@, *run),
        report matches Some(r) ==> r.new_rows == run.final_count - run.baseline && r.duplicates
            == r.valid - r.new_rows && r.total == r.invalid + r.valid,
{
    let valid = intake.valid();
    if !(run.is_finished() && run.count == valid) {
        return None;
    }
    let new_rows = run.final_count as i128 - run.baseline as i128;
    Some(
        IngestReport {
            total: intake.total(),
            invalid: intake.invalid(),
            valid: valid as u64,
            new_rows,
            duplicates: valid as i128 - new_rows,
        },
    )
}

} // verus!
