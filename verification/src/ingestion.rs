//! An ingestion as a whole: the run on the path that the number of
//! candidates selects, and what it leaves in the table, whichever path that
//! is.

use crate::batches::{BatchKind, BatchRun};
use crate::bulk::BulkLoad;
use crate::intake::{intake_of, is_clean, lemma_intake_of_clean, Intake, IntakeView};
use crate::model::{insert_new, lemma_insert_new, lemma_insert_new_absorbed, Table};
use crate::report::{
    bulk_report, direct_report, report_of, spec_bulk_report, spec_direct_report, IngestReport,
};
use crate::runs::{drive_batches, drive_bulk, lemma_bulk_run, lemma_direct_run};
use crate::store::{Command, Halt, Reply};
use crate::strategy::{
    select_strategy, strategy_for, Strategy, BULK_THRESHOLD, INSERT_BATCH_SIZE,
};
use vstd::prelude::*;

verus! {

/// An ingestion: a run on one of the two paths.
#[derive(Clone, Copy, PartialEq, Eq, Structural, Debug)]
pub enum Ingest {
    /// The candidates are inserted in batches.
    Direct(BatchRun),
    /// The candidates are loaded in bulk.
    Bulk(BulkLoad),
}

impl Ingest {
    /// The state is one that an ingestion can reach.
    pub open spec fn wf(self) -> bool {
        match self {
            Ingest::Direct(run) => run.wf() && run.kind == BatchKind::Insert,
            Ingest::Bulk(run) => run.wf(),
        }
    }

    /// The state before the first command: the start of the run on the
    /// path that the number of candidates selects.
    pub open spec fn initial(candidates: usize) -> Ingest {
        match strategy_for(candidates as nat) {
            Strategy::DirectInsert => Ingest::Direct(
                BatchRun::initial(BatchKind::Insert, candidates, INSERT_BATCH_SIZE),
            ),
            Strategy::BulkLoad => Ingest::Bulk(BulkLoad::initial(candidates)),
        }
    }

    /// The path that the ingestion is on.
    pub open spec fn spec_strategy(self) -> Strategy {
        match self {
            Ingest::Direct(_) => Strategy::DirectInsert,
            Ingest::Bulk(_) => Strategy::BulkLoad,
        }
    }

    /// The command to perform next; none when the ingestion is over.
    pub open spec fn spec_pending(self) -> Option<Command> {
        match self {
            Ingest::Direct(run) => run.spec_pending(),
            Ingest::Bulk(run) => run.spec_pending(),
        }
    }

    /// The state after the reply to the pending command.
    pub open spec fn spec_accept(self, reply: Reply) -> Ingest {
        match self {
            Ingest::Direct(run) => Ingest::Direct(run.spec_accept(reply)),
            Ingest::Bulk(run) => Ingest::Bulk(run.spec_accept(reply)),
        }
    }

    /// Why the ingestion stopped, if it did.
    pub open spec fn spec_halt(self) -> Option<Halt> {
        match self {
            Ingest::Direct(run) => run.halt,
            Ingest::Bulk(run) => run.halt,
        }
    }

    /// The statistics of the ingestion, once it has come to its end.
    pub open spec fn spec_report(self, intake: IntakeView) -> Option<IngestReport> {
        match self {
            Ingest::Direct(run) => spec_direct_report(intake, run),
            Ingest::Bulk(run) => spec_bulk_report(intake, run),
        }
    }

    /// An ingestion of the given number of candidates. Below the threshold
    /// it takes the direct path, from the threshold on the bulk path.
    pub fn new(candidates: usize) -> (ingest: Ingest)
        ensures
            ingest == Ingest::initial(candidates),
            ingest.wf(),
    {
        match select_strategy(candidates) {
            Strategy::DirectInsert => Ingest::Direct(BatchRun::inserting(candidates)),
            Strategy::BulkLoad => Ingest::Bulk(BulkLoad::new(candidates)),
        }
    }

    /// The path that the ingestion is on.
    pub fn strategy(&self) -> (strategy: Strategy)
        ensures
            strategy == self.spec_strategy(),
    {
        match self {
            Ingest::Direct(_) => Strategy::DirectInsert,
            Ingest::Bulk(_) => Strategy::BulkLoad,
        }
    }

    /// The command to perform next; none when the ingestion is over.
    pub fn pending(&self) -> (command: Option<Command>)
        requires
            self.wf(),
        ensures
            command == self.spec_pending(),
    {
        match self {
            Ingest::Direct(run) => run.pending(),
            Ingest::Bulk(run) => run.pending(),
        }
    }

    /// Takes the reply to the pending command.
    pub fn accept(&mut self, reply: Reply)
        requires
            old(self).wf(),
        ensures
            final(self).wf(),
            *final(self) == old(self).spec_accept(reply),
    {
        match *self {
            Ingest::Direct(run) => {
                let mut next = run;
                next.accept(reply);
                *self = Ingest::Direct(next);
            },
            Ingest::Bulk(run) => {
                let mut next = run;
                next.accept(reply);
                *self = Ingest::Bulk(next);
            },
        }
    }

    /// Why the ingestion stopped, if it did.
    pub fn halt(&self) -> (halt: Option<Halt>)
        ensures
            halt == self.spec_halt(),
    {
        match self {
            Ingest::Direct(run) => run.halt,
            Ingest::Bulk(run) => run.halt,
        }
    }

    /// The statistics of the ingestion of the candidates of an intake;
    /// none unless the ingestion has come to its end and was made for as
    /// many candidates as the intake holds.
    pub fn report(&self, intake: &Intake) -> (report: Option<IngestReport>)
        requires
            self.wf(),
            intake.wf(),
        ensures
            report == self.spec_report(intake@),
    {
        match self {
            Ingest::Direct(run) => direct_report(intake, run),
            Ingest::Bulk(run) => bulk_report(intake, run),
        }
    }
}

/// The end of an ingestion against the model of the store.
pub open spec fn drive_ingest(run: Ingest, table: Table, values: Seq<Seq<char>>) -> (
    Ingest,
    Table,
) {
    match run {
        Ingest::Direct(run) => {
            let (end, after) = drive_batches(run, table, values);
            (Ingest::Direct(end), after)
        },
        Ingest::Bulk(run) => {
            let (end, after) = drive_bulk(run, table, values);
            (Ingest::Bulk(end), after)
        },
    }
}

/// The table after an ingestion of the values against the model, on the
/// given path.
pub open spec fn ingest_by(strategy: Strategy, table: Table, values: Seq<Seq<char>>) -> Table {
    match strategy {
        Strategy::DirectInsert => drive_batches(
            BatchRun::initial(BatchKind::Insert, values.len() as usize, INSERT_BATCH_SIZE),
            table,
            values,
        ).1,
        Strategy::BulkLoad => drive_bulk(BulkLoad::initial(values.len() as usize), table, values).1,
    }
}

/// The table after an ingestion of the values against the model, on the
/// path that their number selects.
pub open spec fn ingest(table: Table, values: Seq<Seq<char>>) -> Table {
    drive_ingest(Ingest::initial(values.len() as usize), table, values).1
}

/// One value below the threshold the run takes the direct path, at the
/// threshold the bulk path; and so for every number below and every number
/// from the threshold on.
pub proof fn lemma_threshold(candidates: nat)
    ensures
        strategy_for((BULK_THRESHOLD - 1) as nat) == Strategy::DirectInsert,
        strategy_for(BULK_THRESHOLD as nat) == Strategy::BulkLoad,
        candidates < BULK_THRESHOLD <==> strategy_for(candidates) == Strategy::DirectInsert,
        candidates >= BULK_THRESHOLD <==> strategy_for(candidates) == Strategy::BulkLoad,
{
}

/// On either path, an ingestion leaves a sound table sound, with the values
/// that were there and the candidates in it, each once.
pub proof fn lemma_ingest_by(strategy: Strategy, table: Table, values: Seq<Seq<char>>)
    requires
        table.sound(),
        values.len() <= usize::MAX,
        table.rows.len() + values.len() <= i64::MAX,
    ensures
        ingest_by(strategy, table, values).sound(),
        ingest_by(strategy, table, values).values() == table.values() + values.to_set(),
        ingest_by(strategy, table, values).rows.len() == insert_new(table.rows, values).len(),
        table.rows.len() <= ingest_by(strategy, table, values).rows.len() <= table.rows.len()
            + values.len(),
        ingest(table, values) == ingest_by(strategy_for(values.len()), table, values),
{
    lemma_direct_run(table, values);
    lemma_bulk_run(table, values);
    lemma_insert_new(table.rows, values);
    let after = ingest_by(strategy, table, values).rows;
    assert(after.to_set() =~= table.rows.to_set() + values.to_set());
}

/// Whatever the number of values, both paths leave the same table but for
/// the order of its rows, and they report the same statistics.
pub proof fn lemma_paths_agree(table: Table, values: Seq<Seq<char>>)
    requires
        table.sound(),
        values.len() <= usize::MAX,
        table.rows.len() + values.len() <= i64::MAX,
    ensures
        ingest_by(Strategy::DirectInsert, table, values).same_as(
            ingest_by(Strategy::BulkLoad, table, values),
        ),
        ({
            let direct = drive_batches(
                BatchRun::initial(BatchKind::Insert, values.len() as usize, INSERT_BATCH_SIZE),
                table,
                values,
            ).0;
            let bulk = drive_bulk(BulkLoad::initial(values.len() as usize), table, values).0;
            &&& direct.affected == bulk.final_count - bulk.baseline
            &&& forall|intake: IntakeView|
                intake.candidates == values ==> #[trigger] spec_direct_report(intake, direct)
                    == spec_bulk_report(intake, bulk)
        }),
{
    lemma_ingest_by(Strategy::DirectInsert, table, values);
    lemma_ingest_by(Strategy::BulkLoad, table, values);
    lemma_direct_run(table, values);
    lemma_bulk_run(table, values);
}

/// An ingestion on the path that the number of candidates selects comes to
/// its end, and its report tells the number of rows that the table has
/// gained.
pub proof fn lemma_ingest(table: Table, values: Seq<Seq<char>>)
    requires
        table.sound(),
        values.len() <= usize::MAX,
        table.rows.len() + values.len() <= i64::MAX,
    ensures
        ingest(table, values).sound(),
        ingest(table, values).values() == table.values() + values.to_set(),
        ({
            let end = drive_ingest(Ingest::initial(values.len() as usize), table, values).0;
            &&& end.spec_pending() is None
            &&& end.spec_halt() is None
            &&& forall|intake: IntakeView|
                intake.candidates == values ==> #[trigger] end.spec_report(intake) == Some(
                    report_of(intake, ingest(table, values).rows.len() - table.rows.len()),
                )
        }),
{
    lemma_ingest_by(strategy_for(values.len()), table, values);
    lemma_direct_run(table, values);
    lemma_bulk_run(table, values);
}

/// Ingesting the same candidates a second time changes nothing, whichever
/// path the first run takes and whichever the second: the table holds the
/// same values, and as many rows.
pub proof fn lemma_ingest_twice(
    first: Strategy,
    second: Strategy,
    table: Table,
    values: Seq<Seq<char>>,
)
    requires
        table.sound(),
        values.len() <= usize::MAX,
        table.rows.len() + 2 * values.len() <= i64::MAX,
    ensures
        ingest_by(second, ingest_by(first, table, values), values).same_as(
            ingest_by(first, table, values),
        ),
        ingest_by(second, ingest_by(first, table, values), values).rows.len() == ingest_by(
            first,
            table,
            values,
        ).rows.len(),
{
    lemma_ingest_by(first, table, values);
    let once = ingest_by(first, table, values);
    lemma_ingest_by(second, once, values);
    assert forall|i: int| 0 <= i < values.len() implies once.rows.contains(
        #[trigger] values[i],
    ) by {
        assert(values.to_set().contains(values[i]));
        assert(once.values().contains(values[i]));
    }
    lemma_insert_new_absorbed(once.rows, values);
    assert(once.values() + values.to_set() =~= once.values());
}

/// So for the path that the number of candidates selects: ingesting the
/// same input twice leaves what ingesting it once leaves, and as many rows.
pub proof fn lemma_ingest_again(table: Table, values: Seq<Seq<char>>)
    requires
        table.sound(),
        values.len() <= usize::MAX,
        table.rows.len() + 2 * values.len() <= i64::MAX,
    ensures
        ingest(ingest(table, values), values).same_as(ingest(table, values)),
        ingest(ingest(table, values), values).rows.len() == ingest(table, values).rows.len(),
{
    let path = strategy_for(values.len());
    lemma_ingest_by(path, table, values);
    lemma_ingest_by(path, ingest(table, values), values);
    lemma_ingest_twice(path, path, table, values);
}

/// What an unfiltered export of a sound table of clean rows gives, read
/// back line by line and ingested into an empty table, is a table with the
/// same values: every line becomes a candidate, none is invalid, and the
/// values that end up in the table are those that were exported. Ingested
/// into the table that was exported, the lines change nothing. The order of
/// the exported rows does not matter.
pub proof fn lemma_round_trip(table: Table, exported: Seq<Seq<char>>, validate: bool)
    requires
        table.sound(),
        exported.to_set() == table.values(),
        forall|i: int| 0 <= i < exported.len() ==> is_clean(#[trigger] exported[i], validate),
        exported.len() <= usize::MAX,
        table.rows.len() + exported.len() <= i64::MAX,
    ensures
        intake_of(exported, validate) == (IntakeView {
            total: exported.len(),
            invalid: 0,
            candidates: exported,
        }),
        ingest(
            Table { rows: Seq::empty(), ..table },
            intake_of(exported, validate).candidates,
        ).values() == table.values(),
        ingest(table, intake_of(exported, validate).candidates).same_as(table),
{
    lemma_intake_of_clean(exported, validate);
    let fresh = Table { rows: Seq::empty(), ..table };
    lemma_ingest_by(strategy_for(exported.len()), fresh, exported);
    assert(fresh.values() + exported.to_set() =~= exported.to_set());
    lemma_ingest_by(strategy_for(exported.len()), table, exported);
    assert forall|i: int| 0 <= i < exported.len() implies table.rows.contains(
        #[trigger] exported[i],
    ) by {
        assert(exported.to_set().contains(exported[i]));
        assert(table.values().contains(exported[i]));
    }
    lemma_insert_new_absorbed(table.rows, exported);
    assert(table.values() + exported.to_set() =~= table.values());
}

} // verus!
