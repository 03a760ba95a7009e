//! Whole runs against the model of the store: where each run ends, what it
//! leaves in the table, and what its state says of the table on the way.

use crate::batches::{BatchCondition, BatchKind, BatchRun};
use crate::bulk::{
    lemma_bulk_order, load_or_deduplicate, phase_rank, BulkLoad, BulkPhase, TableCondition,
};
use crate::filter::{lemma_filter_correct, passes, passing, FilterView};
use crate::model::{
    deduplicated, insert_new, lemma_deduplicated, lemma_deduplicated_after_append,
    lemma_insert_new, lemma_insert_new_concat, lemma_without, lemma_without_concat,
    lemma_without_count, perform_or_fail, slice_of, without, Table,
};
use crate::purge::{is_yes, Purge, PurgeOutcome, PurgePhase};
use crate::removal::{StagedPhase, StagedRemoval};
use crate::store::{Command, Reply};
use crate::strategy::{DELETE_BATCH_SIZE, INSERT_BATCH_SIZE};
use vstd::prelude::*;

verus! {

/// The end of a run in batches against the model: each pending command is
/// performed and its reply handed back, until the run is over.
pub open spec fn drive_batches(run: BatchRun, table: Table, values: Seq<Seq<char>>) -> (
    BatchRun,
    Table,
)
    decreases
            (if run.is_over() {
                0
            } else {
                run.count - run.cursor
            }),
    when run.wf()
{
    match run.spec_pending() {
        None => (run, table),
        Some(command) => {
            let (next, reply) = table.perform(command, values);
            drive_batches(run.spec_accept(reply), next, values)
        },
    }
}

/// From any point of a direct run on, the run comes to its end, and the
/// table then holds what inserting all the values one by one gives.
proof fn lemma_direct_from(
    run: BatchRun,
    table: Table,
    values: Seq<Seq<char>>,
    start: Seq<Seq<char>>,
)
    requires
        run.wf(),
        run.kind == BatchKind::Insert,
        run.halt is None,
        run.count == values.len(),
        table.keyed,
        table.rows == insert_new(start, values.take(run.cursor as int)),
        run.affected == table.rows.len() - start.len(),
    ensures
        ({
            let (end, after) = drive_batches(run, table, values);
            &&& end.halt is None
            &&& end.cursor == end.count
            &&& end.count == run.count
            &&& end.kind == run.kind
            &&& after == Table { rows: insert_new(start, values), ..table }
            &&& end.affected == after.rows.len() - start.len()
        }),
    decreases run.count - run.cursor,
{
    if run.cursor >= run.count {
        assert(values.take(run.cursor as int) =~= values);
    } else {
        let command = run.spec_pending()->0;
        let c = run.cursor;
        let e = run.batch_end();
        assert(command == Command::InsertBatch { start: c, end: e });
        let batch = values.subrange(c as int, e as int);
        assert(slice_of(values, c, e) == batch);
        let (next, reply) = table.perform(command, values);
        lemma_insert_new(table.rows, batch);
        lemma_insert_new_concat(start, values.take(c as int), batch);
        assert(values.take(c as int) + batch =~= values.take(e as int));
        lemma_insert_new(start, values.take(e as int));
        let moved = run.spec_accept(reply);
        assert(moved.cursor == e);
        lemma_direct_from(moved, next, values, start);
    }
}

/// A direct run against a sound table comes to its end, leaves the table
/// sound, and leaves in it what inserting the values one by one gives. The
/// rows that the run counted are the rows that the table gained.
pub proof fn lemma_direct_run(table: Table, values: Seq<Seq<char>>)
    requires
        table.sound(),
        values.len() <= usize::MAX,
    ensures
        ({
            let run = BatchRun::initial(
                BatchKind::Insert,
                values.len() as usize,
                INSERT_BATCH_SIZE,
            );
            let (end, after) = drive_batches(run, table, values);
            &&& end.halt is None
            &&& end.kind == BatchKind::Insert
            &&& end.count == values.len()
            &&& end.cursor == end.count
            &&& after == Table { rows: insert_new(table.rows, values), ..table }
            &&& after.sound()
            &&& end.affected == after.rows.len() - table.rows.len()
        }),
{
    let run = BatchRun::initial(BatchKind::Insert, values.len() as usize, INSERT_BATCH_SIZE);
    assert(values.take(0) =~= Seq::<Seq<char>>::empty());
    lemma_direct_from(run, table, values, table.rows);
    lemma_insert_new(table.rows, values);
}

/// The end of a bulk load against the model: each pending command is
/// performed and its reply handed back, until the run is over.
pub open spec fn drive_bulk(run: BulkLoad, table: Table, values: Seq<Seq<char>>) -> (
    BulkLoad,
    Table,
)
    decreases
            (if run.halt is Some {
                0int
            } else {
                1int
            }),
            11 - phase_rank(run.phase),
            run.count - run.cursor,
    when run.wf()
{
    match run.spec_pending() {
        None => (run, table),
        Some(command) => {
            let (next, reply) = table.perform(command, values);
            drive_bulk(run.spec_accept(reply), next, values)
        },
    }
}

/// One step of a bulk load against the model.
pub open spec fn bulk_step(run: BulkLoad, table: Table, values: Seq<Seq<char>>) -> (
    BulkLoad,
    Table,
) {
    match run.spec_pending() {
        None => (run, table),
        Some(command) => {
            let (next, reply) = table.perform(command, values);
            (run.spec_accept(reply), next)
        },
    }
}

/// The end of a run is the end of the run after one step.
proof fn lemma_drive_bulk_step(run: BulkLoad, table: Table, values: Seq<Seq<char>>)
    requires
        run.wf(),
    ensures
        drive_bulk(run, table, values) == drive_bulk(
            bulk_step(run, table, values).0,
            bulk_step(run, table, values).1,
            values,
        ),
        bulk_step(run, table, values).0.wf(),
{
    let (next_run, next_table) = bulk_step(run, table, values);
    if run.spec_pending() is None {
        assert(next_run.spec_pending() is None);
    } else {
        let command = run.spec_pending()->0;
        lemma_bulk_order(run, table.perform(command, values).1);
    }
}

/// While the candidates are streamed in, the table holds the rows that
/// were there and the candidates streamed so far, and the run goes on to
/// the deduplication.
proof fn lemma_load_from(
    run: BulkLoad,
    table: Table,
    values: Seq<Seq<char>>,
    start: Seq<Seq<char>>,
)
    requires
        run.wf(),
        run.halt is None,
        run.phase == BulkPhase::Load || (run.phase == BulkPhase::Deduplicate),
        run.count == values.len(),
        !table.keyed,
        table.rows == start + values.take(run.cursor as int),
    ensures
        ({
            let done = BulkLoad { phase: BulkPhase::Deduplicate, cursor: run.count, ..run };
            let loaded = Table { rows: start + values, ..table };
            drive_bulk(run, table, values) == drive_bulk(done, loaded, values)
        }),
    decreases run.count - run.cursor,
{
    if run.phase == BulkPhase::Deduplicate {
        assert(values.take(run.cursor as int) =~= values);
    } else {
        let c = run.cursor;
        let e = run.chunk_end();
        let (next_run, next_table) = bulk_step(run, table, values);
        lemma_drive_bulk_step(run, table, values);
        assert(slice_of(values, c, e) == values.subrange(c as int, e as int));
        assert(start + values.take(c as int) + values.subrange(c as int, e as int) =~= start
            + values.take(e as int));
        lemma_load_from(next_run, next_table, values, start);
    }
}

/// The steps before the load: the rows are counted, the constraint and
/// the index are dropped, and the session is relaxed.
proof fn lemma_bulk_opening(table: Table, values: Seq<Seq<char>>)
    requires
        table.sound(),
        values.len() <= usize::MAX,
        table.rows.len() <= i64::MAX,
    ensures
        ({
            let run = BulkLoad::initial(values.len() as usize);
            let ready = BulkLoad {
                phase: load_or_deduplicate(0, run.count),
                baseline: table.rows.len() as i64,
                ..run
            };
            let open = Table { keyed: false, indexed: false, ..table };
            drive_bulk(run, table, values) == drive_bulk(ready, open, values)
        }),
{
    let r0 = BulkLoad::initial(values.len() as usize);
    let r1 = BulkLoad { phase: BulkPhase::DropKey, baseline: table.rows.len() as i64, ..r0 };
    let r2 = BulkLoad { phase: BulkPhase::DropIndex, ..r1 };
    let r3 = BulkLoad { phase: BulkPhase::RelaxCommit, ..r1 };
    let r4 = BulkLoad { phase: BulkPhase::RaiseWorkMem, ..r1 };
    let r5 = BulkLoad { phase: BulkPhase::RaiseMaintenanceMem, ..r1 };
    let t2 = Table { keyed: false, ..table };
    let t3 = Table { keyed: false, indexed: false, ..table };
    lemma_drive_bulk_step(r0, table, values);
    assert(bulk_step(r0, table, values) == (r1, table));
    lemma_drive_bulk_step(r1, table, values);
    assert(bulk_step(r1, table, values) == (r2, t2));
    lemma_drive_bulk_step(r2, t2, values);
    assert(bulk_step(r2, t2, values) == (r3, t3));
    lemma_drive_bulk_step(r3, t3, values);
    assert(bulk_step(r3, t3, values) == (r4, t3));
    lemma_drive_bulk_step(r4, t3, values);
    assert(bulk_step(r4, t3, values) == (r5, t3));
    lemma_drive_bulk_step(r5, t3, values);
}

/// The steps after the load: the duplicates are deleted, the constraint and
/// the index are built again, and the rows are counted.
proof fn lemma_bulk_closing(run: BulkLoad, table: Table, values: Seq<Seq<char>>)
    requires
        run.wf(),
        run.halt is None,
        run.phase == BulkPhase::Deduplicate,
        !table.keyed,
        !table.indexed,
        deduplicated(table.rows).len() <= i64::MAX,
    ensures
        ({
            let end = BulkLoad {
                phase: BulkPhase::Finished,
                final_count: deduplicated(table.rows).len() as i64,
                ..run
            };
            let closed = Table {
                rows: deduplicated(table.rows),
                keyed: true,
                indexed: true,
                ..table
            };
            drive_bulk(run, table, values) == (end, closed)
        }),
{
    lemma_deduplicated(table.rows);
    let r1 = BulkLoad { phase: BulkPhase::AddKey, ..run };
    let r2 = BulkLoad { phase: BulkPhase::CreateIndex, ..run };
    let r3 = BulkLoad { phase: BulkPhase::FinalCount, ..run };
    let r4 = BulkLoad {
        phase: BulkPhase::Finished,
        final_count: deduplicated(table.rows).len() as i64,
        ..run
    };
    let t1 = Table { rows: deduplicated(table.rows), ..table };
    let t2 = Table { keyed: true, ..t1 };
    let t3 = Table { indexed: true, ..t2 };
    lemma_drive_bulk_step(run, table, values);
    assert(bulk_step(run, table, values) == (r1, t1));
    lemma_drive_bulk_step(r1, t1, values);
    assert(bulk_step(r1, t1, values) == (r2, t2));
    lemma_drive_bulk_step(r2, t2, values);
    assert(bulk_step(r2, t2, values) == (r3, t3));
    lemma_drive_bulk_step(r3, t3, values);
    assert(bulk_step(r3, t3, values) == (r4, t3));
    assert(drive_bulk(r4, t3, values) == (r4, t3));
}

/// A bulk load against a sound table comes to its end and leaves the table
/// sound, with the values that were there and the candidates in it, each
/// once: as many rows as inserting the values one by one gives. The row
/// counts that the run took are those of the table before and after.
pub proof fn lemma_bulk_run(table: Table, values: Seq<Seq<char>>)
    requires
        table.sound(),
        values.len() <= usize::MAX,
        table.rows.len() + values.len() <= i64::MAX,
    ensures
        ({
            let (end, after) = drive_bulk(BulkLoad::initial(values.len() as usize), table, values);
            &&& end.halt is None
            &&& end.phase == BulkPhase::Finished
            &&& end.count == values.len()
            &&& after == Table { rows: deduplicated(table.rows + values), ..table }
            &&& after.sound()
            &&& forall|v: Seq<char>| #[trigger]
                after.rows.contains(v) <==> table.rows.contains(v) || values.contains(v)
            &&& after.rows.len() == insert_new(table.rows, values).len()
            &&& end.baseline == table.rows.len()
            &&& end.final_count == after.rows.len()
        }),
{
    let count = values.len() as usize;
    let run = BulkLoad::initial(count);
    lemma_insert_new(table.rows, values);
    lemma_deduplicated_after_append(table.rows, values);
    lemma_bulk_opening(table, values);
    let ready = BulkLoad {
        phase: load_or_deduplicate(0, count),
        baseline: table.rows.len() as i64,
        ..run
    };
    let open = Table { keyed: false, indexed: false, ..table };
    assert(table.rows + values.take(0) =~= table.rows);
    lemma_load_from(ready, open, values, table.rows);
    let loaded_run = BulkLoad { phase: BulkPhase::Deduplicate, cursor: count, ..ready };
    let loaded = Table { rows: table.rows + values, ..open };
    lemma_bulk_closing(loaded_run, loaded, values);
}

/// The end of a staged removal against the model.
pub open spec fn drive_staged(run: StagedRemoval, table: Table, values: Seq<Seq<char>>) -> (
    StagedRemoval,
    Table,
)
    decreases
            (if run.halt is Some {
                0int
            } else {
                1int
            }),
            (match run.phase {
                StagedPhase::CreateStaging => 3int,
                StagedPhase::Fill => 2int,
                StagedPhase::Delete => 1int,
                StagedPhase::Finished => 0int,
            }),
{
    match run.spec_pending() {
        None => (run, table),
        Some(command) => {
            let (next, reply) = table.perform(command, values);
            drive_staged(run.spec_accept(reply), next, values)
        },
    }
}

/// A staged removal against a sound table comes to its end and leaves in
/// the table the rows that equal none of the values, and no others. The
/// number that the run reports is the number of rows that went.
pub proof fn lemma_staged_run(table: Table, values: Seq<Seq<char>>)
    requires
        table.sound(),
        values.len() <= usize::MAX,
        table.rows.len() <= u64::MAX,
    ensures
        ({
            let (end, after) = drive_staged(
                StagedRemoval::initial(values.len() as usize),
                table,
                values,
            );
            &&& end.halt is None
            &&& end.phase == StagedPhase::Finished
            &&& after.rows == without(table.rows, values)
            &&& after.keyed && after.indexed && after.rows.no_duplicates()
            &&& forall|v: Seq<char>|
                after.rows.contains(v) <==> table.rows.contains(v) && !values.contains(v)
            &&& end.removed == table.rows.len() - after.rows.len()
        }),
{
    reveal_with_fuel(drive_staged, 4);
    lemma_without(table.rows, values);
    assert(Seq::<Seq<char>>::empty() + values =~= values);
}

/// From any point of a deletion in batches on, the run comes to its end,
/// and the table then holds the rows that equal none of the values.
proof fn lemma_delete_from(
    run: BatchRun,
    table: Table,
    values: Seq<Seq<char>>,
    start: Seq<Seq<char>>,
)
    requires
        run.wf(),
        run.kind == BatchKind::Delete,
        run.halt is None,
        run.count == values.len(),
        start.no_duplicates(),
        start.len() <= u64::MAX,
        table.rows == without(start, values.take(run.cursor as int)),
        run.affected == start.len() - table.rows.len(),
    ensures
        ({
            let (end, after) = drive_batches(run, table, values);
            &&& end.halt is None
            &&& end.cursor == end.count
            &&& after == Table { rows: without(start, values), ..table }
            &&& end.affected == start.len() - after.rows.len()
        }),
    decreases run.count - run.cursor,
{
    if run.cursor >= run.count {
        assert(values.take(run.cursor as int) =~= values);
    } else {
        let command = run.spec_pending()->0;
        let c = run.cursor;
        let e = run.batch_end();
        assert(command == Command::DeleteBatch { start: c, end: e });
        let batch = values.subrange(c as int, e as int);
        assert(slice_of(values, c, e) == batch);
        let (next, reply) = table.perform(command, values);
        lemma_without(start, values.take(c as int));
        lemma_without(table.rows, batch);
        lemma_without_count(table.rows, batch);
        lemma_without_concat(start, values.take(c as int), batch);
        assert(values.take(c as int) + batch =~= values.take(e as int));
        lemma_without_count(start, values.take(e as int));
        let moved = run.spec_accept(reply);
        assert(moved.cursor == e);
        lemma_delete_from(moved, next, values, start);
    }
}

/// A deletion in batches against a sound table comes to its end and leaves
/// in the table the rows that equal none of the values, and no others. The
/// rows that the run counted are the rows that went.
pub proof fn lemma_delete_run(table: Table, values: Seq<Seq<char>>)
    requires
        table.sound(),
        values.len() <= usize::MAX,
        table.rows.len() <= u64::MAX,
    ensures
        ({
            let run = BatchRun::initial(
                BatchKind::Delete,
                values.len() as usize,
                DELETE_BATCH_SIZE,
            );
            let (end, after) = drive_batches(run, table, values);
            &&& end.halt is None
            &&& end.cursor == end.count
            &&& after == Table { rows: without(table.rows, values), ..table }
            &&& after.sound()
            &&& forall|v: Seq<char>|
                after.rows.contains(v) <==> table.rows.contains(v) && !values.contains(v)
            &&& end.affected == table.rows.len() - after.rows.len()
        }),
{
    let run = BatchRun::initial(BatchKind::Delete, values.len() as usize, DELETE_BATCH_SIZE);
    assert(values.take(0) =~= Seq::<Seq<char>>::empty());
    lemma_without(table.rows, values.take(0));
    lemma_delete_from(run, table, values, table.rows);
    lemma_without(table.rows, values);
}

/// How a direct run and the table belong together at every point of the
/// run: the table holds what the batches so far have inserted, and the run
/// has counted the rows that the table has gained.
pub open spec fn direct_consistent(
    run: BatchRun,
    table: Table,
    start: Table,
    values: Seq<Seq<char>>,
) -> bool {
    &&& run.wf()
    &&& run.kind == BatchKind::Insert
    &&& run.count == values.len()
    &&& table == Table { rows: insert_new(start.rows, values.take(run.cursor as int)), ..start }
    &&& run.affected == table.rows.len() - start.rows.len()
}

/// A direct run starts consistent with a sound table, and stays consistent
/// with it after every command, whether the store performs the command or
/// fails. A command that the store performs never stops the run.
pub proof fn lemma_direct_consistent(
    run: BatchRun,
    table: Table,
    start: Table,
    values: Seq<Seq<char>>,
    fails: bool,
)
    requires
        start.sound(),
        values.len() <= usize::MAX,
        direct_consistent(run, table, start, values),
        run.spec_pending() is Some,
    ensures
        direct_consistent(
            BatchRun::initial(BatchKind::Insert, values.len() as usize, INSERT_BATCH_SIZE),
            start,
            start,
            values,
        ),
        ({
            let (next, reply) = perform_or_fail(table, run.spec_pending()->0, values, fails);
            &&& direct_consistent(run.spec_accept(reply), next, start, values)
            &&& !fails ==> run.spec_accept(reply).halt is None
        }),
{
    assert(values.take(0) =~= Seq::<Seq<char>>::empty());
    if !fails {
        let c = run.cursor;
        let e = run.batch_end();
        let batch = values.subrange(c as int, e as int);
        assert(slice_of(values, c, e) == batch);
        lemma_insert_new(table.rows, batch);
        lemma_insert_new_concat(start.rows, values.take(c as int), batch);
        assert(values.take(c as int) + batch =~= values.take(e as int));
        lemma_insert_new(start.rows, values.take(e as int));
    }
}

/// What a direct run says of the table is true of it: unchanged means that
/// the table is as it was, partly done that it holds what the batches sent
/// so far have inserted, complete that it holds all the values.
pub proof fn lemma_direct_condition(
    run: BatchRun,
    table: Table,
    start: Table,
    values: Seq<Seq<char>>,
)
    requires
        start.sound(),
        direct_consistent(run, table, start, values),
    ensures
        table.sound(),
        match run.spec_condition() {
            BatchCondition::Unchanged => table == start,
            BatchCondition::PartlyDone => table.rows == insert_new(
                start.rows,
                values.take(run.cursor as int),
            ),
            BatchCondition::Complete => table.rows == insert_new(start.rows, values),
        },
{
    lemma_insert_new(start.rows, values.take(run.cursor as int));
    if run.cursor == 0 {
        assert(values.take(0) =~= Seq::<Seq<char>>::empty());
    }
    if run.cursor >= run.count {
        assert(values.take(run.cursor as int) =~= values);
    }
}

/// How a bulk load and the table belong together at every point of the
/// run.
pub open spec fn bulk_consistent(
    run: BulkLoad,
    table: Table,
    start: Table,
    values: Seq<Seq<char>>,
) -> bool {
    let streamed = start.rows + values.take(run.cursor as int);
    let merged = deduplicated(start.rows + values);
    &&& run.wf()
    &&& run.count == values.len()
    &&& run.phase != BulkPhase::Baseline ==> run.baseline == start.rows.len()
    &&& run.phase == BulkPhase::Finished ==> run.final_count == merged.len()
    &&& table == match run.phase {
        BulkPhase::Baseline | BulkPhase::DropKey => start,
        BulkPhase::DropIndex => Table { keyed: false, ..start },
        BulkPhase::RelaxCommit
        | BulkPhase::RaiseWorkMem
        | BulkPhase::RaiseMaintenanceMem
        | BulkPhase::Load
        | BulkPhase::Deduplicate => Table { rows: streamed, keyed: false, indexed: false, ..start },
        BulkPhase::AddKey => Table { rows: merged, keyed: false, indexed: false, ..start },
        BulkPhase::CreateIndex => Table { rows: merged, indexed: false, ..start },
        BulkPhase::FinalCount | BulkPhase::Finished => Table { rows: merged, ..start },
    }
}

/// A bulk load starts consistent with a sound table, and stays consistent
/// with it after every command, whether the store performs the command or
/// fails. A command that the store performs never stops the run.
pub proof fn lemma_bulk_consistent(
    run: BulkLoad,
    table: Table,
    start: Table,
    values: Seq<Seq<char>>,
    fails: bool,
)
    requires
        start.sound(),
        values.len() <= usize::MAX,
        start.rows.len() + values.len() <= i64::MAX,
        bulk_consistent(run, table, start, values),
        run.spec_pending() is Some,
    ensures
        bulk_consistent(BulkLoad::initial(values.len() as usize), start, start, values),
        ({
            let (next, reply) = perform_or_fail(table, run.spec_pending()->0, values, fails);
            &&& bulk_consistent(run.spec_accept(reply), next, start, values)
            &&& !fails ==> run.spec_accept(reply).halt is None
        }),
{
    lemma_insert_new(start.rows, values);
    lemma_deduplicated_after_append(start.rows, values);
    assert(start.rows + values.take(0) =~= start.rows);
    assert(values.take(values.len() as int) =~= values);
    if !fails && run.phase == BulkPhase::Load {
        let c = run.cursor;
        let e = run.chunk_end();
        assert(slice_of(values, c, e) == values.subrange(c as int, e as int));
        assert(start.rows + values.take(c as int) + values.subrange(c as int, e as int)
            =~= start.rows + values.take(e as int));
    }
}

/// What a bulk load says of the table is true of it: unchanged means that
/// the table is as it was; degraded that the constraint or the index is
/// missing; rebuilt that the table is sound again and holds the values that
/// were there and the candidates, each once.
pub proof fn lemma_bulk_condition(
    run: BulkLoad,
    table: Table,
    start: Table,
    values: Seq<Seq<char>>,
)
    requires
        start.sound(),
        bulk_consistent(run, table, start, values),
    ensures
        match run.spec_condition() {
            TableCondition::Unchanged => table == start,
            TableCondition::Degraded => !table.keyed || !table.indexed,
            TableCondition::Rebuilt => table.sound() && forall|v: Seq<char>| #[trigger]
                table.rows.contains(v) <==> start.rows.contains(v) || values.contains(v),
        },
{
    lemma_deduplicated_after_append(start.rows, values);
}

/// A filtered removal against a sound table: the rows are read, those that
/// pass the filter are deleted in batches, and what is left are the rows
/// that do not pass the filter, and no others.
pub proof fn lemma_filtered_removal(table: Table, filter: FilterView)
    requires
        table.sound(),
        table.rows.len() <= usize::MAX,
    ensures
        ({
            let matches = passing(filter, table.rows);
            let run = BatchRun::initial(
                BatchKind::Delete,
                matches.len() as usize,
                DELETE_BATCH_SIZE,
            );
            let (end, after) = drive_batches(run, table, matches);
            &&& matches.len() <= table.rows.len()
            &&& end.halt is None
            &&& end.cursor == end.count
            &&& after.sound()
            &&& forall|v: Seq<char>|
                after.rows.contains(v) <==> table.rows.contains(v) && !passes(filter, v)
            &&& end.affected == table.rows.len() - after.rows.len()
        }),
{
    let matches = passing(filter, table.rows);
    table.rows.lemma_filter_len(|row: Seq<char>| passes(filter, row));
    lemma_delete_run(table, matches);
    let after = without(table.rows, matches);
    assert forall|v: Seq<char>| after.contains(v) <==> table.rows.contains(v) && !passes(
        filter,
        v,
    ) by {
        lemma_filter_correct(filter, table.rows, v);
    }
}

/// The end of a purge against the model: the answer is given where the run
/// waits for one, then each pending command is performed.
pub open spec fn drive_purge(run: Purge, table: Table, answer: Seq<char>) -> (Purge, Table)
    decreases
            (if run.halt is Some {
                0int
            } else {
                1int
            }),
            (match run.phase {
                PurgePhase::Confirm => 3int,
                PurgePhase::Probe => 2int,
                PurgePhase::Truncate => 1int,
                PurgePhase::Finished => 0int,
            }),
{
    if run.awaits_answer() {
        drive_purge(run.spec_answer(answer), table, answer)
    } else {
        match run.spec_pending() {
            None => (run, table),
            Some(command) => {
                let (next, reply) = table.perform(command, Seq::empty());
                drive_purge(run.spec_accept(reply), next, answer)
            },
        }
    }
}

/// A purge that was not confirmed and got no yes leaves the table as it
/// was and ends cancelled. Any other purge leaves the table empty, and says
/// whether there was anything to delete.
pub proof fn lemma_purge_run(table: Table, confirmed: bool, answer: Seq<char>)
    ensures
        ({
            let (end, after) = drive_purge(Purge::initial(confirmed), table, answer);
            &&& end.halt is None
            &&& end.spec_pending() is None
            &&& if !confirmed && !is_yes(answer) {
                after == table && end.outcome == Some(PurgeOutcome::Cancelled)
            } else if table.rows.len() == 0 {
                after == table && end.outcome == Some(PurgeOutcome::NothingToDelete)
            } else {
                after == Table { rows: Seq::empty(), ..table } && end.outcome == Some(
                    PurgeOutcome::Deleted,
                )
            }
        }),
{
    reveal_with_fuel(drive_purge, 5);
}

} // verus!
