use bountycatch::batches::{BatchCondition, BatchKind, BatchRun};
use bountycatch::bulk::{BulkLoad, BulkPhase, TableCondition};
use bountycatch::ingestion::Ingest;
use bountycatch::intake::collect;
use bountycatch::removal::{StagedPhase, StagedRemoval};
use bountycatch::report::{bulk_report, direct_report};
use bountycatch::store::{Command, Halt, Reply};
use bountycatch::strategy::{
    select_strategy, Strategy, BULK_THRESHOLD, COPY_CHUNK_SIZE, INSERT_BATCH_SIZE,
};
use bountycatch::text::join_lines;

/// A table in memory that answers commands the way the store does.
struct Table {
    rows: Vec<String>,
    keyed: bool,
    indexed: bool,
    staging: Option<Vec<String>>,
    log: Vec<Command>,
    fail_at: Option<usize>,
}

fn table(rows: &[&str]) -> Table {
    Table {
        rows: rows.iter().map(|s| s.to_string()).collect(),
        keyed: true,
        indexed: true,
        staging: None,
        log: Vec::new(),
        fail_at: None,
    }
}

fn strings(v: &[&str]) -> Vec<String> {
    v.iter().map(|s| s.to_string()).collect()
}

fn sorted(rows: &[String]) -> Vec<String> {
    let mut v = rows.to_vec();
    v.sort();
    v
}

fn has_duplicates(rows: &[String]) -> bool {
    let mut v = sorted(rows);
    let n = v.len();
    v.dedup();
    v.len() != n
}

impl Table {
    fn perform(&mut self, command: Command, values: &[String]) -> Reply {
        let at = self.log.len();
        self.log.push(command);
        if self.fail_at == Some(at) {
            return Reply::Failed;
        }
        match command {
            Command::CreateTable | Command::EnsureIndex => Reply::Done,
            Command::CountRows => Reply::Count(self.rows.len() as i64),
            Command::HasRows => Reply::Present(!self.rows.is_empty()),
            Command::DropKey => {
                self.keyed = false;
                Reply::Done
            }
            Command::DropIndex => {
                self.indexed = false;
                Reply::Done
            }
            Command::RelaxCommit | Command::RaiseWorkMem | Command::RaiseMaintenanceMem => {
                Reply::Done
            }
            Command::CopyIn { start, end } => {
                let mut next = self.rows.clone();
                next.extend_from_slice(&values[start..end]);
                if self.keyed && has_duplicates(&next) {
                    return Reply::Failed;
                }
                self.rows = next;
                Reply::Done
            }
            Command::Deduplicate => {
                let mut kept: Vec<String> = Vec::new();
                for row in self.rows.iter().rev() {
                    if !kept.contains(row) {
                        kept.push(row.clone());
                    }
                }
                kept.reverse();
                self.rows = kept;
                Reply::Done
            }
            Command::AddKey => {
                if self.keyed || has_duplicates(&self.rows) {
                    return Reply::Failed;
                }
                self.keyed = true;
                Reply::Done
            }
            Command::CreateIndex => {
                if self.indexed {
                    return Reply::Failed;
                }
                self.indexed = true;
                Reply::Done
            }
            Command::InsertBatch { start, end } => {
                let mut n = 0;
                for v in &values[start..end] {
                    if !self.keyed || !self.rows.contains(v) {
                        self.rows.push(v.clone());
                        n += 1;
                    }
                }
                Reply::Affected(n)
            }
            Command::DeleteValue => {
                let before = self.rows.len();
                self.rows.retain(|r| r != &values[0]);
                Reply::Affected((before - self.rows.len()) as u64)
            }
            Command::DeleteBatch { start, end } => {
                let before = self.rows.len();
                let gone = &values[start..end];
                self.rows.retain(|r| !gone.contains(r));
                Reply::Affected((before - self.rows.len()) as u64)
            }
            Command::CreateStaging => {
                if self.staging.is_some() {
                    return Reply::Failed;
                }
                self.staging = Some(Vec::new());
                Reply::Done
            }
            Command::CopyStaging => match &mut self.staging {
                Some(staged) => {
                    staged.extend_from_slice(values);
                    Reply::Done
                }
                None => Reply::Failed,
            },
            Command::DeleteStaged => match &self.staging {
                Some(staged) => {
                    let before = self.rows.len();
                    let staged = staged.clone();
                    self.rows.retain(|r| !staged.contains(r));
                    Reply::Affected((before - self.rows.len()) as u64)
                }
                None => Reply::Failed,
            },
            Command::SelectAll | Command::SelectSorted | Command::CopyOut => Reply::Done,
            Command::Truncate => {
                self.rows.clear();
                Reply::Done
            }
        }
    }
}

fn run_direct(table: &mut Table, values: &[String]) -> BatchRun {
    let mut run = BatchRun::inserting(values.len());
    while let Some(command) = run.pending() {
        let reply = table.perform(command, values);
        run.accept(reply);
    }
    run
}

fn run_bulk(table: &mut Table, values: &[String]) -> BulkLoad {
    let mut run = BulkLoad::new(values.len());
    while let Some(command) = run.pending() {
        let reply = table.perform(command, values);
        run.accept(reply);
    }
    run
}

fn run_staged(table: &mut Table, values: &[String]) -> StagedRemoval {
    let mut run = StagedRemoval::new(values.len());
    while let Some(command) = run.pending() {
        let reply = table.perform(command, values);
        run.accept(reply);
    }
    run
}

fn run_ingest(table: &mut Table, values: &[String]) -> Ingest {
    let mut run = Ingest::new(values.len());
    while let Some(command) = run.pending() {
        let reply = table.perform(command, values);
        run.accept(reply);
    }
    run
}

#[test]
fn three_lines_two_new_one_duplicate() {
    let intake = collect(&strings(&["a.com", "a.com", "b.com"]), true);
    assert_eq!(select_strategy(intake.valid()), Strategy::DirectInsert);
    let mut t = table(&[]);
    let run = run_ingest(&mut t, intake.candidates());
    assert_eq!(run.strategy(), Strategy::DirectInsert);
    assert_eq!(t.log, vec![Command::InsertBatch { start: 0, end: 3 }]);
    let report = run.report(&intake).unwrap();
    assert_eq!(report.total, 3);
    assert_eq!(report.valid, 3);
    assert_eq!(report.new_rows, 2);
    assert_eq!(report.duplicates, 1);
    assert_eq!(report.invalid, 0);
    assert_eq!(sorted(&t.rows), strings(&["a.com", "b.com"]));
    match run {
        Ingest::Direct(direct) => assert_eq!(direct_report(&intake, &direct), Some(report)),
        Ingest::Bulk(_) => panic!("three candidates do not take the bulk path"),
    }
}

#[test]
fn an_ingestion_takes_the_path_that_the_number_selects() {
    let small = Ingest::new(BULK_THRESHOLD - 1);
    assert_eq!(small.strategy(), Strategy::DirectInsert);
    assert_eq!(small, Ingest::Direct(BatchRun::inserting(BULK_THRESHOLD - 1)));
    assert_eq!(
        small.pending(),
        Some(Command::InsertBatch { start: 0, end: INSERT_BATCH_SIZE })
    );
    let large = Ingest::new(BULK_THRESHOLD);
    assert_eq!(large.strategy(), Strategy::BulkLoad);
    assert_eq!(large, Ingest::Bulk(BulkLoad::new(BULK_THRESHOLD)));
    assert_eq!(large.pending(), Some(Command::CountRows));
    let none = Ingest::new(0);
    assert_eq!(none.strategy(), Strategy::DirectInsert);
    assert_eq!(none.pending(), None);
    assert_eq!(none.halt(), None);
}

#[test]
fn an_ingestion_that_fails_says_so_and_gives_no_report() {
    let intake = collect(&strings(&["a.com", "b.com"]), true);
    let mut t = table(&["a.com"]);
    t.fail_at = Some(0);
    let run = run_ingest(&mut t, intake.candidates());
    assert_eq!(run.halt(), Some(Halt::StoreFailed));
    assert_eq!(run.pending(), None);
    assert_eq!(run.report(&intake), None);
    assert_eq!(t.rows, strings(&["a.com"]));
    let mut t = table(&["a.com"]);
    let run = run_ingest(&mut t, intake.candidates());
    assert_eq!(run.halt(), None);
    let other = collect(&strings(&["a.com"]), true);
    assert_eq!(run.report(&other), None);
    assert_eq!(run.report(&intake).unwrap().new_rows, 1);
}

#[test]
fn the_same_three_lines_by_bulk_load() {
    let intake = collect(&strings(&["a.com", "a.com", "b.com"]), true);
    let mut t = table(&[]);
    let run = run_bulk(&mut t, intake.candidates());
    let report = bulk_report(&intake, &run).unwrap();
    assert_eq!(report.total, 3);
    assert_eq!(report.new_rows, 2);
    assert_eq!(report.duplicates, 1);
    assert_eq!(report.invalid, 0);
    assert_eq!(sorted(&t.rows), strings(&["a.com", "b.com"]));
    assert!(t.keyed && t.indexed);
}

#[test]
fn staged_removal_leaves_the_other_rows() {
    let mut t = table(&["a.com", "b.com"]);
    let run = run_staged(&mut t, &strings(&["a.com", "c.com"]));
    assert!(run.is_finished());
    assert_eq!(run.removed, 1);
    assert_eq!(t.rows, strings(&["b.com"]));
    assert_eq!(
        t.log,
        vec![Command::CreateStaging, Command::CopyStaging, Command::DeleteStaged]
    );
}

#[test]
fn staged_removal_of_nothing_deletes_nothing() {
    let mut t = table(&["a.com", "b.com"]);
    let run = run_staged(&mut t, &[]);
    assert!(run.is_finished());
    assert_eq!(run.removed, 0);
    assert_eq!(t.log, vec![Command::CreateStaging]);
    assert_eq!(t.rows, strings(&["a.com", "b.com"]));
}

#[test]
fn staged_removal_stops_at_a_failure() {
    let mut t = table(&["a.com"]);
    t.fail_at = Some(1);
    let run = run_staged(&mut t, &strings(&["a.com"]));
    assert!(!run.is_finished());
    assert_eq!(run.halt, Some(Halt::StoreFailed));
    assert_eq!(run.phase, StagedPhase::Fill);
    assert_eq!(run.pending(), None);
    assert_eq!(t.rows, strings(&["a.com"]));
    let mut odd = StagedRemoval::new(2);
    odd.accept(Reply::Affected(1));
    assert_eq!(odd.halt, Some(Halt::UnexpectedReply));
}

fn new_rows(table: &mut Table, values: &[String], bulk: bool) -> i64 {
    if bulk {
        let run = run_bulk(table, values);
        assert!(run.is_finished());
        run.final_count - run.baseline
    } else {
        let run = run_direct(table, values);
        assert!(run.is_complete());
        run.affected as i64
    }
}

#[test]
fn ingesting_twice_is_ingesting_once() {
    let input = strings(&["a.com", "b.com", "a.com", "c.com", "b.com"]);
    for first in [false, true] {
        for second in [false, true] {
            let mut t = table(&["z.com", "b.com"]);
            assert_eq!(new_rows(&mut t, &input, first), 2);
            let once = sorted(&t.rows);
            assert_eq!(once, strings(&["a.com", "b.com", "c.com", "z.com"]));
            assert_eq!(new_rows(&mut t, &input, second), 0);
            assert_eq!(sorted(&t.rows), once);
            assert_eq!(t.rows.len(), 4);
            assert!(t.keyed && t.indexed);
        }
    }
}

#[test]
fn both_paths_leave_the_same_table() {
    let input = strings(&["x.org", "a.com", "x.org", "b.com", "y.org", "a.com"]);
    let mut direct = table(&["a.com", "k.net"]);
    let mut bulk = table(&["a.com", "k.net"]);
    let d = run_direct(&mut direct, &input);
    let b = run_bulk(&mut bulk, &input);
    assert!(d.is_complete() && b.is_finished());
    assert_eq!(sorted(&direct.rows), sorted(&bulk.rows));
    assert_eq!(d.affected as i64, b.final_count - b.baseline);
    assert!(direct.keyed && direct.indexed && bulk.keyed && bulk.indexed);
    assert!(!has_duplicates(&bulk.rows));
}

#[test]
fn the_path_changes_at_the_threshold() {
    let mut input: Vec<String> = Vec::new();
    for i in 0..BULK_THRESHOLD {
        input.push(format!("h{}.example.com", i % 70_000));
    }
    let below = collect(&input[..BULK_THRESHOLD - 1].to_vec(), true);
    let at = collect(&input, true);
    assert_eq!(below.valid(), BULK_THRESHOLD - 1);
    assert_eq!(at.valid(), BULK_THRESHOLD);
    assert_eq!(select_strategy(below.valid()), Strategy::DirectInsert);
    assert_eq!(select_strategy(at.valid()), Strategy::BulkLoad);
    let run = BulkLoad::new(at.valid());
    assert_eq!(run.pending(), Some(Command::CountRows));
    let mut direct = BatchRun::inserting(below.valid());
    let mut batches = Vec::new();
    while let Some(command) = direct.pending() {
        batches.push(command);
        direct.accept(Reply::Affected(0));
    }
    assert_eq!(batches.len(), 10);
    assert_eq!(batches[0], Command::InsertBatch { start: 0, end: 10_000 });
    assert_eq!(batches[9], Command::InsertBatch { start: 90_000, end: 99_999 });
}

#[test]
fn export_and_ingest_again_gives_the_same_set() {
    let rows = strings(&["b.com", "*.a.org", "c-1.example.net"]);
    let text = join_lines(&rows, 0, rows.len());
    assert_eq!(text, "b.com\n*.a.org\nc-1.example.net\n");
    let lines: Vec<String> = text.lines().map(|l| l.to_string()).collect();
    let intake = collect(&lines, true);
    assert_eq!(intake.invalid(), 0);
    let mut direct = table(&[]);
    run_direct(&mut direct, intake.candidates());
    assert_eq!(sorted(&direct.rows), sorted(&rows));
    let mut bulk = table(&[]);
    run_bulk(&mut bulk, intake.candidates());
    assert_eq!(sorted(&bulk.rows), sorted(&rows));
}

#[test]
fn batches_lie_end_to_end() {
    let mut run = BatchRun::inserting(25_000);
    assert_eq!(run.size, INSERT_BATCH_SIZE);
    let mut seen = Vec::new();
    while let Some(command) = run.pending() {
        seen.push(command);
        run.accept(Reply::Affected(7));
    }
    assert_eq!(
        seen,
        vec![
            Command::InsertBatch { start: 0, end: 10_000 },
            Command::InsertBatch { start: 10_000, end: 20_000 },
            Command::InsertBatch { start: 20_000, end: 25_000 },
        ]
    );
    assert!(run.is_complete());
    assert_eq!(run.affected, 21);
    assert_eq!(run.condition(), BatchCondition::Complete);
}

#[test]
fn deleting_goes_in_batches_too() {
    let mut run = BatchRun::deleting(10_001);
    assert_eq!(run.kind, BatchKind::Delete);
    assert_eq!(run.pending(), Some(Command::DeleteBatch { start: 0, end: 10_000 }));
    run.accept(Reply::Affected(10_000));
    assert_eq!(run.pending(), Some(Command::DeleteBatch { start: 10_000, end: 10_001 }));
    run.accept(Reply::Affected(0));
    assert_eq!(run.pending(), None);
    assert!(run.is_complete());
    assert_eq!(run.affected, 10_000);
}

#[test]
fn a_run_of_nothing_is_over_at_once() {
    let run = BatchRun::inserting(0);
    assert_eq!(run.pending(), None);
    assert!(run.is_complete());
    assert_eq!(run.affected, 0);
}

#[test]
fn a_failed_batch_stops_the_run_and_keeps_what_was_done() {
    let mut run = BatchRun::inserting(25_000);
    assert_eq!(run.condition(), BatchCondition::Unchanged);
    run.accept(Reply::Affected(10_000));
    run.accept(Reply::Failed);
    assert_eq!(run.pending(), None);
    assert!(!run.is_complete());
    assert_eq!(run.halt, Some(Halt::StoreFailed));
    assert_eq!(run.cursor, 10_000);
    assert_eq!(run.affected, 10_000);
    assert_eq!(run.condition(), BatchCondition::PartlyDone);
    run.accept(Reply::Affected(5));
    assert_eq!(run.cursor, 10_000);
    assert_eq!(run.affected, 10_000);
    let mut first = BatchRun::inserting(5);
    first.accept(Reply::Failed);
    assert_eq!(first.condition(), BatchCondition::Unchanged);
}

#[test]
fn a_reply_that_cannot_be_stops_the_run() {
    let mut run = BatchRun::inserting(3);
    run.accept(Reply::Affected(4));
    assert_eq!(run.halt, Some(Halt::UnexpectedReply));
    assert_eq!(run.affected, 0);
    let mut run = BatchRun::inserting(3);
    run.accept(Reply::Done);
    assert_eq!(run.halt, Some(Halt::UnexpectedReply));
    let mut run = BatchRun::inserting(3);
    run.accept(Reply::Count(1));
    assert_eq!(run.halt, Some(Halt::UnexpectedReply));
    let intake = collect(&strings(&["a.com", "b.com", "c.com"]), true);
    assert_eq!(direct_report(&intake, &run), None);
}

fn bulk_commands(count: usize) -> Vec<Command> {
    let mut run = BulkLoad::new(count);
    let mut seen = Vec::new();
    while let Some(command) = run.pending() {
        seen.push(command);
        run.accept(match command {
            Command::CountRows => Reply::Count(5),
            _ => Reply::Done,
        });
    }
    assert!(run.is_finished());
    seen
}

#[test]
fn the_steps_of_a_bulk_load() {
    assert_eq!(
        bulk_commands(3),
        vec![
            Command::CountRows,
            Command::DropKey,
            Command::DropIndex,
            Command::RelaxCommit,
            Command::RaiseWorkMem,
            Command::RaiseMaintenanceMem,
            Command::CopyIn { start: 0, end: 3 },
            Command::Deduplicate,
            Command::AddKey,
            Command::CreateIndex,
            Command::CountRows,
        ]
    );
}

#[test]
fn a_bulk_load_of_nothing_streams_nothing() {
    let seen = bulk_commands(0);
    assert_eq!(seen.len(), 10);
    assert!(!seen.iter().any(|c| matches!(c, Command::CopyIn { .. })));
    assert_eq!(seen[5], Command::RaiseMaintenanceMem);
    assert_eq!(seen[6], Command::Deduplicate);
}

#[test]
fn a_bulk_load_streams_in_pieces() {
    let seen = bulk_commands(2 * COPY_CHUNK_SIZE + 1);
    let copies: Vec<Command> =
        seen.iter().copied().filter(|c| matches!(c, Command::CopyIn { .. })).collect();
    assert_eq!(
        copies,
        vec![
            Command::CopyIn { start: 0, end: 5_000_000 },
            Command::CopyIn { start: 5_000_000, end: 10_000_000 },
            Command::CopyIn { start: 10_000_000, end: 10_000_001 },
        ]
    );
    let exact = bulk_commands(COPY_CHUNK_SIZE);
    assert_eq!(exact[6], Command::CopyIn { start: 0, end: 5_000_000 });
    assert_eq!(exact[7], Command::Deduplicate);
}

#[test]
fn where_a_stopped_bulk_load_leaves_the_table() {
    let values = strings(&["a.com", "b.com"]);
    let expected = [
        (0, TableCondition::Unchanged, BulkPhase::Baseline),
        (1, TableCondition::Unchanged, BulkPhase::DropKey),
        (2, TableCondition::Degraded, BulkPhase::DropIndex),
        (3, TableCondition::Degraded, BulkPhase::RelaxCommit),
        (4, TableCondition::Degraded, BulkPhase::RaiseWorkMem),
        (5, TableCondition::Degraded, BulkPhase::RaiseMaintenanceMem),
        (6, TableCondition::Degraded, BulkPhase::Load),
        (7, TableCondition::Degraded, BulkPhase::Deduplicate),
        (8, TableCondition::Degraded, BulkPhase::AddKey),
        (9, TableCondition::Degraded, BulkPhase::CreateIndex),
        (10, TableCondition::Rebuilt, BulkPhase::FinalCount),
    ];
    for (at, condition, phase) in expected {
        let mut t = table(&["a.com"]);
        t.fail_at = Some(at);
        let run = run_bulk(&mut t, &values);
        assert_eq!(run.halt, Some(Halt::StoreFailed));
        assert_eq!(run.phase, phase);
        assert_eq!(run.condition(), condition);
        assert!(!run.is_finished());
        assert_eq!(t.log.len(), at + 1);
        match condition {
            TableCondition::Unchanged => {
                assert!(t.keyed && t.indexed);
                assert_eq!(t.rows, strings(&["a.com"]));
            }
            TableCondition::Degraded => assert!(!t.keyed || !t.indexed),
            TableCondition::Rebuilt => {
                assert!(t.keyed && t.indexed);
                assert_eq!(sorted(&t.rows), strings(&["a.com", "b.com"]));
            }
        }
        let intake = collect(&values, true);
        assert_eq!(bulk_report(&intake, &run), None);
    }
    let mut t = table(&["a.com"]);
    let run = run_bulk(&mut t, &values);
    assert_eq!(run.condition(), TableCondition::Rebuilt);
    assert!(run.is_finished());
}

#[test]
fn a_bulk_load_takes_only_the_replies_that_fit() {
    let mut run = BulkLoad::new(1);
    run.accept(Reply::Done);
    assert_eq!(run.halt, Some(Halt::UnexpectedReply));
    let mut run = BulkLoad::new(1);
    run.accept(Reply::Count(-1));
    assert_eq!(run.halt, Some(Halt::UnexpectedReply));
    let mut run = BulkLoad::new(1);
    run.accept(Reply::Count(4));
    assert_eq!(run.baseline, 4);
    assert_eq!(run.pending(), Some(Command::DropKey));
    run.accept(Reply::Affected(0));
    assert_eq!(run.halt, Some(Halt::UnexpectedReply));
    assert_eq!(run.pending(), None);
    run.accept(Reply::Done);
    assert_eq!(run.phase, BulkPhase::DropKey);
}

#[test]
fn the_report_of_a_bulk_load_comes_from_the_row_counts() {
    let intake = collect(&strings(&["a.com", "bad domain", "b.com", "c.com", ""]), true);
    let mut run = BulkLoad::new(intake.valid());
    let mut first = true;
    while let Some(command) = run.pending() {
        run.accept(match command {
            Command::CountRows => {
                let n = if first { 10 } else { 12 };
                first = false;
                Reply::Count(n)
            }
            _ => Reply::Done,
        });
    }
    let report = bulk_report(&intake, &run).unwrap();
    assert_eq!(report.total, 4);
    assert_eq!(report.invalid, 1);
    assert_eq!(report.valid, 3);
    assert_eq!(report.new_rows, 2);
    assert_eq!(report.duplicates, 1);
    let other = collect(&strings(&["a.com"]), true);
    assert_eq!(bulk_report(&other, &run), None);
}

#[test]
fn the_report_of_a_bulk_load_can_go_below_zero() {
    let intake = collect(&strings(&["a.com"]), true);
    let mut run = BulkLoad::new(1);
    let mut first = true;
    while let Some(command) = run.pending() {
        run.accept(match command {
            Command::CountRows => {
                let n = if first { 10 } else { 7 };
                first = false;
                Reply::Count(n)
            }
            _ => Reply::Done,
        });
    }
    let report = bulk_report(&intake, &run).unwrap();
    assert_eq!(report.new_rows, -3);
    assert_eq!(report.duplicates, 4);
    let mut run = BulkLoad::new(1);
    let mut first = true;
    while let Some(command) = run.pending() {
        run.accept(match command {
            Command::CountRows => {
                let n = if first { 0 } else { i64::MAX };
                first = false;
                Reply::Count(n)
            }
            _ => Reply::Done,
        });
    }
    let report = bulk_report(&intake, &run).unwrap();
    assert_eq!(report.new_rows, i64::MAX as i128);
    assert_eq!(report.duplicates, 1 - i64::MAX as i128);
}
