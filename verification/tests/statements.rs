use bountycatch::store::{schema_commands, Command};
use bountycatch::text::{join_lines, push_decimal};

#[test]
fn the_fixed_statements() {
    assert_eq!(
        Command::CreateTable.sql(),
        "CREATE TABLE IF NOT EXISTS domains (domain TEXT PRIMARY KEY)"
    );
    assert_eq!(
        Command::EnsureIndex.sql(),
        "CREATE INDEX IF NOT EXISTS idx_domains_domain ON domains (domain text_pattern_ops)"
    );
    assert_eq!(Command::CountRows.sql(), "SELECT COUNT(*) FROM domains");
    assert_eq!(Command::HasRows.sql(), "SELECT EXISTS(SELECT 1 FROM domains LIMIT 1)");
    assert_eq!(
        Command::DropKey.sql(),
        "ALTER TABLE domains DROP CONSTRAINT IF EXISTS domains_pkey CASCADE"
    );
    assert_eq!(Command::DropIndex.sql(), "DROP INDEX IF EXISTS idx_domains_domain");
    assert_eq!(Command::RelaxCommit.sql(), "SET LOCAL synchronous_commit = OFF");
    assert_eq!(Command::RaiseWorkMem.sql(), "SET LOCAL work_mem = '256MB'");
    assert_eq!(Command::RaiseMaintenanceMem.sql(), "SET LOCAL maintenance_work_mem = '512MB'");
    assert_eq!(
        Command::CopyIn { start: 0, end: 9 }.sql(),
        "COPY domains (domain) FROM STDIN WITH (FORMAT text)"
    );
    assert_eq!(
        Command::Deduplicate.sql(),
        "DELETE FROM domains a USING domains b WHERE a.ctid < b.ctid AND a.domain = b.domain"
    );
    assert_eq!(Command::AddKey.sql(), "ALTER TABLE domains ADD PRIMARY KEY (domain)");
    assert_eq!(
        Command::CreateIndex.sql(),
        "CREATE INDEX idx_domains_domain ON domains (domain text_pattern_ops)"
    );
    assert_eq!(Command::DeleteValue.sql(), "DELETE FROM domains WHERE domain = $1");
    assert_eq!(Command::CreateStaging.sql(), "CREATE TEMP TABLE temp_remove (domain TEXT)");
    assert_eq!(
        Command::CopyStaging.sql(),
        "COPY temp_remove (domain) FROM STDIN BINARY"
    );
    assert_eq!(
        Command::DeleteStaged.sql(),
        "DELETE FROM domains WHERE domain IN (SELECT domain FROM temp_remove)"
    );
    assert_eq!(Command::SelectAll.sql(), "SELECT domain FROM domains");
    assert_eq!(Command::SelectSorted.sql(), "SELECT domain FROM domains ORDER BY domain");
    assert_eq!(Command::CopyOut.sql(), "COPY domains (domain) TO STDOUT");
    assert_eq!(Command::Truncate.sql(), "TRUNCATE TABLE domains");
}

#[test]
fn the_insert_statement_has_one_placeholder_per_value() {
    assert_eq!(
        Command::InsertBatch { start: 0, end: 1 }.sql(),
        "INSERT INTO domains (domain) VALUES ($1) ON CONFLICT DO NOTHING"
    );
    assert_eq!(
        Command::InsertBatch { start: 10, end: 13 }.sql(),
        "INSERT INTO domains (domain) VALUES ($1), ($2), ($3) ON CONFLICT DO NOTHING"
    );
    assert_eq!(
        Command::InsertBatch { start: 0, end: 12 }.sql(),
        "INSERT INTO domains (domain) VALUES ($1), ($2), ($3), ($4), ($5), ($6), ($7), ($8), ($9), ($10), ($11), ($12) ON CONFLICT DO NOTHING"
    );
    let big = Command::InsertBatch { start: 0, end: 10_000 }.sql();
    assert!(big.ends_with(", ($9999), ($10000) ON CONFLICT DO NOTHING"));
    assert_eq!(big.matches('$').count(), 10_000);
}

#[test]
fn the_delete_statement_has_one_placeholder_per_value() {
    assert_eq!(
        Command::DeleteBatch { start: 0, end: 1 }.sql(),
        "DELETE FROM domains WHERE domain IN ($1)"
    );
    assert_eq!(
        Command::DeleteBatch { start: 5, end: 8 }.sql(),
        "DELETE FROM domains WHERE domain IN ($1, $2, $3)"
    );
    assert_eq!(
        Command::DeleteBatch { start: 0, end: 11 }.sql(),
        "DELETE FROM domains WHERE domain IN ($1, $2, $3, $4, $5, $6, $7, $8, $9, $10, $11)"
    );
}

#[test]
fn the_number_of_values_of_a_command() {
    assert_eq!(Command::InsertBatch { start: 3, end: 10 }.values(), 7);
    assert_eq!(Command::DeleteBatch { start: 0, end: 2 }.values(), 2);
    assert_eq!(Command::CopyIn { start: 4, end: 4 }.values(), 0);
    assert_eq!(Command::CopyIn { start: 9, end: 4 }.values(), 0);
    assert_eq!(Command::InsertBatch { start: 9, end: 4 }.values(), 0);
    assert_eq!(Command::CountRows.values(), 0);
    assert_eq!(Command::CopyStaging.values(), 0);
    assert_eq!(
        Command::InsertBatch { start: 9, end: 4 }.sql(),
        "INSERT INTO domains (domain) VALUES  ON CONFLICT DO NOTHING"
    );
}

#[test]
fn the_schema_is_the_table_and_then_the_index() {
    assert_eq!(schema_commands(), vec![Command::CreateTable, Command::EnsureIndex]);
}

#[test]
fn numbers_are_written_in_decimal() {
    for (n, text) in [
        (0usize, "0"),
        (7, "7"),
        (10, "10"),
        (99, "99"),
        (100, "100"),
        (65_535, "65535"),
        (1_234_567_890, "1234567890"),
    ] {
        let mut out = String::from("$");
        push_decimal(&mut out, n);
        assert_eq!(out, format!("${}", text));
    }
    let mut out = String::new();
    push_decimal(&mut out, usize::MAX);
    assert_eq!(out, usize::MAX.to_string());
}

#[test]
fn rows_are_written_one_per_line() {
    let rows: Vec<String> = ["a.com", "b.com", "c.com"].iter().map(|s| s.to_string()).collect();
    assert_eq!(join_lines(&rows, 0, 3), "a.com\nb.com\nc.com\n");
    assert_eq!(join_lines(&rows, 1, 2), "b.com\n");
    assert_eq!(join_lines(&rows, 2, 2), "");
    assert_eq!(join_lines(&Vec::new(), 0, 0), "");
}
