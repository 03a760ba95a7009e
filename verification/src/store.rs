//! What is said to the store and what it says back.
//!
//! An engine asks for one command at a time. The caller performs it and
//! hands the reply back. A command that sends values names them by their
//! positions in the list that the run is about.

use crate::text::{decimal, push_decimal};
use vstd::prelude::*;
use vstd::string::StringExecFns;

verus! {

/// One request to the store.
#[derive(Clone, Copy, PartialEq, Eq, Structural, Debug)]
pub enum Command {
    /// Create the table unless it is there.
    CreateTable,
    /// Create the pattern-matching index unless it is there.
    EnsureIndex,
    /// Count the rows. Answered by `Reply::Count`.
    CountRows,
    /// Ask whether there is any row. Answered by `Reply::Present`.
    HasRows,
    /// Drop the uniqueness constraint if it is there.
    DropKey,
    /// Drop the pattern-matching index if it is there.
    DropIndex,
    /// Relax durability for this session.
    RelaxCommit,
    /// Raise the working memory for this session.
    RaiseWorkMem,
    /// Raise the maintenance memory for this session.
    RaiseMaintenanceMem,
    /// Stream the values `start..end` into the table, as lines of text.
    CopyIn { start: usize, end: usize },
    /// Delete all but one of the rows of each value.
    Deduplicate,
    /// Make the column the primary key again.
    AddKey,
    /// Build the pattern-matching index again.
    CreateIndex,
    /// Insert the values `start..end`, passing over those already there.
    /// Answered by `Reply::Affected`.
    InsertBatch { start: usize, end: usize },
    /// Delete the row that equals one value. Answered by `Reply::Affected`.
    DeleteValue,
    /// Delete the rows that equal one of the values `start..end`. Answered
    /// by `Reply::Affected`.
    DeleteBatch { start: usize, end: usize },
    /// Create the staging table of this session.
    CreateStaging,
    /// Stream all the values into the staging table, in the binary format.
    CopyStaging,
    /// Delete the rows whose value is in the staging table. Answered by
    /// `Reply::Affected`.
    DeleteStaged,
    /// Read all rows.
    SelectAll,
    /// Read all rows in order.
    SelectSorted,
    /// Stream all rows out.
    CopyOut,
    /// Empty the table.
    Truncate,
}

/// What the store answered.
#[derive(Clone, Copy, PartialEq, Eq, Structural, Debug)]
pub enum Reply {
    /// The command was carried out; there is nothing to report.
    Done,
    /// The number of rows that a statement inserted or deleted.
    Affected(u64),
    /// A row count.
    Count(i64),
    /// Whether there is any row.
    Present(bool),
    /// The command failed.
    Failed,
}

/// Why a run stopped before its end.
#[derive(Clone, Copy, PartialEq, Eq, Structural, Debug)]
pub enum Halt {
    /// The store reported a failure.
    StoreFailed,
    /// The reply was not one that the command can have.
    UnexpectedReply,
}

/// The placeholder of the parameter with the given number, in parentheses
/// or bare.
pub open spec fn placeholder(number: nat, wrapped: bool) -> Seq<char> {
    if wrapped {
        "($"@ + decimal(number) + ")"@
    } else {
        "$"@ + decimal(number)
    }
}

/// The placeholders of the parameters 1 to `n`, separated by a comma and a
/// space.
pub open spec fn placeholders(n: nat, wrapped: bool) -> Seq<char>
    decreases n,
{
    if n == 0 {
        Seq::empty()
    } else if n == 1 {
        placeholder(1, wrapped)
    } else {
        placeholders((n - 1) as nat, wrapped) + ", "@ + placeholder(n, wrapped)
    }
}

/// How many values lie in `start..end`.
pub open spec fn span(start: usize, end: usize) -> nat {
    if start <= end {
        (end - start) as nat
    } else {
        0
    }
}

/// The statement of a command.
pub open spec fn sql_text(command: Command) -> Seq<char> {
    match command {
        Command::CreateTable => "CREATE TABLE IF NOT EXISTS domains (domain TEXT PRIMARY KEY)"@,
        Command::EnsureIndex =>
            "CREATE INDEX IF NOT EXISTS idx_domains_domain ON domains (domain text_pattern_ops)"@,
        Command::CountRows => "SELECT COUNT(*) FROM domains"@,
        Command::HasRows => "SELECT EXISTS(SELECT 1 FROM domains LIMIT 1)"@,
        Command::DropKey => "ALTER TABLE domains DROP CONSTRAINT IF EXISTS domains_pkey CASCADE"@,
        Command::DropIndex => "DROP INDEX IF EXISTS idx_domains_domain"@,
        Command::RelaxCommit => "SET LOCAL synchronous_commit = OFF"@,
        Command::RaiseWorkMem => "SET LOCAL work_mem = '256MB'"@,
        Command::RaiseMaintenanceMem => "SET LOCAL maintenance_work_mem = '512MB'"@,
        Command::CopyIn { .. } => "COPY domains (domain) FROM STDIN WITH (FORMAT text)"@,
        Command::Deduplicate =>
            "DELETE FROM domains a USING domains b WHERE a.ctid < b.ctid AND a.domain = b.domain"@,
        Command::AddKey => "ALTER TABLE domains ADD PRIMARY KEY (domain)"@,
        Command::CreateIndex =>
            "CREATE INDEX idx_domains_domain ON domains (domain text_pattern_ops)"@,
        Command::InsertBatch { start, end } => "INSERT INTO domains (domain) VALUES "@
            + placeholders(span(start, end), true) + " ON CONFLICT DO NOTHING"@,
        Command::DeleteValue => "DELETE FROM domains WHERE domain = $1"@,
        Command::DeleteBatch { start, end } => "DELETE FROM domains WHERE domain IN ("@
            + placeholders(span(start, end), false) + ")"@,
        Command::CreateStaging => "CREATE TEMP TABLE temp_remove (domain TEXT)"@,
        Command::CopyStaging => "COPY temp_remove (domain) FROM STDIN BINARY"@,
        Command::DeleteStaged =>
            "DELETE FROM domains WHERE domain IN (SELECT domain FROM temp_remove)"@,
        Command::SelectAll => "SELECT domain FROM domains"@,
        Command::SelectSorted => "SELECT domain FROM domains ORDER BY domain"@,
        Command::CopyOut => "COPY domains (domain) TO STDOUT"@,
        Command::Truncate => "TRUNCATE TABLE domains"@,
    }
}

/// Appends the placeholders of the parameters 1 to `n` to `out`.
fn push_placeholders(out: &mut String, n: usize, wrapped: bool)
    ensures
        final(out)@ == old(out)@ + placeholders(n as nat, wrapped),
{
    let mut i: usize = 0;
    assert(out@ =~= old(out)@ + placeholders(0, wrapped));
    while i < n
        invariant
            i <= n,
            out@ == old(out)@ + placeholders(i as nat, wrapped),
        decreases n - i,
    {
        if i > 0 {
            out.append(", ");
        }
        if wrapped {
            out.append("($");
            push_decimal(out, i + 1);
            out.append(")");
        } else {
            out.append("$");
            push_decimal(out, i + 1);
        }
        i += 1;
        assert(out@ =~= old(out)@ + placeholders(i as nat, wrapped));
    }
}

impl Command {
    /// The number of values that the command sends by position.
    pub fn values(&self) -> (n: usize)
        ensures
            n == match *self {
                Command::CopyIn { start, end } => span(start, end),
                Command::InsertBatch { start, end } => span(start, end),
                Command::DeleteBatch { start, end } => span(start, end),
                _ => 0,
            },
    {
        match *self {
            Command::CopyIn { start, end } => if start <= end {
                end - start
            } else {
                0
            },
            Command::InsertBatch { start, end } => if start <= end {
                end - start
            } else {
                0
            },
            Command::DeleteBatch { start, end } => if start <= end {
                end - start
            } else {
                0
            },
            _ => 0,
        }
    }

    /// The statement of the command.
    pub fn sql(&self) -> (text: String)
        ensures
            text@ == sql_text(*self),
    {
        match *self {
            Command::CreateTable => String::from_str(
                "CREATE TABLE IF NOT EXISTS domains (domain TEXT PRIMARY KEY)",
            ),
            Command::EnsureIndex => String::from_str(
                "CREATE INDEX IF NOT EXISTS idx_domains_domain ON domains (domain text_pattern_ops)",
            ),
            Command::CountRows => String::from_str("SELECT COUNT(*) FROM domains"),
            Command::HasRows => String::from_str("SELECT EXISTS(SELECT 1 FROM domains LIMIT 1)"),
            Command::DropKey => String::from_str(
                "ALTER TABLE domains DROP CONSTRAINT IF EXISTS domains_pkey CASCADE",
            ),
            Command::DropIndex => String::from_str("DROP INDEX IF EXISTS idx_domains_domain"),
            Command::RelaxCommit => String::from_str("SET LOCAL synchronous_commit = OFF"),
            Command::RaiseWorkMem => String::from_str("SET LOCAL work_mem = '256MB'"),
            Command::RaiseMaintenanceMem => String::from_str(
                "SET LOCAL maintenance_work_mem = '512MB'",
            ),
            Command::CopyIn { .. } => String::from_str(
                "COPY domains (domain) FROM STDIN WITH (FORMAT text)",
            ),
            Command::Deduplicate => String::from_str(
                "DELETE FROM domains a USING domains b WHERE a.ctid < b.ctid AND a.domain = b.domain",
            ),
            Command::AddKey => String::from_str("ALTER TABLE domains ADD PRIMARY KEY (domain)"),
            Command::CreateIndex => String::from_str(
                "CREATE INDEX idx_domains_domain ON domains (domain text_pattern_ops)",
            ),
            Command::InsertBatch { .. } => {
                let mut text = String::from_str("INSERT INTO domains (domain) VALUES ");
                push_placeholders(&mut text, self.values(), true);
                text.append(" ON CONFLICT DO NOTHING");
                text
            },
            Command::DeleteValue => String::from_str("DELETE FROM domains WHERE domain = $1"),
            Command::DeleteBatch { .. } => {
                let mut text = String::from_str("DELETE FROM domains WHERE domain IN (");
                push_placeholders(&mut text, self.values(), false);
                text.append(")");
                text
            },
            Command::CreateStaging => String::from_str(
                "CREATE TEMP TABLE temp_remove (domain TEXT)",
            ),
            Command::CopyStaging => String::from_str("COPY temp_remove (domain) FROM STDIN BINARY"),
            Command::DeleteStaged => String::from_str(
                "DELETE FROM domains WHERE domain IN (SELECT domain FROM temp_remove)",
            ),
            Command::SelectAll => String::from_str("SELECT domain FROM domains"),
            Command::SelectSorted => String::from_str("SELECT domain FROM domains ORDER BY domain"),
            Command::CopyOut => String::from_str("COPY domains (domain) TO STDOUT"),
            Command::Truncate => String::from_str("TRUNCATE TABLE domains"),
        }
    }
}

/// The statements that prepare the store, in order: the table, then its
/// pattern-matching index.
pub fn schema_commands() -> (commands: Vec<Command>)
    ensures
        commands@ == seq![Command::CreateTable, Command::EnsureIndex],
{
    let mut commands = Vec::new();
    commands.push(Command::CreateTable);
    commands.push(Command::EnsureIndex);
    assert(commands@ =~= seq![Command::CreateTable, Command::EnsureIndex]);
    commands
}

} // verus!
