//! Reading the table: printing, counting and exporting.
//!
//! With no filter, no sorting and plain text as the format, the rows are
//! streamed out as they are. Otherwise they are read, in order if asked,
//! and filtered here.

use crate::filter::RowFilter;
use crate::store::Command;
use vstd::prelude::*;
use vstd::string::StringExecFns;

verus! {

/// The format of an export.
#[derive(Clone, Copy, PartialEq, Eq, Structural, Debug)]
pub enum ExportFormat {
    /// One row per line.
    Text,
    /// A structured document with a count, a time and the rows.
    Json,
}

/// The format that a name stands for: `json` is the structured document,
/// every other name is plain text.
pub fn parse_format(name: &str) -> (format: ExportFormat)
    ensures
        format == if name@ == "json"@ {
            ExportFormat::Json
        } else {
            ExportFormat::Text
        },
{
    let given = String::from_str(name);
    let json = String::from_str("json");
    if given == json {
        ExportFormat::Json
    } else {
        ExportFormat::Text
    }
}

/// A way to read the table.
#[derive(Clone, Copy, PartialEq, Eq, Structural, Debug)]
pub enum ReadPath {
    /// Stream all rows out, with nothing held back here.
    Stream,
    /// Read the rows, in order if `sorted`, and filter them here.
    Scan { sorted: bool },
}

/// The way to read for what was asked: the stream where there is no filter,
/// no sorting and no structured document, the scan otherwise.
pub open spec fn read_path_for(filtered: bool, sort: bool, format: ExportFormat) -> ReadPath {
    if !filtered && !sort && format == ExportFormat::Text {
        ReadPath::Stream
    } else {
        ReadPath::Scan { sorted: sort }
    }
}

/// The command that a way to read starts with.
pub open spec fn read_command(path: ReadPath) -> Command {
    match path {
        ReadPath::Stream => Command::CopyOut,
        ReadPath::Scan { sorted } => if sorted {
            Command::SelectSorted
        } else {
            Command::SelectAll
        },
    }
}

/// Picks the way to read for printing or exporting. Printing is plain text.
pub fn select_read_path(filter: &RowFilter, sort: bool, format: ExportFormat) -> (path: ReadPath)
    ensures
        path == read_path_for(filter@.needle is Some || filter@.pattern is Some, sort, format),
{
    if !filter.is_active() && !sort && format == ExportFormat::Text {
        ReadPath::Stream
    } else {
        ReadPath::Scan { sorted: sort }
    }
}

impl ReadPath {
    /// The command that this way to read starts with.
    pub fn command(&self) -> (command: Command)
        ensures
            command == read_command(*self),
    {
        match *self {
            ReadPath::Stream => Command::CopyOut,
            ReadPath::Scan { sorted } => if sorted {
                Command::SelectSorted
            } else {
                Command::SelectAll
            },
        }
    }
}

/// The command that counting starts with: with a filter the rows are read
/// and counted here, without one the store counts.
pub fn count_command(filter: &RowFilter) -> (command: Command)
    ensures
        command == if filter@.needle is Some || filter@.pattern is Some {
            Command::SelectAll
        } else {
            Command::CountRows
        },
{
    if filter.is_active() {
        Command::SelectAll
    } else {
        Command::CountRows
    }
}

/// What a structured export holds.
pub struct ExportData {
    /// The number of rows exported.
    pub domain_count: usize,
    /// The time of the export, as text.
    pub exported_at: String,
    /// The rows.
    pub domains: Vec<String>,
}

impl ExportData {
    /// The document for the given rows, exported at the given time.
    pub fn new(domains: Vec<String>, exported_at: String) -> (data: ExportData)
        ensures
            data.domain_count == domains@.len(),
            data.domains@ == domains@,
            data.exported_at@ == exported_at@,
    {
        ExportData { domain_count: domains.len(), exported_at, domains }
    }
}

} // verus!
