//! Bulk maintenance of a set of domain names kept in a relational table.
//!
//! The crate holds the decisions of the tool: which strings are acceptable
//! domain names, how input lines become candidates, which ingestion path a
//! run takes, how candidates are cut into batches, which statements are sent
//! to the store and in what order, and how the replies become a report.
//! Talking to the store, reading files and printing are left to the caller,
//! which performs each command that a run asks for and hands the reply back.
//!
//! - `domain`: the validity predicate.
//! - `intake`: from input lines to candidates.
//! - `strategy`: the choice of the ingestion path, and the sizes of batches.
//! - `store`: the commands, their statements, and the replies.
//! - `batches`, `bulk`, `ingestion`: the two ingestion paths and the run that
//!   picks one of them.
//! - `report`: the statistics of an ingestion.
//! - `filter`, `reading`, `removal`, `purge`: filtering, reading, removing,
//!   and emptying the table.
//! - `config`: the connection settings.
//! - `model`, `runs`: what the store is taken to do, and what whole runs
//!   achieve against it.
//! - `text`: helpers on strings.

pub mod batches;
pub mod bulk;
pub mod config;
pub mod domain;
pub mod filter;
pub mod ingestion;
pub mod intake;
pub mod model;
pub mod purge;
pub mod reading;
pub mod removal;
pub mod report;
pub mod runs;
pub mod store;
pub mod strategy;
pub mod text;
