//! The choice between the two ingestion paths, and the sizes that bound what
//! is sent to the store in one piece.

use vstd::prelude::*;

verus! {

/// From this many candidates on, a run takes the bulk-load path.
pub const BULK_THRESHOLD: usize = 100_000;

/// The most candidates in one insert statement.
pub const INSERT_BATCH_SIZE: usize = 10_000;

/// The most values in one delete statement.
pub const DELETE_BATCH_SIZE: usize = 10_000;

/// The most candidates in one piece of a bulk load.
pub const COPY_CHUNK_SIZE: usize = 5_000_000;

/// An ingestion path.
#[derive(Clone, Copy, PartialEq, Eq, Structural, Debug)]
pub enum Strategy {
    /// Insert statements that pass over rows already there.
    DirectInsert,
    /// Drop the constraints, stream everything in, deduplicate, rebuild.
    BulkLoad,
}

/// The path for a number of candidates: below the threshold the direct one,
/// at the threshold and above the bulk one.
pub open spec fn strategy_for(candidates: nat) -> Strategy {
    if candidates < BULK_THRESHOLD {
        Strategy::DirectInsert
    } else {
        Strategy::BulkLoad
    }
}

/// Picks the path for a number of candidates.
pub fn select_strategy(candidates: usize) -> (strategy: Strategy)
    ensures
        strategy == strategy_for(candidates as nat),
        candidates < BULK_THRESHOLD <==> strategy == Strategy::DirectInsert,
        candidates >= BULK_THRESHOLD <==> strategy == Strategy::BulkLoad,
{
    if candidates < BULK_THRESHOLD {
        Strategy::DirectInsert
    } else {
        Strategy::BulkLoad
    }
}

/// Where the piece that starts at `start` ends: `size` further on, or at
/// `count` where less than that is left.
pub open spec fn piece_end(start: nat, count: nat, size: nat) -> nat {
    if start + size < count {
        start + size
    } else {
        count
    }
}

/// Where the piece that starts at `start` ends.
pub fn next_piece_end(start: usize, count: usize, size: usize) -> (end: usize)
    requires
        start <= count,
    ensures
        end == piece_end(start as nat, count as nat, size as nat),
        start <= end <= count,
        end - start <= size,
        size > 0 && start < count ==> start < end,
{
    if count - start > size {
        start + size
    } else {
        count
    }
}

/// The number of pieces into which `count` items fall.
pub open spec fn piece_count(count: nat, size: nat) -> nat
    recommends
        size > 0,
{
    if size == 0 {
        0
    } else {
        ((count + size - 1) / (size as int)) as nat
    }
}

/// The start of the piece with the given number, counted from 0.
pub open spec fn piece_start(index: nat, count: nat, size: nat) -> nat {
    if index * size < count {
        index * size
    } else {
        count
    }
}

/// The pieces lie end to end: each one ends where the next one starts, the
/// first starts at 0, and after the last one nothing is left.
pub proof fn lemma_pieces_tile(index: nat, count: nat, size: nat)
    requires
        size > 0,
    ensures
        piece_start(0, count, size) == 0,
        piece_end(piece_start(index, count, size), count, size) == piece_start(
            index + 1,
            count,
            size,
        ),
        index < piece_count(count, size) <==> piece_start(index, count, size) < count,
        index >= piece_count(count, size) ==> piece_start(index, count, size) == count,
{
    assert((index + 1) * size == index * size + size) by (nonlinear_arith);
    let n = piece_count(count, size);
    assert(n * size >= count && (n > 0 ==> (n - 1) * size < count)) by (nonlinear_arith)
        requires
            size > 0,
            n == (count + size - 1) / (size as int),
    ;
    if index < n {
        assert(index * size <= (n - 1) * size) by (nonlinear_arith)
            requires
                index <= n - 1,
                size > 0,
        ;
    } else {
        assert(index * size >= n * size) by (nonlinear_arith)
            requires
                index >= n,
                size > 0,
        ;
    }
}

} // verus!
