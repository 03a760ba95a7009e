//! What the store is taken to do with each command, as a model over plain
//! values.
//!
//! The table is a sequence of rows. With its uniqueness constraint on, no
//! value is there twice. Nothing here is executed: the model says what the
//! commands mean, so that the outcome of a whole run can be stated and
//! proved.

use crate::store::{Command, Reply};
use vstd::prelude::*;

verus! {

/// The rows after the values were inserted one by one, each passed over if
/// it is there already.
pub open spec fn insert_new(rows: Seq<Seq<char>>, values: Seq<Seq<char>>) -> Seq<Seq<char>>
    decreases values.len(),
{
    if values.len() == 0 {
        rows
    } else {
        let before = insert_new(rows, values.drop_last());
        if before.contains(values.last()) {
            before
        } else {
            before.push(values.last())
        }
    }
}

/// Whether `kept` can be what a deduplication leaves of `rows`: of the rows
/// of each value exactly one.
pub open spec fn is_deduplication(kept: Seq<Seq<char>>, rows: Seq<Seq<char>>) -> bool {
    &&& kept.no_duplicates()
    &&& forall|v: Seq<char>| #[trigger] kept.contains(v) <==> rows.contains(v)
}

/// What a deduplication leaves of the rows. Which of equal rows stays is
/// left open.
pub open spec fn deduplicated(rows: Seq<Seq<char>>) -> Seq<Seq<char>> {
    choose|kept: Seq<Seq<char>>| is_deduplication(kept, rows)
}

/// The rows that equal none of the given values.
pub open spec fn without(rows: Seq<Seq<char>>, gone: Seq<Seq<char>>) -> Seq<Seq<char>> {
    rows.filter(|row: Seq<char>| !gone.contains(row))
}

/// The values `start..end`, or none where that is no part of the list.
pub open spec fn slice_of(values: Seq<Seq<char>>, start: usize, end: usize) -> Seq<Seq<char>> {
    if start <= end <= values.len() {
        values.subrange(start as int, end as int)
    } else {
        Seq::empty()
    }
}

/// The store as far as the commands can tell.
pub ghost struct Table {
    /// The rows, in the order in which they lie.
    pub rows: Seq<Seq<char>>,
    /// Whether the uniqueness constraint is on.
    pub keyed: bool,
    /// Whether the pattern-matching index is there.
    pub indexed: bool,
    /// The staging table of the session, if one was created.
    pub staging: Option<Seq<Seq<char>>>,
}

impl Table {
    /// A table as every run should find and leave it: constraint and index
    /// in place, no value twice, no staging table.
    pub open spec fn sound(self) -> bool {
        &&& self.keyed
        &&& self.indexed
        &&& self.rows.no_duplicates()
        &&& self.staging is None
    }

    /// The values in the table.
    pub open spec fn values(self) -> Set<Seq<char>> {
        self.rows.to_set()
    }

    /// The two tables are the same but for the order in which their rows
    /// lie: as many rows, the same values, and constraint, index and
    /// staging table alike.
    pub open spec fn same_as(self, other: Table) -> bool {
        &&& self.rows.len() == other.rows.len()
        &&& self.values() == other.values()
        &&& self.keyed == other.keyed
        &&& self.indexed == other.indexed
        &&& self.staging == other.staging
    }

    /// The table after a command, and the reply. `values` is the list that
    /// the run is about.
    pub open spec fn perform(self, command: Command, values: Seq<Seq<char>>) -> (Table, Reply) {
        match command {
            Command::CreateTable => (self, Reply::Done),
            Command::EnsureIndex => (Table { indexed: true, ..self }, Reply::Done),
            Command::CountRows => (self, Reply::Count(self.rows.len() as i64)),
            Command::HasRows => (self, Reply::Present(self.rows.len() > 0)),
            Command::DropKey => (Table { keyed: false, ..self }, Reply::Done),
            Command::DropIndex => (Table { indexed: false, ..self }, Reply::Done),
            Command::RelaxCommit | Command::RaiseWorkMem | Command::RaiseMaintenanceMem => (
                self,
                Reply::Done,
            ),
            Command::CopyIn { start, end } => {
                let rows = self.rows + slice_of(values, start, end);
                if self.keyed && !rows.no_duplicates() {
                    (self, Reply::Failed)
                } else {
                    (Table { rows, ..self }, Reply::Done)
                }
            },
            Command::Deduplicate => (Table { rows: deduplicated(self.rows), ..self }, Reply::Done),
            Command::AddKey => if !self.keyed && self.rows.no_duplicates() {
                (Table { keyed: true, ..self }, Reply::Done)
            } else {
                (self, Reply::Failed)
            },
            Command::CreateIndex => if self.indexed {
                (self, Reply::Failed)
            } else {
                (Table { indexed: true, ..self }, Reply::Done)
            },
            Command::InsertBatch { start, end } => {
                let batch = slice_of(values, start, end);
                let rows = if self.keyed {
                    insert_new(self.rows, batch)
                } else {
                    self.rows + batch
                };
                (Table { rows, ..self }, Reply::Affected((rows.len() - self.rows.len()) as u64))
            },
            Command::DeleteValue => {
                let rows = without(self.rows, values.take(1));
                (Table { rows, ..self }, Reply::Affected((self.rows.len() - rows.len()) as u64))
            },
            Command::DeleteBatch { start, end } => {
                let rows = without(self.rows, slice_of(values, start, end));
                (Table { rows, ..self }, Reply::Affected((self.rows.len() - rows.len()) as u64))
            },
            Command::CreateStaging => match self.staging {
                Some(_) => (self, Reply::Failed),
                None => (Table { staging: Some(Seq::empty()), ..self }, Reply::Done),
            },
            Command::CopyStaging => match self.staging {
                Some(staged) => (Table { staging: Some(staged + values), ..self }, Reply::Done),
                None => (self, Reply::Failed),
            },
            Command::DeleteStaged => match self.staging {
                Some(staged) => {
                    let rows = without(self.rows, staged);
                    (
                        Table { rows, ..self },
                        Reply::Affected((self.rows.len() - rows.len()) as u64),
                    )
                },
                None => (self, Reply::Failed),
            },
            Command::SelectAll | Command::SelectSorted | Command::CopyOut => (self, Reply::Done),
            Command::Truncate => (Table { rows: Seq::empty(), ..self }, Reply::Done),
        }
    }
}

/// Inserting keeps the rows that were there, in their place, adds at most
/// one row for each value, holds afterwards exactly the old values and the
/// new ones, and puts no value in twice.
pub proof fn lemma_insert_new(rows: Seq<Seq<char>>, values: Seq<Seq<char>>)
    ensures
        rows.len() <= insert_new(rows, values).len() <= rows.len() + values.len(),
        insert_new(rows, values).take(rows.len() as int) == rows,
        forall|v: Seq<char>|
            insert_new(rows, values).contains(v) <==> rows.contains(v) || values.contains(v),
        rows.no_duplicates() ==> insert_new(rows, values).no_duplicates(),
    decreases values.len(),
{
    let after = insert_new(rows, values);
    if values.len() == 0 {
        assert(after.take(rows.len() as int) =~= rows);
    } else {
        let front = values.drop_last();
        let last = values.last();
        let before = insert_new(rows, front);
        lemma_insert_new(rows, front);
        assert(after.take(rows.len() as int) =~= before.take(rows.len() as int));
        assert forall|v: Seq<char>| after.contains(v) <==> rows.contains(v) || values.contains(
            v,
        ) by {
            if values.contains(v) {
                let k = choose|k: int| 0 <= k < values.len() && values[k] == v;
                if k < front.len() {
                    assert(front[k] == v);
                } else {
                    assert(v == last);
                }
            }
            if front.contains(v) {
                let k = choose|k: int| 0 <= k < front.len() && front[k] == v;
                assert(values[k] == v);
            }
            assert(values[values.len() - 1] == last);
            if before.contains(last) {
            } else {
                assert(after[after.len() - 1] == last);
                if before.contains(v) {
                    let k = choose|k: int| 0 <= k < before.len() && before[k] == v;
                    assert(after[k] == v);
                }
                if after.contains(v) {
                    let k = choose|k: int| 0 <= k < after.len() && after[k] == v;
                    if k < before.len() {
                        assert(before[k] == v);
                    }
                }
            }
        }
        if rows.no_duplicates() && !before.contains(last) {
            assert forall|i: int, j: int| 0 <= i < after.len() && 0 <= j < after.len() && i
                != j implies after[i] != after[j] by {
                if i < before.len() && j < before.len() {
                    assert(before[i] != before[j]);
                } else if i < before.len() {
                    assert(before[i] == after[i]);
                } else {
                    assert(before[j] == after[j]);
                }
            }
        }
    }
}

/// Inserting one list and then another is inserting the two as one.
pub proof fn lemma_insert_new_concat(
    rows: Seq<Seq<char>>,
    first: Seq<Seq<char>>,
    second: Seq<Seq<char>>,
)
    ensures
        insert_new(insert_new(rows, first), second) == insert_new(rows, first + second),
    decreases second.len(),
{
    if second.len() == 0 {
        assert(first + second =~= first);
    } else {
        lemma_insert_new_concat(rows, first, second.drop_last());
        assert((first + second).drop_last() =~= first + second.drop_last());
        assert((first + second).last() == second.last());
    }
}

/// Inserting values that are all there already changes nothing.
pub proof fn lemma_insert_new_absorbed(rows: Seq<Seq<char>>, values: Seq<Seq<char>>)
    requires
        forall|i: int| 0 <= i < values.len() ==> rows.contains(#[trigger] values[i]),
    ensures
        insert_new(rows, values) == rows,
    decreases values.len(),
{
    if values.len() > 0 {
        let front = values.drop_last();
        assert forall|i: int| 0 <= i < front.len() implies rows.contains(#[trigger] front[i]) by {
            assert(front[i] == values[i]);
        }
        lemma_insert_new_absorbed(rows, front);
        assert(rows.contains(values[values.len() - 1]));
    }
}

/// Two lists that hold no value twice and hold the same values have the
/// same length.
pub proof fn lemma_same_values(a: Seq<Seq<char>>, b: Seq<Seq<char>>)
    requires
        a.no_duplicates(),
        b.no_duplicates(),
        forall|v: Seq<char>| #[trigger] a.contains(v) <==> b.contains(v),
    ensures
        a.len() == b.len(),
        a.to_set() == b.to_set(),
{
    assert(a.to_set() =~= b.to_set());
    a.unique_seq_to_set();
    b.unique_seq_to_set();
}

/// A deduplication leaves of each value of the rows one row, and no row
/// that was not there.
pub proof fn lemma_deduplicated(rows: Seq<Seq<char>>)
    ensures
        is_deduplication(deduplicated(rows), rows),
        deduplicated(rows).len() <= rows.len(),
        rows.no_duplicates() ==> deduplicated(rows).len() == rows.len(),
{
    let first_kept = insert_new(Seq::empty(), rows);
    lemma_insert_new(Seq::empty(), rows);
    assert forall|v: Seq<char>| #[trigger] first_kept.contains(v) <==> rows.contains(v) by {
        assert(!Seq::<Seq<char>>::empty().contains(v));
    }
    assert(is_deduplication(first_kept, rows));
    lemma_same_values(deduplicated(rows), first_kept);
    if rows.no_duplicates() {
        lemma_same_values(deduplicated(rows), rows);
    }
}

/// Deduplicating rows to which values were added without looking leaves
/// the values that inserting the values one by one leaves, and as many
/// rows.
pub proof fn lemma_deduplicated_after_append(rows: Seq<Seq<char>>, values: Seq<Seq<char>>)
    requires
        rows.no_duplicates(),
    ensures
        deduplicated(rows + values).no_duplicates(),
        forall|v: Seq<char>| #[trigger]
            deduplicated(rows + values).contains(v) <==> rows.contains(v) || values.contains(v),
        deduplicated(rows + values).len() == insert_new(rows, values).len(),
{
    let all = rows + values;
    let kept = deduplicated(all);
    let merged = insert_new(rows, values);
    lemma_deduplicated(all);
    lemma_insert_new(rows, values);
    assert forall|v: Seq<char>| all.contains(v) <==> rows.contains(v) || values.contains(v) by {
        if rows.contains(v) {
            let k = choose|k: int| 0 <= k < rows.len() && rows[k] == v;
            assert(all[k] == v);
        }
        if values.contains(v) {
            let k = choose|k: int| 0 <= k < values.len() && values[k] == v;
            assert(all[rows.len() + k] == v);
        }
        if all.contains(v) {
            let k = choose|k: int| 0 <= k < all.len() && all[k] == v;
            if k < rows.len() {
                assert(rows[k] == v);
            } else {
                assert(values[k - rows.len()] == v);
            }
        }
    }
    assert forall|v: Seq<char>| #[trigger] kept.contains(v) <==> merged.contains(v) by {
        assert(kept.contains(v) <==> all.contains(v));
    }
    lemma_same_values(kept, merged);
}

/// What is left of rows after the removal of values: a row is left if and
/// only if it was there and is none of the values. No row is left twice
/// that was not there twice, and nothing is added.
pub proof fn lemma_without(rows: Seq<Seq<char>>, gone: Seq<Seq<char>>)
    ensures
        without(rows, gone).len() <= rows.len(),
        forall|v: Seq<char>|
            without(rows, gone).contains(v) <==> rows.contains(v) && !gone.contains(v),
        rows.no_duplicates() ==> without(rows, gone).no_duplicates(),
        gone.len() == 0 ==> without(rows, gone) == rows,
    decreases rows.len(),
{
    reveal(Seq::filter);
    let keep = |row: Seq<char>| !gone.contains(row);
    let left = without(rows, gone);
    if rows.len() > 0 {
        let front = rows.drop_last();
        let last = rows.last();
        let sub = without(front, gone);
        lemma_without(front, gone);
        assert(rows[rows.len() - 1] == last);
        assert forall|v: Seq<char>| left.contains(v) <==> rows.contains(v) && !gone.contains(
            v,
        ) by {
            if rows.contains(v) {
                let k = choose|k: int| 0 <= k < rows.len() && rows[k] == v;
                if k < front.len() {
                    assert(front[k] == v);
                }
            }
            if front.contains(v) {
                let k = choose|k: int| 0 <= k < front.len() && front[k] == v;
                assert(rows[k] == v);
            }
            if keep(last) {
                assert(left[left.len() - 1] == last);
                if sub.contains(v) {
                    let k = choose|k: int| 0 <= k < sub.len() && sub[k] == v;
                    assert(left[k] == v);
                }
                if left.contains(v) {
                    let k = choose|k: int| 0 <= k < left.len() && left[k] == v;
                    if k < sub.len() {
                        assert(sub[k] == v);
                    }
                }
            }
        }
        if rows.no_duplicates() {
            assert forall|i: int, j: int| 0 <= i < front.len() && 0 <= j < front.len() && i
                != j implies front[i] != front[j] by {
                assert(front[i] == rows[i] && front[j] == rows[j]);
            }
            if keep(last) {
                if sub.contains(last) {
                    let k = choose|k: int| 0 <= k < front.len() && front[k] == last;
                    assert(rows[k] == rows[rows.len() - 1]);
                }
                assert forall|i: int, j: int| 0 <= i < left.len() && 0 <= j < left.len() && i
                    != j implies left[i] != left[j] by {
                    if i < sub.len() && j < sub.len() {
                        assert(sub[i] != sub[j]);
                    } else if i < sub.len() {
                        assert(sub[i] == left[i]);
                        assert(sub.contains(sub[i]));
                    } else {
                        assert(sub[j] == left[j]);
                        assert(sub.contains(sub[j]));
                    }
                }
            }
        }
        if gone.len() == 0 {
            assert(front.push(last) =~= rows);
        }
    }
}

/// Removing one list of values and then another is removing the two as one.
pub proof fn lemma_without_concat(
    rows: Seq<Seq<char>>,
    first: Seq<Seq<char>>,
    second: Seq<Seq<char>>,
)
    ensures
        without(without(rows, first), second) == without(rows, first + second),
    decreases rows.len(),
{
    reveal(Seq::filter);
    if rows.len() > 0 {
        let last = rows.last();
        lemma_without_concat(rows.drop_last(), first, second);
        if first.contains(last) {
            let k = choose|k: int| 0 <= k < first.len() && first[k] == last;
            assert((first + second)[k] == last);
        }
        if second.contains(last) {
            let k = choose|k: int| 0 <= k < second.len() && second[k] == last;
            assert((first + second)[first.len() + k] == last);
        }
        if (first + second).contains(last) {
            let k = choose|k: int| 0 <= k < (first + second).len() && (first + second)[k] == last;
            if k < first.len() {
                assert(first[k] == last);
            } else {
                assert(second[k - first.len()] == last);
            }
        }
        let once = without(rows.drop_last(), first);
        if !first.contains(last) {
            assert(once.push(last).drop_last() =~= once);
        }
    }
}

/// Removing a value takes at most one row from rows that hold no value
/// twice, and none from rows that do not hold it.
proof fn lemma_without_one(rows: Seq<Seq<char>>, value: Seq<char>)
    requires
        rows.no_duplicates(),
    ensures
        rows.len() - without(rows, seq![value]).len() <= 1,
        !rows.contains(value) ==> without(rows, seq![value]) == rows,
    decreases rows.len(),
{
    reveal(Seq::filter);
    let gone = seq![value];
    if rows.len() > 0 {
        let front = rows.drop_last();
        let last = rows.last();
        assert forall|i: int, j: int| 0 <= i < front.len() && 0 <= j < front.len() && i
            != j implies front[i] != front[j] by {
            assert(front[i] == rows[i] && front[j] == rows[j]);
        }
        lemma_without_one(front, value);
        assert(gone[0] == value);
        assert(rows[rows.len() - 1] == last);
        if front.contains(value) {
            let k = choose|k: int| 0 <= k < front.len() && front[k] == value;
            assert(rows[k] == value);
        }
        if gone.contains(last) {
            assert(last == value);
            if front.contains(value) {
                let k = choose|k: int| 0 <= k < front.len() && front[k] == value;
                assert(rows[k] == rows[rows.len() - 1]);
            }
        } else {
            if !rows.contains(value) {
                assert(front.push(last) =~= rows);
            }
        }
    }
}

/// Removing values takes no more rows than there are values from rows
/// that hold no value twice.
pub proof fn lemma_without_count(rows: Seq<Seq<char>>, gone: Seq<Seq<char>>)
    requires
        rows.no_duplicates(),
    ensures
        rows.len() - without(rows, gone).len() <= gone.len(),
    decreases gone.len(),
{
    lemma_without(rows, gone);
    if gone.len() > 0 {
        let front = gone.drop_last();
        lemma_without_count(rows, front);
        lemma_without(rows, front);
        lemma_without_one(without(rows, front), gone.last());
        lemma_without_concat(rows, front, seq![gone.last()]);
        assert(front + seq![gone.last()] =~= gone);
    }
}

/// What the store does with a command that may fail: it performs it as the
/// model says, or it fails and leaves the table as it was.
pub open spec fn perform_or_fail(
    table: Table,
    command: Command,
    values: Seq<Seq<char>>,
    fails: bool,
) -> (Table, Reply) {
    if fails {
        (table, Reply::Failed)
    } else {
        table.perform(command, values)
    }
}

} // verus!
