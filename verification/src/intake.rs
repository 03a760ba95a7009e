//! From input lines to candidates: each line is trimmed, blank lines are
//! passed over, and with validation on the lines that are no valid domain are
//! counted and left out.

use crate::domain::{domain_valid, is_valid_domain};
use crate::text::{
    is_trim, lemma_texts_push, lemma_trimmed_is_trim, lemma_trimmed_of_trim, texts, trim, trimmed,
};
use vstd::prelude::*;
use vstd::string::StringExecFns;

verus! {

/// What becomes of one input line.
#[derive(Clone, Copy, PartialEq, Eq, Structural, Debug)]
pub enum LineClass {
    /// Nothing is left after trimming: the line is not counted.
    Blank,
    /// Validation is on and the trimmed line is no valid domain.
    Invalid,
    /// The trimmed line is a candidate.
    Accepted,
}

/// The class of a line.
pub open spec fn classify(line: Seq<char>, validate: bool) -> LineClass {
    let t = trimmed(line);
    if t.len() == 0 {
        LineClass::Blank
    } else if validate && !domain_valid(t) {
        LineClass::Invalid
    } else {
        LineClass::Accepted
    }
}

/// The state of an intake as plain values.
pub ghost struct IntakeView {
    /// The lines seen that were not blank.
    pub total: nat,
    /// Those of them that were not valid.
    pub invalid: nat,
    /// The others, trimmed, in the order in which they came.
    pub candidates: Seq<Seq<char>>,
}

/// The intake before any line.
pub open spec fn intake_empty() -> IntakeView {
    IntakeView { total: 0, invalid: 0, candidates: Seq::empty() }
}

/// The intake after one more line.
pub open spec fn intake_step(v: IntakeView, line: Seq<char>, validate: bool) -> IntakeView {
    match classify(line, validate) {
        LineClass::Blank => v,
        LineClass::Invalid => IntakeView { total: v.total + 1, invalid: v.invalid + 1, ..v },
        LineClass::Accepted => IntakeView {
            total: v.total + 1,
            candidates: v.candidates.push(trimmed(line)),
            ..v
        },
    }
}

/// The intake after the given lines, taken in order.
pub open spec fn intake_of(lines: Seq<Seq<char>>, validate: bool) -> IntakeView
    decreases lines.len(),
{
    if lines.len() == 0 {
        intake_empty()
    } else {
        intake_step(intake_of(lines.drop_last(), validate), lines.last(), validate)
    }
}

/// A string that can stand in the table: not empty, no white space at
/// either end, and valid where validation is on.
pub open spec fn is_clean(row: Seq<char>, validate: bool) -> bool {
    &&& row.len() > 0
    &&& is_trim(row)
    &&& validate ==> domain_valid(row)
}

/// The lines seen so far, counted, and the candidates among them.
pub struct Intake {
    total: u64,
    invalid: u64,
    candidates: Vec<String>,
}

impl View for Intake {
    type V = IntakeView;

    closed spec fn view(&self) -> IntakeView {
        IntakeView {
            total: self.total as nat,
            invalid: self.invalid as nat,
            candidates: texts(self.candidates@),
        }
    }
}

impl Intake {
    /// The counts agree: every line seen is either invalid or a candidate.
    pub closed spec fn wf(&self) -> bool {
        self.total == self.invalid + self.candidates.len()
    }

    /// An intake that has seen no line.
    pub fn new() -> (intake: Intake)
        ensures
            intake.wf(),
            intake@ == intake_empty(),
    {
        let intake = Intake { total: 0, invalid: 0, candidates: Vec::new() };
        assert(intake@.candidates =~= Seq::empty());
        intake
    }

    /// Takes one more line. Needs room in the counter for it.
    pub fn offer(&mut self, line: &str, validate: bool) -> (class: LineClass)
        requires
            old(self).wf(),
            old(self)@.total < u64::MAX,
        ensures
            final(self).wf(),
            class == classify(line@, validate),
            final(self)@ == intake_step(old(self)@, line@, validate),
    {
        let t = trim(line);
        if t.is_empty() {
            return LineClass::Blank;
        }
        if validate && !is_valid_domain(t) {
            self.total = self.total + 1;
            self.invalid = self.invalid + 1;
            return LineClass::Invalid;
        }
        let owned = String::from_str(t);
        proof {
            lemma_texts_push(self.candidates@, owned);
        }
        self.candidates.push(owned);
        self.total = self.total + 1;
        LineClass::Accepted
    }

    /// The number of lines seen that were not blank.
    pub fn total(&self) -> (n: u64)
        ensures
            n == self@.total,
    {
        self.total
    }

    /// The number of lines that were not valid.
    pub fn invalid(&self) -> (n: u64)
        ensures
            n == self@.invalid,
    {
        self.invalid
    }

    /// The number of candidates: the lines seen less the invalid ones.
    pub fn valid(&self) -> (n: usize)
        requires
            self.wf(),
        ensures
            n == self@.candidates.len(),
            n == self@.total - self@.invalid,
    {
        self.candidates.len()
    }

    /// The candidates, in the order in which they came.
    pub fn candidates(&self) -> (c: &Vec<String>)
        ensures
            texts(c@) == self@.candidates,
    {
        &self.candidates
    }
}

/// Takes all the lines, in order.
pub fn collect(lines: &Vec<String>, validate: bool) -> (intake: Intake)
    ensures
        intake.wf(),
        intake@ == intake_of(texts(lines@), validate),
{
    let mut intake = Intake::new();
    let ghost all = texts(lines@);
    let mut i: usize = 0;
    assert(all.take(0) =~= Seq::<Seq<char>>::empty());
    while i < lines.len()
        invariant
            i <= lines.len(),
            all == texts(lines@),
            intake.wf(),
            intake@ == intake_of(all.take(i as int), validate),
            intake@.total <= i,
        decreases lines.len() - i,
    {
        proof {
            let next = all.take(i + 1);
            assert(next.drop_last() =~= all.take(i as int));
            assert(next.last() == lines@[i as int]@);
        }
        intake.offer(lines[i].as_str(), validate);
        i += 1;
    }
    assert(all.take(i as int) =~= all);
    intake
}

/// The counts of an intake agree: every line seen is either invalid or a
/// candidate, and no more lines are counted than were given.
pub proof fn lemma_intake_counts(lines: Seq<Seq<char>>, validate: bool)
    ensures
        intake_of(lines, validate).total == intake_of(lines, validate).invalid + intake_of(
            lines,
            validate,
        ).candidates.len(),
        intake_of(lines, validate).total <= lines.len(),
        !validate ==> intake_of(lines, validate).invalid == 0,
    decreases lines.len(),
{
    if lines.len() > 0 {
        lemma_intake_counts(lines.drop_last(), validate);
    }
}

/// Every candidate is clean: it is not empty, has no white space at its
/// ends, and with validation on it is a valid domain.
pub proof fn lemma_candidates_clean(lines: Seq<Seq<char>>, validate: bool)
    ensures
        forall|i: int|
            0 <= i < intake_of(lines, validate).candidates.len() ==> is_clean(
                #[trigger] intake_of(lines, validate).candidates[i],
                validate,
            ),
    decreases lines.len(),
{
    if lines.len() > 0 {
        let before = intake_of(lines.drop_last(), validate).candidates;
        let after = intake_of(lines, validate).candidates;
        lemma_candidates_clean(lines.drop_last(), validate);
        lemma_trimmed_is_trim(lines.last());
        assert forall|i: int| 0 <= i < after.len() implies is_clean(
            #[trigger] after[i],
            validate,
        ) by {
            if i < before.len() {
                assert(after[i] == before[i]);
            }
        }
    }
}

/// Lines that are clean already all become candidates, unchanged and in
/// order: reading back what was written out gives the same values.
pub proof fn lemma_intake_of_clean(rows: Seq<Seq<char>>, validate: bool)
    requires
        forall|i: int| 0 <= i < rows.len() ==> is_clean(#[trigger] rows[i], validate),
    ensures
        intake_of(rows, validate) == (IntakeView {
            total: rows.len(),
            invalid: 0,
            candidates: rows,
        }),
    decreases rows.len(),
{
    if rows.len() == 0 {
        assert(rows =~= Seq::empty());
    } else {
        let front = rows.drop_last();
        assert forall|i: int| 0 <= i < front.len() implies is_clean(
            #[trigger] front[i],
            validate,
        ) by {
            assert(front[i] == rows[i]);
        }
        lemma_intake_of_clean(front, validate);
        assert(is_clean(rows[rows.len() - 1], validate));
        lemma_trimmed_of_trim(rows.last());
        assert(front.push(rows.last()) =~= rows);
    }
}

} // verus!
