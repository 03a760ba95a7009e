//! The filter that printing, counting, exporting and filtered removal share:
//! a row passes if it contains the given text, where one is given, and
//! matches the given regular expression, where one is given.

use crate::text::{contains, contains_text, lemma_texts_push, texts};
use vstd::prelude::*;

verus! {

/// `regex::Regex`, a compiled regular expression. Nothing inside it is
/// visible here.
#[verifier::external_type_specification]
#[verifier::external_body]
pub struct ExRegex(regex::Regex);

/// `regex::Error`, what the compilation of a regular expression fails with.
#[verifier::external_type_specification]
#[verifier::external_body]
pub struct ExRegexError(regex::Error);

/// Whether `regex::Regex::new` accepts the pattern.
pub uninterp spec fn regex_compiles(pattern: Seq<char>) -> bool;

/// Whether the regular expression compiled from the pattern has a match
/// anywhere in the text, as `regex::Regex::is_match` says.
pub uninterp spec fn regex_matches(pattern: Seq<char>, text: Seq<char>) -> bool;

/// A regular expression together with the text it was compiled from. The
/// only way to make one is `compile`, so the two always belong together.
struct Pattern {
    source: String,
    compiled: regex::Regex,
}

impl View for Pattern {
    type V = Seq<char>;

    /// The text that the expression was compiled from.
    closed spec fn view(&self) -> Seq<char> {
        self.source@
    }
}

/// `regex::Regex::new`: compiles the pattern. Whether that succeeds depends
/// on the pattern alone and is stated by name. The result keeps the pattern
/// beside the compiled expression.
#[verifier::external_body]
fn compile(source: &str) -> (r: Result<Pattern, regex::Error>)
    ensures
        r is Ok <==> regex_compiles(source@),
        r matches Ok(p) ==> p@ == source@,
{
    match regex::Regex::new(source) {
        Ok(compiled) => Ok(Pattern { source: source.to_string(), compiled }),
        Err(e) => Err(e),
    }
}

/// `regex::Regex::is_match`: whether the expression has a match anywhere in
/// the text. The answer depends on the pattern and the text alone and is
/// stated by name.
#[verifier::external_body]
fn is_match(pattern: &Pattern, text: &str) -> (r: bool)
    ensures
        r == regex_matches(pattern@, text@),
{
    pattern.compiled.is_match(text)
}

/// The `Display` text of a `regex::Error`. Nothing is claimed of it.
#[verifier::external_body]
fn error_text(error: &regex::Error) -> (text: String) {
    format!("{}", error)
}

/// Why a filter could not be made.
#[derive(Debug)]
pub enum FilterError {
    /// The regular expression does not compile.
    InvalidPattern {
        /// The pattern as given.
        pattern: String,
        /// What the compiler said of it.
        message: String,
    },
}

impl FilterError {
    /// The error in words.
    pub fn message(&self) -> (text: String)
        ensures
            self matches FilterError::InvalidPattern { message, .. } && text@ == message@,
    {
        match self {
            FilterError::InvalidPattern { message, .. } => message.clone(),
        }
    }
}

/// A filter as plain values: the text to look for and the pattern to match,
/// each of which may be absent.
pub ghost struct FilterView {
    pub needle: Option<Seq<char>>,
    pub pattern: Option<Seq<char>>,
}

/// Whether a row passes a filter: it contains the text, where one is given,
/// and matches the pattern, where one is given.
pub open spec fn passes(filter: FilterView, row: Seq<char>) -> bool {
    &&& filter.needle matches Some(needle) ==> contains_text(row, needle)
    &&& filter.pattern matches Some(pattern) ==> regex_matches(pattern, row)
}

/// The rows that pass a filter, in their order.
pub open spec fn passing(filter: FilterView, rows: Seq<Seq<char>>) -> Seq<Seq<char>> {
    rows.filter(|row: Seq<char>| passes(filter, row))
}

/// The characters of a text that may be absent.
pub open spec fn opt_text(value: Option<String>) -> Option<Seq<char>> {
    match value {
        Some(s) => Some(s@),
        None => None,
    }
}

/// A filter on rows.
pub struct RowFilter {
    needle: Option<String>,
    pattern: Option<Pattern>,
}

impl View for RowFilter {
    type V = FilterView;

    closed spec fn view(&self) -> FilterView {
        FilterView {
            needle: opt_text(self.needle),
            pattern: match self.pattern {
                Some(p) => Some(p@),
                None => None,
            },
        }
    }
}

/// What making a filter gives once the pattern, if there is one, has been
/// through the compiler.
fn assemble(
    needle: Option<String>,
    source: Option<String>,
    compiled: Option<Result<Pattern, regex::Error>>,
) -> (r: Result<RowFilter, FilterError>)
    requires
        source is Some <==> compiled is Some,
        compiled matches Some(Ok(p)) ==> p@ == source->0@,
    ensures
        r is Ok <==> !(compiled matches Some(Err(_))),
        r matches Ok(filter) ==> filter@ == (FilterView {
            needle: opt_text(needle),
            pattern: opt_text(source),
        }),
        r matches Err(FilterError::InvalidPattern { pattern, .. }) ==> Some(pattern@) == opt_text(
            source,
        ),
{
    match compiled {
        None => Ok(RowFilter { needle, pattern: None }),
        Some(Ok(p)) => Ok(RowFilter { needle, pattern: Some(p) }),
        Some(Err(e)) => {
            let message = error_text(&e);
            match source {
                Some(pattern) => Err(FilterError::InvalidPattern { pattern, message }),
                None => Err(FilterError::InvalidPattern { pattern: String::new(), message }),
            }
        },
    }
}

impl RowFilter {
    /// Makes a filter from a text to look for and a regular expression, each
    /// of which may be absent. Fails where the expression does not compile,
    /// and only then.
    pub fn new(match_filter: Option<String>, regex_filter: Option<String>) -> (r: Result<
        RowFilter,
        FilterError,
    >)
        ensures
            r is Ok <==> (regex_filter matches Some(p) ==> regex_compiles(p@)),
            r matches Ok(filter) ==> filter@ == (FilterView {
                needle: opt_text(match_filter),
                pattern: opt_text(regex_filter),
            }),
            r matches Err(FilterError::InvalidPattern { pattern, .. }) ==> Some(pattern@)
                == opt_text(regex_filter),
    {
        let compiled = match &regex_filter {
            Some(source) => Some(compile(source.as_str())),
            None => None,
        };
        assemble(match_filter, regex_filter, compiled)
    }

    /// Whether the filter asks for anything.
    pub fn is_active(&self) -> (active: bool)
        ensures
            active == (self@.needle is Some || self@.pattern is Some),
    {
        self.needle.is_some() || self.pattern.is_some()
    }

    /// Whether a row passes the filter.
    pub fn matches(&self, row: &str) -> (pass: bool)
        ensures
            pass == passes(self@, row@),
    {
        if let Some(needle) = &self.needle {
            if !contains(row, needle.as_str()) {
                return false;
            }
        }
        if let Some(pattern) = &self.pattern {
            if !is_match(pattern, row) {
                return false;
            }
        }
        true
    }
}

/// The rows that pass the filter, in their order.
pub fn filter_rows(rows: &Vec<String>, filter: &RowFilter) -> (kept: Vec<String>)
    ensures
        texts(kept@) == passing(filter@, texts(rows@)),
{
    let ghost all = texts(rows@);
    let ghost pred = |row: Seq<char>| passes(filter@, row);
    let mut kept: Vec<String> = Vec::new();
    let mut i: usize = 0;
    proof {
        reveal(Seq::filter);
        assert(all.take(0) =~= Seq::<Seq<char>>::empty());
        assert(texts(kept@) =~= all.take(0).filter(pred));
    }
    while i < rows.len()
        invariant
            i <= rows.len(),
            all == texts(rows@),
            pred == (|row: Seq<char>| passes(filter@, row)),
            texts(kept@) == all.take(i as int).filter(pred),
        decreases rows.len() - i,
    {
        proof {
            reveal(Seq::filter);
            let next = all.take(i + 1);
            assert(next.drop_last() =~= all.take(i as int));
            assert(next.last() == rows@[i as int]@);
        }
        if filter.matches(rows[i].as_str()) {
            let row = rows[i].clone();
            proof {
                lemma_texts_push(kept@, row);
            }
            kept.push(row);
        }
        i += 1;
    }
    assert(all.take(i as int) =~= all);
    kept
}

/// The number of rows that pass the filter.
pub fn count_matches(rows: &Vec<String>, filter: &RowFilter) -> (n: usize)
    ensures
        n == passing(filter@, texts(rows@)).len(),
{
    let ghost all = texts(rows@);
    let ghost pred = |row: Seq<char>| passes(filter@, row);
    let mut n: usize = 0;
    let mut i: usize = 0;
    proof {
        reveal(Seq::filter);
        assert(all.take(0) =~= Seq::<Seq<char>>::empty());
    }
    while i < rows.len()
        invariant
            i <= rows.len(),
            n <= i,
            all == texts(rows@),
            pred == (|row: Seq<char>| passes(filter@, row)),
            n == all.take(i as int).filter(pred).len(),
        decreases rows.len() - i,
    {
        proof {
            reveal(Seq::filter);
            let next = all.take(i + 1);
            assert(next.drop_last() =~= all.take(i as int));
            assert(next.last() == rows@[i as int]@);
        }
        if filter.matches(rows[i].as_str()) {
            n += 1;
        }
        i += 1;
    }
    assert(all.take(i as int) =~= all);
    n
}

/// A row is in the filtered output if and only if it is one of the rows and
/// passes the filter: it contains the text, where one is given, and matches
/// the pattern, where one is given.
pub proof fn lemma_filter_correct(filter: FilterView, rows: Seq<Seq<char>>, row: Seq<char>)
    ensures
        passing(filter, rows).contains(row) <==> rows.contains(row) && passes(filter, row),
    decreases rows.len(),
{
    reveal(Seq::filter);
    let pred = |r: Seq<char>| passes(filter, r);
    if rows.len() == 0 {
    } else {
        let front = rows.drop_last();
        lemma_filter_correct(filter, front, row);
        let sub = front.filter(pred);
        if rows.contains(row) {
            let k = choose|k: int| 0 <= k < rows.len() && rows[k] == row;
            if k < front.len() {
                assert(front[k] == row);
                assert(front.contains(row));
            }
        }
        if front.contains(row) {
            let k = choose|k: int| 0 <= k < front.len() && front[k] == row;
            assert(rows[k] == row);
        }
        assert(rows[rows.len() - 1] == rows.last());
        if pred(rows.last()) {
            let out = sub.push(rows.last());
            assert(out[out.len() - 1] == rows.last());
            if sub.contains(row) {
                let k = choose|k: int| 0 <= k < sub.len() && sub[k] == row;
                assert(out[k] == row);
            }
            if out.contains(row) {
                let k = choose|k: int| 0 <= k < out.len() && out[k] == row;
                if k < sub.len() {
                    assert(sub[k] == row);
                }
            }
        }
    }
}

} // verus!
