//! Text helpers shared by the other modules: trimming, substring search,
//! decimal numbers, and the view of a list of strings.

use vstd::prelude::*;
use vstd::string::StringExecFns;

verus! {

/// The characters of each string of a list.
pub open spec fn texts(v: Seq<String>) -> Seq<Seq<char>> {
    Seq::new(v.len(), |i: int| v[i]@)
}

/// Appending a string to the list appends its characters to the view.
pub proof fn lemma_texts_push(v: Seq<String>, s: String)
    ensures
        texts(v.push(s)) == texts(v).push(s@),
{
    assert(texts(v.push(s)) =~= texts(v).push(s@));
}

/// Whether `c` is white space as `str::trim` understands it: whether it has
/// the Unicode property `White_Space`, which is also what
/// `char::is_whitespace` tells.
pub uninterp spec fn white_space(c: char) -> bool;

/// `s` without the white space it starts with.
pub open spec fn trim_start(s: Seq<char>) -> Seq<char>
    decreases s.len(),
{
    if s.len() > 0 && white_space(s[0]) {
        trim_start(s.drop_first())
    } else {
        s
    }
}

/// `s` without the white space it ends with.
pub open spec fn trim_end(s: Seq<char>) -> Seq<char>
    decreases s.len(),
{
    if s.len() > 0 && white_space(s[s.len() - 1]) {
        trim_end(s.drop_last())
    } else {
        s
    }
}

/// `s` without the white space at either end.
pub open spec fn trimmed(s: Seq<char>) -> Seq<char> {
    trim_end(trim_start(s))
}

/// A string that starts and ends with something other than white space.
pub open spec fn is_trim(s: Seq<char>) -> bool {
    s.len() > 0 ==> !white_space(s[0]) && !white_space(s[s.len() - 1])
}

/// `str::trim`: the result is the argument without the leading and the
/// trailing characters that `char::is_whitespace` accepts. The result is
/// stated over that property by name; which characters have it is not.
#[verifier::external_body]
pub(crate) fn trim(s: &str) -> (r: &str)
    ensures
        r@ == trimmed(s@),
        r@.len() > 0 ==> !white_space(r@[0]) && !white_space(r@[r@.len() - 1]),
{
    s.trim()
}

/// What `trim_start` leaves starts with something other than white space,
/// and is the end of the argument.
pub proof fn lemma_trim_start(s: Seq<char>)
    ensures
        trim_start(s).len() <= s.len(),
        trim_start(s) == s.skip(s.len() - trim_start(s).len()),
        trim_start(s).len() > 0 ==> !white_space(trim_start(s)[0]),
    decreases s.len(),
{
    if s.len() > 0 && white_space(s[0]) {
        let t = s.drop_first();
        lemma_trim_start(t);
        assert(t.skip(t.len() - trim_start(t).len()) =~= s.skip(s.len() - trim_start(s).len()));
    } else {
        assert(s.skip(0) =~= s);
    }
}

/// What `trim_end` leaves ends with something other than white space, and
/// is the start of the argument.
pub proof fn lemma_trim_end(s: Seq<char>)
    ensures
        trim_end(s).len() <= s.len(),
        trim_end(s) == s.take(trim_end(s).len() as int),
        trim_end(s).len() > 0 ==> !white_space(trim_end(s)[trim_end(s).len() - 1]),
    decreases s.len(),
{
    if s.len() > 0 && white_space(s[s.len() - 1]) {
        let t = s.drop_last();
        lemma_trim_end(t);
        assert(t.take(trim_end(t).len() as int) =~= s.take(trim_end(s).len() as int));
    } else {
        assert(s.take(s.len() as int) =~= s);
    }
}

/// What trimming leaves is no longer than the argument and has no white
/// space at either end.
pub proof fn lemma_trimmed_is_trim(s: Seq<char>)
    ensures
        trimmed(s).len() <= s.len(),
        is_trim(trimmed(s)),
{
    lemma_trim_start(s);
    let t = trim_start(s);
    lemma_trim_end(t);
    let r = trim_end(t);
    if r.len() > 0 {
        assert(r[0] == t[0]);
    }
}

/// Trimming leaves a string alone that has no white space at either end.
pub proof fn lemma_trimmed_of_trim(s: Seq<char>)
    requires
        is_trim(s),
    ensures
        trimmed(s) == s,
{
}

/// Trimming twice is trimming once.
pub proof fn lemma_trimmed_idempotent(s: Seq<char>)
    ensures
        trimmed(trimmed(s)) == trimmed(s),
{
    lemma_trimmed_is_trim(s);
    lemma_trimmed_of_trim(trimmed(s));
}

/// `needle` stands in `hay` at position `i`.
pub open spec fn occurs_at(hay: Seq<char>, needle: Seq<char>, i: int) -> bool {
    0 <= i && i + needle.len() <= hay.len() && hay.subrange(i, i + needle.len()) == needle
}

/// `needle` stands somewhere in `hay`.
pub open spec fn contains_text(hay: Seq<char>, needle: Seq<char>) -> bool {
    exists|i: int| occurs_at(hay, needle, i)
}

/// `str::contains` with a string as the pattern: whether the second string
/// is a part of the first.
#[verifier::external_body]
pub(crate) fn contains(hay: &str, needle: &str) -> (r: bool)
    ensures
        r == contains_text(hay@, needle@),
{
    hay.contains(needle)
}

/// The character of a decimal digit.
pub open spec fn digit_char(d: nat) -> char {
    if d == 0 {
        '0'
    } else if d == 1 {
        '1'
    } else if d == 2 {
        '2'
    } else if d == 3 {
        '3'
    } else if d == 4 {
        '4'
    } else if d == 5 {
        '5'
    } else if d == 6 {
        '6'
    } else if d == 7 {
        '7'
    } else if d == 8 {
        '8'
    } else {
        '9'
    }
}

/// A number written in decimal, without leading zeros.
pub open spec fn decimal(n: nat) -> Seq<char>
    decreases n,
{
    if n < 10 {
        seq![digit_char(n)]
    } else {
        decimal(n / 10).push(digit_char(n % 10))
    }
}

fn digit_text(d: usize) -> (r: &'static str)
    requires
        d < 10,
    ensures
        r@ == seq![digit_char(d as nat)],
{
    proof {
        reveal_strlit("0");
        reveal_strlit("1");
        reveal_strlit("2");
        reveal_strlit("3");
        reveal_strlit("4");
        reveal_strlit("5");
        reveal_strlit("6");
        reveal_strlit("7");
        reveal_strlit("8");
        reveal_strlit("9");
    }
    let r = if d == 0 {
        "0"
    } else if d == 1 {
        "1"
    } else if d == 2 {
        "2"
    } else if d == 3 {
        "3"
    } else if d == 4 {
        "4"
    } else if d == 5 {
        "5"
    } else if d == 6 {
        "6"
    } else if d == 7 {
        "7"
    } else if d == 8 {
        "8"
    } else {
        "9"
    };
    assert(r@ =~= seq![digit_char(d as nat)]);
    r
}

/// Appends `n` in decimal to `out`.
pub fn push_decimal(out: &mut String, n: usize)
    ensures
        final(out)@ == old(out)@ + decimal(n as nat),
    decreases n,
{
    if n >= 10 {
        push_decimal(out, n / 10);
    }
    out.append(digit_text(n % 10));
    assert(out@ =~= old(out)@ + decimal(n as nat));
}

/// Each string followed by a line feed, one after the other.
pub open spec fn joined_lines(rows: Seq<Seq<char>>) -> Seq<char>
    decreases rows.len(),
{
    if rows.len() == 0 {
        Seq::empty()
    } else {
        joined_lines(rows.drop_last()) + rows.last().push('\n')
    }
}

/// A text without a line feed in it.
pub open spec fn is_line(row: Seq<char>) -> bool {
    forall|i: int| 0 <= i < row.len() ==> #[trigger] row[i] != '\n'
}

/// The text of no rows is empty; the text of some rows ends with a line
/// feed.
pub proof fn lemma_joined_lines_end(rows: Seq<Seq<char>>)
    ensures
        rows.len() == 0 <==> joined_lines(rows).len() == 0,
        rows.len() > 0 ==> joined_lines(rows)[joined_lines(rows).len() - 1] == '\n',
{
}

/// Rows without line feeds can be read back from their text: two lists of
/// such rows that give the same text are the same list.
pub proof fn lemma_joined_lines_injective(a: Seq<Seq<char>>, b: Seq<Seq<char>>)
    requires
        forall|i: int| 0 <= i < a.len() ==> is_line(#[trigger] a[i]),
        forall|i: int| 0 <= i < b.len() ==> is_line(#[trigger] b[i]),
        joined_lines(a) == joined_lines(b),
    ensures
        a == b,
    decreases a.len(),
{
    lemma_joined_lines_end(a);
    lemma_joined_lines_end(b);
    if a.len() == 0 {
        assert(a =~= b);
    } else {
        let t = joined_lines(a);
        let af = a.drop_last();
        let bf = b.drop_last();
        let al = a.last();
        let bl = b.last();
        let x = joined_lines(af);
        let y = joined_lines(bf);
        lemma_joined_lines_end(af);
        lemma_joined_lines_end(bf);
        assert(is_line(a[a.len() - 1]) && is_line(b[b.len() - 1]));
        assert(t == x + al.push('\n'));
        assert(t == y + bl.push('\n'));
        if x.len() > y.len() {
            let k = x.len() - 1;
            assert(t[k] == x[k]);
            assert(t[k] == bl.push('\n')[k - y.len()]);
            assert(bl[k - y.len()] == '\n');
        } else if y.len() > x.len() {
            let k = y.len() - 1;
            assert(t[k] == y[k]);
            assert(t[k] == al.push('\n')[k - x.len()]);
            assert(al[k - x.len()] == '\n');
        }
        assert(x =~= t.subrange(0, x.len() as int));
        assert(y =~= t.subrange(0, y.len() as int));
        assert(al =~= t.subrange(x.len() as int, t.len() - 1));
        assert(bl =~= t.subrange(y.len() as int, t.len() - 1));
        assert forall|i: int| 0 <= i < af.len() implies is_line(#[trigger] af[i]) by {
            assert(af[i] == a[i]);
        }
        assert forall|i: int| 0 <= i < bf.len() implies is_line(#[trigger] bf[i]) by {
            assert(bf[i] == b[i]);
        }
        lemma_joined_lines_injective(af, bf);
        assert(a =~= af.push(al));
        assert(b =~= bf.push(bl));
    }
}

/// Writes the rows `from..to` as lines of text: each row, then a line feed.
/// This is the payload of a bulk load and the body of a text export.
pub fn join_lines(rows: &Vec<String>, from: usize, to: usize) -> (out: String)
    requires
        from <= to <= rows.len(),
    ensures
        out@ == joined_lines(texts(rows@).subrange(from as int, to as int)),
{
    let mut out = String::new();
    let mut i: usize = from;
    let ghost all = texts(rows@);
    assert(all.subrange(from as int, from as int) =~= Seq::<Seq<char>>::empty());
    while i < to
        invariant
            from <= i <= to <= rows.len(),
            all == texts(rows@),
            out@ == joined_lines(all.subrange(from as int, i as int)),
        decreases to - i,
    {
        proof {
            reveal_strlit("\n");
            let next = all.subrange(from as int, i + 1);
            assert(next.drop_last() =~= all.subrange(from as int, i as int));
            assert(next.last() == rows@[i as int]@);
            assert("\n"@ =~= seq!['\n']);
        }
        out.append(rows[i].as_str());
        out.append("\n");
        assert(out@ =~= joined_lines(all.subrange(from as int, i + 1)));
        i += 1;
    }
    out
}

} // verus!
