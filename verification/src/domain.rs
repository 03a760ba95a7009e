//! The validity predicate for domain names and single-level wildcard patterns.

use crate::text::is_line;
use vstd::prelude::*;

verus! {

/// The longest string that can be a valid domain.
pub const MAX_DOMAIN_LEN: usize = 253;

/// The longest label of a domain.
pub const MAX_LABEL_LEN: usize = 63;

/// An ASCII letter or digit.
pub open spec fn is_alnum(c: char) -> bool {
    ('a' <= c && c <= 'z') || ('A' <= c && c <= 'Z') || ('0' <= c && c <= '9')
}

/// A character that may open or close a label that is not the last one.
pub open spec fn is_edge_char(c: char) -> bool {
    is_alnum(c) || c == '_' || c == '*'
}

/// A character that may stand anywhere in a label that is not the last one.
pub open spec fn is_label_char(c: char) -> bool {
    is_edge_char(c) || c == '-'
}

/// A character that may stand anywhere in the last label.
pub open spec fn is_final_char(c: char) -> bool {
    is_alnum(c) || c == '-'
}

/// A label other than the last: 1 to 63 label characters, no hyphen at
/// either end.
pub open spec fn is_label(l: Seq<char>) -> bool {
    &&& 1 <= l.len() <= MAX_LABEL_LEN
    &&& is_edge_char(l[0])
    &&& is_edge_char(l[l.len() - 1])
    &&& forall|i: int| 0 <= i < l.len() ==> is_label_char(#[trigger] l[i])
}

/// The last label: 1 to 63 letters, digits and hyphens, no hyphen at either
/// end.
pub open spec fn is_final_label(l: Seq<char>) -> bool {
    &&& 1 <= l.len() <= MAX_LABEL_LEN
    &&& is_alnum(l[0])
    &&& is_alnum(l[l.len() - 1])
    &&& forall|i: int| 0 <= i < l.len() ==> is_final_char(#[trigger] l[i])
}

/// The index of the first `.` of `s`, or the length of `s` where it has none.
pub open spec fn first_dot(s: Seq<char>) -> int
    decreases s.len(),
{
    if s.len() == 0 || s[0] == '.' {
        0
    } else {
        1 + first_dot(s.drop_first())
    }
}

/// The structural pattern: a label, a `.`, and then either the last label or
/// the pattern again. So a string that matches has at least two labels.
pub open spec fn is_domain_pattern(s: Seq<char>) -> bool
    decreases s.len(),
{
    let n = first_dot(s);
    if 0 <= n < s.len() {
        let rest = s.skip(n + 1);
        is_label(s.take(n)) && (is_final_label(rest) || is_domain_pattern(rest))
    } else {
        false
    }
}

/// A `.` next to a `-`, in either order, at positions `i` and `i + 1`.
pub open spec fn hyphen_meets_dot(s: Seq<char>, i: int) -> bool {
    (s[i] == '.' && s[i + 1] == '-') || (s[i] == '-' && s[i + 1] == '.')
}

/// What makes a string an acceptable domain or wildcard pattern: the rules
/// in the order in which they are applied.
pub open spec fn domain_valid(s: Seq<char>) -> bool {
    &&& 1 <= s.len() <= MAX_DOMAIN_LEN
    &&& (s[0] == '*' ==> s.len() >= 2 && s[1] == '.')
    &&& s[s.len() - 1] != '*'
    &&& forall|i: int| 0 <= i < s.len() - 1 ==> !#[trigger] hyphen_meets_dot(s, i)
    &&& s[0] != '.'
    &&& s[s.len() - 1] != '.'
    &&& is_domain_pattern(s)
}

/// `first_dot` is within the string, nothing before it is a `.`, and it is
/// one unless it is the length.
pub proof fn lemma_first_dot(s: Seq<char>)
    ensures
        0 <= first_dot(s) <= s.len(),
        forall|i: int| 0 <= i < first_dot(s) ==> #[trigger] s[i] != '.',
        first_dot(s) < s.len() ==> s[first_dot(s)] == '.',
    decreases s.len(),
{
    if s.len() == 0 || s[0] == '.' {
    } else {
        let t = s.drop_first();
        lemma_first_dot(t);
        assert forall|i: int| 0 <= i < first_dot(s) implies #[trigger] s[i] != '.' by {
            if i > 0 {
                assert(s[i] == t[i - 1]);
            }
        }
    }
}

/// A position with no `.` before it, which is the end or holds a `.`, is the
/// first dot.
pub proof fn lemma_first_dot_is(s: Seq<char>, k: int)
    requires
        0 <= k <= s.len(),
        forall|i: int| 0 <= i < k ==> #[trigger] s[i] != '.',
        k < s.len() ==> s[k] == '.',
    ensures
        first_dot(s) == k,
{
    lemma_first_dot(s);
    let n = first_dot(s);
    if n < k {
        assert(s[n] == '.');
    } else if k < n {
        assert(s[k] == '.');
    }
}

/// Every character of a string that matches the pattern is a label character
/// or a `.`; so the string is ASCII.
pub proof fn lemma_pattern_chars(s: Seq<char>)
    requires
        is_domain_pattern(s),
    ensures
        forall|i: int| 0 <= i < s.len() ==> is_label_char(#[trigger] s[i]) || s[i] == '.',
    decreases s.len(),
{
    lemma_first_dot(s);
    let n = first_dot(s);
    let head = s.take(n);
    let rest = s.skip(n + 1);
    if !is_final_label(rest) {
        lemma_pattern_chars(rest);
    }
    assert forall|i: int| 0 <= i < s.len() implies is_label_char(#[trigger] s[i]) || s[i]
        == '.' by {
        if i < n {
            assert(s[i] == head[i]);
        } else if i > n {
            assert(s[i] == rest[i - n - 1]);
        }
    }
}

/// No `.` next to a `-` and no `.` next to a `.` at positions `i` and
/// `i + 1`.
pub open spec fn dot_stands_alone(s: Seq<char>, i: int) -> bool {
    !hyphen_meets_dot(s, i) && !(s[i] == '.' && s[i + 1] == '.')
}

/// A string that matches the pattern starts with a character that may open
/// a label and ends with a letter or a digit, and no `.` in it stands next
/// to a `-` or to another `.`. So it does not start or end with a `.`, and
/// it does not end with a `*`.
pub proof fn lemma_pattern_edges(s: Seq<char>)
    requires
        is_domain_pattern(s),
    ensures
        s.len() >= 3,
        is_edge_char(s[0]),
        is_alnum(s[s.len() - 1]),
        forall|i: int| 0 <= i < s.len() - 1 ==> #[trigger] dot_stands_alone(s, i),
    decreases s.len(),
{
    lemma_first_dot(s);
    let n = first_dot(s);
    let head = s.take(n);
    let rest = s.skip(n + 1);
    assert(head[0] == s[0]);
    assert(head[n - 1] == s[n - 1]);
    if !is_final_label(rest) {
        lemma_pattern_edges(rest);
    }
    assert(rest[0] == s[n + 1]);
    assert(rest[rest.len() - 1] == s[s.len() - 1]);
    assert forall|i: int| 0 <= i < s.len() - 1 implies #[trigger] dot_stands_alone(s, i) by {
        if i + 1 < n {
            assert(s[i] == head[i] && s[i + 1] == head[i + 1]);
        } else if i > n {
            assert(s[i] == rest[i - n - 1] && s[i + 1] == rest[i - n]);
            if !is_final_label(rest) {
                assert(dot_stands_alone(rest, i - n - 1));
            }
        }
    }
}

/// Of the rules, the pattern, the length and the rule on a leading `*`
/// decide: what the other rules exclude, the pattern excludes too.
pub proof fn lemma_valid_by_pattern(s: Seq<char>)
    ensures
        domain_valid(s) <==> {
            &&& is_domain_pattern(s)
            &&& s.len() <= MAX_DOMAIN_LEN
            &&& s[0] == '*' ==> s[1] == '.'
        },
{
    if is_domain_pattern(s) {
        lemma_pattern_edges(s);
        assert forall|i: int| 0 <= i < s.len() - 1 implies !#[trigger] hyphen_meets_dot(s, i) by {
            assert(dot_stands_alone(s, i));
        }
    }
}

/// A valid domain is made of ASCII letters, digits, `-`, `_`, `*` and `.`,
/// and has at least one `.`. So it fits on a line.
pub proof fn lemma_valid_chars(s: Seq<char>)
    requires
        domain_valid(s),
    ensures
        forall|i: int| 0 <= i < s.len() ==> is_label_char(#[trigger] s[i]) || s[i] == '.',
        exists|i: int| 0 <= i < s.len() && s[i] == '.',
        is_line(s),
{
    lemma_pattern_chars(s);
    lemma_first_dot(s);
    assert(s[first_dot(s)] == '.');
}

/// The characters that a run of ASCII bytes stands for.
pub open spec fn ascii_text(bytes: Seq<u8>) -> Seq<char> {
    Seq::new(bytes.len(), |i: int| bytes[i] as char)
}

fn byte_is_alnum(b: u8) -> (r: bool)
    ensures
        r == is_alnum(b as char),
{
    (b >= 97 && b <= 122) || (b >= 65 && b <= 90) || (b >= 48 && b <= 57)
}

fn byte_is_edge(b: u8) -> (r: bool)
    ensures
        r == is_edge_char(b as char),
{
    byte_is_alnum(b) || b == 95 || b == 42
}

fn byte_is_final(b: u8) -> (r: bool)
    ensures
        r == is_final_char(b as char),
{
    byte_is_alnum(b) || b == 45
}

/// Whether `bytes[from..to]` is a label other than the last.
fn label_ok(bytes: &[u8], from: usize, to: usize) -> (r: bool)
    requires
        from <= to <= bytes.len(),
    ensures
        r == is_label(ascii_text(bytes@).subrange(from as int, to as int)),
{
    let ghost l = ascii_text(bytes@).subrange(from as int, to as int);
    if to - from < 1 || to - from > MAX_LABEL_LEN {
        return false;
    }
    if !byte_is_edge(bytes[from]) || !byte_is_edge(bytes[to - 1]) {
        assert(l[0] == bytes[from as int] as char);
        assert(l[l.len() - 1] == bytes[to - 1] as char);
        return false;
    }
    let mut i: usize = from;
    while i < to
        invariant
            from <= i <= to <= bytes.len(),
            l == ascii_text(bytes@).subrange(from as int, to as int),
            forall|k: int| 0 <= k < i - from ==> is_label_char(#[trigger] l[k]),
        decreases to - i,
    {
        let b = bytes[i];
        assert(l[i - from] == b as char);
        if !(byte_is_edge(b) || b == 45) {
            return false;
        }
        i += 1;
    }
    assert(l[0] == bytes[from as int] as char);
    assert(l[l.len() - 1] == bytes[to - 1] as char);
    true
}

/// Whether `bytes[from..to]` is a last label.
fn final_label_ok(bytes: &[u8], from: usize, to: usize) -> (r: bool)
    requires
        from <= to <= bytes.len(),
    ensures
        r == is_final_label(ascii_text(bytes@).subrange(from as int, to as int)),
{
    let ghost l = ascii_text(bytes@).subrange(from as int, to as int);
    if to - from < 1 || to - from > MAX_LABEL_LEN {
        return false;
    }
    if !byte_is_alnum(bytes[from]) || !byte_is_alnum(bytes[to - 1]) {
        assert(l[0] == bytes[from as int] as char);
        assert(l[l.len() - 1] == bytes[to - 1] as char);
        return false;
    }
    let mut i: usize = from;
    while i < to
        invariant
            from <= i <= to <= bytes.len(),
            l == ascii_text(bytes@).subrange(from as int, to as int),
            forall|k: int| 0 <= k < i - from ==> is_final_char(#[trigger] l[k]),
        decreases to - i,
    {
        let b = bytes[i];
        assert(l[i - from] == b as char);
        if !byte_is_final(b) {
            return false;
        }
        i += 1;
    }
    assert(l[0] == bytes[from as int] as char);
    assert(l[l.len() - 1] == bytes[to - 1] as char);
    true
}

/// What is left to decide once the labels before `s` have been accepted:
/// after a first `.` the rest may be the last label.
spec fn rest_matches(s: Seq<char>, after_dot: bool) -> bool {
    (after_dot && is_final_label(s)) || is_domain_pattern(s)
}

/// At a `.` the question splits into the label before it and the rest
/// after it.
proof fn lemma_rest_at_dot(s: Seq<char>, start: int, dot: int, after_dot: bool)
    requires
        0 <= start <= dot < s.len(),
        s[dot] == '.',
        forall|i: int| start <= i < dot ==> #[trigger] s[i] != '.',
    ensures
        rest_matches(s.skip(start), after_dot) == (is_label(s.subrange(start, dot))
            && rest_matches(s.skip(dot + 1), true)),
{
    let t = s.skip(start);
    let k = dot - start;
    assert forall|i: int| 0 <= i < k implies #[trigger] t[i] != '.' by {
        assert(t[i] == s[start + i]);
    }
    lemma_first_dot_is(t, k);
    assert(t.take(k) =~= s.subrange(start, dot));
    assert(t.skip(k + 1) =~= s.skip(dot + 1));
    assert(!is_final_char(t[k]));
}

/// With no `.` left, what remains must be the last label.
proof fn lemma_rest_without_dot(s: Seq<char>, start: int, after_dot: bool)
    requires
        0 <= start <= s.len(),
        forall|i: int| start <= i < s.len() ==> #[trigger] s[i] != '.',
    ensures
        rest_matches(s.skip(start), after_dot) == (after_dot && is_final_label(
            s.subrange(start, s.len() as int),
        )),
{
    let t = s.skip(start);
    assert forall|i: int| 0 <= i < t.len() implies #[trigger] t[i] != '.' by {
        assert(t[i] == s[start + i]);
    }
    lemma_first_dot_is(t, t.len() as int);
    assert(t =~= s.subrange(start, s.len() as int));
}

/// Whether the ASCII bytes match the structural pattern.
fn pattern_ok(bytes: &[u8]) -> (r: bool)
    ensures
        r == is_domain_pattern(ascii_text(bytes@)),
{
    let ghost s = ascii_text(bytes@);
    let n = bytes.len();
    let mut start: usize = 0;
    let mut after_dot = false;
    let mut i: usize = 0;
    assert(s.skip(0) =~= s);
    while i < n
        invariant
            start <= i <= n,
            n == bytes.len(),
            s == ascii_text(bytes@),
            forall|k: int| start <= k < i ==> #[trigger] s[k] != '.',
            is_domain_pattern(s) == rest_matches(s.skip(start as int), after_dot),
        decreases n - i,
    {
        if bytes[i] == 46 {
            proof {
                lemma_rest_at_dot(s, start as int, i as int, after_dot);
            }
            if !label_ok(bytes, start, i) {
                return false;
            }
            start = i + 1;
            after_dot = true;
        }
        i += 1;
    }
    proof {
        lemma_rest_without_dot(s, start as int, after_dot);
    }
    after_dot && final_label_ok(bytes, start, n)
}

/// Whether a `.` and a `-` stand side by side anywhere in the bytes.
fn hyphen_next_to_dot(bytes: &[u8]) -> (r: bool)
    ensures
        r == exists|i: int|
            0 <= i < bytes.len() - 1 && #[trigger] hyphen_meets_dot(ascii_text(bytes@), i),
{
    let ghost s = ascii_text(bytes@);
    let n = bytes.len();
    if n < 2 {
        return false;
    }
    let mut i: usize = 0;
    while i < n - 1
        invariant
            i <= n - 1,
            n == bytes.len(),
            n >= 2,
            s == ascii_text(bytes@),
            forall|k: int| 0 <= k < i ==> !#[trigger] hyphen_meets_dot(s, k),
        decreases n - i,
    {
        let a = bytes[i];
        let b = bytes[i + 1];
        if (a == 46 && b == 45) || (a == 45 && b == 46) {
            assert(hyphen_meets_dot(s, i as int));
            return true;
        }
        i += 1;
    }
    false
}

/// Says whether `domain` is an acceptable domain name or wildcard pattern.
///
/// The answer depends on the characters of the string alone, so asking twice
/// about the same string gives the same answer.
pub fn is_valid_domain(domain: &str) -> (valid: bool)
    ensures
        valid == domain_valid(domain@),
{
    if !domain.is_ascii() {
        proof {
            if is_domain_pattern(domain@) {
                lemma_pattern_chars(domain@);
            }
        }
        return false;
    }
    let bytes = domain.as_bytes();
    proof {
        vstd::utf8::is_ascii_chars_encode_utf8(domain@);
        assert(ascii_text(bytes@) =~= domain@);
    }
    let n = bytes.len();
    if n == 0 || n > MAX_DOMAIN_LEN {
        return false;
    }
    if bytes[0] == 42 && !(n >= 2 && bytes[1] == 46) {
        return false;
    }
    if bytes[n - 1] == 42 {
        return false;
    }
    if hyphen_next_to_dot(bytes) || bytes[0] == 46 || bytes[n - 1] == 46 {
        return false;
    }
    pattern_ok(bytes)
}

} // verus!
