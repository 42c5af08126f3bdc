//! Words of a line: the pieces between runs of ASCII whitespace.

use vstd::prelude::*;
use vstd::string::{StrSliceExecFns, StringExecFns};

verus! {

/// Whether `c` is ASCII whitespace: space, tab, line feed, form feed or
/// carriage return.
pub open spec fn is_space(c: char) -> bool {
    c == ' ' || c == '\t' || c == '\n' || c == '\x0C' || c == '\r'
}

/// The first position from `i` on that holds no whitespace, or the length of
/// `s` if there is none.
pub open spec fn skip_spaces(s: Seq<char>, i: int) -> int
    decreases s.len() - i,
{
    if i >= s.len() || !is_space(s[i]) {
        i
    } else {
        skip_spaces(s, i + 1)
    }
}

/// The first position from `i` on that holds whitespace, or the length of `s`
/// if there is none.
pub open spec fn skip_word(s: Seq<char>, i: int) -> int
    decreases s.len() - i,
{
    if i >= s.len() || is_space(s[i]) {
        i
    } else {
        skip_word(s, i + 1)
    }
}

/// Where word number `k` of `s` begins and where it ends. A word that begins
/// at the length of `s` does not exist.
pub open spec fn word_bounds(s: Seq<char>, k: nat) -> (int, int)
    decreases k,
{
    let from = if k == 0 {
        0
    } else {
        word_bounds(s, (k - 1) as nat).1
    };
    let begin = skip_spaces(s, from);
    (begin, skip_word(s, begin))
}

/// Word number `k` of `s`, counted from 0, if `s` has that many words.
pub open spec fn word(s: Seq<char>, k: nat) -> Option<Seq<char>> {
    let (begin, end) = word_bounds(s, k);
    if begin < s.len() {
        Some(s.subrange(begin, end))
    } else {
        None
    }
}

pub fn is_space_char(c: char) -> (b: bool)
    ensures
        b == is_space(c),
{
    c == ' ' || c == '\t' || c == '\n' || c == '\x0C' || c == '\r'
}

/// Finds the next word of `s` from position `from` on: where it begins and
/// where it ends.
pub fn next_word(s: &str, from: usize) -> (bounds: (usize, usize))
    requires
        from <= s@.len(),
    ensures
        bounds.0 == skip_spaces(s@, from as int),
        bounds.1 == skip_word(s@, bounds.0 as int),
        from <= bounds.0 <= bounds.1 <= s@.len(),
        bounds.0 < s@.len() ==> bounds.0 < bounds.1,
{
    let len = s.unicode_len();
    let mut begin: usize = from;
    while begin < len && is_space_char(s.get_char(begin))
        invariant
            from <= begin <= len,
            len == s@.len(),
            skip_spaces(s@, from as int) == skip_spaces(s@, begin as int),
        decreases len - begin,
    {
        begin += 1;
    }
    let mut end: usize = begin;
    while end < len && !is_space_char(s.get_char(end))
        invariant
            begin <= end <= len,
            len == s@.len(),
            skip_word(s@, begin as int) == skip_word(s@, end as int),
            begin < len ==> !is_space(s@[begin as int]),
        decreases len - end,
    {
        end += 1;
    }
    (begin, end)
}

/// The first two words of `s`, each if it exists.
pub fn first_two_words<'a>(s: &'a str) -> (w: (Option<&'a str>, Option<&'a str>))
    ensures
        match word(s@, 0) {
            Some(text) => w.0 matches Some(found) && found@ == text,
            None => w.0 is None,
        },
        match word(s@, 1) {
            Some(text) => w.1 matches Some(found) && found@ == text,
            None => w.1 is None,
        },
{
    let len = s.unicode_len();
    let (b0, e0) = next_word(s, 0);
    if b0 >= len {
        assert(skip_spaces(s@, len as int) == len);
        return (None, None);
    }
    let first = s.substring_char(b0, e0);
    let (b1, e1) = next_word(s, e0);
    if b1 >= len {
        return (Some(first), None);
    }
    let second = s.substring_char(b1, e1);
    (Some(first), Some(second))
}

/// The texts of a sequence of strings.
pub open spec fn texts(v: Seq<String>) -> Seq<Seq<char>> {
    Seq::new(v.len(), |i: int| v[i]@)
}

/// The position of the first `sep` in `s`, or the length of `s` if there is
/// none.
pub open spec fn first_index_of(s: Seq<char>, sep: char) -> int
    decreases s.len(),
{
    if s.len() == 0 || s[0] == sep {
        0
    } else {
        1 + first_index_of(s.skip(1), sep)
    }
}

/// The pieces of `s` between its occurrences of `sep`. There is one piece
/// more than there are separators; pieces may be empty.
pub open spec fn split_at(s: Seq<char>, sep: char) -> Seq<Seq<char>>
    decreases s.len(),
{
    let i = first_index_of(s, sep);
    if 0 <= i < s.len() {
        seq![s.take(i)] + split_at(s.skip(i + 1), sep)
    } else {
        seq![s]
    }
}

/// The first separator of a text lies within it or there is none, and no
/// separator precedes it.
pub proof fn lemma_first_index_of(s: Seq<char>, sep: char)
    ensures
        0 <= first_index_of(s, sep) <= s.len(),
        first_index_of(s, sep) < s.len() ==> s[first_index_of(s, sep)] == sep,
        forall|j: int| 0 <= j < first_index_of(s, sep) ==> s[j] != sep,
    decreases s.len(),
{
    if s.len() > 0 && s[0] != sep {
        let rest = s.skip(1);
        lemma_first_index_of(rest, sep);
        assert forall|j: int| 0 <= j < first_index_of(s, sep) implies s[j] != sep by {
            if j > 0 {
                assert(rest[j - 1] == s[j]);
            }
        }
    }
}

/// A position `i` that holds `sep` and has no `sep` before it is the first
/// index of `sep`.
pub proof fn lemma_first_index_is(s: Seq<char>, sep: char, i: int)
    requires
        0 <= i <= s.len(),
        i < s.len() ==> s[i] == sep,
        forall|j: int| 0 <= j < i ==> s[j] != sep,
    ensures
        first_index_of(s, sep) == i,
{
    lemma_first_index_of(s, sep);
    let f = first_index_of(s, sep);
    if f < i {
        assert(s[f] != sep);
    }
}

/// Splits `s` at every `sep`.
pub fn split(s: &str, sep: char) -> (pieces: Vec<String>)
    ensures
        texts(pieces@) == split_at(s@, sep),
        pieces@.len() >= 1,
{
    let len = s.unicode_len();
    let mut pieces: Vec<String> = Vec::new();
    let mut start: usize = 0;
    let mut j: usize = 0;
    proof {
        assert(s@.skip(0) =~= s@);
        assert(texts(pieces@) + split_at(s@, sep) =~= split_at(s@, sep));
    }
    while j < len
        invariant
            start <= j <= len,
            len == s@.len(),
            split_at(s@, sep) == texts(pieces@) + split_at(s@.skip(start as int), sep),
            forall|k: int| start <= k < j ==> s@[k] != sep,
        decreases len - j,
    {
        if s.get_char(j) == sep {
            let piece = String::from_str(s.substring_char(start, j));
            proof {
                let rest = s@.skip(start as int);
                lemma_first_index_is(rest, sep, j - start);
                assert(rest.take(j - start) =~= s@.subrange(start as int, j as int));
                assert(rest.skip(j - start + 1) =~= s@.skip(j + 1));
                assert(texts(pieces@.push(piece)) =~= texts(pieces@) + seq![piece@]);
            }
            pieces.push(piece);
            start = j + 1;
        }
        j += 1;
    }
    let piece = String::from_str(s.substring_char(start, len));
    proof {
        let rest = s@.skip(start as int);
        lemma_first_index_is(rest, sep, len - start);
        assert(rest =~= s@.subrange(start as int, len as int));
        assert(texts(pieces@.push(piece)) =~= texts(pieces@) + seq![piece@]);
    }
    pieces.push(piece);
    pieces
}

/// The lower-case form of an ASCII capital; any other character is left as
/// it is.
pub open spec fn lower(c: char) -> char {
    if 'A' <= c <= 'Z' {
        ((c as u8 + 32) as u8) as char
    } else {
        c
    }
}

/// The capital of a lower-case ASCII letter; any other character is left as
/// it is.
pub open spec fn upper(c: char) -> char {
    if 'a' <= c <= 'z' {
        ((c as u8 - 32) as u8) as char
    } else {
        c
    }
}

pub fn lower_char(c: char) -> (l: char)
    ensures
        l == lower(c),
{
    if 'A' <= c && c <= 'Z' {
        ((c as u8) + 32) as char
    } else {
        c
    }
}

pub fn upper_char(c: char) -> (u: char)
    ensures
        u == upper(c),
{
    if 'a' <= c && c <= 'z' {
        ((c as u8) - 32) as char
    } else {
        c
    }
}

/// A copy of `s` with its ASCII capitals in lower case.
pub fn to_ascii_lowercase(s: &str) -> (out: String)
    ensures
        out@ == s@.map_values(|c: char| lower(c)),
{
    let len = s.unicode_len();
    let mut out = String::new();
    let mut i: usize = 0;
    while i < len
        invariant
            i <= len,
            len == s@.len(),
            out@ == s@.take(i as int).map_values(|c: char| lower(c)),
        decreases len - i,
    {
        out.push(lower_char(s.get_char(i)));
        i += 1;
        assert(out@ =~= s@.take(i as int).map_values(|c: char| lower(c)));
    }
    assert(s@.take(len as int) =~= s@);
    out
}

/// A copy of `s` with its lower-case ASCII letters as capitals.
pub fn to_ascii_uppercase(s: &str) -> (out: String)
    ensures
        out@ == s@.map_values(|c: char| upper(c)),
{
    let len = s.unicode_len();
    let mut out = String::new();
    let mut i: usize = 0;
    while i < len
        invariant
            i <= len,
            len == s@.len(),
            out@ == s@.take(i as int).map_values(|c: char| upper(c)),
        decreases len - i,
    {
        out.push(upper_char(s.get_char(i)));
        i += 1;
        assert(out@ =~= s@.take(i as int).map_values(|c: char| upper(c)));
    }
    assert(s@.take(len as int) =~= s@);
    out
}

/// Whether `c` is white space in the sense of Unicode.
pub open spec fn is_whitespace(c: char) -> bool {
    ||| '\u{9}' <= c <= '\u{D}'
    ||| c == ' '
    ||| c == '\u{85}'
    ||| c == '\u{A0}'
    ||| c == '\u{1680}'
    ||| '\u{2000}' <= c <= '\u{200A}'
    ||| c == '\u{2028}'
    ||| c == '\u{2029}'
    ||| c == '\u{202F}'
    ||| c == '\u{205F}'
    ||| c == '\u{3000}'
}

pub fn is_whitespace_char(c: char) -> (b: bool)
    ensures
        b == is_whitespace(c),
{
    ('\u{9}' <= c && c <= '\u{D}') || c == ' ' || c == '\u{85}' || c == '\u{A0}' || c
        == '\u{1680}' || ('\u{2000}' <= c && c <= '\u{200A}') || c == '\u{2028}' || c
        == '\u{2029}' || c == '\u{202F}' || c == '\u{205F}' || c == '\u{3000}'
}

/// The first position of `s` from `i` on that holds no white space, or the
/// length of `s` if there is none.
pub open spec fn trim_begin(s: Seq<char>, i: int) -> int
    decreases s.len() - i,
{
    if i >= s.len() || !is_whitespace(s[i]) {
        i
    } else {
        trim_begin(s, i + 1)
    }
}

/// The position behind the last character of `s` before `i` that is no
/// white space, or 0 if there is none.
pub open spec fn trim_end(s: Seq<char>, i: int) -> int
    decreases i,
{
    if i <= 0 || !is_whitespace(s[i - 1]) {
        i
    } else {
        trim_end(s, i - 1)
    }
}

/// `s` without the white space at its two ends.
pub open spec fn trimmed(s: Seq<char>) -> Seq<char> {
    let begin = trim_begin(s, 0);
    let end = trim_end(s, s.len() as int);
    if begin < end {
        s.subrange(begin, end)
    } else {
        Seq::empty()
    }
}

/// What trimming cuts off is white space.
pub proof fn lemma_trim_bounds(s: Seq<char>, from: int, to: int)
    requires
        0 <= from <= s.len(),
        0 <= to <= s.len(),
    ensures
        from <= trim_begin(s, from) <= s.len(),
        0 <= trim_end(s, to) <= to,
        forall|i: int| from <= i < trim_begin(s, from) ==> is_whitespace(#[trigger] s[i]),
        forall|i: int| trim_end(s, to) <= i < to ==> is_whitespace(#[trigger] s[i]),
        trim_begin(s, from) < s.len() ==> !is_whitespace(s[trim_begin(s, from)]),
        trim_end(s, to) > 0 ==> !is_whitespace(s[trim_end(s, to) - 1]),
    decreases s.len() - from + to,
{
    if from < s.len() && is_whitespace(s[from]) {
        lemma_trim_bounds(s, from + 1, 0);
    }
    if to > 0 && is_whitespace(s[to - 1]) {
        lemma_trim_bounds(s, s.len() as int, to - 1);
    }
}

/// Cuts the white space off both ends of `s`.
pub fn trim<'a>(s: &'a str) -> (t: &'a str)
    ensures
        t@ == trimmed(s@),
{
    let len = s.unicode_len();
    let mut begin: usize = 0;
    while begin < len && is_whitespace_char(s.get_char(begin))
        invariant
            begin <= len,
            len == s@.len(),
            trim_begin(s@, 0) == trim_begin(s@, begin as int),
        decreases len - begin,
    {
        begin += 1;
    }
    let mut end: usize = len;
    while end > begin && is_whitespace_char(s.get_char(end - 1))
        invariant
            begin <= end <= len,
            len == s@.len(),
            begin == trim_begin(s@, 0),
            trim_end(s@, len as int) == trim_end(s@, end as int),
        decreases end,
    {
        end -= 1;
    }
    proof {
        lemma_trim_bounds(s@, 0, end as int);
        if end == begin {
            // Everything before `begin` is white space, so the end of the
            // trimmed text does not lie behind `begin`.
            assert(trim_end(s@, end as int) <= begin);
            assert(s@.subrange(begin as int, end as int) =~= Seq::<char>::empty());
        }
    }
    s.substring_char(begin, end)
}

} // verus!
