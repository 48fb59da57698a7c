//! Operations on text seen as a sequence of characters.
//!
//! The executable functions work on slices of `char`; the specification
//! functions beside them say what each result is as a `Seq<char>`.

use vstd::prelude::*;
use vstd::slice::slice_subrange;
use vstd::utf8::{encode_utf8, encode_utf8_first_scalar};

verus! {

/// Whether a character has the Unicode property White_Space.
pub open spec fn white_space(c: char) -> bool {
    ||| '\u{9}' <= c <= '\u{d}'
    ||| c == ' '
    ||| c == '\u{85}'
    ||| c == '\u{a0}'
    ||| c == '\u{1680}'
    ||| '\u{2000}' <= c <= '\u{200a}'
    ||| c == '\u{2028}'
    ||| c == '\u{2029}'
    ||| c == '\u{202f}'
    ||| c == '\u{205f}'
    ||| c == '\u{3000}'
}

/// `char::is_whitespace` answers whether the character has the Unicode
/// property White_Space.
pub assume_specification[ char::is_whitespace ](c: char) -> (b: bool)
    ensures
        b == white_space(c),
;

/// `String::push` appends one character.
pub assume_specification[ String::push ](s: &mut String, c: char)
    ensures
        final(s)@ == old(s)@.push(c),
;

/// The position of the first `c` in `s`.
pub open spec fn char_pos(s: Seq<char>, c: char) -> Option<int>
    decreases s.len(),
{
    if s.len() == 0 {
        None
    } else if s[0] == c {
        Some(0)
    } else {
        match char_pos(s.skip(1), c) {
            Some(i) => Some(i + 1),
            None => None,
        }
    }
}

/// `w` stands in `s` at position `i`.
pub open spec fn word_at(s: Seq<char>, w: Seq<char>, i: int) -> bool {
    0 <= i && i + w.len() <= s.len() && s.subrange(i, i + w.len()) == w
}

/// `w` stands somewhere in `s`.
pub open spec fn has_word(s: Seq<char>, w: Seq<char>) -> bool {
    exists|i: int| word_at(s, w, i)
}

/// The position of the first `w` in `s`.
pub open spec fn word_pos(s: Seq<char>, w: Seq<char>) -> Option<int>
    decreases s.len(),
{
    if word_at(s, w, 0) {
        Some(0)
    } else if s.len() == 0 {
        None
    } else {
        match word_pos(s.skip(1), w) {
            Some(i) => Some(i + 1),
            None => None,
        }
    }
}

/// `s` without the copies of `c` that it starts with.
pub open spec fn without_leading(s: Seq<char>, c: char) -> Seq<char>
    decreases s.len(),
{
    if s.len() > 0 && s[0] == c {
        without_leading(s.skip(1), c)
    } else {
        s
    }
}

/// `s` without the copies of `c` that it ends with.
pub open spec fn without_trailing(s: Seq<char>, c: char) -> Seq<char>
    decreases s.len(),
{
    if s.len() > 0 && s.last() == c {
        without_trailing(s.drop_last(), c)
    } else {
        s
    }
}

/// `s` without the white space that it starts with.
pub open spec fn trimmed_start(s: Seq<char>) -> Seq<char>
    decreases s.len(),
{
    if s.len() > 0 && white_space(s[0]) {
        trimmed_start(s.skip(1))
    } else {
        s
    }
}

/// `s` without the white space that it ends with.
pub open spec fn trimmed_end(s: Seq<char>) -> Seq<char>
    decreases s.len(),
{
    if s.len() > 0 && white_space(s.last()) {
        trimmed_end(s.drop_last())
    } else {
        s
    }
}

/// `s` without the white space at its two ends.
pub open spec fn trimmed(s: Seq<char>) -> Seq<char> {
    trimmed_end(trimmed_start(s))
}

/// `s` with each `from` replaced by `to`, from left to right and without overlap.
pub open spec fn replaced(s: Seq<char>, from: Seq<char>, to: Seq<char>) -> Seq<char>
    decreases s.len(),
{
    if s.len() == 0 || from.len() == 0 {
        s
    } else if word_at(s, from, 0) {
        to + replaced(s.skip(from.len() as int), from, to)
    } else {
        seq![s[0]] + replaced(s.skip(1), from, to)
    }
}

/// The pieces of `s` between the copies of `c`.
pub open spec fn pieces(s: Seq<char>, c: char) -> Seq<Seq<char>>
    decreases s.len(),
{
    match char_pos(s, c) {
        Some(i) => if 0 <= i < s.len() {
            seq![s.take(i)] + pieces(s.skip(i + 1), c)
        } else {
            seq![s]
        },
        None => seq![s],
    }
}

/// One line without the carriage return before its line feed.
pub open spec fn without_return(s: Seq<char>) -> Seq<char> {
    if s.len() > 0 && s.last() == '\r' {
        s.drop_last()
    } else {
        s
    }
}

/// The lines of `s`: each ends in a line feed, with or without a carriage
/// return before it; what follows the last line feed is a line if not empty.
pub open spec fn lines_of(s: Seq<char>) -> Seq<Seq<char>>
    decreases s.len(),
{
    if s.len() == 0 {
        Seq::empty()
    } else {
        match char_pos(s, '\n') {
            Some(i) => if 0 <= i < s.len() {
                seq![without_return(s.take(i))] + lines_of(s.skip(i + 1))
            } else {
                seq![s]
            },
            None => seq![s],
        }
    }
}

/// The lower-case form of an ASCII letter; any other character as it is.
pub open spec fn ascii_lower(c: char) -> char {
    if 'A' <= c && c <= 'Z' {
        (c as u32 + 32) as char
    } else {
        c
    }
}

/// `s` with its ASCII letters in lower case.
pub open spec fn ascii_lowered(s: Seq<char>) -> Seq<char> {
    s.map_values(|c: char| ascii_lower(c))
}

/// The upper-case form of an ASCII letter; any other character as it is.
pub open spec fn ascii_upper(c: char) -> char {
    if 'a' <= c && c <= 'z' {
        (c as u32 - 32) as char
    } else {
        c
    }
}

/// `s` with its ASCII letters in upper case.
pub open spec fn ascii_uppered(s: Seq<char>) -> Seq<char> {
    s.map_values(|c: char| ascii_upper(c))
}

pub proof fn lemma_char_pos(s: Seq<char>, c: char)
    ensures
        match char_pos(s, c) {
            Some(i) => 0 <= i < s.len() && s[i] == c && (forall|j: int|
                0 <= j < i ==> s[j] != c),
            None => forall|j: int| 0 <= j < s.len() ==> s[j] != c,
        },
    decreases s.len(),
{
    if s.len() > 0 && s[0] != c {
        lemma_char_pos(s.skip(1), c);
        let t = s.skip(1);
        assert forall|j: int| 1 <= j < s.len() implies s[j] == t[j - 1] by {}
    }
}

pub proof fn lemma_char_pos_is(s: Seq<char>, c: char, i: int)
    requires
        0 <= i < s.len(),
        s[i] == c,
        forall|j: int| 0 <= j < i ==> s[j] != c,
    ensures
        char_pos(s, c) == Some(i),
{
    lemma_char_pos(s, c);
    let k = char_pos(s, c)->0;
    assert(s[i] == c);
    assert(s[k] == c);
}

pub proof fn lemma_char_pos_none(s: Seq<char>, c: char)
    requires
        forall|j: int| 0 <= j < s.len() ==> s[j] != c,
    ensures
        char_pos(s, c) is None,
{
    lemma_char_pos(s, c);
}

pub proof fn lemma_word_at_skip(s: Seq<char>, w: Seq<char>, i: int)
    requires
        s.len() > 0,
        i >= 0,
    ensures
        word_at(s.skip(1), w, i) == word_at(s, w, i + 1),
{
    if i + 1 + w.len() <= s.len() {
        assert(s.skip(1).subrange(i, i + w.len()) =~= s.subrange(i + 1, i + 1 + w.len()));
    }
}

pub proof fn lemma_word_pos(s: Seq<char>, w: Seq<char>)
    ensures
        match word_pos(s, w) {
            Some(i) => word_at(s, w, i) && (forall|j: int| 0 <= j < i ==> !word_at(s, w, j)),
            None => !has_word(s, w),
        },
    decreases s.len(),
{
    if !word_at(s, w, 0) && s.len() > 0 {
        lemma_word_pos(s.skip(1), w);
        assert forall|j: int| j >= 1 implies word_at(s, w, j) == word_at(s.skip(1), w, j - 1) by {
            lemma_word_at_skip(s, w, j - 1);
        }
        if word_pos(s.skip(1), w) is None {
            assert forall|j: int| !word_at(s, w, j) by {
                if j >= 1 {
                    assert(!word_at(s.skip(1), w, j - 1));
                }
            }
        }
    }
}

pub proof fn lemma_word_pos_is(s: Seq<char>, w: Seq<char>, i: int)
    requires
        word_at(s, w, i),
        forall|j: int| 0 <= j < i ==> !word_at(s, w, j),
    ensures
        word_pos(s, w) == Some(i),
{
    lemma_word_pos(s, w);
    let k = word_pos(s, w)->0;
    assert(word_at(s, w, k));
}

/// Trimming gives the part of the text between two positions, with nothing but
/// white space before the first and from the second on, and no white space at
/// its own ends.
pub proof fn lemma_trimmed(s: Seq<char>) -> (range: (int, int))
    ensures
        0 <= range.0 <= range.1 <= s.len(),
        trimmed(s) == s.subrange(range.0, range.1),
        forall|i: int| 0 <= i < range.0 ==> white_space(#[trigger] s[i]),
        forall|i: int| range.1 <= i < s.len() ==> white_space(#[trigger] s[i]),
        range.0 < range.1 ==> !white_space(s[range.0]) && !white_space(s[range.1 - 1]),
{
    let t = trimmed_start(s);
    let a = s.len() - t.len();
    let b = a + trimmed(s).len();
    lemma_trimmed_start(s);
    lemma_trimmed_end(t);
    assert(trimmed(s) =~= s.subrange(a, b));
    assert forall|i: int| b <= i < s.len() implies white_space(#[trigger] s[i]) by {
        assert(s[i] == t[i - a]);
    }
    if a < b {
        assert(s[a] == t[0]);
        assert(s[b - 1] == t[b - 1 - a]);
    }
    (a, b)
}

proof fn lemma_trimmed_start(s: Seq<char>)
    ensures
        trimmed_start(s).len() <= s.len(),
        trimmed_start(s) == s.skip(s.len() - trimmed_start(s).len()),
        forall|i: int|
            0 <= i < s.len() - trimmed_start(s).len() ==> white_space(#[trigger] s[i]),
        trimmed_start(s).len() > 0 ==> !white_space(trimmed_start(s)[0]),
    decreases s.len(),
{
    if s.len() > 0 && white_space(s[0]) {
        let rest = s.skip(1);
        lemma_trimmed_start(rest);
        assert forall|i: int| 0 <= i < s.len() - trimmed_start(s).len() implies white_space(
            #[trigger] s[i],
        ) by {
            if i > 0 {
                assert(s[i] == rest[i - 1]);
            }
        }
    }
    assert(trimmed_start(s) =~= s.skip(s.len() - trimmed_start(s).len()));
}

proof fn lemma_trimmed_end(s: Seq<char>)
    ensures
        trimmed_end(s).len() <= s.len(),
        trimmed_end(s) == s.take(trimmed_end(s).len() as int),
        forall|i: int| trimmed_end(s).len() <= i < s.len() ==> white_space(#[trigger] s[i]),
        trimmed_end(s).len() > 0 ==> !white_space(trimmed_end(s).last()),
    decreases s.len(),
{
    if s.len() > 0 && white_space(s.last()) {
        let rest = s.drop_last();
        lemma_trimmed_end(rest);
        assert forall|i: int| trimmed_end(s).len() <= i < s.len() implies white_space(
            #[trigger] s[i],
        ) by {
            if i < s.len() - 1 {
                assert(s[i] == rest[i]);
            }
        }
    }
    assert(trimmed_end(s) =~= s.take(trimmed_end(s).len() as int));
}

/// Parts with `c` between them.
pub open spec fn joined(parts: Seq<Seq<char>>, c: char) -> Seq<char>
    decreases parts.len(),
{
    if parts.len() == 0 {
        Seq::empty()
    } else if parts.len() == 1 {
        parts[0]
    } else {
        parts[0] + seq![c] + joined(parts.skip(1), c)
    }
}

/// Splitting at a character gives back the parts that were joined by it.
pub proof fn law_split_undoes_join(parts: Seq<Seq<char>>, c: char)
    requires
        parts.len() > 0,
        forall|i: int| 0 <= i < parts.len() ==> !(#[trigger] parts[i]).contains(c),
    ensures
        pieces(joined(parts, c), c) == parts,
    decreases parts.len(),
{
    let s = joined(parts, c);
    let first = parts[0];
    assert forall|j: int| 0 <= j < first.len() implies first[j] != c by {}
    if parts.len() == 1 {
        lemma_char_pos_none(s, c);
        assert(pieces(s, c) =~= parts);
    } else {
        let rest = parts.skip(1);
        let n = first.len() as int;
        assert forall|i: int| 0 <= i < rest.len() implies !(#[trigger] rest[i]).contains(c) by {
            assert(rest[i] == parts[i + 1]);
        }
        law_split_undoes_join(rest, c);
        assert(s[n] == c);
        assert forall|j: int| 0 <= j < n implies s[j] != c by {
            assert(s[j] == first[j]);
        }
        lemma_char_pos_is(s, c, n);
        assert(s.take(n) =~= first);
        assert(s.skip(n + 1) =~= joined(rest, c));
        assert(seq![first] + rest =~= parts);
    }
}

/// Joined parts hold a character only where a part does or it joins them.
pub proof fn lemma_joined_free(parts: Seq<Seq<char>>, c: char, d: char)
    requires
        c != d,
        forall|i: int| 0 <= i < parts.len() ==> !(#[trigger] parts[i]).contains(d),
    ensures
        !joined(parts, c).contains(d),
    decreases parts.len(),
{
    if parts.len() > 1 {
        let rest = parts.skip(1);
        assert forall|i: int| 0 <= i < rest.len() implies !(#[trigger] rest[i]).contains(d) by {
            assert(rest[i] == parts[i + 1]);
        }
        lemma_joined_free(rest, c, d);
        let s = joined(parts, c);
        let n = parts[0].len() as int;
        assert forall|j: int| 0 <= j < s.len() implies s[j] != d by {
            if j < n {
                assert(s[j] == parts[0][j]);
            } else if j > n {
                assert(s[j] == joined(rest, c)[j - n - 1]);
            }
        }
    }
}

/// The characters of a string.
pub fn chars_of(s: &str) -> (v: Vec<char>)
    ensures
        v@ == s@,
{
    let mut v: Vec<char> = Vec::new();
    for c in it: s.chars()
        invariant
            it.seq() == s@,
            v@ == s@.take(it.index() as int),
    {
        proof {
            assert(s@.take(it.index() as int).push(c) =~= s@.take(it.index() + 1));
        }
        v.push(c);
    }
    assert(s@.take(s@.len() as int) =~= s@);
    v
}

/// The string of the given characters.
pub fn string_of(s: &[char]) -> (r: String)
    ensures
        r@ == s@,
{
    let mut r = String::new();
    let mut i: usize = 0;
    while i < s.len()
        invariant
            i <= s@.len(),
            r@ == s@.take(i as int),
        decreases s@.len() - i,
    {
        r.push(s[i]);
        i += 1;
        assert(s@.take(i as int) =~= s@.take(i - 1).push(s@[i - 1]));
    }
    assert(s@.take(s@.len() as int) =~= s@);
    r
}

/// Whether two texts hold the same characters.
pub fn same(a: &[char], b: &[char]) -> (r: bool)
    ensures
        r == (a@ == b@),
{
    if a.len() != b.len() {
        return false;
    }
    let mut i: usize = 0;
    while i < a.len()
        invariant
            i <= a@.len(),
            a@.len() == b@.len(),
            forall|j: int| 0 <= j < i ==> a@[j] == b@[j],
        decreases a@.len() - i,
    {
        if a[i] != b[i] {
            return false;
        }
        i += 1;
    }
    assert(a@ =~= b@);
    true
}

/// Whether two strings hold the same characters.
pub fn same_text(a: &str, b: &str) -> (r: bool)
    ensures
        r == (a@ == b@),
{
    same(chars_of(a).as_slice(), chars_of(b).as_slice())
}

/// Whether a text is exactly the given word.
pub fn is_word(s: &[char], w: &str) -> (r: bool)
    ensures
        r == (s@ == w@),
{
    same(s, chars_of(w).as_slice())
}

/// The position of the first `c`.
pub fn find_char(s: &[char], c: char) -> (r: Option<usize>)
    ensures
        match r {
            Some(i) => i < s.len() && char_pos(s@, c) == Some(i as int),
            None => char_pos(s@, c) is None,
        },
{
    let mut i: usize = 0;
    while i < s.len()
        invariant
            i <= s@.len(),
            forall|j: int| 0 <= j < i ==> s@[j] != c,
        decreases s@.len() - i,
    {
        if s[i] == c {
            proof {
                lemma_char_pos_is(s@, c, i as int);
            }
            return Some(i);
        }
        i += 1;
    }
    proof {
        lemma_char_pos_none(s@, c);
    }
    None
}

/// Whether `w` stands in `s` at position `i`.
pub fn stands_at(s: &[char], w: &[char], i: usize) -> (r: bool)
    ensures
        r == word_at(s@, w@, i as int),
{
    if i > s.len() || w.len() > s.len() - i {
        return false;
    }
    same(slice_subrange(s, i, i + w.len()), w)
}

/// The position of the first `w`.
pub fn find_word(s: &[char], w: &[char]) -> (r: Option<usize>)
    ensures
        match r {
            Some(i) => i + w.len() <= s.len() && word_pos(s@, w@) == Some(i as int) && has_word(
                s@,
                w@,
            ),
            None => word_pos(s@, w@) is None && !has_word(s@, w@),
        },
{
    let mut i: usize = 0;
    while i < s.len() && w.len() <= s.len() - i
        invariant
            i <= s@.len(),
            forall|j: int| 0 <= j < i ==> !word_at(s@, w@, j),
        decreases s@.len() - i,
    {
        if stands_at(s, w, i) {
            proof {
                lemma_word_pos_is(s@, w@, i as int);
            }
            return Some(i);
        }
        i += 1;
    }
    if stands_at(s, w, i) {
        proof {
            lemma_word_pos_is(s@, w@, i as int);
        }
        return Some(i);
    }
    proof {
        lemma_word_pos(s@, w@);
        if word_pos(s@, w@) is Some {
            assert(word_at(s@, w@, word_pos(s@, w@)->0));
        }
    }
    None
}

/// Whether `w` stands somewhere in `s`.
pub fn contains_word(s: &[char], w: &str) -> (r: bool)
    ensures
        r == has_word(s@, w@),
{
    find_word(s, chars_of(w).as_slice()).is_some()
}

/// Whether `s` starts with `w`.
pub fn starts_with_word(s: &[char], w: &str) -> (r: bool)
    ensures
        r == word_at(s@, w@, 0),
{
    stands_at(s, chars_of(w).as_slice(), 0)
}

/// `s` without the copies of `c` that it starts with.
pub fn trim_start_char(s: &[char], c: char) -> (r: &[char])
    ensures
        r@ == without_leading(s@, c),
{
    let mut i: usize = 0;
    assert(s@.skip(0) =~= s@);
    while i < s.len() && s[i] == c
        invariant
            i <= s@.len(),
            without_leading(s@.skip(i as int), c) == without_leading(s@, c),
        decreases s@.len() - i,
    {
        assert(s@.skip(i as int).skip(1) =~= s@.skip(i + 1));
        i += 1;
    }
    slice_subrange(s, i, s.len())
}

/// `s` without the copies of `c` that it ends with.
pub fn trim_end_char(s: &[char], c: char) -> (r: &[char])
    ensures
        r@ == without_trailing(s@, c),
{
    let mut n: usize = s.len();
    assert(s@.take(n as int) =~= s@);
    while n > 0 && s[n - 1] == c
        invariant
            n <= s@.len(),
            without_trailing(s@.take(n as int), c) == without_trailing(s@, c),
        decreases n,
    {
        assert(s@.take(n as int).drop_last() =~= s@.take(n - 1));
        n -= 1;
    }
    slice_subrange(s, 0, n)
}

/// `s` without the white space at its two ends.
pub fn trim(s: &[char]) -> (r: &[char])
    ensures
        r@ == trimmed(s@),
{
    let mut i: usize = 0;
    assert(s@.skip(0) =~= s@);
    while i < s.len() && s[i].is_whitespace()
        invariant
            i <= s@.len(),
            trimmed_start(s@.skip(i as int)) == trimmed_start(s@),
        decreases s@.len() - i,
    {
        assert(s@.skip(i as int).skip(1) =~= s@.skip(i + 1));
        i += 1;
    }
    let t = slice_subrange(s, i, s.len());
    assert(t@ == trimmed_start(s@));
    let mut n: usize = t.len();
    assert(t@.take(n as int) =~= t@);
    while n > 0 && t[n - 1].is_whitespace()
        invariant
            n <= t@.len(),
            trimmed_end(t@.take(n as int)) == trimmed_end(t@),
        decreases n,
    {
        assert(t@.take(n as int).drop_last() =~= t@.take(n - 1));
        n -= 1;
    }
    slice_subrange(t, 0, n)
}

/// `s` with each `from` replaced by `to`.
pub fn replace(s: &[char], from: &[char], to: &[char]) -> (r: Vec<char>)
    requires
        from@.len() > 0,
    ensures
        r@ == replaced(s@, from@, to@),
{
    let mut r: Vec<char> = Vec::new();
    let mut i: usize = 0;
    assert(s@.skip(0) =~= s@);
    assert(r@ + replaced(s@, from@, to@) =~= replaced(s@, from@, to@));
    while i < s.len()
        invariant
            i <= s@.len(),
            from@.len() > 0,
            r@ + replaced(s@.skip(i as int), from@, to@) == replaced(s@, from@, to@),
        decreases s@.len() - i,
    {
        let ghost rest = s@.skip(i as int);
        let ghost before = r@;
        proof {
            if i + from@.len() <= s@.len() {
                assert(rest.subrange(0, from@.len() as int) =~= s@.subrange(
                    i as int,
                    i + from@.len(),
                ));
            }
        }
        if stands_at(s, from, i) {
            let mut k: usize = 0;
            while k < to.len()
                invariant
                    k <= to@.len(),
                    r@ == before + to@.take(k as int),
                decreases to@.len() - k,
            {
                r.push(to[k]);
                k += 1;
                assert(to@.take(k as int) =~= to@.take(k - 1).push(to@[k - 1]));
            }
            assert(to@.take(to@.len() as int) =~= to@);
            assert(rest.skip(from@.len() as int) =~= s@.skip(i + from@.len()));
            assert(r@ + replaced(s@.skip(i + from@.len()), from@, to@) =~= before + (to@
                + replaced(s@.skip(i + from@.len()), from@, to@)));
            i = i + from.len();
        } else {
            r.push(s[i]);
            assert(rest.skip(1) =~= s@.skip(i + 1));
            assert(r@ + replaced(s@.skip(i + 1), from@, to@) =~= before + (seq![rest[0]]
                + replaced(s@.skip(i + 1), from@, to@)));
            i += 1;
        }
    }
    assert(s@.skip(i as int).len() == 0);
    assert(r@ + replaced(s@.skip(i as int), from@, to@) =~= r@);
    r
}

/// The lines of a text.
pub fn lines(s: &[char]) -> (r: Vec<String>)
    ensures
        r.deep_view() == lines_of(s@),
{
    let mut r: Vec<String> = Vec::new();
    let mut rest = s;
    assert(r.deep_view() + lines_of(rest@) =~= lines_of(s@));
    while rest.len() > 0
        invariant
            r.deep_view() + lines_of(rest@) == lines_of(s@),
        decreases rest@.len(),
    {
        let ghost before = r.deep_view();
        let ghost whole = rest@;
        match find_char(rest, '\n') {
            Some(i) => {
                let n: usize = if i > 0 && rest[i - 1] == '\r' {
                    i - 1
                } else {
                    i
                };
                let line = string_of(slice_subrange(rest, 0, n));
                assert(line@ =~= without_return(whole.take(i as int)));
                r.push(line);
                rest = slice_subrange(rest, i + 1, rest.len());
                assert(rest@ =~= whole.skip(i + 1));
                assert(r.deep_view() =~= before.push(line@));
                assert(r.deep_view() + lines_of(rest@) =~= before + lines_of(whole));
            },
            None => {
                let line = string_of(rest);
                r.push(line);
                rest = slice_subrange(rest, rest.len(), rest.len());
                assert(r.deep_view() =~= before.push(line@));
                assert(r.deep_view() + lines_of(rest@) =~= before + lines_of(whole));
            },
        }
    }
    assert(r.deep_view() =~= r.deep_view() + lines_of(rest@));
    r
}

/// A text has no bytes exactly where it has no characters.
pub proof fn lemma_no_bytes(s: Seq<char>)
    ensures
        encode_utf8(s).len() == 0 <==> s.len() == 0,
{
    if s.len() > 0 {
        encode_utf8_first_scalar(s);
    }
}

/// Whether a string holds no characters.
pub fn is_empty(s: &str) -> (r: bool)
    ensures
        r == (s@.len() == 0),
{
    proof {
        lemma_no_bytes(s@);
    }
    s.as_bytes().len() == 0
}

/// A copy of a text that may be missing.
pub fn copy_text(value: &Option<String>) -> (r: Option<String>)
    ensures
        r.deep_view() == value.deep_view(),
{
    match value {
        Some(s) => Some(s.clone()),
        None => None,
    }
}

/// Two strings one after the other.
pub fn join2(a: &str, b: &str) -> (r: String)
    ensures
        r@ == a@ + b@,
{
    let mut r = String::new();
    r.append(a);
    r.append(b);
    assert(r@ =~= a@ + b@);
    r
}

/// Three strings one after the other.
pub fn join3(a: &str, b: &str, c: &str) -> (r: String)
    ensures
        r@ == a@ + b@ + c@,
{
    let mut r = join2(a, b);
    r.append(c);
    r
}

/// Four strings one after the other.
pub fn join4(a: &str, b: &str, c: &str, d: &str) -> (r: String)
    ensures
        r@ == a@ + b@ + c@ + d@,
{
    let mut r = join3(a, b, c);
    r.append(d);
    r
}

/// One character, `n` times.
pub fn repeated(c: char, n: usize) -> (r: String)
    ensures
        r@ == Seq::new(n as nat, |i: int| c),
{
    let mut r = String::new();
    let mut i: usize = 0;
    while i < n
        invariant
            i <= n,
            r@ == Seq::new(i as nat, |j: int| c),
        decreases n - i,
    {
        r.push(c);
        i += 1;
        assert(r@ =~= Seq::new(i as nat, |j: int| c));
    }
    assert(r@ =~= Seq::new(n as nat, |i: int| c));
    r
}

/// The lines of a text are those of its two parts one after the other, where the
/// first part ends with a line.
pub proof fn law_lines_add_up(first: Seq<char>, second: Seq<char>)
    requires
        first.len() == 0 || first.last() == '\n',
    ensures
        lines_of(first + second) == lines_of(first) + lines_of(second),
    decreases first.len(),
{
    let whole = first + second;
    if first.len() == 0 {
        assert(whole =~= second);
        assert(lines_of(first) + lines_of(second) =~= lines_of(second));
    } else {
        lemma_char_pos(first, '\n');
        assert(first[first.len() - 1] == '\n');
        let i = char_pos(first, '\n')->0;
        assert forall|j: int| 0 <= j < i implies whole[j] != '\n' by {
            assert(whole[j] == first[j]);
        }
        lemma_char_pos_is(whole, '\n', i);
        let rest = first.skip(i + 1);
        if rest.len() > 0 {
            assert(rest.last() == first.last());
        }
        law_lines_add_up(rest, second);
        assert(whole.take(i) =~= first.take(i));
        assert(whole.skip(i + 1) =~= rest + second);
        assert(lines_of(whole) =~= lines_of(first) + lines_of(second));
    }
}

/// A line that is sent on its own is the only one, with either line end; so is
/// a last line without any.
pub proof fn law_one_line_is_one_line(line: Seq<char>)
    requires
        !line.contains('\n'),
    ensures
        lines_of(line + seq!['\r', '\n']) == seq![line],
        line.len() == 0 || line.last() != '\r' ==> lines_of(line + seq!['\n']) == seq![line],
        line.len() > 0 ==> lines_of(line) == seq![line],
        lines_of(Seq::<char>::empty()) == Seq::<Seq<char>>::empty(),
{
    reveal_with_fuel(lines_of, 2);
    let n = line.len() as int;
    let a = line + seq!['\r', '\n'];
    assert forall|j: int| 0 <= j < n implies line[j] != '\n' by {}
    assert forall|j: int| 0 <= j < n + 1 implies a[j] != '\n' by {
        if j < n {
            assert(a[j] == line[j]);
        }
    }
    lemma_char_pos_is(a, '\n', n + 1);
    assert(a.take(n + 1).drop_last() =~= line);
    assert(a.skip(n + 2) =~= Seq::<char>::empty());
    assert(lines_of(a) =~= seq![line]);
    let b = line + seq!['\n'];
    assert forall|j: int| 0 <= j < n implies b[j] != '\n' by {
        assert(b[j] == line[j]);
    }
    lemma_char_pos_is(b, '\n', n);
    assert(b.take(n) =~= line);
    assert(b.skip(n + 1) =~= Seq::<char>::empty());
    if line.len() == 0 || line.last() != '\r' {
        assert(lines_of(b) =~= seq![line]);
    }
    lemma_char_pos_none(line, '\n');
}

/// Trimming takes away all white space around a text and nothing of the text.
pub proof fn law_trimming_takes_the_white_space(
    before: Seq<char>,
    text: Seq<char>,
    after: Seq<char>,
)
    requires
        forall|i: int| 0 <= i < before.len() ==> white_space(#[trigger] before[i]),
        forall|i: int| 0 <= i < after.len() ==> white_space(#[trigger] after[i]),
        text.len() > 0 ==> !white_space(text[0]) && !white_space(text.last()),
    ensures
        trimmed(before + text + after) == text,
{
    let whole = before + text + after;
    let n = before.len() as int;
    let (from, to) = lemma_trimmed(whole);
    if text.len() > 0 {
        assert(whole[n] == text[0]);
        assert(whole[n + text.len() - 1] == text.last());
        if from < n {
            assert(whole[from] == before[from]);
        }
        if to > n + text.len() {
            assert(whole[to - 1] == after[to - 1 - n - text.len()]);
        }
        assert(from == n);
        assert(to == n + text.len());
        assert(trimmed(whole) =~= text);
    } else if from < to {
        if from < n {
            assert(whole[from] == before[from]);
        } else {
            assert(whole[from] == after[from - n]);
        }
    } else {
        assert(trimmed(whole) =~= text);
    }
}

/// Copies of a character at the start, or at the end, are all left out, and
/// nothing else is.
pub proof fn law_copies_at_the_ends_are_left_out(s: Seq<char>, c: char, n: nat)
    ensures
        s.len() == 0 || s[0] != c ==> without_leading(Seq::new(n, |i: int| c) + s, c) == s,
        s.len() == 0 || s.last() != c ==> without_trailing(s + Seq::new(n, |i: int| c), c) == s,
    decreases n,
{
    let copies = Seq::new(n, |i: int| c);
    if n == 0 {
        assert(copies + s =~= s);
        assert(s + copies =~= s);
    } else {
        let fewer = Seq::new((n - 1) as nat, |i: int| c);
        law_copies_at_the_ends_are_left_out(s, c, (n - 1) as nat);
        assert((copies + s).skip(1) =~= fewer + s);
        assert((s + copies).drop_last() =~= s + fewer);
        assert((copies + s)[0] == c);
        assert((s + copies).last() == c);
    }
}

} // verus!
