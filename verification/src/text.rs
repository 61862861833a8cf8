//! Character-level helpers that the parsers and serializers share.

use vstd::prelude::*;

verus! {

/// The characters of `s`, in order.
pub fn to_chars(s: &str) -> (chars: Vec<char>)
    ensures
        chars@ == s@,
{
    let mut chars: Vec<char> = Vec::new();
    for c in it: s.chars()
        invariant
            it.seq() == s@,
            chars@ == it.seq().take(it.index() as int),
    {
        chars.push(c);
        assert(it.seq().take(it.index() + 1) =~= it.seq().take(it.index() as int).push(c));
    }
    assert(s@.take(s@.len() as int) =~= s@);
    chars
}

/// The first position at or after `from` at which `c` stands in `s`, or the
/// length of `s` where it stands at none.
pub open spec fn find_char_from(s: Seq<char>, c: char, from: int) -> int
    decreases s.len() - from,
{
    if from < 0 || from >= s.len() {
        s.len() as int
    } else if s[from] == c {
        from
    } else {
        find_char_from(s, c, from + 1)
    }
}

/// `find_char_from` answers with a position between `from` and the length,
/// at which `c` stands unless it is the length, and before which `c` does
/// not occur.
pub proof fn lemma_find_char_from(s: Seq<char>, c: char, from: int)
    requires
        0 <= from <= s.len(),
    ensures
        from <= find_char_from(s, c, from) <= s.len(),
        find_char_from(s, c, from) < s.len() ==> s[find_char_from(s, c, from)] == c,
        forall|k: int| from <= k < find_char_from(s, c, from) ==> s[k] != c,
    decreases s.len() - from,
{
    if from < s.len() && s[from] != c {
        lemma_find_char_from(s, c, from + 1);
    }
}

/// Scans `chars` from `from` for `c`.
pub fn scan_for(chars: &Vec<char>, c: char, from: usize) -> (at: usize)
    ensures
        at == find_char_from(chars@, c, from as int),
        at <= chars.len(),
        from <= chars.len() ==> from <= at,
{
    if from >= chars.len() {
        return chars.len();
    }
    let mut at = from;
    while at < chars.len() && chars[at] != c
        invariant
            from <= at <= chars.len(),
            find_char_from(chars@, c, from as int) == find_char_from(chars@, c, at as int),
        decreases chars.len() - at,
    {
        at += 1;
    }
    at
}

/// The characters that separate words: those with the Unicode property
/// `White_Space`.
pub open spec fn is_whitespace(c: char) -> bool {
    ||| '\u{9}' <= c <= '\u{d}'
    ||| c == ' '
    ||| c == '\u{85}'
    ||| c == '\u{a0}'
    ||| c == '\u{1680}'
    ||| '\u{2000}' <= c <= '\u{200a}'
    ||| c == '\u{2028}'
    ||| c == '\u{2029}'
    ||| c == '\u{202f}'
    ||| c == '\u{205f}'
    ||| c == '\u{3000}'
}

/// Whether `c` separates words.
pub fn is_space(c: char) -> (b: bool)
    ensures
        b == is_whitespace(c),
{
    ('\u{9}' <= c && c <= '\u{d}') || c == ' ' || c == '\u{85}' || c == '\u{a0}' || c
        == '\u{1680}' || ('\u{2000}' <= c && c <= '\u{200a}') || c == '\u{2028}' || c
        == '\u{2029}' || c == '\u{202f}' || c == '\u{205f}' || c == '\u{3000}'
}

/// The first position from `from` on, before `to`, at which no whitespace
/// stands, or `to` where whitespace fills the rest.
pub open spec fn skip_whitespace(s: Seq<char>, from: int, to: int) -> int
    decreases to - from,
{
    if 0 <= from < to <= s.len() && is_whitespace(s[from]) {
        skip_whitespace(s, from + 1, to)
    } else {
        from
    }
}

/// The first position from `from` on, before `to`, at which whitespace
/// stands, or `to` where a word fills the rest.
pub open spec fn skip_word(s: Seq<char>, from: int, to: int) -> int
    decreases to - from,
{
    if 0 <= from < to <= s.len() && !is_whitespace(s[from]) {
        skip_word(s, from + 1, to)
    } else {
        from
    }
}

/// Scans over whitespace.
pub fn scan_whitespace(chars: &Vec<char>, from: usize, to: usize) -> (at: usize)
    ensures
        at == skip_whitespace(chars@, from as int, to as int),
        from <= to <= chars.len() ==> from <= at <= to,
{
    if from >= to || to > chars.len() {
        return from;
    }
    let mut at = from;
    while at < to && is_space(chars[at])
        invariant
            from <= at <= to <= chars.len(),
            skip_whitespace(chars@, from as int, to as int) == skip_whitespace(
                chars@,
                at as int,
                to as int,
            ),
        decreases to - at,
    {
        at += 1;
    }
    at
}

/// Scans over a word.
pub fn scan_word(chars: &Vec<char>, from: usize, to: usize) -> (at: usize)
    ensures
        at == skip_word(chars@, from as int, to as int),
        from <= to <= chars.len() ==> from <= at <= to,
{
    if from >= to || to > chars.len() {
        return from;
    }
    let mut at = from;
    while at < to && !is_space(chars[at])
        invariant
            from <= at <= to <= chars.len(),
            skip_word(chars@, from as int, to as int) == skip_word(chars@, at as int, to as int),
        decreases to - at,
    {
        at += 1;
    }
    at
}

/// Whether `pattern` stands in `s` at position `at`.
pub open spec fn occurs_at(s: Seq<char>, pattern: Seq<char>, at: int) -> bool {
    0 <= at && at + pattern.len() <= s.len() && s.subrange(at, at + pattern.len()) == pattern
}

/// The first position from `from` on at which `pattern` stands whole before
/// `to`, or `to` where it stands at none.
pub open spec fn find_in(s: Seq<char>, pattern: Seq<char>, from: int, to: int) -> int
    decreases to - from,
{
    if from < 0 || from >= to || from + pattern.len() > to || to > s.len() {
        to
    } else if occurs_at(s, pattern, from) {
        from
    } else {
        find_in(s, pattern, from + 1, to)
    }
}

/// `find_in` answers with `to` or with an earlier position at which the
/// pattern stands whole before `to`, and the pattern stands whole before
/// `to` at no position between `from` and the answer.
pub proof fn lemma_find_in(s: Seq<char>, pattern: Seq<char>, from: int, to: int)
    requires
        0 <= from <= to <= s.len(),
    ensures
        from <= find_in(s, pattern, from, to) <= to,
        find_in(s, pattern, from, to) < to ==> {
            &&& occurs_at(s, pattern, find_in(s, pattern, from, to))
            &&& find_in(s, pattern, from, to) + pattern.len() <= to
        },
        forall|k: int|
            from <= k < find_in(s, pattern, from, to) && k + pattern.len() <= to ==> !#[trigger] occurs_at(
                s,
                pattern,
                k,
            ),
    decreases to - from,
{
    if from < to && from + pattern.len() <= to && !occurs_at(s, pattern, from) {
        lemma_find_in(s, pattern, from + 1, to);
    }
}

/// Whether `word` stands at `at` in `chars`.
pub fn stands_at(chars: &Vec<char>, word: &Vec<char>, at: usize) -> (b: bool)
    ensures
        b == occurs_at(chars@, word@, at as int),
{
    if word.len() > chars.len() || at > chars.len() - word.len() {
        return false;
    }
    let mut i: usize = 0;
    while i < word.len()
        invariant
            i <= word.len(),
            at + word.len() <= chars.len(),
            forall|j: int| 0 <= j < i ==> chars@[at + j] == word@[j],
        decreases word.len() - i,
    {
        if chars[at + i] != word[i] {
            assert(chars@.subrange(at as int, at + word.len())[i as int] == chars@[at + i]);
            return false;
        }
        i += 1;
    }
    assert(chars@.subrange(at as int, at + word.len()) =~= word@);
    true
}

/// Searches `chars` between `from` and `to` for `pattern`.
pub fn search(chars: &Vec<char>, pattern: &Vec<char>, from: usize, to: usize) -> (at: usize)
    ensures
        at == find_in(chars@, pattern@, from as int, to as int),
        from <= to ==> from <= at <= to,
{
    if from >= to || to > chars.len() {
        return to;
    }
    let mut at = from;
    while at < to && pattern.len() <= to - at
        invariant
            from <= at <= to <= chars.len(),
            find_in(chars@, pattern@, from as int, to as int) == find_in(
                chars@,
                pattern@,
                at as int,
                to as int,
            ),
        decreases to - at,
    {
        if stands_at(chars, pattern, at) {
            return at;
        }
        at += 1;
    }
    to
}

/// Whether `text` begins with `prefix`.
pub fn starts_with(text: &Vec<char>, prefix: &Vec<char>) -> (b: bool)
    ensures
        b == prefix@.is_prefix_of(text@),
{
    if prefix.len() > text.len() {
        return false;
    }
    let mut i: usize = 0;
    while i < prefix.len()
        invariant
            i <= prefix.len() <= text.len(),
            forall|j: int| 0 <= j < i ==> prefix@[j] == text@[j],
        decreases prefix.len() - i,
    {
        if prefix[i] != text[i] {
            assert(text@.subrange(0, prefix@.len() as int)[i as int] == text@[i as int]);
            return false;
        }
        i += 1;
    }
    assert(prefix@ =~= text@.subrange(0, prefix@.len() as int));
    true
}

} // verus!
