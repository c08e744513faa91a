//! Characters and words: which characters are whitespace, and where the
//! whitespace-separated words of a line begin and end.

use vstd::prelude::*;

verus! {

/// Whether `c` has Unicode's `White_Space` property.
pub open spec fn is_whitespace(c: char) -> bool {
    ||| '\u{9}' <= c <= '\u{D}'
    ||| c == ' '
    ||| c == '\u{85}'
    ||| c == '\u{A0}'
    ||| c == '\u{1680}'
    ||| '\u{2000}' <= c <= '\u{200A}'
    ||| c == '\u{2028}'
    ||| c == '\u{2029}'
    ||| c == '\u{202F}'
    ||| c == '\u{205F}'
    ||| c == '\u{3000}'
}

/// The first index at or after `from` that does not hold whitespace, or
/// `s.len()` where only whitespace follows.
pub open spec fn skip_whitespace(s: Seq<char>, from: int) -> int
    decreases s.len() - from,
{
    if 0 <= from < s.len() && is_whitespace(s[from]) {
        skip_whitespace(s, from + 1)
    } else {
        from
    }
}

/// The first index at or after `from` that holds whitespace, or `s.len()`
/// where none follows.
pub open spec fn skip_word(s: Seq<char>, from: int) -> int
    decreases s.len() - from,
{
    if 0 <= from < s.len() && !is_whitespace(s[from]) {
        skip_word(s, from + 1)
    } else {
        from
    }
}

/// The first word of `s` that begins at or after `from`: the longest run
/// without whitespace that follows the whitespace at `from`. It is empty
/// exactly where no word is left.
pub open spec fn word_at(s: Seq<char>, from: int) -> Seq<char> {
    let start = skip_whitespace(s, from);
    s.subrange(start, skip_word(s, start))
}

/// Whether `to` is where the whitespace that begins at `from` ends: nothing
/// but whitespace stands from `from` up to `to`, and `to` is the end of `s`
/// or holds a character that is none.
pub open spec fn whitespace_ends_at(s: Seq<char>, from: int, to: int) -> bool {
    &&& from <= to <= s.len()
    &&& forall|i: int| from <= i < to ==> is_whitespace(#[trigger] s[i])
    &&& to < s.len() ==> !is_whitespace(s[to])
}

/// Whether `to` is where the word that begins at `from` ends: no whitespace
/// stands from `from` up to `to`, and `to` is the end of `s` or holds
/// whitespace.
pub open spec fn word_ends_at(s: Seq<char>, from: int, to: int) -> bool {
    &&& from <= to <= s.len()
    &&& forall|i: int| from <= i < to ==> !is_whitespace(#[trigger] s[i])
    &&& to < s.len() ==> is_whitespace(s[to])
}

/// `skip_whitespace` finds the end of the whitespace at `from`, and that end
/// is the only one.
pub proof fn lemma_skip_whitespace_finds_end(s: Seq<char>, from: int, to: int)
    requires
        0 <= from <= s.len(),
    ensures
        whitespace_ends_at(s, from, skip_whitespace(s, from)),
        whitespace_ends_at(s, from, to) ==> skip_whitespace(s, from) == to,
    decreases s.len() - from,
{
    if from < s.len() && is_whitespace(s[from]) {
        lemma_skip_whitespace_finds_end(s, from + 1, to);
    }
}

/// `skip_word` finds the end of the word at `from`, and that end is the only
/// one.
pub proof fn lemma_skip_word_finds_end(s: Seq<char>, from: int, to: int)
    requires
        0 <= from <= s.len(),
    ensures
        word_ends_at(s, from, skip_word(s, from)),
        word_ends_at(s, from, to) ==> skip_word(s, from) == to,
    decreases s.len() - from,
{
    if from < s.len() && !is_whitespace(s[from]) {
        lemma_skip_word_finds_end(s, from + 1, to);
    }
}

/// Decides whether `c` is a whitespace character.
pub fn char_is_whitespace(c: char) -> (b: bool)
    ensures
        b == is_whitespace(c),
{
    ('\u{9}' <= c && c <= '\u{D}') || c == ' ' || c == '\u{85}' || c == '\u{A0}' || c == '\u{1680}'
        || ('\u{2000}' <= c && c <= '\u{200A}') || c == '\u{2028}' || c == '\u{2029}' || c
        == '\u{202F}' || c == '\u{205F}' || c == '\u{3000}'
}

/// The characters of `s`, in order.
pub fn chars_of(s: &str) -> (chars: Vec<char>)
    ensures
        chars@ == s@,
{
    let mut chars: Vec<char> = Vec::new();
    for c in it: s.chars()
        invariant
            chars@ == it.seq().take(it.index() as int),
    {
        chars.push(c);
    }
    chars
}

/// Walks from `from` over whitespace and returns where it ends.
pub fn end_of_whitespace(chars: &[char], from: usize) -> (end: usize)
    requires
        from <= chars@.len(),
    ensures
        end == skip_whitespace(chars@, from as int),
        whitespace_ends_at(chars@, from as int, end as int),
{
    let mut i: usize = from;
    while i < chars.len() && char_is_whitespace(chars[i])
        invariant
            from <= i <= chars@.len(),
            skip_whitespace(chars@, i as int) == skip_whitespace(chars@, from as int),
        decreases chars@.len() - i,
    {
        i += 1;
    }
    proof {
        lemma_skip_whitespace_finds_end(chars@, from as int, i as int);
    }
    i
}

/// Walks from `from` over the characters of a word and returns where it ends.
pub fn end_of_word(chars: &[char], from: usize) -> (end: usize)
    requires
        from <= chars@.len(),
    ensures
        end == skip_word(chars@, from as int),
        word_ends_at(chars@, from as int, end as int),
{
    let mut i: usize = from;
    while i < chars.len() && !char_is_whitespace(chars[i])
        invariant
            from <= i <= chars@.len(),
            skip_word(chars@, i as int) == skip_word(chars@, from as int),
        decreases chars@.len() - i,
    {
        i += 1;
    }
    proof {
        lemma_skip_word_finds_end(chars@, from as int, i as int);
    }
    i
}

} // verus!
