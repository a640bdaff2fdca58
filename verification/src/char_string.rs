//! Case-insensitive comparisons between the characters of a text and literal
//! words.
//!
//! Letters are folded within ASCII only: `A` to `Z` become `a` to `z`, and
//! every other character stands as it is.

use vstd::prelude::*;

verus! {

/// The lower-case form of an ASCII upper-case letter; any other character
/// unchanged.
pub open spec fn lowercase_char(c: char) -> char {
    if 'A' <= c && c <= 'Z' {
        ((c as u8) + 32u8) as char
    } else {
        c
    }
}

/// `text` with each of its characters in lower case.
pub open spec fn lowercase(text: Seq<char>) -> Seq<char> {
    Seq::new(text.len(), |i: int| lowercase_char(text[i]))
}

/// Whether the last characters of `text` are those of `suffix`.
pub open spec fn ends_with(text: Seq<char>, suffix: Seq<char>) -> bool {
    &&& suffix.len() <= text.len()
    &&& text.subrange(text.len() - suffix.len(), text.len() as int) == suffix
}

/// The character sequences of `words`, in their order.
pub open spec fn texts(words: Seq<&'static str>) -> Seq<Seq<char>> {
    Seq::new(words.len(), |i: int| words[i]@)
}

/// Lower-casing changes no length, so texts of different lengths stay
/// different, and it is applied character by character.
pub proof fn lemma_lowercase_pointwise(text: Seq<char>, word: Seq<char>)
    ensures
        lowercase(text) == word <==> {
            &&& text.len() == word.len()
            &&& forall|i: int| 0 <= i < text.len() ==> lowercase_char(#[trigger] text[i]) == word[i]
        },
{
    if lowercase(text) == word {
        assert forall|i: int| 0 <= i < text.len() implies lowercase_char(#[trigger] text[i])
            == word[i] by {
            assert(lowercase(text)[i] == lowercase_char(text[i]));
        }
    }
    if text.len() == word.len() && (forall|i: int|
        0 <= i < text.len() ==> lowercase_char(#[trigger] text[i]) == word[i]) {
        assert(lowercase(text) =~= word);
    }
}

/// The lower-case form of `c`.
pub fn to_lowercase_char(c: char) -> (lowered: char)
    ensures
        lowered == lowercase_char(c),
{
    if 'A' <= c && c <= 'Z' {
        ((c as u8) + 32) as char
    } else {
        c
    }
}

/// Whether `left` and `right` hold the same characters.
pub fn same_chars(left: &[char], right: &[char]) -> (same: bool)
    ensures
        same == (left@ == right@),
{
    let n: usize = left.len();
    if right.len() != n {
        return false;
    }
    let mut i: usize = 0;
    while i < n
        invariant
            i <= n,
            n == left@.len(),
            n == right@.len(),
            forall|j: int| 0 <= j < i ==> left@[j] == right@[j],
        decreases n - i,
    {
        if left[i] != right[i] {
            return false;
        }
        i += 1;
    }
    assert(left@ =~= right@);
    true
}

/// Whether `text`, put in lower case, reads exactly `word`.
pub fn eq_lowercased(text: &[char], word: &str) -> (equal: bool)
    ensures
        equal == (lowercase(text@) == word@),
{
    let n: usize = text.len();
    if word.unicode_len() != n {
        proof {
            lemma_lowercase_pointwise(text@, word@);
        }
        return false;
    }
    let mut i: usize = 0;
    while i < n
        invariant
            i <= n,
            n == text@.len(),
            n == word@.len(),
            forall|j: int| 0 <= j < i ==> lowercase_char(#[trigger] text@[j]) == word@[j],
        decreases n - i,
    {
        if to_lowercase_char(text[i]) != word.get_char(i) {
            proof {
                lemma_lowercase_pointwise(text@, word@);
            }
            return false;
        }
        i += 1;
    }
    proof {
        lemma_lowercase_pointwise(text@, word@);
    }
    true
}

/// Whether `text`, put in lower case, ends in `suffix`.
pub fn ends_with_lowercased(text: &[char], suffix: &str) -> (found: bool)
    ensures
        found == ends_with(lowercase(text@), suffix@),
{
    let n: usize = text.len();
    let m: usize = suffix.unicode_len();
    if m > n {
        return false;
    }
    let start: usize = n - m;
    let ghost tail = lowercase(text@).subrange(start as int, n as int);
    let mut i: usize = 0;
    while i < m
        invariant
            i <= m,
            m <= n,
            start == n - m,
            n == text@.len(),
            m == suffix@.len(),
            tail == lowercase(text@).subrange(start as int, n as int),
            forall|j: int| 0 <= j < i ==> #[trigger] tail[j] == suffix@[j],
        decreases m - i,
    {
        assert(tail[i as int] == lowercase_char(text@[start + i]));
        if to_lowercase_char(text[start + i]) != suffix.get_char(i) {
            return false;
        }
        i += 1;
    }
    assert(tail =~= suffix@);
    true
}

/// Whether `text`, put in lower case, is one of `words`.
pub fn is_listed(text: &[char], words: &[&'static str]) -> (found: bool)
    ensures
        found == texts(words@).contains(lowercase(text@)),
{
    let mut i: usize = 0;
    while i < words.len()
        invariant
            i <= words@.len(),
            forall|j: int| 0 <= j < i ==> (#[trigger] texts(words@)[j]) != lowercase(text@),
        decreases words@.len() - i,
    {
        if eq_lowercased(text, words[i]) {
            assert(texts(words@)[i as int] == lowercase(text@));
            return true;
        }
        i += 1;
    }
    false
}

/// `String::from_iter` on a slice of characters: the string that holds
/// exactly those characters, in their order.
#[verifier::external_body]
pub(crate) fn string_from_chars(chars: &[char]) -> (text: String)
    ensures
        text@ == chars@,
{
    String::from_iter(chars)
}

} // verus!
