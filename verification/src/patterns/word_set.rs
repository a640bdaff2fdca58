use vstd::prelude::*;
use crate::char_string::{is_listed, lowercase, texts};
use crate::patterns::Pattern;
use crate::token::Token;

verus! {

/// Whether the first of `tokens` is a word whose text, in lower case, is one
/// of `words`.
pub open spec fn leads_with_word_of(
    words: Seq<Seq<char>>,
    tokens: Seq<Token>,
    source: Seq<char>,
) -> bool {
    &&& tokens.len() > 0
    &&& tokens[0].kind.word
    &&& words.contains(lowercase(tokens[0].content(source)))
}

/// Whether the first of `tokens`, where it is a word, lies within `source`,
/// so that its text can be read.
pub open spec fn leading_word_readable(tokens: Seq<Token>, source: Seq<char>) -> bool {
    tokens.len() > 0 && tokens[0].kind.word ==> tokens[0].span.fits(source.len())
}

/// Matches one word token whose text, in lower case, is one of a set of
/// words.
pub struct WordSet {
    words: Vec<&'static str>,
}

impl View for WordSet {
    type V = Seq<Seq<char>>;

    /// The words of the set.
    closed spec fn view(&self) -> Seq<Seq<char>> {
        texts(self.words@)
    }
}

impl WordSet {
    /// The set of the given words.
    pub fn new(words: &[&'static str]) -> (set: WordSet)
        ensures
            set@ == texts(words@),
    {
        let mut held: Vec<&'static str> = Vec::new();
        let mut i: usize = 0;
        while i < words.len()
            invariant
                i <= words@.len(),
                held@ == words@.subrange(0, i as int),
            decreases words@.len() - i,
        {
            held.push(words[i]);
            assert(held@ =~= words@.subrange(0, i + 1));
            i += 1;
        }
        assert(held@ =~= words@);
        WordSet { words: held }
    }
}

impl Pattern for WordSet {
    open spec fn accepts(&self, tokens: Seq<Token>, source: Seq<char>) -> bool {
        leading_word_readable(tokens, source)
    }

    open spec fn matched(&self, tokens: Seq<Token>, source: Seq<char>) -> Option<nat> {
        if leads_with_word_of(self@, tokens, source) {
            Some(1)
        } else {
            None
        }
    }

    proof fn lemma_match_is_prefix(&self, tokens: Seq<Token>, source: Seq<char>) {
    }

    fn matches(&self, tokens: &[Token], source: &[char]) -> (found: Option<usize>) {
        if tokens.len() == 0 {
            return None;
        }
        let token = tokens[0];
        if !token.kind.is_word() {
            return None;
        }
        let text = token.span.get_content(source);
        if is_listed(text, self.words.as_slice()) {
            Some(1)
        } else {
            None
        }
    }
}

} // verus!
