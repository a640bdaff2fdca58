//! Prefix matchers over token sequences.
//!
//! A pattern looks only at the front of the tokens it is given: it reports
//! how many leading tokens belong to a match that starts at the first token,
//! or that there is no match there.

use vstd::prelude::*;
use crate::token::Token;

pub mod any_pattern;
pub mod indefinite_article;
pub mod invert;
pub mod repeating_pattern;
pub mod whitespace_pattern;
pub mod word_set;

pub use any_pattern::AnyPattern;
pub use indefinite_article::IndefiniteArticle;
pub use invert::Invert;
pub use repeating_pattern::RepeatingPattern;
pub use whitespace_pattern::WhitespacePattern;
pub use word_set::WordSet;

verus! {

/// The outcome of a match with its length as a natural number.
pub open spec fn match_length(found: Option<usize>) -> Option<nat> {
    match found {
        Some(n) => Some(n as nat),
        None => None,
    }
}

/// A matcher of the leading tokens of a sequence.
pub trait Pattern {
    /// The inputs about which [`Pattern::matches`] may be asked.
    spec fn accepts(&self, tokens: Seq<Token>, source: Seq<char>) -> bool;

    /// The number of leading tokens of `tokens` that match, which may be
    /// zero, or `None` where no match starts at the first token.
    spec fn matched(&self, tokens: Seq<Token>, source: Seq<char>) -> Option<nat>;

    /// A match is a prefix of the tokens: it never holds more tokens than
    /// were given.
    proof fn lemma_match_is_prefix(&self, tokens: Seq<Token>, source: Seq<char>)
        requires
            self.accepts(tokens, source),
        ensures
            self.matched(tokens, source) matches Some(n) ==> n <= tokens.len(),
    ;

    /// Matches the leading tokens of `tokens`, which are tokens of the text
    /// `source`.
    fn matches(&self, tokens: &[Token], source: &[char]) -> (found: Option<usize>)
        requires
            self.accepts(tokens@, source@),
        ensures
            match_length(found) == self.matched(tokens@, source@),
    ;
}

} // verus!
