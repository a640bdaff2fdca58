use vstd::prelude::*;
use crate::span::Span;

verus! {

/// What a token can act as.
///
/// The capabilities are independent of each other: one token may be a word,
/// a noun, a verb and an adjective at once. Each is asked for on its own.
#[derive(Clone, Copy, Debug, PartialEq, Eq, Structural)]
pub struct TokenKind {
    pub word: bool,
    pub whitespace: bool,
    pub noun: bool,
    pub verb: bool,
    pub adjective: bool,
}

impl TokenKind {
    /// Whether the token can act as a word.
    pub fn is_word(&self) -> (held: bool)
        ensures
            held == self.word,
    {
        self.word
    }

    /// Whether the token can act as whitespace.
    pub fn is_whitespace(&self) -> (held: bool)
        ensures
            held == self.whitespace,
    {
        self.whitespace
    }

    /// Whether the token can act as a noun.
    pub fn is_noun(&self) -> (held: bool)
        ensures
            held == self.noun,
    {
        self.noun
    }

    /// Whether the token can act as a verb.
    pub fn is_verb(&self) -> (held: bool)
        ensures
            held == self.verb,
    {
        self.verb
    }

    /// Whether the token can act as an adjective.
    pub fn is_adjective(&self) -> (held: bool)
        ensures
            held == self.adjective,
    {
        self.adjective
    }
}

impl Default for TokenKind {
    /// The kind that carries no capability.
    fn default() -> (kind: TokenKind)
        ensures
            !kind.word,
            !kind.whitespace,
            !kind.noun,
            !kind.verb,
            !kind.adjective,
    {
        TokenKind { word: false, whitespace: false, noun: false, verb: false, adjective: false }
    }
}

/// A stretch of the text together with what it can act as.
#[derive(Clone, Copy, Debug, PartialEq, Eq, Structural)]
pub struct Token {
    pub span: Span,
    pub kind: TokenKind,
}

impl Token {
    /// The token that covers `span` and carries the capabilities of `kind`.
    pub fn new(span: Span, kind: TokenKind) -> (token: Token)
        ensures
            token.span == span,
            token.kind == kind,
    {
        Token { span, kind }
    }

    /// The characters of `text` that the token covers.
    pub open spec fn content(self, text: Seq<char>) -> Seq<char>
        recommends
            self.span.fits(text.len()),
    {
        self.span.content(text)
    }
}

} // verus!
