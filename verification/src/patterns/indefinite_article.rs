use vstd::prelude::*;
use crate::char_string::{lowercase, texts};
use crate::patterns::word_set::{leading_word_readable, leads_with_word_of};
use crate::patterns::{Pattern, WordSet};
use crate::token::Token;

verus! {

/// The indefinite articles, in lower case.
pub const INDEFINITE_ARTICLES: [&'static str; 2] = ["a", "an"];

/// Whether `text` is `a` or `an`, in lower case.
pub open spec fn is_indefinite_article(text: Seq<char>) -> bool {
    text == "a"@ || text == "an"@
}

/// The listed articles are `a` and `an`, and nothing else.
pub proof fn lemma_indefinite_articles(text: Seq<char>)
    ensures
        texts(INDEFINITE_ARTICLES@).contains(text) <==> is_indefinite_article(text),
{
    let listed = texts(INDEFINITE_ARTICLES@);
    assert(listed.len() == 2);
    assert(listed[0] == "a"@);
    assert(listed[1] == "an"@);
}

/// Matches one word token that reads `a` or `an`, in whatever case.
pub struct IndefiniteArticle {
    inner: WordSet,
}

impl IndefiniteArticle {
    /// The words that the pattern matches.
    pub closed spec fn words(&self) -> Seq<Seq<char>> {
        self.inner@
    }

    /// Every value of the type matches the indefinite articles and nothing
    /// else.
    #[verifier::type_invariant]
    spec fn holds_articles(self) -> bool {
        self.words() == texts(INDEFINITE_ARTICLES@)
    }
}

impl Default for IndefiniteArticle {
    /// The pattern over the words `a` and `an`.
    fn default() -> (pattern: IndefiniteArticle)
        ensures
            pattern.words() == texts(INDEFINITE_ARTICLES@),
    {
        IndefiniteArticle { inner: WordSet::new(&INDEFINITE_ARTICLES) }
    }
}

impl Pattern for IndefiniteArticle {
    open spec fn accepts(&self, tokens: Seq<Token>, source: Seq<char>) -> bool {
        leading_word_readable(tokens, source)
    }

    open spec fn matched(&self, tokens: Seq<Token>, source: Seq<char>) -> Option<nat> {
        if tokens.len() > 0 && tokens[0].kind.word && is_indefinite_article(
            lowercase(tokens[0].content(source)),
        ) {
            Some(1)
        } else {
            None
        }
    }

    proof fn lemma_match_is_prefix(&self, tokens: Seq<Token>, source: Seq<char>) {
    }

    fn matches(&self, tokens: &[Token], source: &[char]) -> (found: Option<usize>) {
        proof {
            use_type_invariant(self);
            if tokens@.len() > 0 {
                lemma_indefinite_articles(lowercase(tokens@[0].content(source@)));
            }
        }
        self.inner.matches(tokens, source)
    }
}

} // verus!
