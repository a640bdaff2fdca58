use vstd::prelude::*;
use crate::patterns::Pattern;
use crate::token::Token;

verus! {

/// Matches one token exactly where the pattern it holds does not match.
pub struct Invert<P: Pattern> {
    inner: Box<P>,
}

impl<P: Pattern> Invert<P> {
    /// The pattern whose outcome is turned round.
    pub closed spec fn inner(&self) -> P {
        *self.inner
    }

    /// The pattern that matches where `inner` does not.
    pub fn new(inner: P) -> (inverted: Self)
        ensures
            inverted.inner() == inner,
    {
        Self { inner: Box::new(inner) }
    }
}

impl<P: Pattern> Pattern for Invert<P> {
    /// There is a token to match, and the inner pattern accepts the input.
    open spec fn accepts(&self, tokens: Seq<Token>, source: Seq<char>) -> bool {
        tokens.len() > 0 && self.inner().accepts(tokens, source)
    }

    /// One token where the inner pattern has no match; no match where it has
    /// one, of whatever length.
    open spec fn matched(&self, tokens: Seq<Token>, source: Seq<char>) -> Option<nat> {
        if self.inner().matched(tokens, source) is None {
            Some(1)
        } else {
            None
        }
    }

    proof fn lemma_match_is_prefix(&self, tokens: Seq<Token>, source: Seq<char>) {
    }

    fn matches(&self, tokens: &[Token], source: &[char]) -> (found: Option<usize>)
        ensures
            found == Some(1usize) <==> self.inner().matched(tokens@, source@) is None,
            found is None <==> self.inner().matched(tokens@, source@) is Some,
    {
        if self.inner.matches(tokens, source).is_some() {
            None
        } else {
            Some(1)
        }
    }
}

} // verus!
