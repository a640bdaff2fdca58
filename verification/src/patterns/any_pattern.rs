use vstd::prelude::*;
use crate::patterns::Pattern;
use crate::token::Token;

verus! {

/// Matches one token, whatever it is.
#[derive(Clone, Copy, Debug, Default)]
pub struct AnyPattern;

impl Pattern for AnyPattern {
    open spec fn accepts(&self, tokens: Seq<Token>, source: Seq<char>) -> bool {
        true
    }

    open spec fn matched(&self, tokens: Seq<Token>, source: Seq<char>) -> Option<nat> {
        if tokens.len() == 0 {
            None
        } else {
            Some(1)
        }
    }

    proof fn lemma_match_is_prefix(&self, tokens: Seq<Token>, source: Seq<char>) {
    }

    fn matches(&self, tokens: &[Token], source: &[char]) -> (found: Option<usize>) {
        if tokens.len() == 0 {
            None
        } else {
            Some(1)
        }
    }
}

} // verus!
