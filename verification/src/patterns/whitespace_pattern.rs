use vstd::prelude::*;
use crate::patterns::Pattern;
use crate::token::Token;

verus! {

/// Whether the first `n` tokens are whitespace and the run of whitespace
/// ends there: the next token, if there is one, is not whitespace.
pub open spec fn is_whitespace_run(tokens: Seq<Token>, n: nat) -> bool {
    &&& n <= tokens.len()
    &&& forall|i: int| 0 <= i < n ==> (#[trigger] tokens[i]).kind.whitespace
    &&& n < tokens.len() ==> !tokens[n as int].kind.whitespace
}

/// The length of the longest run of whitespace tokens at the front of
/// `tokens`.
pub open spec fn leading_whitespace(tokens: Seq<Token>) -> nat
    decreases tokens.len(),
{
    if tokens.len() == 0 || !tokens[0].kind.whitespace {
        0
    } else {
        1 + leading_whitespace(tokens.skip(1))
    }
}

/// The run of whitespace at the front of `tokens` has one length only, and
/// [`leading_whitespace`] is that length.
pub proof fn lemma_leading_whitespace(tokens: Seq<Token>, n: nat)
    ensures
        is_whitespace_run(tokens, n) <==> leading_whitespace(tokens) == n,
    decreases tokens.len(),
{
    if tokens.len() == 0 || !tokens[0].kind.whitespace {
        if n > 0 && n <= tokens.len() {
            assert(!tokens[0].kind.whitespace);
        }
    } else {
        let rest = tokens.skip(1);
        if n == 0 {
            assert(!is_whitespace_run(tokens, n));
        } else {
            let m = (n - 1) as nat;
            lemma_leading_whitespace(rest, m);
            if is_whitespace_run(tokens, n) {
                assert forall|i: int| 0 <= i < m implies (#[trigger] rest[i]).kind.whitespace by {
                    assert(tokens[i + 1].kind.whitespace);
                }
                assert(m < rest.len() ==> rest[m as int] == tokens[n as int]);
                assert(is_whitespace_run(rest, m));
            }
            if is_whitespace_run(rest, m) {
                assert forall|i: int| 0 <= i < n implies (#[trigger] tokens[i]).kind.whitespace by {
                    if i > 0 {
                        assert(rest[i - 1].kind.whitespace);
                    }
                }
                assert(m < rest.len() ==> rest[m as int] == tokens[n as int]);
                assert(is_whitespace_run(tokens, n));
            }
        }
    }
}

/// Matches the whole run of whitespace tokens at the front, which must hold
/// at least one token.
#[derive(Clone, Copy, Debug, Default)]
pub struct WhitespacePattern;

impl Pattern for WhitespacePattern {
    open spec fn accepts(&self, tokens: Seq<Token>, source: Seq<char>) -> bool {
        true
    }

    open spec fn matched(&self, tokens: Seq<Token>, source: Seq<char>) -> Option<nat> {
        let count = leading_whitespace(tokens);
        if count == 0 {
            None
        } else {
            Some(count)
        }
    }

    proof fn lemma_match_is_prefix(&self, tokens: Seq<Token>, source: Seq<char>) {
        lemma_leading_whitespace(tokens, leading_whitespace(tokens));
    }

    fn matches(&self, tokens: &[Token], source: &[char]) -> (found: Option<usize>)
        ensures
            match found {
                Some(n) => n > 0 && is_whitespace_run(tokens@, n as nat),
                None => tokens@.len() == 0 || !tokens@[0].kind.whitespace,
            },
    {
        let mut count: usize = 0;
        while count < tokens.len() && tokens[count].kind.is_whitespace()
            invariant
                count <= tokens@.len(),
                forall|i: int| 0 <= i < count ==> (#[trigger] tokens@[i]).kind.whitespace,
            decreases tokens@.len() - count,
        {
            count += 1;
        }
        proof {
            lemma_leading_whitespace(tokens@, count as nat);
        }
        if count == 0 {
            None
        } else {
            Some(count)
        }
    }
}

} // verus!
