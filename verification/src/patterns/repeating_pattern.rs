use vstd::prelude::*;
use vstd::slice::slice_subrange;
use crate::patterns::{match_length, Pattern};
use crate::token::Token;

verus! {

/// What applying a pattern again and again from the front of a token
/// sequence comes to.
pub struct Run {
    /// The matches of one token or more that were made, each starting where
    /// the one before it ended.
    pub repetitions: nat,
    /// The tokens that those matches hold together.
    pub consumed: nat,
    /// How the run ended: `true` where the pattern then matched without
    /// taking a token, `false` where it did not match.
    pub stalled: bool,
}

/// The run of `inner` over `tokens`: `inner` is applied at the front, then
/// behind what it matched, and so on, until it fails or matches no token.
///
/// A match that claims more tokens than are left ends the run as one of no
/// token does; no pattern reports one on tokens that it accepts.
pub open spec fn run_of<P: Pattern>(inner: P, tokens: Seq<Token>, source: Seq<char>) -> Run
    decreases tokens.len(),
{
    match inner.matched(tokens, source) {
        None => Run { repetitions: 0, consumed: 0, stalled: false },
        Some(n) => if 0 < n <= tokens.len() {
            let rest = run_of(inner, tokens.skip(n as int), source);
            Run {
                repetitions: rest.repetitions + 1,
                consumed: n + rest.consumed,
                stalled: rest.stalled,
            }
        } else {
            Run { repetitions: 0, consumed: 0, stalled: true }
        },
    }
}

/// Whether `inner` accepts the tokens at every place where its run over
/// `tokens` applies it.
pub open spec fn run_accepted<P: Pattern>(inner: P, tokens: Seq<Token>, source: Seq<char>) -> bool
    decreases tokens.len(),
{
    &&& inner.accepts(tokens, source)
    &&& match inner.matched(tokens, source) {
        None => true,
        Some(n) => 0 < n <= tokens.len() ==> run_accepted(inner, tokens.skip(n as int), source),
    }
}

/// A run never takes more tokens than there are, and each of its
/// repetitions takes at least one.
pub proof fn lemma_run_bounds<P: Pattern>(inner: P, tokens: Seq<Token>, source: Seq<char>)
    ensures
        run_of(inner, tokens, source).repetitions <= run_of(inner, tokens, source).consumed
            <= tokens.len(),
    decreases tokens.len(),
{
    match inner.matched(tokens, source) {
        None => {},
        Some(n) => {
            if 0 < n <= tokens.len() {
                lemma_run_bounds(inner, tokens.skip(n as int), source);
            }
        },
    }
}

/// Where `inner` accepts every suffix of `tokens`, it accepts the tokens at
/// every place where its run applies it.
pub proof fn lemma_run_accepted_on_suffixes<P: Pattern>(
    inner: P,
    tokens: Seq<Token>,
    source: Seq<char>,
)
    requires
        forall|from: int|
            0 <= from <= tokens.len() ==> inner.accepts(#[trigger] tokens.skip(from), source),
    ensures
        run_accepted(inner, tokens, source),
    decreases tokens.len(),
{
    assert(tokens.skip(0) =~= tokens);
    match inner.matched(tokens, source) {
        None => {},
        Some(n) => {
            if 0 < n <= tokens.len() {
                let rest = tokens.skip(n as int);
                assert forall|from: int| 0 <= from <= rest.len() implies inner.accepts(
                    #[trigger] rest.skip(from),
                    source,
                ) by {
                    assert(rest.skip(from) =~= tokens.skip(n + from));
                }
                lemma_run_accepted_on_suffixes(inner, rest, source);
            }
        },
    }
}

/// Where `inner` matches one token or more wherever tokens are left, its
/// run takes all the tokens.
pub proof fn lemma_run_takes_all<P: Pattern>(inner: P, tokens: Seq<Token>, source: Seq<char>)
    requires
        forall|from: int|
            0 <= from < tokens.len() ==> inner.accepts(#[trigger] tokens.skip(from), source)
                && inner.matched(tokens.skip(from), source) is Some
                && inner.matched(tokens.skip(from), source) != Some(0nat),
    ensures
        run_of(inner, tokens, source).consumed == tokens.len(),
    decreases tokens.len(),
{
    assert(tokens.skip(0) =~= tokens);
    if tokens.len() > 0 {
        inner.lemma_match_is_prefix(tokens, source);
        let n = inner.matched(tokens, source)->Some_0;
        let rest = tokens.skip(n as int);
        assert forall|from: int| 0 <= from < rest.len() implies inner.accepts(
            #[trigger] rest.skip(from),
            source,
        ) && inner.matched(rest.skip(from), source) is Some && inner.matched(
            rest.skip(from),
            source,
        ) != Some(0nat) by {
            assert(rest.skip(from) =~= tokens.skip(n + from));
        }
        lemma_run_takes_all(inner, rest, source);
    } else {
        lemma_run_bounds(inner, tokens, source);
    }
}

/// Matches a pattern again and again, each time behind the match before,
/// and asks for a least number of repetitions.
pub struct RepeatingPattern<P: Pattern> {
    inner: Box<P>,
    required_repetitions: usize,
}

impl<P: Pattern> RepeatingPattern<P> {
    /// The pattern that is repeated.
    pub closed spec fn inner(&self) -> P {
        *self.inner
    }

    /// The least number of repetitions that make a match.
    pub closed spec fn required_repetitions(&self) -> nat {
        self.required_repetitions as nat
    }

    /// The pattern that matches `required_repetitions` or more repetitions of
    /// `pattern`.
    pub fn new(pattern: Box<P>, required_repetitions: usize) -> (repeating: Self)
        ensures
            repeating.inner() == *pattern,
            repeating.required_repetitions() == required_repetitions,
    {
        Self { inner: pattern, required_repetitions }
    }
}

impl<P: Pattern> Pattern for RepeatingPattern<P> {
    open spec fn accepts(&self, tokens: Seq<Token>, source: Seq<char>) -> bool {
        run_accepted(self.inner(), tokens, source)
    }

    /// The tokens that the run of the inner pattern holds, where the run
    /// stalled or made the required repetitions. A run that stalls could go
    /// on matching no token for ever, so it counts as having made any number
    /// of repetitions.
    open spec fn matched(&self, tokens: Seq<Token>, source: Seq<char>) -> Option<nat> {
        let run = run_of(self.inner(), tokens, source);
        if run.stalled || run.repetitions >= self.required_repetitions() {
            Some(run.consumed)
        } else {
            None
        }
    }

    proof fn lemma_match_is_prefix(&self, tokens: Seq<Token>, source: Seq<char>) {
        lemma_run_bounds(self.inner(), tokens, source);
    }

    fn matches(&self, tokens: &[Token], source: &[char]) -> (found: Option<usize>) {
        let ghost whole = run_of(self.inner(), tokens@, source@);
        let mut tok_cursor: usize = 0;
        let mut repetition: usize = 0;
        assert(tokens@.skip(0) =~= tokens@);
        loop
            invariant
                repetition <= tok_cursor <= tokens@.len(),
                whole == run_of(self.inner(), tokens@, source@),
                run_accepted(self.inner(), tokens@.skip(tok_cursor as int), source@),
                ({
                    let rest = run_of(self.inner(), tokens@.skip(tok_cursor as int), source@);
                    &&& whole.repetitions == repetition + rest.repetitions
                    &&& whole.consumed == tok_cursor + rest.consumed
                    &&& whole.stalled == rest.stalled
                }),
            decreases tokens@.len() - tok_cursor,
        {
            let remaining = slice_subrange(tokens, tok_cursor, tokens.len());
            assert(remaining@ =~= tokens@.skip(tok_cursor as int));
            let match_len = self.inner.matches(remaining, source);
            proof {
                self.inner().lemma_match_is_prefix(remaining@, source@);
            }
            match match_len {
                Some(len) => {
                    if len == 0 {
                        // Nothing would ever move the cursor again: the
                        // repetitions could go on without end.
                        return Some(tok_cursor);
                    }
                    assert(remaining@.skip(len as int) =~= tokens@.skip(tok_cursor + len));
                    tok_cursor += len;
                    repetition += 1;
                },
                None => {
                    if repetition >= self.required_repetitions {
                        return Some(tok_cursor);
                    } else {
                        return None;
                    }
                },
            }
        }
    }
}

/// A pattern that matches one token or more wherever tokens are left,
/// repeated with no least number of repetitions, matches all the tokens.
pub proof fn lemma_repeating_matches_everything<P: Pattern>(
    pattern: RepeatingPattern<P>,
    tokens: Seq<Token>,
    source: Seq<char>,
)
    requires
        pattern.required_repetitions() == 0,
        forall|from: int|
            0 <= from < tokens.len() ==> pattern.inner().accepts(
                #[trigger] tokens.skip(from),
                source,
            ) && pattern.inner().matched(tokens.skip(from), source) is Some
                && pattern.inner().matched(tokens.skip(from), source) != Some(0nat),
    ensures
        pattern.matched(tokens, source) == Some(tokens.len()),
{
    lemma_run_takes_all(pattern.inner(), tokens, source);
}

/// Where the repeated pattern fails to match before the required
/// repetitions are made, the repeating pattern does not match.
pub proof fn lemma_repeating_fails_short<P: Pattern>(
    pattern: RepeatingPattern<P>,
    tokens: Seq<Token>,
    source: Seq<char>,
)
    requires
        !run_of(pattern.inner(), tokens, source).stalled,
        run_of(pattern.inner(), tokens, source).repetitions < pattern.required_repetitions(),
    ensures
        pattern.matched(tokens, source) is None,
{
}

/// A run that stalls is a match, whatever number of repetitions is
/// required and however few were made.
pub proof fn lemma_repeating_stall_matches<P: Pattern>(
    pattern: RepeatingPattern<P>,
    tokens: Seq<Token>,
    source: Seq<char>,
)
    requires
        run_of(pattern.inner(), tokens, source).stalled,
    ensures
        pattern.matched(tokens, source) == Some(run_of(pattern.inner(), tokens, source).consumed),
{
}

} // verus!
