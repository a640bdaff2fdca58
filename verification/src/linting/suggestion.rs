use vstd::prelude::*;
use crate::span::Span;

verus! {

/// `source` with the characters of `span` taken out and `with` put in their
/// place.
pub open spec fn replaced(source: Seq<char>, span: Span, with: Seq<char>) -> Seq<char>
    recommends
        span.fits(source.len()),
{
    source.subrange(0, span.start as int) + with + source.subrange(
        span.end as int,
        source.len() as int,
    )
}

/// A change to the text that would settle a lint.
#[derive(Clone, Debug, PartialEq, Eq)]
pub enum Suggestion {
    /// Put these characters in the place of the lint's span.
    ReplaceWith(Vec<char>),
}

/// What a [`Suggestion`] proposes, as a mathematical value.
pub enum SuggestionView {
    ReplaceWith(Seq<char>),
}

impl View for Suggestion {
    type V = SuggestionView;

    open spec fn view(&self) -> SuggestionView {
        match self {
            Suggestion::ReplaceWith(chars) => SuggestionView::ReplaceWith(chars@),
        }
    }
}

impl SuggestionView {
    /// `source` after the suggestion has been carried out at `span`.
    pub open spec fn applied(self, span: Span, source: Seq<char>) -> Seq<char>
        recommends
            span.fits(source.len()),
    {
        match self {
            SuggestionView::ReplaceWith(chars) => replaced(source, span, chars),
        }
    }
}

impl Suggestion {
    /// Carries the suggestion out on `source`, at `span`.
    pub fn apply(&self, span: Span, source: &mut Vec<char>)
        requires
            span.fits(old(source)@.len()),
        ensures
            final(source)@ == self@.applied(span, old(source)@),
    {
        match self {
            Suggestion::ReplaceWith(chars) => {
                let mut result: Vec<char> = Vec::new();
                let mut i: usize = 0;
                while i < span.start
                    invariant
                        i <= span.start,
                        span.fits(source@.len()),
                        result@ == source@.subrange(0, i as int),
                    decreases span.start - i,
                {
                    result.push(source[i]);
                    assert(result@ =~= source@.subrange(0, i + 1));
                    i += 1;
                }
                let mut j: usize = 0;
                while j < chars.len()
                    invariant
                        j <= chars@.len(),
                        result@ == source@.subrange(0, span.start as int) + chars@.subrange(
                            0,
                            j as int,
                        ),
                    decreases chars@.len() - j,
                {
                    result.push(chars[j]);
                    assert(result@ =~= source@.subrange(0, span.start as int) + chars@.subrange(
                        0,
                        j + 1,
                    ));
                    j += 1;
                }
                assert(chars@.subrange(0, chars@.len() as int) =~= chars@);
                let mut k: usize = span.end;
                while k < source.len()
                    invariant
                        span.end <= k <= source@.len(),
                        result@ == source@.subrange(0, span.start as int) + chars@
                            + source@.subrange(span.end as int, k as int),
                    decreases source@.len() - k,
                {
                    result.push(source[k]);
                    assert(result@ =~= source@.subrange(0, span.start as int) + chars@
                        + source@.subrange(span.end as int, k + 1));
                    k += 1;
                }
                *source = result;
            },
        }
    }
}

} // verus!
