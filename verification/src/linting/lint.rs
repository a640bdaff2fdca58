use vstd::prelude::*;
use crate::linting::lint_kind::LintKind;
use crate::linting::suggestion::{Suggestion, SuggestionView};
use crate::span::Span;

verus! {

/// A problem found in a text, with what could be done about it.
#[derive(Clone, Debug, PartialEq, Eq)]
pub struct Lint {
    /// The stretch of the text that the lint is about.
    pub span: Span,
    pub lint_kind: LintKind,
    /// The changes that would settle the lint, the preferred one first. No
    /// two of them are the same.
    pub suggestions: Vec<Suggestion>,
    pub message: String,
    /// The rank of the lint among lints on overlapping spans: the higher
    /// goes first.
    pub priority: u8,
}

/// What a [`Lint`] holds, as mathematical values.
pub struct LintView {
    pub span: Span,
    pub lint_kind: LintKind,
    pub suggestions: Seq<SuggestionView>,
    pub message: Seq<char>,
    pub priority: u8,
}

impl LintView {
    /// The span is not reversed and no suggestion is made twice.
    pub open spec fn well_formed(self) -> bool {
        &&& self.span.well_formed()
        &&& self.suggestions.no_duplicates()
    }
}

impl View for Lint {
    type V = LintView;

    open spec fn view(&self) -> LintView {
        LintView {
            span: self.span,
            lint_kind: self.lint_kind,
            suggestions: self.suggestions@.map_values(|s: Suggestion| s@),
            message: self.message@,
            priority: self.priority,
        }
    }
}

/// The views of `lints`, in their order.
pub open spec fn lint_views(lints: Seq<Lint>) -> Seq<LintView> {
    lints.map_values(|lint: Lint| lint@)
}

} // verus!
