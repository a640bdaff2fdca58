//! Lints, and the rules that find them.

use vstd::prelude::*;
use crate::document::{Document, DocumentView};

pub mod adjective_of_a;
pub mod lint;
pub mod lint_kind;
pub mod suggestion;

pub use adjective_of_a::AdjectiveOfA;
pub use lint::{lint_views, Lint, LintView};
pub use lint_kind::LintKind;
pub use suggestion::{Suggestion, SuggestionView};

verus! {

/// A rule that scans a document and reports what it finds.
pub trait Linter: Sized {
    /// The lints that the rule finds in a document, in the order of the
    /// text. They depend on the content of the document and on nothing else.
    spec fn lints_of(&self, document: DocumentView) -> Seq<LintView>;

    /// The text of [`Linter::description`].
    spec fn description_text(&self) -> Seq<char>;

    /// Scans `document`. The rule itself is left as it was.
    fn lint(&mut self, document: &Document) -> (lints: Vec<Lint>)
        ensures
            lint_views(lints@) == old(self).lints_of(document@),
            *final(self) == *old(self),
    ;

    /// A summary of the rule for a human reader.
    fn description(&self) -> (text: &str)
        ensures
            text@ == self.description_text(),
    ;
}

} // verus!
