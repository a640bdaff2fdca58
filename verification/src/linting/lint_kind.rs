use vstd::prelude::*;

verus! {

/// The sort of problem that a lint reports.
#[derive(Clone, Copy, Debug, PartialEq, Eq, Structural)]
pub enum LintKind {
    Spelling,
    Capitalization,
    Style,
    Formatting,
    Repetition,
    Enhancement,
    Readability,
    WordChoice,
    Miscellaneous,
}

} // verus!
