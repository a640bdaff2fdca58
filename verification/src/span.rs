use vstd::prelude::*;

verus! {

/// A half-open range `[start, end)` of character offsets into a text.
#[derive(Clone, Copy, Debug, PartialEq, Eq, Structural)]
pub struct Span {
    pub start: usize,
    pub end: usize,
}

impl Span {
    /// The span is not reversed: it starts no later than it ends.
    pub open spec fn well_formed(self) -> bool {
        self.start <= self.end
    }

    /// The span is well formed and lies within a text of `text_len` characters.
    pub open spec fn fits(self, text_len: nat) -> bool {
        self.start <= self.end <= text_len
    }

    /// The characters of `text` that the span denotes.
    pub open spec fn content(self, text: Seq<char>) -> Seq<char>
        recommends
            self.fits(text.len()),
    {
        text.subrange(self.start as int, self.end as int)
    }

    /// The span from `start` up to, and not including, `end`.
    pub fn new(start: usize, end: usize) -> (span: Span)
        requires
            start <= end,
        ensures
            span.start == start,
            span.end == end,
            span.well_formed(),
    {
        Span { start, end }
    }

    /// The number of characters in the span.
    pub fn len(&self) -> (n: usize)
        requires
            self.well_formed(),
        ensures
            n == self.end - self.start,
    {
        self.end - self.start
    }

    /// The characters of `source` that the span denotes.
    pub fn get_content<'a>(&self, source: &'a [char]) -> (content: &'a [char])
        requires
            self.fits(source@.len()),
        ensures
            content@ == self.content(source@),
    {
        vstd::slice::slice_subrange(source, self.start, self.end)
    }
}

} // verus!
