use vstd::prelude::*;
use crate::char_string::string_from_chars;
use crate::span::Span;
use crate::token::Token;

verus! {

/// What a [`Document`] holds, as mathematical sequences.
pub struct DocumentView {
    pub source: Seq<char>,
    pub tokens: Seq<Token>,
}

impl DocumentView {
    /// Every token lies within the text, and the tokens follow one another in
    /// the order of the text without overlapping.
    pub open spec fn well_formed(self) -> bool {
        &&& forall|i: int|
            0 <= i < self.tokens.len() ==> (#[trigger] self.tokens[i]).span.fits(self.source.len())
        &&& forall|i: int, j: int|
            0 <= i < j < self.tokens.len() ==> (#[trigger] self.tokens[i]).span.end <= (
            #[trigger] self.tokens[j]).span.start
    }

    /// The characters that token `index` covers.
    pub open spec fn token_text(self, index: int) -> Seq<char>
        recommends
            0 <= index < self.tokens.len(),
    {
        self.tokens[index].content(self.source)
    }

    /// Whether `indices` lists, in ascending order, exactly the indices of the
    /// tokens that are adjectives.
    pub open spec fn adjectives_are(self, indices: Seq<usize>) -> bool {
        &&& forall|k: int|
            0 <= k < indices.len() ==> (#[trigger] indices[k]) < self.tokens.len()
                && self.tokens[indices[k] as int].kind.adjective
        &&& forall|a: int, b: int|
            0 <= a < b < indices.len() ==> (#[trigger] indices[a]) < (#[trigger] indices[b])
        &&& forall|i: int|
            0 <= i < self.tokens.len() && (#[trigger] self.tokens[i]).kind.adjective
                ==> exists|k: int| 0 <= k < indices.len() && #[trigger] indices[k] == i
    }
}

/// A text and the tokens found in it. Once built it is only read.
pub struct Document {
    source: Vec<char>,
    tokens: Vec<Token>,
}

impl View for Document {
    type V = DocumentView;

    closed spec fn view(&self) -> DocumentView {
        DocumentView { source: self.source@, tokens: self.tokens@ }
    }
}

impl Document {
    /// Every document is well formed.
    #[verifier::type_invariant]
    pub open spec fn is_well_formed(self) -> bool {
        self@.well_formed()
    }

    /// The document of `source` with the tokens `tokens`, or `None` where some
    /// token does not lie within `source` or the tokens are not in the order
    /// of the text.
    pub fn new(source: Vec<char>, tokens: Vec<Token>) -> (document: Option<Document>)
        ensures
            match document {
                Some(d) => d@.source == source@ && d@.tokens == tokens@ && d@.well_formed(),
                None => !(DocumentView { source: source@, tokens: tokens@ }).well_formed(),
            },
    {
        let ghost view = DocumentView { source: source@, tokens: tokens@ };
        let text_len: usize = source.len();
        let n: usize = tokens.len();
        let mut i: usize = 0;
        while i < n
            invariant
                i <= n,
                n == tokens@.len(),
                text_len == source@.len(),
                view == (DocumentView { source: source@, tokens: tokens@ }),
                forall|j: int| 0 <= j < i ==> (#[trigger] tokens@[j]).span.fits(source@.len()),
                forall|a: int, b: int|
                    0 <= a < b < i ==> (#[trigger] tokens@[a]).span.end <= (
                    #[trigger] tokens@[b]).span.start,
            decreases n - i,
        {
            let span = tokens[i].span;
            if span.start > span.end || span.end > text_len {
                assert(!view.tokens[i as int].span.fits(view.source.len()));
                return None;
            }
            if i > 0 && tokens[i - 1].span.end > span.start {
                assert(view.tokens[i - 1].span.end > view.tokens[i as int].span.start);
                return None;
            }
            assert forall|a: int| 0 <= a < i implies (#[trigger] tokens@[a]).span.end
                <= span.start by {
                if a < i - 1 {
                    assert(tokens@[a].span.end <= tokens@[i - 1].span.start);
                }
            }
            i += 1;
        }
        Some(Document { source, tokens })
    }

    /// The text.
    pub fn get_source(&self) -> (source: &[char])
        ensures
            source@ == self@.source,
            self@.well_formed(),
    {
        proof {
            use_type_invariant(self);
        }
        self.source.as_slice()
    }

    /// The tokens, in the order of the text.
    pub fn get_tokens(&self) -> (tokens: &[Token])
        ensures
            tokens@ == self@.tokens,
            self@.well_formed(),
    {
        proof {
            use_type_invariant(self);
        }
        self.tokens.as_slice()
    }

    /// The token at `index`, or `None` where the document has no such token.
    pub fn get_token(&self, index: usize) -> (token: Option<Token>)
        ensures
            token == (if index < self@.tokens.len() {
                Some(self@.tokens[index as int])
            } else {
                None
            }),
            token is Some ==> token->Some_0.span.fits(self@.source.len()),
    {
        proof {
            use_type_invariant(self);
        }
        if index < self.tokens.len() {
            Some(self.tokens[index])
        } else {
            None
        }
    }

    /// The characters of the text that `span` denotes.
    pub fn get_span_content(&self, span: &Span) -> (content: &[char])
        requires
            span.fits(self@.source.len()),
        ensures
            content@ == span.content(self@.source),
    {
        span.get_content(self.source.as_slice())
    }

    /// The characters of the text that `span` denotes, as a string.
    pub fn get_span_content_str(&self, span: &Span) -> (content: String)
        requires
            span.fits(self@.source.len()),
        ensures
            content@ == span.content(self@.source),
    {
        string_from_chars(self.get_span_content(span))
    }

    /// The indices of the tokens that are adjectives, in ascending order.
    pub fn iter_adjective_indices(&self) -> (indices: Vec<usize>)
        ensures
            self@.adjectives_are(indices@),
    {
        let n: usize = self.tokens.len();
        let mut indices: Vec<usize> = Vec::new();
        let mut i: usize = 0;
        while i < n
            invariant
                i <= n,
                n == self.tokens@.len(),
                forall|k: int|
                    0 <= k < indices@.len() ==> (#[trigger] indices@[k]) < i
                        && self.tokens@[indices@[k] as int].kind.adjective,
                forall|a: int, b: int|
                    0 <= a < b < indices@.len() ==> (#[trigger] indices@[a]) < (
                    #[trigger] indices@[b]),
                forall|j: int|
                    0 <= j < i && (#[trigger] self.tokens@[j]).kind.adjective ==> exists|k: int|
                        0 <= k < indices@.len() && #[trigger] indices@[k] == j,
            decreases n - i,
        {
            if self.tokens[i].kind.is_adjective() {
                let ghost before = indices@;
                indices.push(i);
                assert forall|j: int|
                    0 <= j < i + 1 && (#[trigger] self.tokens@[j]).kind.adjective implies exists|
                    k: int,
                |
                    0 <= k < indices@.len() && #[trigger] indices@[k] == j by {
                    if j < i {
                        let k = choose|k: int| 0 <= k < before.len() && #[trigger] before[k] == j;
                        assert(indices@[k] == j);
                    } else {
                        assert(indices@[before.len() as int] == j);
                    }
                }
            }
            i += 1;
        }
        indices
    }
}

} // verus!
