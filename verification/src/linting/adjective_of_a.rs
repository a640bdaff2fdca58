use vstd::prelude::*;
use crate::char_string::{
    ends_with, ends_with_lowercased, eq_lowercased, is_listed, lowercase, same_chars, texts,
};
use crate::document::{Document, DocumentView};
use crate::linting::{lint_views, Lint, LintKind, LintView, Linter, Suggestion, SuggestionView};
use crate::patterns::indefinite_article::is_indefinite_article;
use crate::span::Span;

verus! {

/// Adjectives that are known to be used in the form `adjective of a`.
pub const ADJECTIVE_WHITELIST: [&'static str; 6] =
    ["bad", "big", "good", "large", "long", "vague"];

/// Words that, standing before an adjective, make the form likely whatever
/// the adjective is.
pub const CONTEXT_WORDS: [&'static str; 5] = ["as", "how", "that", "this", "too"];

/// Adjectives that are never flagged, whatever stands before them.
pub const ADJECTIVE_BLACKLIST: [&'static str; 2] = ["much", "part"];

/// The rank of the lints of this rule.
pub const PRIORITY: u8 = 63;

/// Whether `word`, in lower case, is an adjective of the whitelist.
pub open spec fn good_adjective(word: Seq<char>) -> bool {
    texts(ADJECTIVE_WHITELIST@).contains(lowercase(word))
}

/// Whether `word`, in lower case, is an adjective of the blacklist.
pub open spec fn bad_adjective(word: Seq<char>) -> bool {
    texts(ADJECTIVE_BLACKLIST@).contains(lowercase(word))
}

/// Whether a context word and one whitespace token stand right before
/// token `adj_idx`.
pub open spec fn context_word_before(document: DocumentView, adj_idx: int) -> bool {
    &&& 2 <= adj_idx <= document.tokens.len()
    &&& document.tokens[adj_idx - 1].kind.whitespace
    &&& document.tokens[adj_idx - 2].kind.word
    &&& texts(CONTEXT_WORDS@).contains(lowercase(document.token_text(adj_idx - 2)))
}

/// Whether the four tokens behind token `index` are whitespace, the word
/// `of`, whitespace, and the word `a` or `an`, in whatever case.
pub open spec fn of_article_follows(document: DocumentView, index: int) -> bool {
    &&& 0 <= index
    &&& index + 4 < document.tokens.len()
    &&& document.tokens[index + 1].kind.whitespace
    &&& document.tokens[index + 2].kind.word
    &&& lowercase(document.token_text(index + 2)) == "of"@
    &&& document.tokens[index + 3].kind.whitespace
    &&& document.tokens[index + 4].kind.word
    &&& is_indefinite_article(lowercase(document.token_text(index + 4)))
}

/// Whether the form of token `index` rules it out: a comparative or
/// superlative ending, or an ending in `ing` on a token that is also a noun
/// or a verb.
pub open spec fn excluded_by_form(document: DocumentView, index: int) -> bool {
    let word = lowercase(document.token_text(index));
    let kind = document.tokens[index].kind;
    ||| ends_with(word, "er"@)
    ||| ends_with(word, "st"@)
    ||| (ends_with(word, "ing"@) && (kind.noun || kind.verb))
}

/// Whether the rule reports the adjective at token `index`.
pub open spec fn flagged(document: DocumentView, index: int) -> bool {
    &&& 0 <= index < document.tokens.len()
    &&& document.tokens[index].kind.adjective
    &&& of_article_follows(document, index)
    &&& (good_adjective(document.token_text(index)) || context_word_before(document, index))
    &&& !bad_adjective(document.token_text(index))
    &&& !excluded_by_form(document, index)
}

/// The adjective at token `index`, then the whitespace token `gap`, then
/// the article four tokens behind the adjective.
pub open spec fn rewritten(document: DocumentView, index: int, gap: int) -> Seq<char> {
    document.token_text(index) + document.token_text(gap) + document.token_text(index + 4)
}

/// The suggestions for the adjective at token `index`: the adjective and
/// the article with the whitespace that stood before `of` between them, and
/// the same with the whitespace that stood behind `of`, unless the two read
/// the same.
pub open spec fn suggestions_at(document: DocumentView, index: int) -> Seq<SuggestionView> {
    let first = rewritten(document, index, index + 1);
    let second = rewritten(document, index, index + 3);
    if first == second {
        seq![SuggestionView::ReplaceWith(first)]
    } else {
        seq![SuggestionView::ReplaceWith(first), SuggestionView::ReplaceWith(second)]
    }
}

/// The lint that the rule reports for a flagged adjective at token `index`.
/// It spans the text from the start of the adjective to the end of the
/// article.
pub open spec fn lint_at(document: DocumentView, index: int) -> LintView {
    LintView {
        span: Span {
            start: document.tokens[index].span.start,
            end: document.tokens[index + 4].span.end,
        },
        lint_kind: LintKind::Style,
        suggestions: suggestions_at(document, index),
        message: "The word `of` is not needed here."@,
        priority: PRIORITY,
    }
}

/// The indices, among the first `upto` tokens, of the adjectives that the
/// rule reports, in ascending order.
pub open spec fn flagged_upto(document: DocumentView, upto: nat) -> Seq<int>
    decreases upto,
{
    if upto == 0 {
        Seq::empty()
    } else {
        let earlier = flagged_upto(document, (upto - 1) as nat);
        if flagged(document, upto - 1) {
            earlier.push(upto - 1)
        } else {
            earlier
        }
    }
}

/// The lints for the tokens at `indices`, in the order of `indices`.
pub open spec fn lints_for(document: DocumentView, indices: Seq<int>) -> Seq<LintView> {
    indices.map_values(|index: int| lint_at(document, index))
}

/// The lints of the rule for a document: one for each flagged adjective, in
/// the order of the tokens.
pub open spec fn adjective_of_a_lints(document: DocumentView) -> Seq<LintView> {
    lints_for(document, flagged_upto(document, document.tokens.len()))
}

/// [`flagged_upto`] lists each flagged token among the first `upto` once,
/// and no other, in ascending order.
pub proof fn lemma_flagged_upto(document: DocumentView, upto: nat)
    ensures
        forall|k: int|
            0 <= k < flagged_upto(document, upto).len() ==> {
                &&& 0 <= (#[trigger] flagged_upto(document, upto)[k]) < upto
                &&& flagged(document, flagged_upto(document, upto)[k])
            },
        forall|a: int, b: int|
            0 <= a < b < flagged_upto(document, upto).len() ==> (#[trigger] flagged_upto(
                document,
                upto,
            )[a]) < (#[trigger] flagged_upto(document, upto)[b]),
        forall|index: int|
            0 <= index < upto && flagged(document, index) ==> flagged_upto(
                document,
                upto,
            ).contains(index),
    decreases upto,
{
    if upto > 0 {
        let earlier = flagged_upto(document, (upto - 1) as nat);
        let all = flagged_upto(document, upto);
        lemma_flagged_upto(document, (upto - 1) as nat);
        assert forall|index: int| 0 <= index < upto && flagged(document, index) implies all.contains(
            index,
        ) by {
            if index < upto - 1 {
                let k = choose|k: int| 0 <= k < earlier.len() && earlier[k] == index;
                assert(all[k] == index);
            } else {
                assert(all[all.len() - 1] == index);
            }
        }
    }
}

/// Tokens that are not adjectives are not flagged.
pub proof fn lemma_flagged_skips_other_tokens(document: DocumentView, from: nat, upto: nat)
    requires
        from <= upto <= document.tokens.len(),
        forall|i: int| from <= i < upto ==> !(#[trigger] document.tokens[i]).kind.adjective,
    ensures
        flagged_upto(document, upto) == flagged_upto(document, from),
    decreases upto - from,
{
    if from < upto {
        assert(!document.tokens[upto - 1].kind.adjective);
        lemma_flagged_skips_other_tokens(document, from, (upto - 1) as nat);
    }
}

/// The lint for a flagged adjective has a span that is not reversed and
/// lies within the text, and makes no suggestion twice.
pub proof fn lemma_lint_well_formed(document: DocumentView, index: int)
    requires
        document.well_formed(),
        flagged(document, index),
    ensures
        lint_at(document, index).well_formed(),
        lint_at(document, index).span.fits(document.source.len()),
        1 <= lint_at(document, index).suggestions.len() <= 2,
{
    assert(document.tokens[index].span.end <= document.tokens[index + 4].span.start);
    let first = rewritten(document, index, index + 1);
    let second = rewritten(document, index, index + 3);
    if first != second {
        assert(SuggestionView::ReplaceWith(first) != SuggestionView::ReplaceWith(second));
    }
}

/// Linting depends on the content of the document alone: two documents
/// of the same text and tokens get the same lints, down to each character
/// of each suggestion.
pub proof fn lemma_same_content_same_lints(first: Document, second: Document)
    requires
        first@ == second@,
    ensures
        adjective_of_a_lints(first@) == adjective_of_a_lints(second@),
{
}

/// The lints are in the order of the text: of two lints, the earlier in the
/// list starts no later in the text than the other.
pub proof fn lemma_lints_in_text_order(document: DocumentView, a: int, b: int)
    requires
        document.well_formed(),
        0 <= a <= b < adjective_of_a_lints(document).len(),
    ensures
        adjective_of_a_lints(document)[a].span.start <= adjective_of_a_lints(
            document,
        )[b].span.start,
{
    let indices = flagged_upto(document, document.tokens.len());
    lemma_flagged_upto(document, document.tokens.len());
    if a < b {
        assert(indices[a] < indices[b]);
        assert(document.tokens[indices[a]].span.end <= document.tokens[indices[b]].span.start);
    }
}

/// The characters that suggestion `choice` for the adjective at token
/// `index` puts in the place of the lint's span.
pub open spec fn replacement_at(document: DocumentView, index: int, choice: int) -> Seq<char> {
    match suggestions_at(document, index)[choice] {
        SuggestionView::ReplaceWith(chars) => chars,
    }
}

/// Whether `span` is the place of the article in the text that suggestion
/// `choice` for the adjective at token `index` leaves: the last characters
/// of the replacement.
pub open spec fn is_article_place(
    document: DocumentView,
    index: int,
    choice: int,
    span: Span,
) -> bool {
    let end = document.tokens[index].span.start + replacement_at(document, index, choice).len();
    &&& span.end == end
    &&& span.start == end - document.token_text(index + 4).len()
}

/// Once a suggestion of the lint for the adjective at token `index` has
/// been applied and the text has been scanned again, the rule does not
/// report that adjective again.
///
/// `after` is the document of the edited text. Of its tokens the law asks
/// only what any scan gives that splits the replacement the way the text was
/// split before: the adjective is still token `index`, and the article of
/// the replacement is the second token behind it.
pub proof fn lemma_applied_suggestion_settles_lint(
    before: DocumentView,
    index: int,
    choice: int,
    after: DocumentView,
)
    requires
        before.well_formed(),
        flagged(before, index),
        0 <= choice < lint_at(before, index).suggestions.len(),
        after.source == lint_at(before, index).suggestions[choice].applied(
            lint_at(before, index).span,
            before.source,
        ),
        index + 2 < after.tokens.len(),
        after.tokens[index].span == before.tokens[index].span,
        is_article_place(before, index, choice, after.tokens[index + 2].span),
    ensures
        !flagged(after, index),
        !flagged_upto(after, after.tokens.len()).contains(index),
{
    lemma_flagged_upto(after, after.tokens.len());
    let adjective = before.token_text(index);
    let article = before.token_text(index + 4);
    let gap = if choice == 0 {
        before.token_text(index + 1)
    } else {
        before.token_text(index + 3)
    };
    let replacement = replacement_at(before, index, choice);
    assert(replacement == adjective + gap + article);
    assert(before.tokens[index].span.fits(before.source.len()));
    assert(before.tokens[index + 4].span.fits(before.source.len()));
    assert(before.tokens[index].span.end <= before.tokens[index + 4].span.start);
    assert(after.token_text(index + 2) =~= article);
    assert("a"@ != "of"@ && "an"@ != "of"@) by {
        reveal_strlit("a");
        reveal_strlit("an");
        reveal_strlit("of");
        assert("a"@.len() == 1 && "of"@.len() == 2);
        assert("an"@[0] == 'a' && "of"@[0] == 'o');
    }
}

/// Whether a context word and one whitespace token stand right before the
/// token at `adj_idx`.
pub fn has_context_word(document: &Document, adj_idx: usize) -> (found: bool)
    ensures
        found == context_word_before(document@, adj_idx as int),
{
    if adj_idx < 2 {
        // Need at least 2 tokens before the adjective (word + space)
        return false;
    }
    // Get the token before the adjective (should be a space)
    if let Some(space_token) = document.get_token(adj_idx - 1) {
        if !space_token.kind.is_whitespace() {
            return false;
        }
        // Get the token before the space (should be our context word)
        if let Some(word_token) = document.get_token(adj_idx - 2) {
            if !word_token.kind.is_word() {
                return false;
            }
            let word = document.get_span_content(&word_token.span);
            return is_listed(word, &CONTEXT_WORDS);
        }
    }
    false
}

/// Whether `word`, in lower case, is an adjective of the whitelist.
pub fn is_good_adjective(word: &[char]) -> (good: bool)
    ensures
        good == good_adjective(word@),
{
    is_listed(word, &ADJECTIVE_WHITELIST)
}

/// Whether `word`, in lower case, is an adjective of the blacklist.
pub fn is_bad_adjective(word: &[char]) -> (bad: bool)
    ensures
        bad == bad_adjective(word@),
{
    is_listed(word, &ADJECTIVE_BLACKLIST)
}

/// Detects sequences of words of the form `adjective of a`, as in
/// `too large of a batch`, which reads better without the `of`.
#[derive(Debug, Clone, Copy, Default)]
pub struct AdjectiveOfA;

impl AdjectiveOfA {
    /// The lint for the token at `index`, where the rule reports it.
    pub fn lint_at_token(document: &Document, index: usize) -> (found: Option<Lint>)
        ensures
            match found {
                Some(lint) => flagged(document@, index as int) && lint@ == lint_at(
                    document@,
                    index as int,
                ) && lint@.well_formed(),
                None => !flagged(document@, index as int),
            },
    {
        let tokens = document.get_tokens();
        if index >= tokens.len() {
            return None;
        }
        let adjective = tokens[index];
        if !adjective.kind.is_adjective() {
            return None;
        }
        let adj_chars = document.get_span_content(&adjective.span);

        // Only flag adjectives known to use this construction
        // Unless we have a clearer context
        if !is_good_adjective(adj_chars) && !has_context_word(document, index) {
            return None;
        }
        // Some adjectives still create false positives even with the extra context
        if is_bad_adjective(adj_chars) {
            return None;
        }
        // Rule out comparatives and superlatives.
        if ends_with_lowercased(adj_chars, "er") || ends_with_lowercased(adj_chars, "st") {
            return None;
        }
        // Rule out present participles (e.g. "beginning of a")
        // The -ing form of a verb acts as an adjective called a present participle
        // and also acts as a noun called a gerund.
        if ends_with_lowercased(adj_chars, "ing") && (adjective.kind.is_noun()
            || adjective.kind.is_verb()) {
            return None;
        }
        if tokens.len() - index <= 4 {
            return None;
        }
        let space_1 = tokens[index + 1];
        if !space_1.kind.is_whitespace() {
            return None;
        }
        let word_of = tokens[index + 2];
        if !word_of.kind.is_word() {
            return None;
        }
        if !eq_lowercased(document.get_span_content(&word_of.span), "of") {
            return None;
        }
        let space_2 = tokens[index + 3];
        if !space_2.kind.is_whitespace() {
            return None;
        }
        let a_or_an = tokens[index + 4];
        if !a_or_an.kind.is_word() {
            return None;
        }
        let article_chars = document.get_span_content(&a_or_an.span);
        if !eq_lowercased(article_chars, "a") && !eq_lowercased(article_chars, "an") {
            return None;
        }
        // Whitespace may differ, add the other replacement if so
        let mut sugg_1: Vec<char> = Vec::new();
        sugg_1.extend_from_slice(adj_chars);
        sugg_1.extend_from_slice(document.get_span_content(&space_1.span));
        sugg_1.extend_from_slice(article_chars);

        let mut sugg_2: Vec<char> = Vec::new();
        sugg_2.extend_from_slice(adj_chars);
        sugg_2.extend_from_slice(document.get_span_content(&space_2.span));
        sugg_2.extend_from_slice(article_chars);

        assert(sugg_1@ =~= rewritten(document@, index as int, index + 1));
        assert(sugg_2@ =~= rewritten(document@, index as int, index + 3));

        let differ = !same_chars(sugg_1.as_slice(), sugg_2.as_slice());
        let mut suggestions: Vec<Suggestion> = Vec::new();
        suggestions.push(Suggestion::ReplaceWith(sugg_1));
        if differ {
            suggestions.push(Suggestion::ReplaceWith(sugg_2));
        }
        let lint = Lint {
            span: Span::new(adjective.span.start, a_or_an.span.end),
            lint_kind: LintKind::Style,
            suggestions,
            message: "The word `of` is not needed here.".to_owned(),
            priority: PRIORITY,
        };
        assert(lint@.suggestions =~= suggestions_at(document@, index as int));
        proof {
            lemma_lint_well_formed(document@, index as int);
        }
        Some(lint)
    }
}

impl Linter for AdjectiveOfA {
    open spec fn lints_of(&self, document: DocumentView) -> Seq<LintView> {
        adjective_of_a_lints(document)
    }

    open spec fn description_text(&self) -> Seq<char> {
        "This rule looks for sequences of words of the form `adjective of a`."@
    }

    fn lint(&mut self, document: &Document) -> (lints: Vec<Lint>)
        ensures
            forall|k: int| 0 <= k < lints@.len() ==> (#[trigger] lints@[k])@.well_formed(),
    {
        let mut lints: Vec<Lint> = Vec::new();
        let indices = document.iter_adjective_indices();
        let ghost doc = document@;
        let ghost mut done: nat = 0;
        let mut k: usize = 0;
        while k < indices.len()
            invariant
                k <= indices@.len(),
                doc == document@,
                doc.adjectives_are(indices@),
                done <= doc.tokens.len(),
                k > 0 ==> done == indices@[k - 1] + 1,
                k == 0 ==> done == 0,
                lint_views(lints@) == lints_for(doc, flagged_upto(doc, done)),
                forall|n: int| 0 <= n < lints@.len() ==> (#[trigger] lints@[n])@.well_formed(),
            decreases indices@.len() - k,
        {
            let i: usize = indices[k];
            proof {
                assert forall|j: int| done <= j < i implies !(#[trigger] doc.tokens[j]).kind.adjective by {
                    if doc.tokens[j].kind.adjective {
                        let at = choose|at: int| 0 <= at < indices@.len() && #[trigger] indices@[at] == j;
                        if at < k {
                            assert(k > 0);
                            if at < k - 1 {
                                assert(indices@[at] < indices@[k - 1]);
                            }
                        } else if at > k {
                            assert(indices@[k as int] < indices@[at]);
                        }
                    }
                }
                if k > 0 {
                    assert(indices@[k - 1] < indices@[k as int]);
                }
                lemma_flagged_skips_other_tokens(doc, done, i as nat);
            }
            let ghost before = lints@;
            match Self::lint_at_token(document, i) {
                Some(lint) => {
                    lints.push(lint);
                    assert(lint_views(lints@) =~= lint_views(before).push(lint@));
                    assert(lints_for(doc, flagged_upto(doc, (i + 1) as nat)) =~= lints_for(
                        doc,
                        flagged_upto(doc, i as nat),
                    ).push(lint_at(doc, i as int)));
                },
                None => {},
            }
            proof {
                done = (i + 1) as nat;
            }
            k += 1;
        }
        proof {
            assert forall|j: int| done <= j < doc.tokens.len() implies !(
            #[trigger] doc.tokens[j]).kind.adjective by {
                if doc.tokens[j].kind.adjective {
                    let at = choose|at: int| 0 <= at < indices@.len() && #[trigger] indices@[at] == j;
                    if at < k - 1 {
                        assert(indices@[at] < indices@[k - 1]);
                    }
                }
            }
            lemma_flagged_skips_other_tokens(doc, done, doc.tokens.len());
        }
        lints
    }

    fn description(&self) -> (text: &str) {
        "This rule looks for sequences of words of the form `adjective of a`."
    }
}

} // verus!
