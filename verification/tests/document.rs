use harper_core::{Document, Span, Token, TokenKind};

fn word() -> TokenKind {
    TokenKind { word: true, ..TokenKind::default() }
}

fn space() -> TokenKind {
    TokenKind { whitespace: true, ..TokenKind::default() }
}

fn adjective() -> TokenKind {
    TokenKind { word: true, adjective: true, ..TokenKind::default() }
}

fn chars(text: &str) -> Vec<char> {
    text.chars().collect()
}

/// The document of `a large red  box`.
fn sample() -> Document {
    let tokens = vec![
        Token::new(Span::new(0, 1), word()),
        Token::new(Span::new(1, 2), space()),
        Token::new(Span::new(2, 7), adjective()),
        Token::new(Span::new(7, 8), space()),
        Token::new(Span::new(8, 11), adjective()),
        Token::new(Span::new(11, 13), space()),
        Token::new(Span::new(13, 16), word()),
    ];
    Document::new(chars("a large red  box"), tokens).unwrap()
}

#[test]
fn span_holds_its_bounds() {
    let span = Span::new(3, 8);
    assert_eq!(span.start, 3);
    assert_eq!(span.end, 8);
    assert_eq!(span.len(), 5);
    assert_eq!(Span::new(4, 4).len(), 0);
}

#[test]
fn span_content_is_the_slice_it_denotes() {
    let source = chars("as large of a batch");
    assert_eq!(Span::new(3, 8).get_content(&source), &chars("large")[..]);
    assert_eq!(Span::new(0, 0).get_content(&source), &[] as &[char]);
    assert_eq!(Span::new(0, 19).get_content(&source), &source[..]);
}

#[test]
fn token_kind_capabilities_are_independent() {
    let none = TokenKind::default();
    assert!(!none.is_word());
    assert!(!none.is_whitespace());
    assert!(!none.is_noun());
    assert!(!none.is_verb());
    assert!(!none.is_adjective());
    let many = TokenKind { word: true, noun: true, verb: true, adjective: true, whitespace: false };
    assert!(many.is_word());
    assert!(many.is_noun());
    assert!(many.is_verb());
    assert!(many.is_adjective());
    assert!(!many.is_whitespace());
    let only_verb = TokenKind { verb: true, ..TokenKind::default() };
    assert!(only_verb.is_verb());
    assert!(!only_verb.is_noun());
    assert!(!only_verb.is_word());
}

#[test]
fn token_holds_span_and_kind() {
    let token = Token::new(Span::new(2, 7), adjective());
    assert_eq!(token.span, Span::new(2, 7));
    assert_eq!(token.kind, adjective());
}

#[test]
fn document_keeps_source_and_tokens() {
    let document = sample();
    assert_eq!(document.get_source(), &chars("a large red  box")[..]);
    assert_eq!(document.get_tokens().len(), 7);
    assert_eq!(document.get_tokens()[2], Token::new(Span::new(2, 7), adjective()));
}

#[test]
fn empty_document_is_well_formed() {
    let document = Document::new(Vec::new(), Vec::new()).unwrap();
    assert!(document.get_tokens().is_empty());
    assert!(document.get_source().is_empty());
    assert_eq!(document.get_token(0), None);
    assert!(document.iter_adjective_indices().is_empty());
}

#[test]
fn tokens_need_not_cover_the_text() {
    let tokens = vec![Token::new(Span::new(2, 7), adjective())];
    assert!(Document::new(chars("a large red  box"), tokens).is_some());
    let empty_spans = vec![
        Token::new(Span::new(2, 2), word()),
        Token::new(Span::new(2, 2), word()),
        Token::new(Span::new(2, 16), word()),
    ];
    assert!(Document::new(chars("a large red  box"), empty_spans).is_some());
}

#[test]
fn token_past_the_end_is_refused() {
    let tokens = vec![Token::new(Span::new(0, 1), word()), Token::new(Span::new(1, 17), word())];
    assert!(Document::new(chars("a large red  box"), tokens).is_none());
    let tokens = vec![Token::new(Span::new(0, 1), word())];
    assert!(Document::new(Vec::new(), tokens).is_none());
}

#[test]
fn reversed_span_is_refused() {
    let tokens = vec![Token { span: Span { start: 5, end: 2 }, kind: word() }];
    assert!(Document::new(chars("a large red  box"), tokens).is_none());
}

#[test]
fn tokens_out_of_order_are_refused() {
    let tokens = vec![Token::new(Span::new(2, 7), word()), Token::new(Span::new(0, 1), word())];
    assert!(Document::new(chars("a large red  box"), tokens).is_none());
}

#[test]
fn overlapping_tokens_are_refused() {
    let tokens = vec![Token::new(Span::new(0, 7), word()), Token::new(Span::new(6, 8), word())];
    assert!(Document::new(chars("a large red  box"), tokens).is_none());
    let tokens = vec![
        Token::new(Span::new(0, 1), word()),
        Token::new(Span::new(1, 7), word()),
        Token::new(Span::new(0, 8), word()),
    ];
    assert!(Document::new(chars("a large red  box"), tokens).is_none());
}

#[test]
fn get_token_is_bounds_checked() {
    let document = sample();
    assert_eq!(document.get_token(0), Some(Token::new(Span::new(0, 1), word())));
    assert_eq!(document.get_token(6), Some(Token::new(Span::new(13, 16), word())));
    assert_eq!(document.get_token(7), None);
    assert_eq!(document.get_token(usize::MAX), None);
}

#[test]
fn span_content_as_chars_and_as_string() {
    let document = sample();
    let large = document.get_token(2).unwrap().span;
    assert_eq!(document.get_span_content(&large), &chars("large")[..]);
    assert_eq!(document.get_span_content_str(&large), "large");
    assert_eq!(document.get_span_content_str(&Span::new(11, 13)), "  ");
    assert_eq!(document.get_span_content_str(&Span::new(5, 5)), "");
    assert_eq!(document.get_span_content_str(&Span::new(0, 16)), "a large red  box");
}

#[test]
fn span_content_str_keeps_characters_beyond_ascii() {
    let tokens = vec![Token::new(Span::new(0, 5), word())];
    let document = Document::new(chars("naïve é"), tokens).unwrap();
    assert_eq!(document.get_span_content_str(&Span::new(0, 5)), "naïve");
    assert_eq!(document.get_span_content_str(&Span::new(6, 7)), "é");
}

#[test]
fn adjective_indices_ascend() {
    let document = sample();
    assert_eq!(document.iter_adjective_indices(), vec![2, 4]);
    // Asking again gives the same list.
    assert_eq!(document.iter_adjective_indices(), vec![2, 4]);
}

#[test]
fn adjective_indices_at_both_ends() {
    let tokens = vec![
        Token::new(Span::new(0, 3), adjective()),
        Token::new(Span::new(3, 4), space()),
        Token::new(Span::new(4, 7), adjective()),
    ];
    let document = Document::new(chars("red hot"), tokens).unwrap();
    assert_eq!(document.iter_adjective_indices(), vec![0, 2]);
    let none = Document::new(chars("red hot"), vec![Token::new(Span::new(0, 3), word())]).unwrap();
    assert_eq!(none.iter_adjective_indices(), Vec::<usize>::new());
}
