use harper_core::linting::adjective_of_a::{
    has_context_word, is_bad_adjective, is_good_adjective, ADJECTIVE_BLACKLIST,
    ADJECTIVE_WHITELIST, CONTEXT_WORDS, PRIORITY,
};
use harper_core::{Document, Span, Token, TokenKind};

fn chars(text: &str) -> Vec<char> {
    text.chars().collect()
}

#[test]
fn word_lists_hold_the_literal_words() {
    assert_eq!(ADJECTIVE_WHITELIST, ["bad", "big", "good", "large", "long", "vague"]);
    assert_eq!(CONTEXT_WORDS, ["as", "how", "that", "this", "too"]);
    assert_eq!(ADJECTIVE_BLACKLIST, ["much", "part"]);
    assert_eq!(PRIORITY, 63);
}

#[test]
fn good_adjectives_are_the_whitelist() {
    for word in ["bad", "big", "good", "large", "long", "vague", "Large", "VAGUE"] {
        assert!(is_good_adjective(&chars(word)));
    }
    for word in ["", "larger", "lon", "much", "part", "rare", "as"] {
        assert!(!is_good_adjective(&chars(word)));
    }
}

#[test]
fn bad_adjectives_are_the_blacklist() {
    for word in ["much", "part", "Much", "PART"] {
        assert!(is_bad_adjective(&chars(word)));
    }
    for word in ["", "parts", "muc", "bad", "large"] {
        assert!(!is_bad_adjective(&chars(word)));
    }
}

/// The document of `text`, split at the blanks into words and whitespace.
fn plain(text: &str) -> Document {
    let source = chars(text);
    let mut tokens = Vec::new();
    let mut start = 0;
    while start < source.len() {
        let blank = source[start] == ' ';
        let mut end = start + 1;
        while end < source.len() && (source[end] == ' ') == blank {
            end += 1;
        }
        let kind = TokenKind { word: !blank, whitespace: blank, ..TokenKind::default() };
        tokens.push(Token::new(Span::new(start, end), kind));
        start = end;
    }
    Document::new(source, tokens).unwrap()
}

#[test]
fn context_word_stands_two_tokens_before() {
    let document = plain("as big too  rare That odd");
    assert!(has_context_word(&document, 2));
    assert!(has_context_word(&document, 6));
    assert!(has_context_word(&document, 10));
    // `big` is no context word.
    assert!(!has_context_word(&document, 4));
    // Before a whitespace token stands a word, not whitespace.
    assert!(!has_context_word(&document, 3));
    // The token two before is whitespace, not a word.
    assert!(!has_context_word(&document, 5));
}

#[test]
fn context_word_needs_two_tokens_before() {
    let document = plain("as big");
    assert!(!has_context_word(&document, 0));
    assert!(!has_context_word(&document, 1));
    assert!(has_context_word(&document, 2));
}

#[test]
fn context_word_past_the_tokens() {
    let document = plain("as ");
    // Index 2 is one past the last token: the two tokens before it exist.
    assert!(has_context_word(&document, 2));
    assert!(!has_context_word(&document, 3));
    assert!(!has_context_word(&document, usize::MAX));
}

#[test]
fn context_word_must_carry_the_word_capability() {
    let source = chars("as big");
    let tokens = vec![
        Token::new(Span::new(0, 2), TokenKind { noun: true, ..TokenKind::default() }),
        Token::new(Span::new(2, 3), TokenKind { whitespace: true, ..TokenKind::default() }),
        Token::new(Span::new(3, 6), TokenKind { word: true, ..TokenKind::default() }),
    ];
    let document = Document::new(source, tokens).unwrap();
    assert!(!has_context_word(&document, 2));
}
