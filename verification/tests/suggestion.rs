use harper_core::linting::Suggestion;
use harper_core::Span;

fn chars(text: &str) -> Vec<char> {
    text.chars().collect()
}

#[test]
fn replace_with_puts_the_characters_in_place_of_the_span() {
    let mut source = chars("as large of a batch");
    Suggestion::ReplaceWith(chars("large a")).apply(Span::new(3, 13), &mut source);
    assert_eq!(source, chars("as large a batch"));
}

#[test]
fn replace_with_of_the_same_length() {
    let mut source = chars("abcdef");
    Suggestion::ReplaceWith(chars("XY")).apply(Span::new(2, 4), &mut source);
    assert_eq!(source, chars("abXYef"));
}

#[test]
fn replace_with_at_the_ends() {
    let mut source = chars("abcdef");
    Suggestion::ReplaceWith(chars("start ")).apply(Span::new(0, 0), &mut source);
    assert_eq!(source, chars("start abcdef"));
    Suggestion::ReplaceWith(chars("!")).apply(Span::new(12, 12), &mut source);
    assert_eq!(source, chars("start abcdef!"));
    Suggestion::ReplaceWith(chars("S")).apply(Span::new(0, 1), &mut source);
    assert_eq!(source, chars("Start abcdef!"));
    Suggestion::ReplaceWith(chars("?")).apply(Span::new(12, 13), &mut source);
    assert_eq!(source, chars("Start abcdef?"));
}

#[test]
fn replace_with_nothing_or_everything() {
    let mut source = chars("abcdef");
    Suggestion::ReplaceWith(Vec::new()).apply(Span::new(1, 5), &mut source);
    assert_eq!(source, chars("af"));
    Suggestion::ReplaceWith(chars("whole")).apply(Span::new(0, 2), &mut source);
    assert_eq!(source, chars("whole"));
    Suggestion::ReplaceWith(Vec::new()).apply(Span::new(0, 5), &mut source);
    assert_eq!(source, Vec::<char>::new());
    Suggestion::ReplaceWith(chars("x")).apply(Span::new(0, 0), &mut source);
    assert_eq!(source, chars("x"));
}
