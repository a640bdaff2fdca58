use harper_core::char_string::{
    ends_with_lowercased, eq_lowercased, is_listed, same_chars, to_lowercase_char,
};

fn chars(text: &str) -> Vec<char> {
    text.chars().collect()
}

#[test]
fn ascii_upper_case_letters_are_lowered() {
    assert_eq!(to_lowercase_char('A'), 'a');
    assert_eq!(to_lowercase_char('M'), 'm');
    assert_eq!(to_lowercase_char('Z'), 'z');
}

#[test]
fn other_characters_stay() {
    for c in ['a', 'z', '0', ' ', '@', '[', '`', '{', 'É', 'é', 'Σ', '\u{212A}', '\u{130}'] {
        assert_eq!(to_lowercase_char(c), c);
    }
}

#[test]
fn lowering_agrees_with_std_on_ascii() {
    for code in 0u8..128 {
        let c = code as char;
        assert_eq!(to_lowercase_char(c), c.to_ascii_lowercase());
    }
}

#[test]
fn same_chars_compares_content() {
    assert!(same_chars(&chars("large a"), &chars("large a")));
    assert!(same_chars(&[], &[]));
    assert!(!same_chars(&chars("large a"), &chars("large  a")));
    assert!(!same_chars(&chars("large a"), &chars("large b")));
    assert!(!same_chars(&chars("Large a"), &chars("large a")));
    assert!(!same_chars(&chars("a"), &[]));
}

#[test]
fn eq_lowercased_lowers_the_text_only() {
    assert!(eq_lowercased(&chars("of"), "of"));
    assert!(eq_lowercased(&chars("OF"), "of"));
    assert!(eq_lowercased(&chars("oF"), "of"));
    assert!(eq_lowercased(&[], ""));
    assert!(!eq_lowercased(&chars("of"), "OF"));
    assert!(!eq_lowercased(&chars("of"), "off"));
    assert!(!eq_lowercased(&chars("off"), "of"));
    assert!(!eq_lowercased(&chars("on"), "of"));
    assert!(!eq_lowercased(&chars("of"), ""));
}

#[test]
fn eq_lowercased_counts_characters_not_bytes() {
    assert!(eq_lowercased(&chars("café"), "café"));
    assert!(eq_lowercased(&chars("CAFé"), "café"));
    assert!(!eq_lowercased(&chars("CAFÉ"), "café"));
}

#[test]
fn ends_with_lowercased_looks_at_the_last_characters() {
    assert!(ends_with_lowercased(&chars("better"), "er"));
    assert!(ends_with_lowercased(&chars("BETTER"), "er"));
    assert!(ends_with_lowercased(&chars("er"), "er"));
    assert!(ends_with_lowercased(&chars("worst"), "st"));
    assert!(ends_with_lowercased(&chars("Beginning"), "ing"));
    assert!(ends_with_lowercased(&chars("anything"), ""));
    assert!(ends_with_lowercased(&[], ""));
    assert!(!ends_with_lowercased(&chars("r"), "er"));
    assert!(!ends_with_lowercased(&[], "er"));
    assert!(!ends_with_lowercased(&chars("large"), "er"));
    assert!(!ends_with_lowercased(&chars("ere"), "er"));
    assert!(!ends_with_lowercased(&chars("ring"), "ING"));
}

#[test]
fn is_listed_finds_any_word_of_the_list() {
    let words = ["as", "how", "too"];
    assert!(is_listed(&chars("as"), &words));
    assert!(is_listed(&chars("How"), &words));
    assert!(is_listed(&chars("TOO"), &words));
    assert!(!is_listed(&chars("to"), &words));
    assert!(!is_listed(&chars("tool"), &words));
    assert!(!is_listed(&[], &words));
    assert!(!is_listed(&chars("as"), &[]));
}
