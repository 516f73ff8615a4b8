use ocr_translate::text::{classify, is_single_word, Classification};

#[test]
fn single_word_is_word() {
    assert!(is_single_word("hello"));
    assert_eq!(classify("hello"), Classification::Word);
}

#[test]
fn boundary_forty_nine_characters_is_word() {
    let s = "a".repeat(49);
    assert!(is_single_word(&s));
    assert_eq!(classify(&s), Classification::Word);
}

#[test]
fn boundary_fifty_characters_is_phrase() {
    let s = "a".repeat(50);
    assert!(!is_single_word(&s));
    assert_eq!(classify(&s), Classification::Phrase);
}

#[test]
fn inner_space_makes_a_phrase() {
    assert!(!is_single_word("hello world"));
    assert_eq!(classify("hello world"), Classification::Phrase);
}

#[test]
fn inner_newline_makes_a_phrase() {
    assert!(!is_single_word("hello\nworld"));
}

#[test]
fn surrounding_space_is_trimmed_before_classification() {
    assert!(is_single_word("  hello  "));
    assert!(is_single_word("\nhello\t"));
}

#[test]
fn empty_text_is_a_word() {
    assert!(is_single_word(""));
    assert!(is_single_word("   "));
}
