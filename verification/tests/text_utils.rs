use ocr_translate::text::{str_contains_str, str_eq, to_ascii_upper, trim};

#[test]
fn trim_removes_surrounding_white_space() {
    assert_eq!(trim("  hello \n"), "hello");
    assert_eq!(trim("hello"), "hello");
    assert_eq!(trim("   "), "");
    assert_eq!(trim(""), "");
}

#[test]
fn trim_keeps_inner_white_space() {
    assert_eq!(trim(" a b "), "a b");
}

#[test]
fn upper_casing_maps_ascii_letters_only() {
    assert_eq!(to_ascii_upper("en"), "EN");
    assert_eq!(to_ascii_upper("aUtO"), "AUTO");
    assert_eq!(to_ascii_upper("th-ไทย"), "TH-ไทย");
}

#[test]
fn substring_search_finds_inner_text() {
    assert!(str_contains_str("NECTEC Lexitron Dictionary EN-TH word list", "Lexitron"));
    assert!(!str_contains_str("Nontri", "Lexitron"));
    assert!(str_contains_str("abc", ""));
    assert!(!str_contains_str("ab", "abc"));
}

#[test]
fn string_equality_goes_by_characters() {
    assert!(str_eq("สวัสดี", "สวัสดี"));
    assert!(!str_eq("en", "EN"));
    assert!(!str_eq("en", "eng"));
}
