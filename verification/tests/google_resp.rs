use ocr_translate::google::{
    build_google_url, build_longdo_url, extract_google_response, percent_encode, NetworkError,
};
use ocr_translate::json::Json;

fn jstr(s: &str) -> Json {
    Json::Str(s.to_string())
}

#[test]
fn chunks_concatenate_and_detected_language_is_read() {
    let j = Json::Arr(vec![
        Json::Arr(vec![
            Json::Arr(vec![jstr("สวัสดี"), jstr("hello")]),
            Json::Arr(vec![jstr(" ครับ")]),
        ]),
        Json::Other,
        jstr("en"),
    ]);
    let r = extract_google_response(&j).unwrap();
    assert_eq!(r.0, "สวัสดี ครับ");
    assert_eq!(r.1, "en");
}

#[test]
fn items_without_leading_string_contribute_nothing() {
    let j = Json::Arr(vec![
        Json::Arr(vec![
            Json::Arr(vec![jstr("a")]),
            Json::Other,
            Json::Arr(vec![]),
            Json::Arr(vec![Json::Null]),
            Json::Arr(vec![jstr("b")]),
        ]),
        Json::Null,
        jstr("th"),
    ]);
    let r = extract_google_response(&j).unwrap();
    assert_eq!(r.0, "ab");
    assert_eq!(r.1, "th");
}

#[test]
fn empty_top_level_array_is_a_parse_error() {
    assert_eq!(extract_google_response(&Json::Arr(vec![])), Err(NetworkError::ParseError));
}

#[test]
fn non_array_document_is_a_parse_error() {
    assert_eq!(extract_google_response(&jstr("x")), Err(NetworkError::ParseError));
}

#[test]
fn missing_detected_language_is_a_parse_error() {
    let j = Json::Arr(vec![Json::Arr(vec![Json::Arr(vec![jstr("a")])])]);
    assert_eq!(extract_google_response(&j), Err(NetworkError::ParseError));
}

#[test]
fn non_string_detected_language_is_a_parse_error() {
    let j = Json::Arr(vec![Json::Arr(vec![]), Json::Null, Json::Bool(true)]);
    assert_eq!(extract_google_response(&j), Err(NetworkError::ParseError));
}

#[test]
fn google_url_has_fixed_endpoint_and_encoded_query() {
    let url = build_google_url("hello world", "auto", "th");
    assert_eq!(
        url,
        "https://translate.googleapis.com/translate_a/single?client=gtx&sl=auto&tl=th&dt=t&q=hello%20world"
    );
}

#[test]
fn percent_encoding_escapes_multibyte_text() {
    assert_eq!(percent_encode("ก"), "%E0%B8%81");
    assert_eq!(percent_encode("a-b_c.d~e"), "a-b_c.d~e");
    assert_eq!(percent_encode("a+b&c"), "a%2Bb%26c");
}

#[test]
fn longdo_url_takes_the_word_verbatim() {
    assert_eq!(build_longdo_url("hello"), "https://dict.longdo.com/mobile.php?search=hello");
}

#[test]
fn network_error_messages_name_the_failure() {
    assert_eq!(NetworkError::Timeout.message(), "request timed out");
    assert_eq!(NetworkError::ParseError.message(), "malformed response");
    assert_eq!(NetworkError::ConnectionError.message(), "connection failed");
}
