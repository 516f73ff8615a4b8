use ocr_translate::ocr::{accept_extraction, ocr_language_hint, OcrError};
use ocr_translate::text::Classification;

#[test]
fn public_codes_map_to_engine_codes() {
    assert_eq!(ocr_language_hint("en"), "eng");
    assert_eq!(ocr_language_hint("th"), "tha");
}

#[test]
fn unknown_codes_pass_through() {
    assert_eq!(ocr_language_hint("deu"), "deu");
    assert_eq!(ocr_language_hint(""), "");
}

#[test]
fn joined_hints_map_componentwise() {
    assert_eq!(ocr_language_hint("en+th"), "eng+tha");
    assert_eq!(ocr_language_hint("th+deu+en"), "tha+deu+eng");
}

#[test]
fn empty_extraction_is_an_error() {
    let r = accept_extraction("".to_string(), "eng".to_string());
    assert_eq!(r.unwrap_err(), OcrError::EmptyResult);
}

#[test]
fn nonempty_extraction_keeps_text_and_hint() {
    let x = accept_extraction("hello".to_string(), "eng".to_string()).unwrap();
    assert_eq!(x.text, "hello");
    assert_eq!(x.lang_hint, "eng");
    assert_eq!(x.classification(), Classification::Word);
}

#[test]
fn ocr_error_messages_name_the_failure() {
    assert_eq!(OcrError::EngineFailure.message(), "text recognition failed");
    assert_eq!(OcrError::UnreadableImage.message(), "image could not be read");
    assert_eq!(OcrError::EmptyResult.message(), "no text was recognised");
}
