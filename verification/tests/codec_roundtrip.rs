use ocr_translate::codec::{from_json, to_json};
use ocr_translate::data::{
    CombinedTranslationData, ExampleItem, LongdoData, TranslationItem,
};
use ocr_translate::json::Json;

fn sample_with_dictionary() -> CombinedTranslationData {
    CombinedTranslationData {
        search_word: "hello".to_string(),
        source_lang: "EN".to_string(),
        target_lang: "TH".to_string(),
        google_translation: "สวัสดี".to_string(),
        longdo_data: Some(LongdoData {
            translations: vec![
                TranslationItem {
                    word: "hello".to_string(),
                    pos: "n".to_string(),
                    translation: "คำทักทาย".to_string(),
                    dictionary: "NECTEC Lexitron Dictionary EN-TH".to_string(),
                },
                TranslationItem {
                    word: "hello".to_string(),
                    pos: "int".to_string(),
                    translation: "สวัสดี".to_string(),
                    dictionary: "Nontri Dictionary".to_string(),
                },
            ],
            examples: vec![ExampleItem {
                en: "She said hello.".to_string(),
                th: "เธอกล่าวสวัสดี".to_string(),
            }],
        }),
    }
}

#[test]
fn round_trip_with_dictionary_data_is_identity() {
    let data = sample_with_dictionary();
    let j = to_json(&data);
    let back = from_json(&j).expect("an encoded artifact must decode");
    assert_eq!(back, data);
}

#[test]
fn round_trip_without_dictionary_data_is_identity() {
    let data = CombinedTranslationData {
        search_word: "hello world".to_string(),
        source_lang: "EN".to_string(),
        target_lang: "TH".to_string(),
        google_translation: "สวัสดีโลก".to_string(),
        longdo_data: None,
    };
    let j = to_json(&data);
    let back = from_json(&j).expect("an encoded artifact must decode");
    assert_eq!(back, data);
}

#[test]
fn encoding_is_an_object_with_the_field_names() {
    let j = to_json(&sample_with_dictionary());
    match j {
        Json::Obj(entries) => {
            let keys: Vec<&str> = entries.iter().map(|e| e.0.as_str()).collect();
            assert_eq!(
                keys,
                vec![
                    "search_word",
                    "source_lang",
                    "target_lang",
                    "google_translation",
                    "longdo_data"
                ]
            );
            match &entries[0].1 {
                Json::Str(s) => assert_eq!(s, "hello"),
                _ => panic!("the search word must encode as a string"),
            }
        },
        _ => panic!("the artifact must encode as an object"),
    }
}

#[test]
fn absent_dictionary_part_encodes_as_null() {
    let data = CombinedTranslationData {
        search_word: "x".to_string(),
        source_lang: "EN".to_string(),
        target_lang: "TH".to_string(),
        google_translation: "y".to_string(),
        longdo_data: None,
    };
    match to_json(&data) {
        Json::Obj(entries) => assert!(matches!(entries[4].1, Json::Null)),
        _ => panic!("the artifact must encode as an object"),
    }
}

#[test]
fn malformed_documents_do_not_decode() {
    assert!(from_json(&Json::Null).is_none());
    assert!(from_json(&Json::Obj(vec![])).is_none());
    assert!(from_json(&Json::Obj(vec![(
        "search_word".to_string(),
        Json::Bool(true)
    )]))
    .is_none());
}
