use ocr_translate::google::NetworkError;
use ocr_translate::html::{Elem, Node};
use ocr_translate::orchestrate::{
    dictionary_gate_holds, on_dictionary_outcome, on_google_outcome, translate_begin,
    TranslateState,
};

fn elem(name: &str, class: Option<&str>, children: Vec<Node>) -> Node {
    Node::Element(Elem {
        name: name.to_string(),
        class: class.map(|s| s.to_string()),
        color: None,
        children,
    })
}

fn text(s: &str) -> Node {
    Node::Text(s.to_string())
}

fn dictionary_doc(heading: &str, word: &str, definition: &str) -> Vec<Node> {
    vec![
        elem("b", None, vec![text(heading)]),
        elem(
            "table",
            Some("result-table"),
            vec![elem(
                "tr",
                None,
                vec![
                    elem("td", None, vec![text(word)]),
                    elem("td", None, vec![text(definition)]),
                ],
            )],
        ),
    ]
}

#[test]
fn gate_truth_table() {
    assert!(dictionary_gate_holds("hello", "en", "th"));
    assert!(!dictionary_gate_holds("hello world", "en", "th"));
    assert!(!dictionary_gate_holds("hello", "th", "th"));
    assert!(!dictionary_gate_holds("hello", "en", "de"));
    assert!(!dictionary_gate_holds("hello world", "fr", "de"));
}

#[test]
fn gated_word_reaches_the_dictionary_stage_and_merges() {
    let st = translate_begin("hello", "auto", "th");
    let st = on_google_outcome(st, Ok(("สวัสดี".to_string(), "en".to_string())));
    assert!(matches!(st, TranslateState::NeedDictionary { .. }));
    let doc = dictionary_doc("NECTEC Lexitron Dictionary EN-TH", "hello", "(n) คำทักทาย");
    let fin = on_dictionary_outcome(st, Some(&doc));
    match fin {
        TranslateState::Done(d) => {
            assert_eq!(d.search_word, "hello");
            assert_eq!(d.source_lang, "EN");
            assert_eq!(d.target_lang, "TH");
            assert!(!d.google_translation.is_empty());
            let longdo = d.longdo_data.expect("dictionary data should be present");
            assert!(!longdo.translations.is_empty());
            assert_eq!(longdo.translations[0].dictionary, "NECTEC Lexitron Dictionary EN-TH");
        },
        _ => panic!("expected a finished artifact"),
    }
}

#[test]
fn next_priority_dictionary_is_used_when_first_is_absent() {
    let st = translate_begin("hello", "auto", "th");
    let st = on_google_outcome(st, Ok(("สวัสดี".to_string(), "en".to_string())));
    let doc = dictionary_doc("Nontri Dictionary", "hello", "(int) สวัสดี");
    let fin = on_dictionary_outcome(st, Some(&doc));
    match fin {
        TranslateState::Done(d) => {
            let longdo = d.longdo_data.expect("dictionary data should be present");
            assert_eq!(longdo.translations[0].dictionary, "Nontri Dictionary");
        },
        _ => panic!("expected a finished artifact"),
    }
}

#[test]
fn phrase_skips_the_dictionary() {
    let st = translate_begin("hello world", "auto", "th");
    let fin = on_google_outcome(st, Ok(("สวัสดีโลก".to_string(), "en".to_string())));
    match fin {
        TranslateState::Done(d) => {
            assert!(d.longdo_data.is_none());
            assert_eq!(d.source_lang, "EN");
            assert_eq!(d.target_lang, "TH");
        },
        _ => panic!("a phrase should finish without a dictionary stage"),
    }
}

#[test]
fn wrong_detected_language_skips_the_dictionary() {
    let st = translate_begin("hallo", "auto", "th");
    let fin = on_google_outcome(st, Ok(("สวัสดี".to_string(), "de".to_string())));
    match fin {
        TranslateState::Done(d) => {
            assert!(d.longdo_data.is_none());
            assert_eq!(d.source_lang, "DE");
        },
        _ => panic!("expected a finished artifact"),
    }
}

#[test]
fn wrong_target_language_skips_the_dictionary() {
    let st = translate_begin("hello", "auto", "de");
    let fin = on_google_outcome(st, Ok(("hallo".to_string(), "en".to_string())));
    match fin {
        TranslateState::Done(d) => {
            assert!(d.longdo_data.is_none());
            assert_eq!(d.target_lang, "DE");
        },
        _ => panic!("expected a finished artifact"),
    }
}

#[test]
fn failed_machine_translation_degrades_to_an_error_text() {
    let st = translate_begin(" hello ", "auto", "th");
    let fin = on_google_outcome(st, Err(NetworkError::Timeout));
    match fin {
        TranslateState::Done(d) => {
            assert_eq!(d.search_word, "hello");
            assert_eq!(d.google_translation, "Translation error: request timed out");
            assert_eq!(d.source_lang, "AUTO");
            assert_eq!(d.target_lang, "TH");
            assert!(d.longdo_data.is_none());
        },
        _ => panic!("a failure must still finish"),
    }
}

#[test]
fn failed_dictionary_fetch_leaves_the_dictionary_part_absent() {
    let st = translate_begin("hello", "auto", "th");
    let st = on_google_outcome(st, Ok(("สวัสดี".to_string(), "en".to_string())));
    let fin = on_dictionary_outcome(st, None);
    match fin {
        TranslateState::Done(d) => {
            assert!(d.longdo_data.is_none());
            assert_eq!(d.google_translation, "สวัสดี");
        },
        _ => panic!("expected a finished artifact"),
    }
}
