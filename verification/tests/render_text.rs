use ocr_translate::data::{ExampleItem, LongdoData, TranslationItem};
use ocr_translate::render::format_longdo_result;

fn item(word: &str, pos: &str, translation: &str) -> TranslationItem {
    TranslationItem {
        word: word.to_string(),
        pos: pos.to_string(),
        translation: translation.to_string(),
        dictionary: "Nontri Dictionary".to_string(),
    }
}

fn example(en: &str, th: &str) -> ExampleItem {
    ExampleItem { en: en.to_string(), th: th.to_string() }
}

#[test]
fn empty_lookup_renders_the_fixed_line() {
    let data = LongdoData { translations: vec![], examples: vec![] };
    assert_eq!(format_longdo_result(&data), "No translation found");
}

#[test]
fn entries_and_examples_render_exactly() {
    let data = LongdoData {
        translations: vec![item("hello", "n", "คำทักทาย")],
        examples: vec![example("She said hello.", "เธอกล่าวสวัสดี")],
    };
    assert_eq!(
        format_longdo_result(&data),
        "📚 hello (n): คำทักทาย\n\n--- ตัวอย่างประโยค ---\n\n1. She said hello.\n   เธอกล่าวสวัสดี\n"
    );
}

#[test]
fn examples_are_capped_at_three() {
    let data = LongdoData {
        translations: vec![item("go", "v", "ไป")],
        examples: vec![
            example("one", "หนึ่ง"),
            example("two", "สอง"),
            example("three", "สาม"),
            example("four", "สี่"),
        ],
    };
    let out = format_longdo_result(&data);
    assert!(out.contains("\n1. one\n"));
    assert!(out.contains("\n2. two\n"));
    assert!(out.contains("\n3. three\n"));
    assert!(!out.contains("four"));
}

#[test]
fn entries_without_examples_render_without_the_section() {
    let data = LongdoData { translations: vec![item("go", "v", "ไป")], examples: vec![] };
    assert_eq!(format_longdo_result(&data), "📚 go (v): ไป\n");
}
