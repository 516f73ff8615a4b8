use ocr_translate::data::{ExampleItem, TranslationItem};
use ocr_translate::html::{parse_longdo_document, Elem, Node};

fn elem(name: &str, class: Option<&str>, color: Option<&str>, children: Vec<Node>) -> Node {
    Node::Element(Elem {
        name: name.to_string(),
        class: class.map(|s| s.to_string()),
        color: color.map(|s| s.to_string()),
        children,
    })
}

fn text(s: &str) -> Node {
    Node::Text(s.to_string())
}

fn black_font(content: &str) -> Node {
    elem("font", None, Some("black"), vec![text(content)])
}

fn td(children: Vec<Node>) -> Node {
    elem("td", None, None, children)
}

fn tr(children: Vec<Node>) -> Node {
    elem("tr", None, None, children)
}

fn result_table(rows: Vec<Node>) -> Node {
    elem("table", Some("result-table"), None, rows)
}

fn heading(content: &str) -> Node {
    elem("b", None, None, vec![text(content)])
}

#[test]
fn example_row_with_two_black_spans_yields_one_pair() {
    let doc = vec![
        heading("ตัวอย่างประโยค (Example sentences)"),
        text("\n"),
        result_table(vec![tr(vec![
            td(vec![black_font("She said hello.")]),
            td(vec![black_font("เธอกล่าวสวัสดี")]),
        ])]),
    ];
    let data = parse_longdo_document(&doc);
    assert_eq!(
        data.examples,
        vec![ExampleItem { en: "She said hello.".to_string(), th: "เธอกล่าวสวัสดี".to_string() }]
    );
    assert!(data.translations.is_empty());
}

#[test]
fn example_rows_with_wrong_span_counts_yield_nothing() {
    let doc = vec![
        heading("ตัวอย่างประโยค"),
        result_table(vec![
            tr(vec![td(vec![text("no fonts here")])]),
            tr(vec![td(vec![black_font("only one")])]),
            tr(vec![
                td(vec![black_font("one"), black_font("two")]),
                td(vec![black_font("three")]),
            ]),
        ]),
    ];
    let data = parse_longdo_document(&doc);
    assert!(data.examples.is_empty());
}

#[test]
fn translation_rows_are_read_under_the_dictionary_heading() {
    let doc = vec![
        heading("NECTEC Lexitron Dictionary EN-TH"),
        text("\n"),
        elem("div", None, None, vec![text("decoration")]),
        result_table(vec![
            tr(vec![td(vec![text("hello")]), td(vec![text("(n) คำทักทาย")])]),
            tr(vec![td(vec![text("  ")]), td(vec![text("(v) dropped, empty word")])]),
        ]),
    ];
    let data = parse_longdo_document(&doc);
    assert_eq!(
        data.translations,
        vec![TranslationItem {
            word: "hello".to_string(),
            pos: "n".to_string(),
            translation: "คำทักทาย".to_string(),
            dictionary: "NECTEC Lexitron Dictionary EN-TH".to_string(),
        }]
    );
}

#[test]
fn dictionaries_contribute_in_priority_order() {
    let doc = vec![
        heading("Nontri Dictionary"),
        result_table(vec![tr(vec![td(vec![text("hi")]), td(vec![text("(int) สวัสดี")])])]),
        heading("NECTEC Lexitron Dictionary EN-TH"),
        result_table(vec![tr(vec![td(vec![text("hi")]), td(vec![text("(n) ทักทาย")])])]),
    ];
    let data = parse_longdo_document(&doc);
    assert_eq!(data.translations.len(), 2);
    assert_eq!(data.translations[0].dictionary, "NECTEC Lexitron Dictionary EN-TH");
    assert_eq!(data.translations[1].dictionary, "Nontri Dictionary");
}

#[test]
fn table_without_marker_class_is_not_read() {
    let doc = vec![
        heading("Hope Dictionary"),
        elem(
            "table",
            Some("other"),
            None,
            vec![tr(vec![td(vec![text("x")]), td(vec![text("(n) y")])])],
        ),
    ];
    let data = parse_longdo_document(&doc);
    assert!(data.translations.is_empty());
}

#[test]
fn heading_without_dictionary_name_is_ignored() {
    let doc = vec![
        heading("Some Other Dictionary"),
        result_table(vec![tr(vec![td(vec![text("x")]), td(vec![text("(n) y")])])]),
    ];
    let data = parse_longdo_document(&doc);
    assert!(data.translations.is_empty());
    assert!(data.examples.is_empty());
}

#[test]
fn rows_with_other_cell_counts_yield_nothing() {
    let doc = vec![
        heading("Hope Dictionary"),
        result_table(vec![
            tr(vec![td(vec![text("one cell only")])]),
            tr(vec![
                td(vec![text("a")]),
                td(vec![text("b")]),
                td(vec![text("c")]),
            ]),
        ]),
    ];
    let data = parse_longdo_document(&doc);
    assert!(data.translations.is_empty());
}

#[test]
fn empty_document_yields_empty_data() {
    let doc: Vec<Node> = Vec::new();
    let data = parse_longdo_document(&doc);
    assert!(data.translations.is_empty());
    assert!(data.examples.is_empty());
}

#[test]
fn nested_heading_finds_table_among_its_own_siblings() {
    let doc = vec![elem(
        "div",
        None,
        None,
        vec![
            heading("Nontri Dictionary"),
            result_table(vec![tr(vec![td(vec![text("run")]), td(vec![text("(v) วิ่ง")])])]),
        ],
    )];
    let data = parse_longdo_document(&doc);
    assert_eq!(data.translations.len(), 1);
    assert_eq!(data.translations[0].word, "run");
    assert_eq!(data.translations[0].pos, "v");
    assert_eq!(data.translations[0].translation, "วิ่ง");
}
