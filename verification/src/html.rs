//! Document model and the structural parser for the dictionary markup.
//!
//! The source markup is uncontrolled third-party content, so the parser never
//! fails: it extracts what matches and silently skips the rest. Extraction is
//! anchor-and-scan: find a bold heading whose text contains a dictionary's
//! name, then walk that heading's following siblings until the first table
//! whose class attribute contains a marker string, and read the table's rows.
//! The same primitive, with a different anchor phrase, locates the
//! example-sentence table.

use vstd::prelude::*;

use crate::data::{
    ExampleItem, ExampleItemView, LongdoData, TranslationItem, TranslationItemView,
};
use crate::definition::{parse_definition, parse_definition_spec};
use crate::text::{
    chars_contain, contains_sub, str_contains_str, str_eq, to_chars, trim, trim_spec,
};

verus! {

/// One node of the parsed markup: a text run, or an element with the
/// attributes the scan reads and its children in document order.
#[derive(Debug)]
pub enum Node {
    Text(String),
    Element(Elem),
}

/// An element node. Only the tag name, the class attribute and the color
/// attribute take part in any extraction decision.
#[derive(Debug)]
pub struct Elem {
    pub name: String,
    pub class: Option<String>,
    pub color: Option<String>,
    pub children: Vec<Node>,
}

/// The concatenated text content beneath one node, in document order.
pub open spec fn node_text(n: Node) -> Seq<char>
    decreases n, 0int,
{
    match n {
        Node::Text(s) => s@,
        Node::Element(e) => texts_from(e.children@, 0),
    }
}

/// The concatenated text content beneath `ns[i..]`.
pub open spec fn texts_from(ns: Seq<Node>, i: int) -> Seq<char>
    decreases ns, ns.len() - i,
        when 0 <= i <= ns.len()
{
    if i >= ns.len() {
        Seq::empty()
    } else {
        node_text(ns[i]) + texts_from(ns, i + 1)
    }
}

/// Computes the text content beneath the nodes of `ns`.
pub fn texts_of_nodes(ns: &Vec<Node>) -> (r: String)
    ensures
        r@ == texts_from(ns@, 0),
    decreases ns@, 0int,
{
    let mut acc = String::new();
    let mut i: usize = 0;
    while i < ns.len()
        invariant
            i <= ns@.len(),
            texts_from(ns@, 0) == acc@ + texts_from(ns@, i as int),
        decreases ns@.len() - i,
    {
        let piece = match &ns[i] {
            Node::Text(s) => s.clone(),
            Node::Element(e) => {
                proof {
                    assert(decreases_to!(ns@ => ns@[i as int]));
                }
                texts_of_nodes(&e.children)
            },
        };
        proof {
            assert((acc@ + node_text(ns@[i as int])) + texts_from(ns@, i + 1) =~= acc@ + (
            node_text(ns@[i as int]) + texts_from(ns@, i + 1)));
        }
        acc.append(piece.as_str());
        i += 1;
    }
    proof {
        assert(acc@ + texts_from(ns@, i as int) =~= acc@);
    }
    acc
}

/// The element shapes the extraction walks for.
#[derive(Debug, Clone, Copy)]
pub enum Shape {
    Row,
    Cell,
    BlackFont,
}

/// Whether an element has the given shape: a table row, a table cell, or a
/// font element colored black.
pub open spec fn shape_matches(e: Elem, sh: Shape) -> bool {
    match sh {
        Shape::Row => e.name@ == "tr"@,
        Shape::Cell => e.name@ == "td"@,
        Shape::BlackFont => e.name@ == "font"@ && match e.color {
            Some(c) => c@ == "black"@,
            None => false,
        },
    }
}

/// Checks an element against a shape.
fn shape_check(e: &Elem, sh: Shape) -> (r: bool)
    ensures
        r == shape_matches(*e, sh),
{
    match sh {
        Shape::Row => str_eq(e.name.as_str(), "tr"),
        Shape::Cell => str_eq(e.name.as_str(), "td"),
        Shape::BlackFont => str_eq(e.name.as_str(), "font") && match &e.color {
            Some(c) => str_eq(c.as_str(), "black"),
            None => false,
        },
    }
}

/// The descendant elements of `ns[i..]` having shape `sh`, in document order.
pub open spec fn desc_from(ns: Seq<Node>, i: int, sh: Shape) -> Seq<Elem>
    decreases ns, ns.len() - i,
        when 0 <= i <= ns.len()
{
    if i >= ns.len() {
        Seq::empty()
    } else {
        match ns[i] {
            Node::Text(_) => desc_from(ns, i + 1, sh),
            Node::Element(e) => (if shape_matches(e, sh) {
                seq![e]
            } else {
                Seq::empty()
            }) + desc_from(e.children@, 0, sh) + desc_from(ns, i + 1, sh),
        }
    }
}

/// The elements referred to by a sequence of references.
pub open spec fn elem_vals(s: Seq<&Elem>) -> Seq<Elem> {
    Seq::new(s.len(), |i: int| *s[i])
}

/// Collects the descendant elements of `ns` having shape `sh`.
fn collect_desc<'a>(ns: &'a Vec<Node>, sh: Shape, out: &mut Vec<&'a Elem>)
    ensures
        elem_vals(final (out)@) == elem_vals(old(out)@) + desc_from(ns@, 0, sh),
    decreases ns@, 0int,
{
    let ghost orig = out@;
    let mut i: usize = 0;
    while i < ns.len()
        invariant
            i <= ns@.len(),
            elem_vals(out@) + desc_from(ns@, i as int, sh) == elem_vals(orig) + desc_from(
                ns@,
                0,
                sh,
            ),
        decreases ns@.len() - i,
    {
        let ghost before = out@;
        match &ns[i] {
            Node::Text(_) => {},
            Node::Element(e) => {
                if shape_check(e, sh) {
                    out.push(e);
                    proof {
                        assert(elem_vals(out@) =~= elem_vals(before) + seq![*e]);
                    }
                }
                let ghost mid = out@;
                proof {
                    assert(decreases_to!(ns@ => ns@[i as int]));
                }
                collect_desc(&e.children, sh, out);
                proof {
                    let here = if shape_matches(*e, sh) {
                        seq![*e]
                    } else {
                        Seq::<Elem>::empty()
                    };
                    assert(elem_vals(mid) =~= elem_vals(before) + here);
                    assert(elem_vals(out@) =~= elem_vals(before) + (here + desc_from(
                        e.children@,
                        0,
                        sh,
                    )));
                    assert((elem_vals(before) + (here + desc_from(e.children@, 0, sh)))
                        + desc_from(ns@, i + 1, sh) =~= elem_vals(before) + ((here + desc_from(
                        e.children@,
                        0,
                        sh,
                    )) + desc_from(ns@, i + 1, sh)));
                }
            },
        }
        i += 1;
    }
    proof {
        assert(elem_vals(out@) + desc_from(ns@, i as int, sh) =~= elem_vals(out@));
        assert(elem_vals(out@) =~= elem_vals(orig) + desc_from(ns@, 0, sh));
    }
}

/// The views of a sequence of sense entries.
pub open spec fn item_views(s: Seq<TranslationItem>) -> Seq<TranslationItemView> {
    Seq::new(s.len(), |i: int| s[i]@)
}

/// The views of a sequence of example pairs.
pub open spec fn example_views(s: Seq<ExampleItem>) -> Seq<ExampleItemView> {
    Seq::new(s.len(), |i: int| s[i]@)
}

/// The sense entry one table row yields: a row with exactly two cell
/// descendants, both with non-empty trimmed text, yields an entry whose
/// definition is split by the definition parser; any other row yields nothing.
pub open spec fn row_item(r: Elem, dict: Seq<char>) -> Option<TranslationItemView> {
    let cells = desc_from(r.children@, 0, Shape::Cell);
    if cells.len() == 2 {
        let word = trim_spec(texts_from(cells[0].children@, 0));
        let def = trim_spec(texts_from(cells[1].children@, 0));
        if word.len() > 0 && def.len() > 0 {
            Some(
                TranslationItemView {
                    word,
                    pos: parse_definition_spec(def).0,
                    translation: parse_definition_spec(def).1,
                    dictionary: dict,
                },
            )
        } else {
            None
        }
    } else {
        None
    }
}

/// The sense entries of the rows `rows[i..]`, in order.
pub open spec fn rows_items(rows: Seq<Elem>, i: int, dict: Seq<char>) -> Seq<TranslationItemView>
    decreases rows.len() - i,
        when 0 <= i <= rows.len()
{
    if i >= rows.len() {
        Seq::empty()
    } else {
        (match row_item(rows[i], dict) {
            Some(it) => seq![it],
            None => Seq::empty(),
        }) + rows_items(rows, i + 1, dict)
    }
}

/// The sense entries one result table yields, in row order.
pub open spec fn table_translations(t: Elem, dict: Seq<char>) -> Seq<TranslationItemView> {
    rows_items(desc_from(t.children@, 0, Shape::Row), 0, dict)
}

/// Reads the sense entries of one result table, appending them to `out`.
fn parse_translation_table(table: &Elem, dict: &String, out: &mut Vec<TranslationItem>)
    ensures
        item_views(final (out)@) == item_views(old(out)@) + table_translations(*table, dict@),
{
    let ghost orig = out@;
    let mut rows: Vec<&Elem> = Vec::new();
    collect_desc(&table.children, Shape::Row, &mut rows);
    let ghost rseq = elem_vals(rows@);
    proof {
        assert(rseq =~= desc_from(table.children@, 0, Shape::Row));
    }
    let mut i: usize = 0;
    while i < rows.len()
        invariant
            i <= rows@.len(),
            rseq == elem_vals(rows@),
            item_views(out@) + rows_items(rseq, i as int, dict@) == item_views(orig) + rows_items(
                rseq,
                0,
                dict@,
            ),
        decreases rows@.len() - i,
    {
        let row: &Elem = rows[i];
        let ghost before = out@;
        proof {
            assert(*row == rseq[i as int]);
        }
        let mut cells: Vec<&Elem> = Vec::new();
        collect_desc(&row.children, Shape::Cell, &mut cells);
        proof {
            assert(elem_vals(cells@) =~= desc_from(row.children@, 0, Shape::Cell));
        }
        if cells.len() == 2 {
            proof {
                assert(*cells@[0] == elem_vals(cells@)[0]);
                assert(*cells@[1] == elem_vals(cells@)[1]);
            }
            let wtext = texts_of_nodes(&cells[0].children);
            let word = trim(wtext.as_str());
            let dtext = texts_of_nodes(&cells[1].children);
            let def = trim(dtext.as_str());
            if !word.as_str().is_empty() && !def.as_str().is_empty() {
                let pd = parse_definition(def.as_str());
                let item = TranslationItem {
                    word,
                    pos: pd.0,
                    translation: pd.1,
                    dictionary: dict.clone(),
                };
                proof {
                    assert(row_item(rseq[i as int], dict@) == Some(item@));
                }
                out.push(item);
                proof {
                    assert(item_views(out@) =~= item_views(before) + seq![item@]);
                }
            }
        }
        proof {
            let here = match row_item(rseq[i as int], dict@) {
                Some(it) => seq![it],
                None => Seq::<TranslationItemView>::empty(),
            };
            assert(item_views(out@) =~= item_views(before) + here);
            assert((item_views(before) + here) + rows_items(rseq, i + 1, dict@) =~= item_views(
                before,
            ) + (here + rows_items(rseq, i + 1, dict@)));
        }
        i += 1;
    }
    proof {
        assert(item_views(out@) + rows_items(rseq, i as int, dict@) =~= item_views(out@));
    }
}

/// The example pair one table row yields: a row with exactly two black font
/// descendants, both with non-empty trimmed text, yields the pair in document
/// order; any other row yields nothing.
pub open spec fn row_example(r: Elem) -> Option<ExampleItemView> {
    let fonts = desc_from(r.children@, 0, Shape::BlackFont);
    if fonts.len() == 2 {
        let en = trim_spec(texts_from(fonts[0].children@, 0));
        let th = trim_spec(texts_from(fonts[1].children@, 0));
        if en.len() > 0 && th.len() > 0 {
            Some(ExampleItemView { en, th })
        } else {
            None
        }
    } else {
        None
    }
}

/// The example pairs of the rows `rows[i..]`, in order.
pub open spec fn rows_examples(rows: Seq<Elem>, i: int) -> Seq<ExampleItemView>
    decreases rows.len() - i,
        when 0 <= i <= rows.len()
{
    if i >= rows.len() {
        Seq::empty()
    } else {
        (match row_example(rows[i]) {
            Some(it) => seq![it],
            None => Seq::empty(),
        }) + rows_examples(rows, i + 1)
    }
}

/// The example pairs one result table yields, in row order.
pub open spec fn table_examples(t: Elem) -> Seq<ExampleItemView> {
    rows_examples(desc_from(t.children@, 0, Shape::Row), 0)
}

/// Reads the example pairs of one result table, appending them to `out`.
fn parse_example_table(table: &Elem, out: &mut Vec<ExampleItem>)
    ensures
        example_views(final (out)@) == example_views(old(out)@) + table_examples(*table),
{
    let ghost orig = out@;
    let mut rows: Vec<&Elem> = Vec::new();
    collect_desc(&table.children, Shape::Row, &mut rows);
    let ghost rseq = elem_vals(rows@);
    proof {
        assert(rseq =~= desc_from(table.children@, 0, Shape::Row));
    }
    let mut i: usize = 0;
    while i < rows.len()
        invariant
            i <= rows@.len(),
            rseq == elem_vals(rows@),
            example_views(out@) + rows_examples(rseq, i as int) == example_views(orig)
                + rows_examples(rseq, 0),
        decreases rows@.len() - i,
    {
        let row: &Elem = rows[i];
        let ghost before = out@;
        proof {
            assert(*row == rseq[i as int]);
        }
        let mut fonts: Vec<&Elem> = Vec::new();
        collect_desc(&row.children, Shape::BlackFont, &mut fonts);
        proof {
            assert(elem_vals(fonts@) =~= desc_from(row.children@, 0, Shape::BlackFont));
        }
        if fonts.len() == 2 {
            proof {
                assert(*fonts@[0] == elem_vals(fonts@)[0]);
                assert(*fonts@[1] == elem_vals(fonts@)[1]);
            }
            let etext = texts_of_nodes(&fonts[0].children);
            let en = trim(etext.as_str());
            let ttext = texts_of_nodes(&fonts[1].children);
            let th = trim(ttext.as_str());
            if !en.as_str().is_empty() && !th.as_str().is_empty() {
                let item = ExampleItem { en, th };
                proof {
                    assert(row_example(rseq[i as int]) == Some(item@));
                }
                out.push(item);
                proof {
                    assert(example_views(out@) =~= example_views(before) + seq![item@]);
                }
            }
        }
        proof {
            let here = match row_example(rseq[i as int]) {
                Some(it) => seq![it],
                None => Seq::<ExampleItemView>::empty(),
            };
            assert(example_views(out@) =~= example_views(before) + here);
            assert((example_views(before) + here) + rows_examples(rseq, i + 1) =~= example_views(
                before,
            ) + (here + rows_examples(rseq, i + 1)));
        }
        i += 1;
    }
    proof {
        assert(example_views(out@) + rows_examples(rseq, i as int) =~= example_views(out@));
    }
}

/// A table row yields an example pair exactly when it has exactly two black
/// font descendants, both with non-empty trimmed text; the pair is their
/// texts in document order. A row with zero, one, or three such descendants
/// yields nothing.
pub proof fn lemma_example_row_shape(r: Elem)
    ensures
        desc_from(r.children@, 0, Shape::BlackFont).len() != 2 ==> row_example(r) is None,
        row_example(r) matches Some(x) ==> {
            let fonts = desc_from(r.children@, 0, Shape::BlackFont);
            &&& fonts.len() == 2
            &&& x.en == trim_spec(texts_from(fonts[0].children@, 0))
            &&& x.th == trim_spec(texts_from(fonts[1].children@, 0))
            &&& x.en.len() > 0
            &&& x.th.len() > 0
        },
{
}

/// Whether a class attribute carries the result-table marker.
pub open spec fn class_marked(c: Option<String>) -> bool {
    match c {
        Some(s) => contains_sub(s@, "result-table"@),
        None => false,
    }
}

/// The first marked table among the siblings `ns[i..]`: the forward walk that
/// follows an anchor heading.
pub open spec fn first_table_from(ns: Seq<Node>, i: int) -> Option<Elem>
    decreases ns.len() - i,
        when 0 <= i <= ns.len()
{
    if i >= ns.len() {
        None
    } else {
        match ns[i] {
            Node::Element(e) => if e.name@ == "table"@ && class_marked(e.class) {
                Some(e)
            } else {
                first_table_from(ns, i + 1)
            },
            Node::Text(_) => first_table_from(ns, i + 1),
        }
    }
}

/// Checks a class attribute for the result-table marker.
fn class_has_marker(c: &Option<String>) -> (r: bool)
    ensures
        r == class_marked(*c),
{
    match c {
        Some(s) => {
            let sv = to_chars(s.as_str());
            let m = to_chars("result-table");
            chars_contain(&sv, &m)
        },
        None => false,
    }
}

/// Walks the siblings `ns[from..]` for the first marked table.
fn find_result_table<'a>(ns: &'a Vec<Node>, from: usize) -> (r: Option<&'a Elem>)
    requires
        from <= ns@.len(),
    ensures
        match r {
            Some(e) => first_table_from(ns@, from as int) == Some(*e),
            None => first_table_from(ns@, from as int) is None,
        },
{
    let mut i: usize = from;
    while i < ns.len()
        invariant
            from <= i <= ns@.len(),
            first_table_from(ns@, from as int) == first_table_from(ns@, i as int),
        decreases ns@.len() - i,
    {
        match &ns[i] {
            Node::Element(e) => {
                if str_eq(e.name.as_str(), "table") && class_has_marker(&e.class) {
                    return Some(e);
                }
            },
            Node::Text(_) => {},
        }
        i += 1;
    }
    None
}

/// Whether an element is a bold heading whose text mentions the anchor.
pub open spec fn is_anchor_heading(e: Elem, anchor: Seq<char>) -> bool {
    e.name@ == "b"@ && contains_sub(texts_from(e.children@, 0), anchor)
}

/// The sense entries contributed by one dictionary: every bold heading in
/// `ns[i..]` (in document order, descendants included) whose text mentions the
/// dictionary's name contributes the rows of the first marked table among its
/// following siblings.
pub open spec fn scan_translations(ns: Seq<Node>, i: int, dict: Seq<char>) -> Seq<
    TranslationItemView,
>
    decreases ns, ns.len() - i,
        when 0 <= i <= ns.len()
{
    if i >= ns.len() {
        Seq::empty()
    } else {
        match ns[i] {
            Node::Text(_) => scan_translations(ns, i + 1, dict),
            Node::Element(e) => (match (if is_anchor_heading(e, dict) {
                first_table_from(ns, i + 1)
            } else {
                None
            }) {
                Some(t) => table_translations(t, dict),
                None => Seq::empty(),
            }) + scan_translations(e.children@, 0, dict) + scan_translations(ns, i + 1, dict),
        }
    }
}

/// Scans for one dictionary's headings and appends their table rows to `out`.
fn scan_translations_exec(ns: &Vec<Node>, dict: &String, out: &mut Vec<TranslationItem>)
    ensures
        item_views(final (out)@) == item_views(old(out)@) + scan_translations(ns@, 0, dict@),
    decreases ns@,
{
    let ghost orig = out@;
    let mut i: usize = 0;
    while i < ns.len()
        invariant
            i <= ns@.len(),
            item_views(out@) + scan_translations(ns@, i as int, dict@) == item_views(orig)
                + scan_translations(ns@, 0, dict@),
        decreases ns@.len() - i,
    {
        let ghost before = out@;
        match &ns[i] {
            Node::Text(_) => {},
            Node::Element(e) => {
                let mut anchored = false;
                if str_eq(e.name.as_str(), "b") {
                    let t = texts_of_nodes(&e.children);
                    anchored = str_contains_str(t.as_str(), dict.as_str());
                }
                if anchored {
                    match find_result_table(ns, i + 1) {
                        Some(tbl) => parse_translation_table(tbl, dict, out),
                        None => {},
                    }
                }
                let ghost mid = out@;
                proof {
                    let here = match (if is_anchor_heading(*e, dict@) {
                        first_table_from(ns@, i + 1)
                    } else {
                        None
                    }) {
                        Some(t) => table_translations(t, dict@),
                        None => Seq::<TranslationItemView>::empty(),
                    };
                    assert(item_views(mid) =~= item_views(before) + here);
                    assert(decreases_to!(ns@ => ns@[i as int]));
                }
                scan_translations_exec(&e.children, dict, out);
                proof {
                    let here = match (if is_anchor_heading(*e, dict@) {
                        first_table_from(ns@, i + 1)
                    } else {
                        None
                    }) {
                        Some(t) => table_translations(t, dict@),
                        None => Seq::<TranslationItemView>::empty(),
                    };
                    let sub = scan_translations(e.children@, 0, dict@);
                    assert(item_views(out@) =~= item_views(before) + (here + sub));
                    assert((item_views(before) + (here + sub)) + scan_translations(
                        ns@,
                        i + 1,
                        dict@,
                    ) =~= item_views(before) + ((here + sub) + scan_translations(
                        ns@,
                        i + 1,
                        dict@,
                    )));
                }
            },
        }
        i += 1;
    }
    proof {
        assert(item_views(out@) + scan_translations(ns@, i as int, dict@) =~= item_views(out@));
    }
}

/// The example pairs: the first bold heading (in document order, descendants
/// included) whose text mentions the anchor phrase and that is followed by a
/// marked table among its siblings contributes that table's rows; nothing
/// else does.
pub open spec fn scan_examples_at(ns: Seq<Node>, i: int, anchor: Seq<char>) -> Option<
    Seq<ExampleItemView>,
>
    decreases ns, ns.len() - i,
        when 0 <= i <= ns.len()
{
    if i >= ns.len() {
        None
    } else {
        match ns[i] {
            Node::Text(_) => scan_examples_at(ns, i + 1, anchor),
            Node::Element(e) => match (if is_anchor_heading(e, anchor) {
                first_table_from(ns, i + 1)
            } else {
                None
            }) {
                Some(t) => Some(table_examples(t)),
                None => match scan_examples_at(e.children@, 0, anchor) {
                    Some(r) => Some(r),
                    None => scan_examples_at(ns, i + 1, anchor),
                },
            },
        }
    }
}

/// Scans for the example-section heading and appends the first found table's
/// pairs to `out`.
#[verifier::loop_isolation(false)]
fn scan_examples_exec(ns: &Vec<Node>, anchor: &String, out: &mut Vec<ExampleItem>) -> (found: bool)
    ensures
        match scan_examples_at(ns@, 0, anchor@) {
            Some(r) => found && example_views(final (out)@) == example_views(old(out)@) + r,
            None => !found && final (out)@ == old(out)@,
        },
    decreases ns@,
{
    let ghost orig = out@;
    let mut i: usize = 0;
    while i < ns.len()
        invariant
            i <= ns@.len(),
            out@ == orig,
            scan_examples_at(ns@, 0, anchor@) == scan_examples_at(ns@, i as int, anchor@),
        decreases ns@.len() - i,
    {
        match &ns[i] {
            Node::Text(_) => {},
            Node::Element(e) => {
                let mut anchored = false;
                if str_eq(e.name.as_str(), "b") {
                    let t = texts_of_nodes(&e.children);
                    anchored = str_contains_str(t.as_str(), anchor.as_str());
                }
                if anchored {
                    match find_result_table(ns, i + 1) {
                        Some(tbl) => {
                            proof {
                                assert(is_anchor_heading(*e, anchor@));
                                assert(first_table_from(ns@, i + 1) == Some(*tbl));
                                assert(scan_examples_at(ns@, i as int, anchor@) == Some(
                                    table_examples(*tbl),
                                ));
                            }
                            parse_example_table(tbl, out);
                            return true;
                        },
                        None => {},
                    }
                }
                proof {
                    assert(decreases_to!(ns@ => ns@[i as int]));
                }
                if scan_examples_exec(&e.children, anchor, out) {
                    proof {
                        assert(scan_examples_at(e.children@, 0, anchor@) matches Some(r)
                            && scan_examples_at(ns@, i as int, anchor@) == Some(r));
                    }
                    return true;
                }
            },
        }
        i += 1;
    }
    false
}

/// The first-priority dictionary name.
pub open spec fn lexitron_name() -> Seq<char> {
    "NECTEC Lexitron Dictionary EN-TH"@
}

/// The second-priority dictionary name.
pub open spec fn nontri_name() -> Seq<char> {
    "Nontri Dictionary"@
}

/// The third-priority dictionary name.
pub open spec fn hope_name() -> Seq<char> {
    "Hope Dictionary"@
}

/// The anchor phrase of the example-sentence section.
pub open spec fn example_anchor() -> Seq<char> {
    "ตัวอย่างประโยค"@
}

/// The sense entries of a whole document: the dictionaries are probed in the
/// fixed priority order, and each contributes its entries in document order.
pub open spec fn longdo_translations(doc: Seq<Node>) -> Seq<TranslationItemView> {
    scan_translations(doc, 0, lexitron_name()) + scan_translations(doc, 0, nontri_name())
        + scan_translations(doc, 0, hope_name())
}

/// The example pairs of a whole document.
pub open spec fn longdo_examples(doc: Seq<Node>) -> Seq<ExampleItemView> {
    match scan_examples_at(doc, 0, example_anchor()) {
        Some(r) => r,
        None => Seq::empty(),
    }
}

/// Extracts the dictionary data from a parsed document. Partial or empty
/// results are valid output; this parser never fails.
pub fn parse_longdo_document(doc: &Vec<Node>) -> (r: LongdoData)
    ensures
        r@.translations == longdo_translations(doc@),
        r@.examples == longdo_examples(doc@),
{
    let mut tr: Vec<TranslationItem> = Vec::new();
    let lex = String::from_str("NECTEC Lexitron Dictionary EN-TH");
    scan_translations_exec(doc, &lex, &mut tr);
    let non = String::from_str("Nontri Dictionary");
    scan_translations_exec(doc, &non, &mut tr);
    let hope = String::from_str("Hope Dictionary");
    scan_translations_exec(doc, &hope, &mut tr);
    let mut ex: Vec<ExampleItem> = Vec::new();
    let anchor = String::from_str("ตัวอย่างประโยค");
    let _found = scan_examples_exec(doc, &anchor, &mut ex);
    let r = LongdoData { translations: tr, examples: ex };
    proof {
        assert(item_views(Seq::<TranslationItem>::empty()) =~= Seq::<
            TranslationItemView,
        >::empty());
        assert(example_views(Seq::<ExampleItem>::empty()) =~= Seq::<ExampleItemView>::empty());
        assert(Seq::<TranslationItemView>::empty() + scan_translations(doc@, 0, lexitron_name())
            =~= scan_translations(doc@, 0, lexitron_name()));
        assert(r@.translations =~= item_views(tr@));
        assert(r@.translations =~= longdo_translations(doc@));
        assert(r@.examples =~= example_views(ex@));
        assert(r@.examples =~= longdo_examples(doc@));
    }
    r
}

} // verus!
