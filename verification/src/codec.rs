//! Serialization of the combined translation artifact to and from the JSON
//! model: structs become objects field by field, lists become arrays, and an
//! absent dictionary part becomes null. Decoding accepts exactly what
//! encoding produces, and a round trip gives back the starting value.

use vstd::prelude::*;

use crate::data::{
    CombinedTranslationData, CombinedTranslationDataView, ExampleItem, ExampleItemView,
    LongdoData, LongdoDataView, TranslationItem, TranslationItemView,
};
use crate::html::{example_views, item_views};
use crate::json::Json;
use crate::text::str_eq;

verus! {

/// Mathematical image of a JSON value.
pub enum JsonView {
    Null,
    Bool(bool),
    Str(Seq<char>),
    Arr(Seq<JsonView>),
    Obj(Seq<(Seq<char>, JsonView)>),
    Other,
}

/// The image of one JSON value.
pub open spec fn json_view(j: Json) -> JsonView
    decreases j, 0int,
{
    match j {
        Json::Null => JsonView::Null,
        Json::Bool(b) => JsonView::Bool(b),
        Json::Str(s) => JsonView::Str(s@),
        Json::Arr(v) => JsonView::Arr(json_views(v@, 0)),
        Json::Obj(v) => JsonView::Obj(entry_views(v@, 0)),
        Json::Other => JsonView::Other,
    }
}

/// The images of the array elements `v[i..]`.
pub open spec fn json_views(v: Seq<Json>, i: int) -> Seq<JsonView>
    decreases v, v.len() - i,
        when 0 <= i <= v.len()
{
    if i >= v.len() {
        Seq::empty()
    } else {
        seq![json_view(v[i])] + json_views(v, i + 1)
    }
}

/// The images of the object entries `v[i..]`.
pub open spec fn entry_views(v: Seq<(String, Json)>, i: int) -> Seq<(Seq<char>, JsonView)>
    decreases v, v.len() - i,
        when 0 <= i <= v.len()
{
    if i >= v.len() {
        Seq::empty()
    } else {
        seq![(v[i].0@, json_view(v[i].1))] + entry_views(v, i + 1)
    }
}

pub proof fn lemma_json_views_len(v: Seq<Json>, i: int)
    requires
        0 <= i <= v.len(),
    ensures
        json_views(v, i).len() == v.len() - i,
    decreases v.len() - i,
{
    if i < v.len() {
        lemma_json_views_len(v, i + 1);
    }
}

pub proof fn lemma_json_views_index(v: Seq<Json>, i: int, k: int)
    requires
        0 <= i <= k < v.len(),
    ensures
        json_views(v, i).len() == v.len() - i,
        json_views(v, i)[k - i] == json_view(v[k]),
    decreases k - i,
{
    lemma_json_views_len(v, i);
    if i < k {
        lemma_json_views_index(v, i + 1, k);
    }
}

pub proof fn lemma_entry_views_len(v: Seq<(String, Json)>, i: int)
    requires
        0 <= i <= v.len(),
    ensures
        entry_views(v, i).len() == v.len() - i,
    decreases v.len() - i,
{
    if i < v.len() {
        lemma_entry_views_len(v, i + 1);
    }
}

pub proof fn lemma_entry_views_index(v: Seq<(String, Json)>, i: int, k: int)
    requires
        0 <= i <= k < v.len(),
    ensures
        entry_views(v, i).len() == v.len() - i,
        entry_views(v, i)[k - i] == (v[k].0@, json_view(v[k].1)),
    decreases k - i,
{
    lemma_entry_views_len(v, i);
    if i < k {
        lemma_entry_views_index(v, i + 1, k);
    }
}

/// What one sense entry encodes to.
pub open spec fn item_to_jv(it: TranslationItemView) -> JsonView {
    JsonView::Obj(
        seq![
            ("word"@, JsonView::Str(it.word)),
            ("pos"@, JsonView::Str(it.pos)),
            ("translation"@, JsonView::Str(it.translation)),
            ("dictionary"@, JsonView::Str(it.dictionary)),
        ],
    )
}

/// What a list of sense entries encodes to.
pub open spec fn items_to_jv(s: Seq<TranslationItemView>) -> Seq<JsonView> {
    Seq::new(s.len(), |i: int| item_to_jv(s[i]))
}

/// What one example pair encodes to.
pub open spec fn example_to_jv(ex: ExampleItemView) -> JsonView {
    JsonView::Obj(seq![("en"@, JsonView::Str(ex.en)), ("th"@, JsonView::Str(ex.th))])
}

/// What a list of example pairs encodes to.
pub open spec fn examples_to_jv(s: Seq<ExampleItemView>) -> Seq<JsonView> {
    Seq::new(s.len(), |i: int| example_to_jv(s[i]))
}

/// What a dictionary lookup result encodes to.
pub open spec fn longdo_to_jv(d: LongdoDataView) -> JsonView {
    JsonView::Obj(
        seq![
            ("translations"@, JsonView::Arr(items_to_jv(d.translations))),
            ("examples"@, JsonView::Arr(examples_to_jv(d.examples))),
        ],
    )
}

/// What the combined artifact encodes to: one object per field, with an
/// absent dictionary part encoded as null.
pub open spec fn combined_to_jv(c: CombinedTranslationDataView) -> JsonView {
    JsonView::Obj(
        seq![
            ("search_word"@, JsonView::Str(c.search_word)),
            ("source_lang"@, JsonView::Str(c.source_lang)),
            ("target_lang"@, JsonView::Str(c.target_lang)),
            ("google_translation"@, JsonView::Str(c.google_translation)),
            (
                "longdo_data"@,
                match c.longdo_data {
                    Some(d) => longdo_to_jv(d),
                    None => JsonView::Null,
                },
            ),
        ],
    )
}

/// Encodes one sense entry.
fn item_to_json(it: &TranslationItem) -> (j: Json)
    ensures
        json_view(j) == item_to_jv(it@),
{
    let mut es: Vec<(String, Json)> = Vec::new();
    es.push((String::from_str("word"), Json::Str(it.word.clone())));
    es.push((String::from_str("pos"), Json::Str(it.pos.clone())));
    es.push((String::from_str("translation"), Json::Str(it.translation.clone())));
    es.push((String::from_str("dictionary"), Json::Str(it.dictionary.clone())));
    let ghost ev = es@;
    let j = Json::Obj(es);
    proof {
        reveal_with_fuel(entry_views, 6);
        assert(entry_views(ev, 0) =~= seq![
            ("word"@, JsonView::Str(it.word@)),
            ("pos"@, JsonView::Str(it.pos@)),
            ("translation"@, JsonView::Str(it.translation@)),
            ("dictionary"@, JsonView::Str(it.dictionary@)),
        ]);
        assert(json_view(j) == item_to_jv(it@));
    }
    j
}

/// Encodes one example pair.
fn example_to_json(ex: &ExampleItem) -> (j: Json)
    ensures
        json_view(j) == example_to_jv(ex@),
{
    let mut es: Vec<(String, Json)> = Vec::new();
    es.push((String::from_str("en"), Json::Str(ex.en.clone())));
    es.push((String::from_str("th"), Json::Str(ex.th.clone())));
    let ghost ev = es@;
    let j = Json::Obj(es);
    proof {
        reveal_with_fuel(entry_views, 4);
        assert(entry_views(ev, 0) =~= seq![
            ("en"@, JsonView::Str(ex.en@)),
            ("th"@, JsonView::Str(ex.th@)),
        ]);
        assert(json_view(j) == example_to_jv(ex@));
    }
    j
}

/// Encodes a dictionary lookup result.
fn longdo_to_json(d: &LongdoData) -> (j: Json)
    ensures
        json_view(j) == longdo_to_jv(d@),
{
    let mut ts: Vec<Json> = Vec::new();
    let mut i: usize = 0;
    while i < d.translations.len()
        invariant
            i <= d.translations@.len(),
            ts@.len() == i,
            forall|k: int| 0 <= k < i ==> json_view(#[trigger] ts@[k]) == item_to_jv(
                d.translations@[k]@,
            ),
        decreases d.translations@.len() - i,
    {
        let e = item_to_json(&d.translations[i]);
        ts.push(e);
        i += 1;
    }
    let mut exs: Vec<Json> = Vec::new();
    let mut k: usize = 0;
    while k < d.examples.len()
        invariant
            k <= d.examples@.len(),
            exs@.len() == k,
            forall|m: int| 0 <= m < k ==> json_view(#[trigger] exs@[m]) == example_to_jv(
                d.examples@[m]@,
            ),
        decreases d.examples@.len() - k,
    {
        let e = example_to_json(&d.examples[k]);
        exs.push(e);
        k += 1;
    }
    proof {
        assert forall|m: int| 0 <= m < ts@.len() implies json_views(ts@, 0)[m] == items_to_jv(
            d@.translations,
        )[m] by {
            lemma_json_views_index(ts@, 0, m);
        }
        lemma_json_views_len(ts@, 0);
        assert(json_views(ts@, 0) =~= items_to_jv(d@.translations));
        assert forall|m: int| 0 <= m < exs@.len() implies json_views(exs@, 0)[m] == examples_to_jv(
            d@.examples,
        )[m] by {
            lemma_json_views_index(exs@, 0, m);
        }
        lemma_json_views_len(exs@, 0);
        assert(json_views(exs@, 0) =~= examples_to_jv(d@.examples));
    }
    let mut es: Vec<(String, Json)> = Vec::new();
    let ghost tsv = ts@;
    let ghost exsv = exs@;
    es.push((String::from_str("translations"), Json::Arr(ts)));
    es.push((String::from_str("examples"), Json::Arr(exs)));
    let ghost ev = es@;
    let j = Json::Obj(es);
    proof {
        reveal_with_fuel(entry_views, 4);
        assert(entry_views(ev, 0) =~= seq![
            ("translations"@, JsonView::Arr(json_views(tsv, 0))),
            ("examples"@, JsonView::Arr(json_views(exsv, 0))),
        ]);
        assert(json_view(j) == longdo_to_jv(d@));
    }
    j
}

/// Encodes the combined artifact.
pub fn to_json(c: &CombinedTranslationData) -> (j: Json)
    ensures
        json_view(j) == combined_to_jv(c@),
{
    let longdo: Json = match &c.longdo_data {
        Some(d) => longdo_to_json(d),
        None => Json::Null,
    };
    let mut es: Vec<(String, Json)> = Vec::new();
    es.push((String::from_str("search_word"), Json::Str(c.search_word.clone())));
    es.push((String::from_str("source_lang"), Json::Str(c.source_lang.clone())));
    es.push((String::from_str("target_lang"), Json::Str(c.target_lang.clone())));
    es.push((String::from_str("google_translation"), Json::Str(c.google_translation.clone())));
    es.push((String::from_str("longdo_data"), longdo));
    let ghost ev = es@;
    let j = Json::Obj(es);
    proof {
        reveal_with_fuel(entry_views, 7);
        assert(entry_views(ev, 0) =~= seq![
            ("search_word"@, JsonView::Str(c.search_word@)),
            ("source_lang"@, JsonView::Str(c.source_lang@)),
            ("target_lang"@, JsonView::Str(c.target_lang@)),
            ("google_translation"@, JsonView::Str(c.google_translation@)),
            ("longdo_data"@, match c@.longdo_data {
                Some(d) => longdo_to_jv(d),
                None => JsonView::Null,
            }),
        ]);
        assert(json_view(j) == JsonView::Obj(entry_views(ev, 0)));
        assert(combined_to_jv(c@) matches JsonView::Obj(x) && x =~= entry_views(ev, 0));
        assert(json_view(j) == combined_to_jv(c@));
    }
    j
}

/// The value of the first entry under `key`, searching `es[i..]`.
pub open spec fn jv_lookup_from(es: Seq<(Seq<char>, JsonView)>, key: Seq<char>, i: int) -> Option<
    JsonView,
>
    decreases es.len() - i,
        when 0 <= i <= es.len()
{
    if i >= es.len() {
        None
    } else if es[i].0 == key {
        Some(es[i].1)
    } else {
        jv_lookup_from(es, key, i + 1)
    }
}

/// The value under `key` of an object; nothing on any other value.
pub open spec fn jv_lookup(j: JsonView, key: Seq<char>) -> Option<JsonView> {
    match j {
        JsonView::Obj(es) => jv_lookup_from(es, key, 0),
        _ => None,
    }
}

/// What decodes to one sense entry: an object with all four fields as
/// strings.
pub open spec fn jv_to_item(j: JsonView) -> Option<TranslationItemView> {
    match (
        jv_lookup(j, "word"@),
        jv_lookup(j, "pos"@),
        jv_lookup(j, "translation"@),
        jv_lookup(j, "dictionary"@),
    ) {
        (
            Some(JsonView::Str(w)),
            Some(JsonView::Str(p)),
            Some(JsonView::Str(t)),
            Some(JsonView::Str(d)),
        ) => Some(TranslationItemView { word: w, pos: p, translation: t, dictionary: d }),
        _ => None,
    }
}

/// What the elements `s[i..]` decode to: all of them must decode.
pub open spec fn jv_to_items(s: Seq<JsonView>, i: int) -> Option<Seq<TranslationItemView>>
    decreases s.len() - i,
        when 0 <= i <= s.len()
{
    if i >= s.len() {
        Some(Seq::empty())
    } else {
        match (jv_to_item(s[i]), jv_to_items(s, i + 1)) {
            (Some(x), Some(rest)) => Some(seq![x] + rest),
            _ => None,
        }
    }
}

/// What decodes to one example pair: an object with both fields as strings.
pub open spec fn jv_to_example(j: JsonView) -> Option<ExampleItemView> {
    match (jv_lookup(j, "en"@), jv_lookup(j, "th"@)) {
        (Some(JsonView::Str(en)), Some(JsonView::Str(th))) => Some(
            ExampleItemView { en, th },
        ),
        _ => None,
    }
}

/// What the elements `s[i..]` decode to: all of them must decode.
pub open spec fn jv_to_examples(s: Seq<JsonView>, i: int) -> Option<Seq<ExampleItemView>>
    decreases s.len() - i,
        when 0 <= i <= s.len()
{
    if i >= s.len() {
        Some(Seq::empty())
    } else {
        match (jv_to_example(s[i]), jv_to_examples(s, i + 1)) {
            (Some(x), Some(rest)) => Some(seq![x] + rest),
            _ => None,
        }
    }
}

/// What decodes to a dictionary lookup result: an object with both lists as
/// arrays of decodable elements.
pub open spec fn jv_to_longdo(j: JsonView) -> Option<LongdoDataView> {
    match (jv_lookup(j, "translations"@), jv_lookup(j, "examples"@)) {
        (Some(JsonView::Arr(ts)), Some(JsonView::Arr(es))) => match (
            jv_to_items(ts, 0),
            jv_to_examples(es, 0),
        ) {
            (Some(t), Some(e)) => Some(LongdoDataView { translations: t, examples: e }),
            _ => None,
        },
        _ => None,
    }
}

/// What decodes to the combined artifact: an object with the four text
/// fields as strings and the dictionary part either null or decodable.
pub open spec fn jv_to_combined(j: JsonView) -> Option<CombinedTranslationDataView> {
    match (
        jv_lookup(j, "search_word"@),
        jv_lookup(j, "source_lang"@),
        jv_lookup(j, "target_lang"@),
        jv_lookup(j, "google_translation"@),
        jv_lookup(j, "longdo_data"@),
    ) {
        (
            Some(JsonView::Str(w)),
            Some(JsonView::Str(s)),
            Some(JsonView::Str(t)),
            Some(JsonView::Str(g)),
            Some(ld),
        ) => match ld {
            JsonView::Null => Some(
                CombinedTranslationDataView {
                    search_word: w,
                    source_lang: s,
                    target_lang: t,
                    google_translation: g,
                    longdo_data: None,
                },
            ),
            _ => match jv_to_longdo(ld) {
                Some(d) => Some(
                    CombinedTranslationDataView {
                        search_word: w,
                        source_lang: s,
                        target_lang: t,
                        google_translation: g,
                        longdo_data: Some(d),
                    },
                ),
                None => None,
            },
        },
        _ => None,
    }
}

/// Finds the first entry of an object under `key`.
fn obj_get<'a>(es: &'a Vec<(String, Json)>, key: &str) -> (r: Option<&'a Json>)
    ensures
        match r {
            Some(v) => jv_lookup_from(entry_views(es@, 0), key@, 0) == Some(json_view(*v)),
            None => jv_lookup_from(entry_views(es@, 0), key@, 0) is None,
        },
{
    let ghost ev = entry_views(es@, 0);
    proof {
        lemma_entry_views_len(es@, 0);
    }
    let mut i: usize = 0;
    while i < es.len()
        invariant
            i <= es@.len(),
            ev == entry_views(es@, 0),
            ev.len() == es@.len(),
            jv_lookup_from(ev, key@, 0) == jv_lookup_from(ev, key@, i as int),
        decreases es@.len() - i,
    {
        proof {
            lemma_entry_views_index(es@, 0, i as int);
        }
        let pair = &es[i];
        if str_eq(pair.0.as_str(), key) {
            return Some(&pair.1);
        }
        i += 1;
    }
    None
}

/// Decodes one sense entry.
fn json_to_item(j: &Json) -> (r: Option<TranslationItem>)
    ensures
        match r {
            Some(it) => jv_to_item(json_view(*j)) == Some(it@),
            None => jv_to_item(json_view(*j)) is None,
        },
{
    match j {
        Json::Obj(es) => {
            let w = obj_get(es, "word");
            let p = obj_get(es, "pos");
            let t = obj_get(es, "translation");
            let d = obj_get(es, "dictionary");
            match (w, p, t, d) {
                (
                    Some(Json::Str(ws)),
                    Some(Json::Str(ps)),
                    Some(Json::Str(ts)),
                    Some(Json::Str(ds)),
                ) => Some(
                    TranslationItem {
                        word: ws.clone(),
                        pos: ps.clone(),
                        translation: ts.clone(),
                        dictionary: ds.clone(),
                    },
                ),
                _ => None,
            }
        },
        _ => None,
    }
}

/// Decodes one example pair.
fn json_to_example(j: &Json) -> (r: Option<ExampleItem>)
    ensures
        match r {
            Some(ex) => jv_to_example(json_view(*j)) == Some(ex@),
            None => jv_to_example(json_view(*j)) is None,
        },
{
    match j {
        Json::Obj(es) => {
            let en = obj_get(es, "en");
            let th = obj_get(es, "th");
            match (en, th) {
                (Some(Json::Str(a)), Some(Json::Str(b))) => Some(
                    ExampleItem { en: a.clone(), th: b.clone() },
                ),
                _ => None,
            }
        },
        _ => None,
    }
}

proof fn lemma_jv_to_items_none(s: Seq<JsonView>, i: int, k: int)
    requires
        0 <= i <= k < s.len(),
        jv_to_item(s[k]) is None,
    ensures
        jv_to_items(s, i) is None,
    decreases k - i,
{
    if i < k {
        lemma_jv_to_items_none(s, i + 1, k);
    }
}

proof fn lemma_jv_to_items_pointwise(s: Seq<JsonView>, vs: Seq<TranslationItemView>, i: int)
    requires
        0 <= i <= s.len(),
        vs.len() == s.len(),
        forall|k: int| i <= k < s.len() ==> jv_to_item(s[k]) == Some(#[trigger] vs[k]),
    ensures
        jv_to_items(s, i) == Some(vs.subrange(i, s.len() as int)),
    decreases s.len() - i,
{
    if i >= s.len() {
        assert(vs.subrange(i, s.len() as int) =~= Seq::<TranslationItemView>::empty());
    } else {
        lemma_jv_to_items_pointwise(s, vs, i + 1);
        assert(seq![vs[i]] + vs.subrange(i + 1, s.len() as int) =~= vs.subrange(
            i,
            s.len() as int,
        ));
    }
}

proof fn lemma_jv_to_examples_none(s: Seq<JsonView>, i: int, k: int)
    requires
        0 <= i <= k < s.len(),
        jv_to_example(s[k]) is None,
    ensures
        jv_to_examples(s, i) is None,
    decreases k - i,
{
    if i < k {
        lemma_jv_to_examples_none(s, i + 1, k);
    }
}

proof fn lemma_jv_to_examples_pointwise(s: Seq<JsonView>, vs: Seq<ExampleItemView>, i: int)
    requires
        0 <= i <= s.len(),
        vs.len() == s.len(),
        forall|k: int| i <= k < s.len() ==> jv_to_example(s[k]) == Some(#[trigger] vs[k]),
    ensures
        jv_to_examples(s, i) == Some(vs.subrange(i, s.len() as int)),
    decreases s.len() - i,
{
    if i >= s.len() {
        assert(vs.subrange(i, s.len() as int) =~= Seq::<ExampleItemView>::empty());
    } else {
        lemma_jv_to_examples_pointwise(s, vs, i + 1);
        assert(seq![vs[i]] + vs.subrange(i + 1, s.len() as int) =~= vs.subrange(
            i,
            s.len() as int,
        ));
    }
}

/// Decodes an array of sense entries; every element must decode.
fn json_to_items(arr: &Vec<Json>) -> (r: Option<Vec<TranslationItem>>)
    ensures
        match r {
            Some(v) => jv_to_items(json_views(arr@, 0), 0) == Some(item_views(v@)),
            None => jv_to_items(json_views(arr@, 0), 0) is None,
        },
{
    let ghost jvs = json_views(arr@, 0);
    proof {
        lemma_json_views_len(arr@, 0);
    }
    let mut out: Vec<TranslationItem> = Vec::new();
    let mut i: usize = 0;
    while i < arr.len()
        invariant
            i <= arr@.len(),
            jvs == json_views(arr@, 0),
            jvs.len() == arr@.len(),
            out@.len() == i,
            forall|k: int| 0 <= k < i ==> jv_to_item(jvs[k]) == Some(#[trigger] out@[k]@),
        decreases arr@.len() - i,
    {
        proof {
            lemma_json_views_index(arr@, 0, i as int);
        }
        match json_to_item(&arr[i]) {
            Some(it) => {
                out.push(it);
            },
            None => {
                proof {
                    lemma_jv_to_items_none(jvs, 0, i as int);
                }
                return None;
            },
        }
        i += 1;
    }
    proof {
        lemma_jv_to_items_pointwise(jvs, item_views(out@), 0);
        assert(item_views(out@).subrange(0, jvs.len() as int) =~= item_views(out@));
    }
    Some(out)
}

/// Decodes an array of example pairs; every element must decode.
fn json_to_examples(arr: &Vec<Json>) -> (r: Option<Vec<ExampleItem>>)
    ensures
        match r {
            Some(v) => jv_to_examples(json_views(arr@, 0), 0) == Some(example_views(v@)),
            None => jv_to_examples(json_views(arr@, 0), 0) is None,
        },
{
    let ghost jvs = json_views(arr@, 0);
    proof {
        lemma_json_views_len(arr@, 0);
    }
    let mut out: Vec<ExampleItem> = Vec::new();
    let mut i: usize = 0;
    while i < arr.len()
        invariant
            i <= arr@.len(),
            jvs == json_views(arr@, 0),
            jvs.len() == arr@.len(),
            out@.len() == i,
            forall|k: int| 0 <= k < i ==> jv_to_example(jvs[k]) == Some(#[trigger] out@[k]@),
        decreases arr@.len() - i,
    {
        proof {
            lemma_json_views_index(arr@, 0, i as int);
        }
        match json_to_example(&arr[i]) {
            Some(ex) => {
                out.push(ex);
            },
            None => {
                proof {
                    lemma_jv_to_examples_none(jvs, 0, i as int);
                }
                return None;
            },
        }
        i += 1;
    }
    proof {
        lemma_jv_to_examples_pointwise(jvs, example_views(out@), 0);
        assert(example_views(out@).subrange(0, jvs.len() as int) =~= example_views(out@));
    }
    Some(out)
}

/// Decodes a dictionary lookup result.
fn json_to_longdo(j: &Json) -> (r: Option<LongdoData>)
    ensures
        match r {
            Some(d) => jv_to_longdo(json_view(*j)) == Some(d@),
            None => jv_to_longdo(json_view(*j)) is None,
        },
{
    match j {
        Json::Obj(es) => {
            let ts = obj_get(es, "translations");
            let exs = obj_get(es, "examples");
            match (ts, exs) {
                (Some(Json::Arr(ta)), Some(Json::Arr(ea))) => {
                    match (json_to_items(ta), json_to_examples(ea)) {
                        (Some(tv), Some(ev)) => {
                            let d = LongdoData { translations: tv, examples: ev };
                            proof {
                                assert(d@.translations =~= item_views(d.translations@));
                                assert(d@.examples =~= example_views(d.examples@));
                            }
                            Some(d)
                        },
                        _ => None,
                    }
                },
                _ => None,
            }
        },
        _ => None,
    }
}

/// Decodes the combined artifact. Exactly the documents that encoding
/// produces decode; anything else yields nothing.
pub fn from_json(j: &Json) -> (r: Option<CombinedTranslationData>)
    ensures
        match r {
            Some(c) => jv_to_combined(json_view(*j)) == Some(c@),
            None => jv_to_combined(json_view(*j)) is None,
        },
{
    match j {
        Json::Obj(es) => {
            let w = obj_get(es, "search_word");
            let s = obj_get(es, "source_lang");
            let t = obj_get(es, "target_lang");
            let g = obj_get(es, "google_translation");
            let ld = obj_get(es, "longdo_data");
            match (w, s, t, g) {
                (
                    Some(Json::Str(ws)),
                    Some(Json::Str(ss)),
                    Some(Json::Str(ts)),
                    Some(Json::Str(gs)),
                ) => match ld {
                    Some(Json::Null) => Some(
                        CombinedTranslationData {
                            search_word: ws.clone(),
                            source_lang: ss.clone(),
                            target_lang: ts.clone(),
                            google_translation: gs.clone(),
                            longdo_data: None,
                        },
                    ),
                    Some(other) => match json_to_longdo(other) {
                        Some(d) => Some(
                            CombinedTranslationData {
                                search_word: ws.clone(),
                                source_lang: ss.clone(),
                                target_lang: ts.clone(),
                                google_translation: gs.clone(),
                                longdo_data: Some(d),
                            },
                        ),
                        None => None,
                    },
                    None => None,
                },
                _ => None,
            }
        },
        _ => None,
    }
}

proof fn lemma_item_round_trip(it: TranslationItemView)
    ensures
        jv_to_item(item_to_jv(it)) == Some(it),
{
    reveal_strlit("word");
    reveal_strlit("pos");
    reveal_strlit("translation");
    reveal_strlit("dictionary");
    reveal_with_fuel(jv_lookup_from, 6);
    assert("word"@.len() == 4);
    assert("pos"@.len() == 3);
    assert("translation"@.len() == 11);
    assert("dictionary"@.len() == 10);
    assert(jv_lookup(item_to_jv(it), "word"@) == Some(JsonView::Str(it.word)));
    assert(jv_lookup(item_to_jv(it), "pos"@) == Some(JsonView::Str(it.pos)));
    assert(jv_lookup(item_to_jv(it), "translation"@) == Some(JsonView::Str(it.translation)));
    assert(jv_lookup(item_to_jv(it), "dictionary"@) == Some(JsonView::Str(it.dictionary)));
}

proof fn lemma_example_round_trip(ex: ExampleItemView)
    ensures
        jv_to_example(example_to_jv(ex)) == Some(ex),
{
    reveal_strlit("en");
    reveal_strlit("th");
    reveal_with_fuel(jv_lookup_from, 4);
    assert("en"@[0] == 'e');
    assert("th"@[0] == 't');
    assert(jv_lookup(example_to_jv(ex), "en"@) == Some(JsonView::Str(ex.en)));
    assert(jv_lookup(example_to_jv(ex), "th"@) == Some(JsonView::Str(ex.th)));
}

proof fn lemma_items_round_trip(s: Seq<TranslationItemView>, i: int)
    requires
        0 <= i <= s.len(),
    ensures
        jv_to_items(items_to_jv(s), i) == Some(s.subrange(i, s.len() as int)),
    decreases s.len() - i,
{
    if i >= s.len() {
        assert(s.subrange(i, s.len() as int) =~= Seq::<TranslationItemView>::empty());
    } else {
        lemma_item_round_trip(s[i]);
        lemma_items_round_trip(s, i + 1);
        assert(seq![s[i]] + s.subrange(i + 1, s.len() as int) =~= s.subrange(i, s.len() as int));
    }
}

proof fn lemma_examples_round_trip(s: Seq<ExampleItemView>, i: int)
    requires
        0 <= i <= s.len(),
    ensures
        jv_to_examples(examples_to_jv(s), i) == Some(s.subrange(i, s.len() as int)),
    decreases s.len() - i,
{
    if i >= s.len() {
        assert(s.subrange(i, s.len() as int) =~= Seq::<ExampleItemView>::empty());
    } else {
        lemma_example_round_trip(s[i]);
        lemma_examples_round_trip(s, i + 1);
        assert(seq![s[i]] + s.subrange(i + 1, s.len() as int) =~= s.subrange(i, s.len() as int));
    }
}

proof fn lemma_longdo_round_trip(d: LongdoDataView)
    ensures
        jv_to_longdo(longdo_to_jv(d)) == Some(d),
{
    reveal_strlit("translations");
    reveal_strlit("examples");
    reveal_with_fuel(jv_lookup_from, 4);
    assert("translations"@.len() == 12);
    assert("examples"@.len() == 8);
    assert(jv_lookup(longdo_to_jv(d), "translations"@) == Some(
        JsonView::Arr(items_to_jv(d.translations)),
    ));
    assert(jv_lookup(longdo_to_jv(d), "examples"@) == Some(
        JsonView::Arr(examples_to_jv(d.examples)),
    ));
    lemma_items_round_trip(d.translations, 0);
    lemma_examples_round_trip(d.examples, 0);
    assert(d.translations.subrange(0, d.translations.len() as int) =~= d.translations);
    assert(d.examples.subrange(0, d.examples.len() as int) =~= d.examples);
}

/// A round trip through the JSON model is the identity: the combined
/// artifact decodes, field for field, back to the value it was built from.
pub proof fn lemma_combined_round_trip(c: CombinedTranslationDataView)
    ensures
        jv_to_combined(combined_to_jv(c)) == Some(c),
{
    reveal_strlit("search_word");
    reveal_strlit("source_lang");
    reveal_strlit("target_lang");
    reveal_strlit("google_translation");
    reveal_strlit("longdo_data");
    reveal_with_fuel(jv_lookup_from, 7);
    assert("search_word"@.len() == 11);
    assert("source_lang"@.len() == 11);
    assert("target_lang"@.len() == 11);
    assert("google_translation"@.len() == 18);
    assert("longdo_data"@.len() == 11);
    assert("search_word"@[0] == 's');
    assert("search_word"@[1] == 'e');
    assert("source_lang"@[0] == 's');
    assert("source_lang"@[1] == 'o');
    assert("target_lang"@[0] == 't');
    assert("longdo_data"@[0] == 'l');
    assert(jv_lookup(combined_to_jv(c), "search_word"@) == Some(JsonView::Str(c.search_word)));
    assert(jv_lookup(combined_to_jv(c), "source_lang"@) == Some(JsonView::Str(c.source_lang)));
    assert(jv_lookup(combined_to_jv(c), "target_lang"@) == Some(JsonView::Str(c.target_lang)));
    assert(jv_lookup(combined_to_jv(c), "google_translation"@) == Some(
        JsonView::Str(c.google_translation),
    ));
    match c.longdo_data {
        Some(d) => {
            assert(jv_lookup(combined_to_jv(c), "longdo_data"@) == Some(longdo_to_jv(d)));
            lemma_longdo_round_trip(d);
        },
        None => {
            assert(jv_lookup(combined_to_jv(c), "longdo_data"@) == Some(JsonView::Null));
        },
    }
}


} // verus!
