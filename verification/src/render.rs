//! A plain-text rendering of a dictionary lookup, one line per sense entry
//! and a short numbered section of example sentences.

use vstd::prelude::*;

use crate::data::{ExampleItemView, LongdoData, TranslationItemView};

verus! {

/// One rendered sense entry: marker, word, part of speech, translation.
pub open spec fn format_item(it: TranslationItemView) -> Seq<char> {
    "📚 "@ + it.word + " ("@ + it.pos + "): "@ + it.translation + "\n"@
}

/// The rendered sense entries of `s[i..]`.
pub open spec fn format_items(s: Seq<TranslationItemView>, i: int) -> Seq<char>
    decreases s.len() - i,
        when 0 <= i <= s.len()
{
    if i >= s.len() {
        Seq::empty()
    } else {
        format_item(s[i]) + format_items(s, i + 1)
    }
}

/// How many example pairs are rendered: at most three.
pub open spec fn example_limit(s: Seq<ExampleItemView>) -> int {
    if s.len() < 3 {
        s.len() as int
    } else {
        3
    }
}

/// The digit labelling the example at position `i` (only the first three are
/// ever rendered).
pub open spec fn index_char(i: int) -> char {
    if i == 0 {
        '1'
    } else if i == 1 {
        '2'
    } else {
        '3'
    }
}

/// One rendered example pair, numbered from one.
pub open spec fn format_example(ex: ExampleItemView, i: int) -> Seq<char> {
    "\n"@ + seq![index_char(i)] + ". "@ + ex.en + "\n   "@ + ex.th + "\n"@
}

/// The rendered example pairs of `s[i..]`, up to the rendering limit.
pub open spec fn format_examples(s: Seq<ExampleItemView>, i: int) -> Seq<char>
    decreases example_limit(s) - i,
        when 0 <= i <= example_limit(s)
{
    if i >= example_limit(s) {
        Seq::empty()
    } else {
        format_example(s[i], i) + format_examples(s, i + 1)
    }
}

/// The heading of the example section.
pub open spec fn examples_header() -> Seq<char> {
    "\n--- ตัวอย่างประโยค ---\n"@
}

/// The full rendering: a fixed line when nothing was found, else all sense
/// entries followed, when examples exist, by the example section.
pub open spec fn format_longdo_view(d: crate::data::LongdoDataView) -> Seq<char> {
    if d.translations.len() == 0 {
        "No translation found"@
    } else {
        format_items(d.translations, 0) + (if d.examples.len() > 0 {
            examples_header() + format_examples(d.examples, 0)
        } else {
            Seq::empty()
        })
    }
}

/// Renders a dictionary lookup as plain display text.
pub fn format_longdo_result(data: &LongdoData) -> (r: String)
    ensures
        r@ == format_longdo_view(data@),
{
    if data.translations.len() == 0 {
        return String::from_str("No translation found");
    }
    let ghost tviews = data@.translations;
    let mut r = String::new();
    let mut i: usize = 0;
    while i < data.translations.len()
        invariant
            i <= tviews.len(),
            tviews == data@.translations,
            data.translations@.len() == tviews.len(),
            format_items(tviews, 0) == r@ + format_items(tviews, i as int),
        decreases tviews.len() - i,
    {
        let ghost prev = r@;
        let it = &data.translations[i];
        r.append("📚 ");
        r.append(it.word.as_str());
        r.append(" (");
        r.append(it.pos.as_str());
        r.append("): ");
        r.append(it.translation.as_str());
        r.append("\n");
        proof {
            assert(it@ == tviews[i as int]);
            assert(r@ =~= prev + format_item(tviews[i as int]));
            assert((prev + format_item(tviews[i as int])) + format_items(tviews, i + 1) =~= prev
                + (format_item(tviews[i as int]) + format_items(tviews, i + 1)));
        }
        i += 1;
    }
    proof {
        assert(r@ + format_items(tviews, i as int) =~= r@);
    }
    let ghost base = r@;
    if data.examples.len() > 0 {
        r.append("\n--- ตัวอย่างประโยค ---\n");
        let ghost base2 = r@;
        let ghost evs = data@.examples;
        let limit: usize = if data.examples.len() < 3 {
            data.examples.len()
        } else {
            3
        };
        let mut k: usize = 0;
        while k < limit
            invariant
                k <= limit,
                limit as int == example_limit(evs),
                evs == data@.examples,
                data.examples@.len() == evs.len(),
                base2 + format_examples(evs, 0) == r@ + format_examples(evs, k as int),
            decreases limit - k,
        {
            let ghost prev = r@;
            let ex = &data.examples[k];
            r.append("\n");
            let ic: char = if k == 0 {
                '1'
            } else if k == 1 {
                '2'
            } else {
                '3'
            };
            r.push(ic);
            r.append(". ");
            r.append(ex.en.as_str());
            r.append("\n   ");
            r.append(ex.th.as_str());
            r.append("\n");
            proof {
                assert(ex@ == evs[k as int]);
                assert(ic == index_char(k as int));
                assert(r@ =~= prev + format_example(evs[k as int], k as int));
                assert((prev + format_example(evs[k as int], k as int)) + format_examples(
                    evs,
                    k + 1,
                ) =~= prev + (format_example(evs[k as int], k as int) + format_examples(
                    evs,
                    k + 1,
                )));
            }
            k += 1;
        }
        proof {
            assert(r@ + format_examples(evs, k as int) =~= r@);
            assert(r@ =~= format_longdo_view(data@));
        }
    } else {
        proof {
            assert(base + Seq::<char>::empty() =~= base);
            assert(r@ =~= format_longdo_view(data@));
        }
    }
    r
}

} // verus!
