//! Source selection and merging: which remote sources are queried for a
//! piece of extracted text, and how their outcomes become the one artifact
//! handed to presentation.
//!
//! The translation stage never fails outward. The machine translation is
//! asked first; a dictionary lookup follows only when the text is a single
//! word, the detected source language is the dictionary's source and the
//! configured target is the dictionary's target. The lookup is gated on the
//! detected language, so it runs strictly after the machine translation: a
//! deliberate latency cost for a strictly more correct result. Fetch
//! failures degrade into an error text in the translation field or an
//! absent dictionary part.

use vstd::prelude::*;

use crate::data::{CombinedTranslationData, CombinedTranslationDataView, LongdoData, LongdoDataView};
use crate::google::{network_error_view, NetworkError};
use crate::html::{longdo_examples, longdo_translations, parse_longdo_document, Node};
use crate::text::{is_single_word, is_word_spec, str_eq, to_ascii_upper, trim, trim_spec, upper_view};

verus! {

/// The three gating conditions as one predicate: dictionary data is fetched
/// exactly when the (trimmed) text is a single word, the detected source
/// language is the dictionary's source and the target is the dictionary's
/// target.
pub open spec fn dictionary_gate(text: Seq<char>, detected: Seq<char>, target: Seq<char>) -> bool {
    is_word_spec(text) && detected == "en"@ && target == "th"@
}

/// Decides the dictionary gate.
pub fn dictionary_gate_holds(text: &str, detected: &str, target: &str) -> (r: bool)
    ensures
        r == dictionary_gate(text@, detected@, target@),
{
    is_single_word(text) && str_eq(detected, "en") && str_eq(target, "th")
}

/// Where a translation attempt stands: the machine translation is owed, the
/// dictionary lookup is owed, or the artifact is complete.
#[derive(Debug)]
pub enum TranslateState {
    NeedGoogle { search_word: String, source: String, target: String },
    NeedDictionary {
        search_word: String,
        target: String,
        google_translation: String,
        detected: String,
    },
    Done(CombinedTranslationData),
}

/// Mathematical image of a `TranslateState`.
pub enum TranslateStateView {
    NeedGoogle { search_word: Seq<char>, source: Seq<char>, target: Seq<char> },
    NeedDictionary {
        search_word: Seq<char>,
        target: Seq<char>,
        google_translation: Seq<char>,
        detected: Seq<char>,
    },
    Done(CombinedTranslationDataView),
}

impl View for TranslateState {
    type V = TranslateStateView;

    open spec fn view(&self) -> TranslateStateView {
        match self {
            TranslateState::NeedGoogle { search_word, source, target } => {
                TranslateStateView::NeedGoogle {
                    search_word: search_word@,
                    source: source@,
                    target: target@,
                }
            },
            TranslateState::NeedDictionary { search_word, target, google_translation, detected } => {
                TranslateStateView::NeedDictionary {
                    search_word: search_word@,
                    target: target@,
                    google_translation: google_translation@,
                    detected: detected@,
                }
            },
            TranslateState::Done(d) => TranslateStateView::Done(d@),
        }
    }
}

/// The artifact built when the machine translation itself failed: the
/// requested languages upper-cased, an error text in the translation field,
/// and no dictionary part.
pub open spec fn failure_artifact(
    search_word: Seq<char>,
    source: Seq<char>,
    target: Seq<char>,
    e: NetworkError,
) -> CombinedTranslationDataView {
    CombinedTranslationDataView {
        search_word,
        source_lang: upper_view(source),
        target_lang: upper_view(target),
        google_translation: "Translation error: "@ + network_error_view(e),
        longdo_data: None,
    }
}

/// The transition on the machine-translation outcome: success opens the
/// dictionary stage exactly when the lookup condition holds, and closes the
/// artifact without a dictionary part otherwise; failure closes it with an
/// error text. States other than the machine-translation stage do not move.
pub open spec fn google_step(
    sv: TranslateStateView,
    outcome: Result<(Seq<char>, Seq<char>), NetworkError>,
) -> TranslateStateView {
    match sv {
        TranslateStateView::NeedGoogle { search_word, source, target } => match outcome {
            Ok(p) => {
                if dictionary_gate(search_word, p.1, target) {
                    TranslateStateView::NeedDictionary {
                        search_word,
                        target,
                        google_translation: p.0,
                        detected: p.1,
                    }
                } else {
                    TranslateStateView::Done(
                        CombinedTranslationDataView {
                            search_word,
                            source_lang: upper_view(p.1),
                            target_lang: upper_view(target),
                            google_translation: p.0,
                            longdo_data: None,
                        },
                    )
                }
            },
            Err(e) => TranslateStateView::Done(failure_artifact(search_word, source, target, e)),
        },
        _ => sv,
    }
}

/// The transition on the dictionary outcome: a fetched document contributes
/// its parsed data, a failed fetch contributes nothing, and either way the
/// artifact closes with the detected language upper-cased. States other than
/// the dictionary stage do not move.
pub open spec fn dictionary_step(sv: TranslateStateView, doc: Option<Seq<Node>>) -> TranslateStateView {
    match sv {
        TranslateStateView::NeedDictionary { search_word, target, google_translation, detected } => {
            TranslateStateView::Done(
                CombinedTranslationDataView {
                    search_word,
                    source_lang: upper_view(detected),
                    target_lang: upper_view(target),
                    google_translation,
                    longdo_data: match doc {
                        Some(d) => Some(
                            LongdoDataView {
                                translations: longdo_translations(d),
                                examples: longdo_examples(d),
                            },
                        ),
                        None => None,
                    },
                },
            )
        },
        _ => sv,
    }
}

/// Opens a translation attempt: the text is trimmed into the search word and
/// the machine translation becomes due.
pub fn translate_begin(text: &str, source: &str, target: &str) -> (r: TranslateState)
    ensures
        r@ == (TranslateStateView::NeedGoogle {
            search_word: trim_spec(text@),
            source: source@,
            target: target@,
        }),
{
    TranslateState::NeedGoogle {
        search_word: trim(text),
        source: String::from_str(source),
        target: String::from_str(target),
    }
}

/// Mathematical image of a machine-translation outcome.
pub open spec fn outcome_view(o: Result<(String, String), NetworkError>) -> Result<
    (Seq<char>, Seq<char>),
    NetworkError,
> {
    match o {
        Ok(p) => Ok((p.0@, p.1@)),
        Err(e) => Err(e),
    }
}

/// Advances the attempt on the machine-translation outcome.
pub fn on_google_outcome(state: TranslateState, outcome: Result<(String, String), NetworkError>) -> (r:
    TranslateState)
    ensures
        r@ == google_step(state@, outcome_view(outcome)),
{
    match state {
        TranslateState::NeedGoogle { search_word, source, target } => match outcome {
            Ok(p) => {
                if dictionary_gate_holds(search_word.as_str(), p.1.as_str(), target.as_str()) {
                    TranslateState::NeedDictionary {
                        search_word,
                        target,
                        google_translation: p.0,
                        detected: p.1,
                    }
                } else {
                    let source_lang = to_ascii_upper(p.1.as_str());
                    let target_lang = to_ascii_upper(target.as_str());
                    TranslateState::Done(
                        CombinedTranslationData {
                            search_word,
                            source_lang,
                            target_lang,
                            google_translation: p.0,
                            longdo_data: None,
                        },
                    )
                }
            },
            Err(e) => {
                let mut msg = String::from_str("Translation error: ");
                let em = e.message();
                msg.append(em.as_str());
                let source_lang = to_ascii_upper(source.as_str());
                let target_lang = to_ascii_upper(target.as_str());
                TranslateState::Done(
                    CombinedTranslationData {
                        search_word,
                        source_lang,
                        target_lang,
                        google_translation: msg,
                        longdo_data: None,
                    },
                )
            },
        },
        other => other,
    }
}

/// Mathematical image of a dictionary fetch outcome.
pub open spec fn doc_view(d: Option<&Vec<Node>>) -> Option<Seq<Node>> {
    match d {
        Some(v) => Some(v@),
        None => None,
    }
}

/// Advances the attempt on the dictionary outcome: the fetched markup is
/// parsed into the dictionary part, and the artifact closes.
pub fn on_dictionary_outcome(state: TranslateState, doc: Option<&Vec<Node>>) -> (r: TranslateState)
    ensures
        r@ == dictionary_step(state@, doc_view(doc)),
{
    match state {
        TranslateState::NeedDictionary { search_word, target, google_translation, detected } => {
            let longdo: Option<LongdoData> = match doc {
                Some(d) => Some(parse_longdo_document(d)),
                None => None,
            };
            let source_lang = to_ascii_upper(detected.as_str());
            let target_lang = to_ascii_upper(target.as_str());
            TranslateState::Done(
                CombinedTranslationData {
                    search_word,
                    source_lang,
                    target_lang,
                    google_translation,
                    longdo_data: longdo,
                },
            )
        },
        other => other,
    }
}

/// Dictionary gating is a pure function of the classification, the detected
/// source language and the target language: after a successful machine
/// translation and a successful dictionary fetch, the final artifact carries
/// dictionary data exactly when the lookup condition held.
pub proof fn lemma_dictionary_gating(
    w: Seq<char>,
    s: Seq<char>,
    t: Seq<char>,
    translation: Seq<char>,
    detected: Seq<char>,
    doc: Seq<Node>,
)
    ensures
        ({
            let st1 = google_step(
                TranslateStateView::NeedGoogle { search_word: w, source: s, target: t },
                Ok((translation, detected)),
            );
            let fin = if st1 is NeedDictionary {
                dictionary_step(st1, Some(doc))
            } else {
                st1
            };
            &&& fin is Done
            &&& (fin matches TranslateStateView::Done(d) ==> (d.longdo_data is Some
                <==> dictionary_gate(w, detected, t)))
        }),
{
}

/// Dictionary data is never present without the lookup condition, whatever
/// the dictionary fetch returned: an absent or failed fetch only ever removes
/// the dictionary part, it cannot add one.
pub proof fn lemma_longdo_only_when_gated(
    w: Seq<char>,
    s: Seq<char>,
    t: Seq<char>,
    translation: Seq<char>,
    detected: Seq<char>,
    dopt: Option<Seq<Node>>,
)
    ensures
        ({
            let st1 = google_step(
                TranslateStateView::NeedGoogle { search_word: w, source: s, target: t },
                Ok((translation, detected)),
            );
            let fin = if st1 is NeedDictionary {
                dictionary_step(st1, dopt)
            } else {
                st1
            };
            fin matches TranslateStateView::Done(d) ==> (d.longdo_data is Some
                ==> dictionary_gate(w, detected, t))
        }),
{
}

/// A failed machine translation still closes into a displayable artifact:
/// the error text stands in the translation field and no dictionary data is
/// attached, so the pipeline never fails outward after extraction.
pub proof fn lemma_google_failure_degrades(
    w: Seq<char>,
    s: Seq<char>,
    t: Seq<char>,
    e: NetworkError,
)
    ensures
        google_step(
            TranslateStateView::NeedGoogle { search_word: w, source: s, target: t },
            Err(e),
        ) == TranslateStateView::Done(failure_artifact(w, s, t, e)),
        failure_artifact(w, s, t, e).longdo_data is None,
        failure_artifact(w, s, t, e).google_translation == "Translation error: "@
            + network_error_view(e),
{
}

} // verus!
