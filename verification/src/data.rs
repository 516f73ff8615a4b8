//! The result structures handed to the presentation layer: dictionary sense
//! entries, parallel example sentences, and the combined translation artifact.

use vstd::prelude::*;

verus! {

/// One dictionary sense entry.
#[derive(Debug, Clone, PartialEq, Eq)]
pub struct TranslationItem {
    pub word: String,
    pub pos: String,
    pub translation: String,
    pub dictionary: String,
}

/// Mathematical image of a `TranslationItem`.
pub struct TranslationItemView {
    pub word: Seq<char>,
    pub pos: Seq<char>,
    pub translation: Seq<char>,
    pub dictionary: Seq<char>,
}

impl View for TranslationItem {
    type V = TranslationItemView;

    open spec fn view(&self) -> TranslationItemView {
        TranslationItemView {
            word: self.word@,
            pos: self.pos@,
            translation: self.translation@,
            dictionary: self.dictionary@,
        }
    }
}

/// One parallel example pair: a source sentence and its target rendering.
#[derive(Debug, Clone, PartialEq, Eq)]
pub struct ExampleItem {
    pub en: String,
    pub th: String,
}

/// Mathematical image of an `ExampleItem`.
pub struct ExampleItemView {
    pub en: Seq<char>,
    pub th: Seq<char>,
}

impl View for ExampleItem {
    type V = ExampleItemView;

    open spec fn view(&self) -> ExampleItemView {
        ExampleItemView { en: self.en@, th: self.th@ }
    }
}

/// What the dictionary lookup yields: ordered sense entries and ordered
/// example pairs.
#[derive(Debug, Clone, PartialEq, Eq)]
pub struct LongdoData {
    pub translations: Vec<TranslationItem>,
    pub examples: Vec<ExampleItem>,
}

/// Mathematical image of a `LongdoData`.
pub struct LongdoDataView {
    pub translations: Seq<TranslationItemView>,
    pub examples: Seq<ExampleItemView>,
}

impl View for LongdoData {
    type V = LongdoDataView;

    open spec fn view(&self) -> LongdoDataView {
        LongdoDataView {
            translations: Seq::new(self.translations@.len(), |i: int| self.translations@[i]@),
            examples: Seq::new(self.examples@.len(), |i: int| self.examples@[i]@),
        }
    }
}

impl Default for LongdoData {
    /// An empty lookup result.
    fn default() -> (r: LongdoData)
        ensures
            r@.translations.len() == 0,
            r@.examples.len() == 0,
    {
        LongdoData { translations: Vec::new(), examples: Vec::new() }
    }
}

/// The terminal artifact of the pipeline, consumed read-only by presentation.
#[derive(Debug, Clone, PartialEq, Eq)]
pub struct CombinedTranslationData {
    pub search_word: String,
    pub source_lang: String,
    pub target_lang: String,
    pub google_translation: String,
    pub longdo_data: Option<LongdoData>,
}

/// Mathematical image of a `CombinedTranslationData`.
pub struct CombinedTranslationDataView {
    pub search_word: Seq<char>,
    pub source_lang: Seq<char>,
    pub target_lang: Seq<char>,
    pub google_translation: Seq<char>,
    pub longdo_data: Option<LongdoDataView>,
}

impl View for CombinedTranslationData {
    type V = CombinedTranslationDataView;

    open spec fn view(&self) -> CombinedTranslationDataView {
        CombinedTranslationDataView {
            search_word: self.search_word@,
            source_lang: self.source_lang@,
            target_lang: self.target_lang@,
            google_translation: self.google_translation@,
            longdo_data: match self.longdo_data {
                Some(d) => Some(d@),
                None => None,
            },
        }
    }
}

} // verus!
