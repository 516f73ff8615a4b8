//! The text-extraction boundary. The engine itself is an external black box
//! from image bytes and a language hint to text; what belongs to the
//! pipeline is the hint's translation into the engine's own language codes
//! and the rule that an empty extraction is a failure.

use vstd::prelude::*;

use crate::text::{classification_spec, classify, str_eq, to_chars, chars_to_string, Classification};

verus! {

/// Why text extraction failed. Every variant is fatal to the pipeline.
#[derive(Debug, Clone, Copy, PartialEq, Eq, Structural)]
pub enum OcrError {
    /// The engine could not be initialised.
    EngineFailure,
    /// The image bytes could not be read.
    UnreadableImage,
    /// The engine returned no text at all.
    EmptyResult,
}

impl OcrError {
    /// A short display text for the error.
    pub fn message(&self) -> (r: String)
        ensures
            *self == OcrError::EngineFailure ==> r@ == "text recognition failed"@,
            *self == OcrError::UnreadableImage ==> r@ == "image could not be read"@,
            *self == OcrError::EmptyResult ==> r@ == "no text was recognised"@,
    {
        match self {
            OcrError::EngineFailure => String::from_str("text recognition failed"),
            OcrError::UnreadableImage => String::from_str("image could not be read"),
            OcrError::EmptyResult => String::from_str("no text was recognised"),
        }
    }
}

/// The engine's code for one public language code: two-letter codes that the
/// engine names differently are mapped, anything else passes through.
pub open spec fn engine_code(seg: Seq<char>) -> Seq<char> {
    if seg == "en"@ {
        "eng"@
    } else if seg == "th"@ {
        "tha"@
    } else {
        seg
    }
}

/// The language hint with every plus-separated part mapped to the engine's
/// own code, scanning `s[i..]` with `seg` the part read so far.
pub open spec fn map_hint_from(s: Seq<char>, i: int, seg: Seq<char>) -> Seq<char>
    decreases s.len() - i,
        when 0 <= i <= s.len()
{
    if i >= s.len() {
        engine_code(seg)
    } else if s[i] == '+' {
        engine_code(seg) + seq!['+'] + map_hint_from(s, i + 1, Seq::empty())
    } else {
        map_hint_from(s, i + 1, seg.push(s[i]))
    }
}

/// Maps one plus-separated part to the engine's code.
fn engine_code_exec(seg: &Vec<char>) -> (r: String)
    ensures
        r@ == engine_code(seg@),
{
    let s = chars_to_string(seg);
    if str_eq(s.as_str(), "en") {
        String::from_str("eng")
    } else if str_eq(s.as_str(), "th") {
        String::from_str("tha")
    } else {
        s
    }
}

/// Translates a language hint, a single code or a plus-joined set of codes,
/// into the engine's own codes.
pub fn ocr_language_hint(hint: &str) -> (r: String)
    ensures
        r@ == map_hint_from(hint@, 0, Seq::empty()),
{
    let chars = to_chars(hint);
    let mut out = String::new();
    let mut seg: Vec<char> = Vec::new();
    let mut i: usize = 0;
    while i < chars.len()
        invariant
            i <= chars@.len(),
            chars@ == hint@,
            map_hint_from(hint@, 0, Seq::empty()) == out@ + map_hint_from(
                hint@,
                i as int,
                seg@,
            ),
        decreases chars@.len() - i,
    {
        let ghost prev_out = out@;
        let ghost prev_seg = seg@;
        let c = chars[i];
        if c == '+' {
            let mapped = engine_code_exec(&seg);
            out.append(mapped.as_str());
            out.append("+");
            seg = Vec::new();
            proof {
                reveal_strlit("+");
                assert(out@ =~= prev_out + (engine_code(prev_seg) + seq!['+']));
                assert((prev_out + (engine_code(prev_seg) + seq!['+'])) + map_hint_from(
                    hint@,
                    i + 1,
                    Seq::empty(),
                ) =~= prev_out + (engine_code(prev_seg) + seq!['+'] + map_hint_from(
                    hint@,
                    i + 1,
                    Seq::empty(),
                )));
            }
        } else {
            seg.push(c);
        }
        i += 1;
    }
    let mapped = engine_code_exec(&seg);
    out.append(mapped.as_str());
    out
}

/// Extracted text together with the language hint that produced it.
#[derive(Debug, Clone, PartialEq, Eq)]
pub struct ExtractedText {
    pub text: String,
    pub lang_hint: String,
}

impl ExtractedText {
    /// The classification that drives every downstream decision.
    pub fn classification(&self) -> (c: Classification)
        ensures
            c == classification_spec(self.text@),
    {
        classify(self.text.as_str())
    }
}

/// Accepts the engine's output: any non-empty text stands, an empty result
/// is an extraction failure.
pub fn accept_extraction(text: String, lang_hint: String) -> (r: Result<ExtractedText, OcrError>)
    ensures
        r is Ok <==> text@.len() > 0,
        r matches Ok(x) ==> x.text@ == text@ && x.lang_hint@ == lang_hint@,
        r matches Err(e) ==> e == OcrError::EmptyResult,
{
    if text.as_str().is_empty() {
        Err(OcrError::EmptyResult)
    } else {
        Ok(ExtractedText { text, lang_hint })
    }
}

} // verus!
