//! The machine-translation client's computational core: building the request
//! address and decoding the endpoint's nested array-shaped response document.
//!
//! The response's first top-level element is an array of chunk arrays; the
//! translated text is the concatenation of every chunk array's first element.
//! The third top-level element is the detected source language. A document of
//! any other shape is a parse failure.

use vstd::prelude::*;
use vstd::string::{StrSliceExecFns, StringSliceAdditionalSpecFns};

use crate::json::Json;

verus! {

/// A failure of one remote fetch. It never aborts the pipeline: the
/// orchestrator degrades the affected field instead.
#[derive(Debug, Clone, Copy, PartialEq, Eq, Structural)]
pub enum NetworkError {
    Timeout,
    ParseError,
    ConnectionError,
}

/// The display text of a fetch failure.
pub open spec fn network_error_view(e: NetworkError) -> Seq<char> {
    match e {
        NetworkError::Timeout => "request timed out"@,
        NetworkError::ParseError => "malformed response"@,
        NetworkError::ConnectionError => "connection failed"@,
    }
}

impl NetworkError {
    /// A short display text for the error, shown in place of a translation.
    pub fn message(&self) -> (r: String)
        ensures
            r@ == network_error_view(*self),
    {
        match self {
            NetworkError::Timeout => String::from_str("request timed out"),
            NetworkError::ParseError => String::from_str("malformed response"),
            NetworkError::ConnectionError => String::from_str("connection failed"),
        }
    }
}

/// The text one chunk of the response contributes: the first element of a
/// chunk array when it is a string, and nothing otherwise.
pub open spec fn chunk_of(item: Json) -> Seq<char> {
    match item {
        Json::Arr(elems) => if elems@.len() > 0 {
            match elems@[0] {
                Json::Str(s) => s@,
                _ => Seq::empty(),
            }
        } else {
            Seq::empty()
        },
        _ => Seq::empty(),
    }
}

/// The concatenated chunk texts of `items[i..]`.
pub open spec fn chunks_concat(items: Seq<Json>, i: int) -> Seq<char>
    decreases items.len() - i,
        when 0 <= i <= items.len()
{
    if i >= items.len() {
        Seq::empty()
    } else {
        chunk_of(items[i]) + chunks_concat(items, i + 1)
    }
}

/// The translated text of a response document, when the document has the
/// expected shape: a top-level array whose first element is the chunk array.
pub open spec fn google_translation_of(j: Json) -> Option<Seq<char>> {
    match j {
        Json::Arr(top) => if top@.len() > 0 {
            match top@[0] {
                Json::Arr(items) => Some(chunks_concat(items@, 0)),
                _ => None,
            }
        } else {
            None
        },
        _ => None,
    }
}

/// The detected source language of a response document: its third top-level
/// element, when that is a string.
pub open spec fn detected_lang_of(j: Json) -> Option<Seq<char>> {
    match j {
        Json::Arr(top) => if top@.len() > 2 {
            match top@[2] {
                Json::Str(s) => Some(s@),
                _ => None,
            }
        } else {
            None
        },
        _ => None,
    }
}

/// Decodes a response document into the translated text and the detected
/// source language. The decoding succeeds exactly when both parts are
/// present; anything else is a parse failure.
pub fn extract_google_response(j: &Json) -> (r: Result<(String, String), NetworkError>)
    ensures
        r is Ok <==> (google_translation_of(*j) is Some && detected_lang_of(*j) is Some),
        r matches Ok(p) ==> google_translation_of(*j) == Some(p.0@) && detected_lang_of(*j)
            == Some(p.1@),
        r matches Err(e) ==> e == NetworkError::ParseError,
{
    match j {
        Json::Arr(top) => {
            if top.len() == 0 {
                return Err(NetworkError::ParseError);
            }
            let translation = match &top[0] {
                Json::Arr(items) => {
                    let mut acc = String::new();
                    let mut i: usize = 0;
                    while i < items.len()
                        invariant
                            i <= items@.len(),
                            chunks_concat(items@, 0) == acc@ + chunks_concat(items@, i as int),
                        decreases items@.len() - i,
                    {
                        let ghost prev = acc@;
                        match &items[i] {
                            Json::Arr(elems) => {
                                if elems.len() > 0 {
                                    match &elems[0] {
                                        Json::Str(s) => acc.append(s.as_str()),
                                        _ => {},
                                    }
                                }
                            },
                            _ => {},
                        }
                        proof {
                            assert(acc@ =~= prev + chunk_of(items@[i as int]));
                            assert((prev + chunk_of(items@[i as int])) + chunks_concat(
                                items@,
                                i + 1,
                            ) =~= prev + (chunk_of(items@[i as int]) + chunks_concat(
                                items@,
                                i + 1,
                            )));
                        }
                        i += 1;
                    }
                    proof {
                        assert(acc@ + chunks_concat(items@, i as int) =~= acc@);
                    }
                    acc
                },
                _ => {
                    return Err(NetworkError::ParseError);
                },
            };
            if top.len() > 2 {
                match &top[2] {
                    Json::Str(d) => Ok((translation, d.clone())),
                    _ => Err(NetworkError::ParseError),
                }
            } else {
                Err(NetworkError::ParseError)
            }
        },
        _ => Err(NetworkError::ParseError),
    }
}

/// Whether a byte stays itself under percent encoding: ASCII letters and
/// digits, minus, period, underscore and tilde.
pub open spec fn is_unreserved(b: u8) -> bool {
    (0x41 <= b && b <= 0x5A) || (0x61 <= b && b <= 0x7A) || (0x30 <= b && b <= 0x39) || b == 0x2D
        || b == 0x2E || b == 0x5F || b == 0x7E
}

/// The upper-case hexadecimal digit of a value below sixteen.
pub open spec fn hex_digit(d: u8) -> char {
    if d < 10 {
        ((0x30 + d) as char)
    } else {
        ((0x41 + (d - 10)) as char)
    }
}

/// What one byte encodes to: itself when unreserved, else a percent escape.
pub open spec fn encode_byte(b: u8) -> Seq<char> {
    if is_unreserved(b) {
        seq![b as char]
    } else {
        seq!['%', hex_digit(b / 16), hex_digit(b % 16)]
    }
}

/// The percent encoding of the bytes `bs[i..]`.
pub open spec fn percent_encoding(bs: Seq<u8>, i: int) -> Seq<char>
    decreases bs.len() - i,
        when 0 <= i <= bs.len()
{
    if i >= bs.len() {
        Seq::empty()
    } else {
        encode_byte(bs[i]) + percent_encoding(bs, i + 1)
    }
}

/// Computes the upper-case hexadecimal digit of a value below sixteen.
fn hex_digit_exec(d: u8) -> (r: char)
    requires
        d < 16,
    ensures
        r == hex_digit(d),
{
    if d < 10 {
        (0x30 + d) as char
    } else {
        (0x41 + (d - 10)) as char
    }
}

/// Percent-encodes the bytes of a string for use in a request address.
pub fn percent_encode(s: &str) -> (r: String)
    ensures
        r@ == percent_encoding(s.spec_bytes(), 0),
{
    let bs = s.as_bytes_vec();
    let mut r = String::new();
    let mut i: usize = 0;
    while i < bs.len()
        invariant
            i <= bs@.len(),
            bs@ == s.spec_bytes(),
            percent_encoding(bs@, 0) == r@ + percent_encoding(bs@, i as int),
        decreases bs@.len() - i,
    {
        let ghost prev = r@;
        let b = bs[i];
        let unreserved = (0x41 <= b && b <= 0x5A) || (0x61 <= b && b <= 0x7A) || (0x30 <= b && b
            <= 0x39) || b == 0x2D || b == 0x2E || b == 0x5F || b == 0x7E;
        if unreserved {
            r.push(b as char);
        } else {
            r.push('%');
            r.push(hex_digit_exec(b / 16));
            r.push(hex_digit_exec(b % 16));
        }
        proof {
            assert(r@ =~= prev + encode_byte(bs@[i as int]));
            assert((prev + encode_byte(bs@[i as int])) + percent_encoding(bs@, i + 1) =~= prev + (
            encode_byte(bs@[i as int]) + percent_encoding(bs@, i + 1)));
        }
        i += 1;
    }
    proof {
        assert(r@ + percent_encoding(bs@, i as int) =~= r@);
    }
    r
}

/// The request address for the machine-translation endpoint.
pub open spec fn google_url_view(text: &str, source: Seq<char>, target: Seq<char>) -> Seq<char> {
    "https://translate.googleapis.com/translate_a/single?client=gtx&sl="@ + source + "&tl="@
        + target + "&dt=t&q="@ + percent_encoding(text.spec_bytes(), 0)
}

/// Builds the machine-translation request address: fixed endpoint and client,
/// source and target languages, and the percent-encoded query text.
pub fn build_google_url(text: &str, source: &str, target: &str) -> (r: String)
    ensures
        r@ == google_url_view(text, source@, target@),
{
    let mut r = String::from_str("https://translate.googleapis.com/translate_a/single?client=gtx&sl=");
    r.append(source);
    r.append("&tl=");
    r.append(target);
    r.append("&dt=t&q=");
    let q = percent_encode(text);
    r.append(q.as_str());
    proof {
        assert(r@ =~= google_url_view(text, source@, target@));
    }
    r
}

/// The request address for the dictionary endpoint: the word is passed as the
/// search parameter with no further encoding.
pub fn build_longdo_url(word: &str) -> (r: String)
    ensures
        r@ == "https://dict.longdo.com/mobile.php?search="@ + word@,
{
    let mut r = String::from_str("https://dict.longdo.com/mobile.php?search=");
    r.append(word);
    r
}

} // verus!
