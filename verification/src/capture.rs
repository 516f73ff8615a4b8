//! The interactive screen-capture protocol.
//!
//! The portal path is an asynchronous request/correlate/await-signal
//! exchange: the method call only acknowledges receipt, and the real outcome
//! arrives later as a correlated response event on a handle address derived
//! from the caller's identity and a fresh random token. The exchange is a
//! two-phase state machine: awaiting the acknowledgement, awaiting the
//! response signal, and then resolved to an image path or failed. A non-zero
//! status in the response means the user cancelled; a malformed response is a
//! protocol error; a broken connection is a transport error. None of these is
//! retried: a failure here ends the whole pipeline before any text
//! extraction or network call happens.

use vstd::prelude::*;
use vstd::string::{StrSliceExecFns, StringSliceAdditionalSpecFns};
use vstd::utf8::encode_utf8;

use crate::text::{contains_sub, str_contains_str, str_eq, to_ascii_upper, upper_view};
use rand::RngExt;

verus! {

/// Why a capture attempt ended without an image.
#[derive(Debug, Clone, Copy, PartialEq, Eq, Structural)]
pub enum CaptureError {
    /// The user dismissed the selection, or the capture tool exited non-zero.
    Cancelled,
    /// The response arrived but did not carry what the protocol promises.
    ProtocolError,
    /// The connection to the desktop service could not be used at all.
    TransportError,
}

/// The two-phase protocol state: the call's acknowledgement is awaited first,
/// then the correlated response signal, which resolves the attempt.
#[derive(Debug)]
pub enum CaptureState {
    AwaitingAck,
    AwaitingSignal,
    /// The capture produced an image at this file-system path (as bytes).
    Resolved(Vec<u8>),
    Failed(CaptureError),
}

/// Mathematical image of a `CaptureState`.
pub enum CaptureStateView {
    AwaitingAck,
    AwaitingSignal,
    Resolved(Seq<u8>),
    Failed(CaptureError),
}

impl View for CaptureState {
    type V = CaptureStateView;

    open spec fn view(&self) -> CaptureStateView {
        match self {
            CaptureState::AwaitingAck => CaptureStateView::AwaitingAck,
            CaptureState::AwaitingSignal => CaptureStateView::AwaitingSignal,
            CaptureState::Resolved(p) => CaptureStateView::Resolved(p@),
            CaptureState::Failed(e) => CaptureStateView::Failed(*e),
        }
    }
}

/// What the transport reports back to the protocol.
#[derive(Debug)]
pub enum CaptureEvent {
    /// The method call returned: the request was received.
    AckReceived,
    /// The connection or the call itself broke down.
    TransportFailed,
    /// The correlated response signal, with its status code and the uri
    /// field of its result map, when one was present.
    Signal { status: u32, uri: Option<String> },
}

/// Mathematical image of a `CaptureEvent`.
pub enum CaptureEventView {
    AckReceived,
    TransportFailed,
    Signal { status: u32, uri: Option<Seq<char>> },
}

impl View for CaptureEvent {
    type V = CaptureEventView;

    open spec fn view(&self) -> CaptureEventView {
        match self {
            CaptureEvent::AckReceived => CaptureEventView::AckReceived,
            CaptureEvent::TransportFailed => CaptureEventView::TransportFailed,
            CaptureEvent::Signal { status, uri } => CaptureEventView::Signal {
                status: *status,
                uri: match uri {
                    Some(u) => Some(u@),
                    None => None,
                },
            },
        }
    }
}

/// The value of a hexadecimal digit byte.
pub open spec fn hex_val(b: u8) -> Option<u8> {
    if 0x30 <= b && b <= 0x39 {
        Some((b - 0x30) as u8)
    } else if 0x41 <= b && b <= 0x46 {
        Some((b - 0x41 + 10) as u8)
    } else if 0x61 <= b && b <= 0x66 {
        Some((b - 0x61 + 10) as u8)
    } else {
        None
    }
}

/// The percent decoding of the bytes `bs[i..]`: a percent sign followed by
/// two hexadecimal digits becomes one byte; everything else passes through
/// unchanged.
pub open spec fn percent_decoding(bs: Seq<u8>, i: int) -> Seq<u8>
    decreases bs.len() - i,
        when 0 <= i <= bs.len()
{
    if i >= bs.len() {
        Seq::empty()
    } else if bs[i] == 0x25 && i + 2 < bs.len() && hex_val(bs[i + 1]) is Some && hex_val(
        bs[i + 2],
    ) is Some {
        seq![
            ((hex_val(bs[i + 1]).unwrap() * 16 + hex_val(bs[i + 2]).unwrap()) as u8),
        ] + percent_decoding(bs, i + 3)
    } else {
        seq![bs[i]] + percent_decoding(bs, i + 1)
    }
}

/// Computes the value of a hexadecimal digit byte.
fn hex_val_exec(b: u8) -> (r: Option<u8>)
    ensures
        r == hex_val(b),
{
    if 0x30 <= b && b <= 0x39 {
        Some(b - 0x30)
    } else if 0x41 <= b && b <= 0x46 {
        Some(b - 0x41 + 10)
    } else if 0x61 <= b && b <= 0x66 {
        Some(b - 0x61 + 10)
    } else {
        None
    }
}

/// Percent-decodes a byte string.
pub fn percent_decode_bytes(bs: &Vec<u8>) -> (r: Vec<u8>)
    ensures
        r@ == percent_decoding(bs@, 0),
{
    let mut out: Vec<u8> = Vec::new();
    let mut i: usize = 0;
    while i < bs.len()
        invariant
            i <= bs@.len(),
            percent_decoding(bs@, 0) == out@ + percent_decoding(bs@, i as int),
        decreases bs@.len() - i,
    {
        let ghost prev = out@;
        let mut stepped = false;
        if bs[i] == 0x25 && bs.len() - i > 2 {
            let h1 = hex_val_exec(bs[i + 1]);
            let h2 = hex_val_exec(bs[i + 2]);
            match (h1, h2) {
                (Some(a), Some(b)) => {
                    out.push(a * 16 + b);
                    proof {
                        assert(out@ =~= prev + percent_decoding(bs@, i as int).subrange(0, 1));
                    }
                    i += 3;
                    stepped = true;
                },
                _ => {},
            }
        }
        if !stepped {
            out.push(bs[i]);
            i += 1;
        }
        proof {
            assert(percent_decoding(bs@, 0) =~= out@ + percent_decoding(bs@, i as int));
        }
    }
    proof {
        assert(out@ + percent_decoding(bs@, i as int) =~= out@);
    }
    out
}

/// The local-file scheme prefix of a response uri.
pub open spec fn file_scheme() -> Seq<char> {
    "file://"@
}

/// The path a well-formed response uri denotes: the text after the scheme
/// prefix, percent-decoded at the byte level.
pub open spec fn uri_path_bytes(uri: Seq<char>) -> Seq<u8> {
    percent_decoding(encode_utf8(uri.subrange(7, uri.len() as int)), 0)
}

/// Whether a response uri carries the local-file scheme.
pub open spec fn uri_well_formed(uri: Seq<char>) -> bool {
    uri.len() >= 7 && uri.subrange(0, 7) == file_scheme()
}

/// Turns a response uri into a local path: the scheme prefix is stripped and
/// the rest percent-decoded. A uri without the prefix is a protocol error.
pub fn uri_to_path(uri: &str) -> (r: Result<Vec<u8>, CaptureError>)
    ensures
        r is Ok <==> uri_well_formed(uri@),
        r matches Ok(p) ==> p@ == uri_path_bytes(uri@),
        r matches Err(e) ==> e == CaptureError::ProtocolError,
{
    let n = uri.unicode_len();
    if n < 7 {
        return Err(CaptureError::ProtocolError);
    }
    let head = uri.substring_char(0, 7);
    if !str_eq(head, "file://") {
        return Err(CaptureError::ProtocolError);
    }
    let rest = uri.substring_char(7, n);
    let bytes = rest.as_bytes_vec();
    let decoded = percent_decode_bytes(&bytes);
    Ok(decoded)
}

/// One step of the capture protocol: the transition from a state on an event.
pub open spec fn capture_transition(s: CaptureStateView, e: CaptureEventView) -> CaptureStateView {
    match s {
        CaptureStateView::AwaitingAck => match e {
            CaptureEventView::AckReceived => CaptureStateView::AwaitingSignal,
            CaptureEventView::TransportFailed => CaptureStateView::Failed(
                CaptureError::TransportError,
            ),
            CaptureEventView::Signal { .. } => CaptureStateView::Failed(
                CaptureError::ProtocolError,
            ),
        },
        CaptureStateView::AwaitingSignal => match e {
            CaptureEventView::AckReceived => CaptureStateView::AwaitingSignal,
            CaptureEventView::TransportFailed => CaptureStateView::Failed(
                CaptureError::TransportError,
            ),
            CaptureEventView::Signal { status, uri } => {
                if status != 0 {
                    CaptureStateView::Failed(CaptureError::Cancelled)
                } else {
                    match uri {
                        Some(u) => if uri_well_formed(u) {
                            CaptureStateView::Resolved(uri_path_bytes(u))
                        } else {
                            CaptureStateView::Failed(CaptureError::ProtocolError)
                        },
                        None => CaptureStateView::Failed(CaptureError::ProtocolError),
                    }
                }
            },
        },
        CaptureStateView::Resolved(p) => CaptureStateView::Resolved(p),
        CaptureStateView::Failed(err) => CaptureStateView::Failed(err),
    }
}

/// Advances the capture protocol by one event.
pub fn capture_step(state: CaptureState, event: CaptureEvent) -> (r: CaptureState)
    ensures
        r@ == capture_transition(state@, event@),
{
    match state {
        CaptureState::AwaitingAck => match event {
            CaptureEvent::AckReceived => CaptureState::AwaitingSignal,
            CaptureEvent::TransportFailed => CaptureState::Failed(CaptureError::TransportError),
            CaptureEvent::Signal { .. } => CaptureState::Failed(CaptureError::ProtocolError),
        },
        CaptureState::AwaitingSignal => match event {
            CaptureEvent::AckReceived => CaptureState::AwaitingSignal,
            CaptureEvent::TransportFailed => CaptureState::Failed(CaptureError::TransportError),
            CaptureEvent::Signal { status, uri } => {
                if status != 0 {
                    CaptureState::Failed(CaptureError::Cancelled)
                } else {
                    match uri {
                        Some(u) => match uri_to_path(u.as_str()) {
                            Ok(p) => CaptureState::Resolved(p),
                            Err(e) => CaptureState::Failed(e),
                        },
                        None => CaptureState::Failed(CaptureError::ProtocolError),
                    }
                }
            },
        },
        CaptureState::Resolved(p) => CaptureState::Resolved(p),
        CaptureState::Failed(err) => CaptureState::Failed(err),
    }
}

/// A failed or resolved capture attempt never changes again: every further
/// event leaves the terminal state as it is.
pub proof fn lemma_terminal_states_stay(s: CaptureStateView, e: CaptureEventView)
    requires
        s is Failed || s is Resolved,
    ensures
        capture_transition(s, e) == s,
{
}

/// A cancellation (a non-zero response status) fails the attempt, so nothing
/// after the capture phase can run: the protocol reaches a path only through
/// a response whose status is zero and whose uri is a well-formed local file
/// reference, and only out of the signal-awaiting phase.
pub proof fn lemma_resolution_needs_zero_status(s: CaptureStateView, e: CaptureEventView)
    requires
        !(s is Resolved),
        capture_transition(s, e) is Resolved,
    ensures
        s is AwaitingSignal,
        e matches CaptureEventView::Signal { status, uri } && status == 0 && (uri matches Some(u)
            && uri_well_formed(u)),
{
}

/// Relies on rand's `Rng::random_range` via `rand::rng`: sampling a
/// non-empty integer range yields a value inside it; an empty range would
/// panic, which the precondition excludes.
#[verifier::external_body]
fn draw_index(bound: usize) -> (r: usize)
    requires
        1 <= bound,
    ensures
        r < bound,
{
    rand::rng().random_range(0..bound)
}

/// The alphabet correlation tokens are drawn from.
pub open spec fn token_charset() -> Seq<char> {
    "abcdefghijklmnopqrstuvwxyz0123456789"@
}

/// Draws a fresh correlation token: ten characters from the token alphabet.
pub fn new_token() -> (r: String)
    ensures
        r@.len() == 10,
        forall|i: int| 0 <= i < r@.len() ==> token_charset().contains(#[trigger] r@[i]),
{
    let cs = "abcdefghijklmnopqrstuvwxyz0123456789";
    let mut r = String::new();
    let mut k: usize = 0;
    while k < 10
        invariant
            k <= 10,
            r@.len() == k,
            cs@ == token_charset(),
            forall|i: int| 0 <= i < r@.len() ==> token_charset().contains(#[trigger] r@[i]),
        decreases 10 - k,
    {
        proof {
            reveal_strlit("abcdefghijklmnopqrstuvwxyz0123456789");
            assert(cs@.len() == 36);
        }
        let idx = draw_index(36);
        let c = cs.get_char(idx);
        proof {
            assert(token_charset()[idx as int] == c);
            assert(token_charset().contains(c));
        }
        r.push(c);
        k += 1;
    }
    r
}

/// The caller identity with its leading sigil characters removed.
pub open spec fn sigil_skip(s: Seq<char>) -> Seq<char>
    decreases s.len(),
{
    if s.len() > 0 && s[0] == ':' {
        sigil_skip(s.drop_first())
    } else {
        s
    }
}

/// The identity with every separator period replaced by an underscore.
pub open spec fn replace_dots(s: Seq<char>) -> Seq<char> {
    Seq::new(s.len(), |i: int| if s[i] == '.' {
        '_'
    } else {
        s[i]
    })
}

/// The sanitized caller identity, as it appears in the handle address.
pub open spec fn sanitized_sender(s: Seq<char>) -> Seq<char> {
    replace_dots(sigil_skip(s))
}

proof fn lemma_sigil_skip_at(s: Seq<char>, k: int)
    requires
        0 <= k <= s.len(),
        forall|m: int| 0 <= m < k ==> s[m] == ':',
        k == s.len() || s[k] != ':',
    ensures
        sigil_skip(s) =~= s.subrange(k, s.len() as int),
    decreases k,
{
    if k == 0 {
        if s.len() == 0 || s[0] != ':' {
            assert(sigil_skip(s) =~= s.subrange(0, s.len() as int));
        }
    } else {
        lemma_sigil_skip_at(s.drop_first(), k - 1);
        assert(s.drop_first().subrange(k - 1, s.drop_first().len() as int) =~= s.subrange(
            k,
            s.len() as int,
        ));
    }
}

/// Sanitizes the caller identity for use in the handle address: the leading
/// sigil is stripped and separator periods become underscores.
pub fn sanitize_sender(sender: &str) -> (r: String)
    ensures
        r@ == sanitized_sender(sender@),
{
    let n = sender.unicode_len();
    let mut i: usize = 0;
    while i < n && sender.get_char(i) == ':'
        invariant
            i <= n,
            n == sender@.len(),
            forall|m: int| 0 <= m < i ==> sender@[m] == ':',
        decreases n - i,
    {
        i += 1;
    }
    proof {
        lemma_sigil_skip_at(sender@, i as int);
    }
    let ghost tail = sender@.subrange(i as int, n as int);
    let mut r = String::new();
    let mut k: usize = i;
    while k < n
        invariant
            i <= k <= n,
            n == sender@.len(),
            tail == sender@.subrange(i as int, n as int),
            r@ == replace_dots(tail).subrange(0, k - i),
        decreases n - k,
    {
        let c = sender.get_char(k);
        let mapped: char = if c == '.' {
            '_'
        } else {
            c
        };
        r.push(mapped);
        proof {
            assert(r@ =~= replace_dots(tail).subrange(0, k + 1 - i));
        }
        k += 1;
    }
    proof {
        assert(r@ =~= replace_dots(tail));
    }
    r
}

/// Builds the handle address the correlated response arrives on: the
/// well-known request prefix, the sanitized caller identity, and the token.
pub fn request_handle_path(sender: &str, token: &str) -> (r: String)
    ensures
        r@ == "/org/freedesktop/portal/desktop/request/"@ + sanitized_sender(sender@) + "/"@
            + token@,
{
    let mut r = String::from_str("/org/freedesktop/portal/desktop/request/");
    let s = sanitize_sender(sender);
    r.append(s.as_str());
    r.append("/");
    r.append(token);
    proof {
        assert(r@ =~= "/org/freedesktop/portal/desktop/request/"@ + sanitized_sender(sender@)
            + "/"@ + token@);
    }
    r
}

/// The file name a subprocess capture writes to, derived from a token.
pub fn temp_capture_file_name(token: &str) -> (r: String)
    ensures
        r@ == "capture_"@ + token@ + ".png"@,
{
    let mut r = String::from_str("capture_");
    r.append(token);
    r.append(".png");
    proof {
        assert(r@ =~= "capture_"@ + token@ + ".png"@);
    }
    r
}

/// The outcome of a subprocess capture: the written path on a clean exit, a
/// cancellation on any other exit status.
pub fn subprocess_capture_result(success: bool, path: String) -> (r: Result<String, CaptureError>)
    ensures
        success ==> r == Ok::<String, CaptureError>(path),
        !success ==> r == Err::<String, CaptureError>(CaptureError::Cancelled),
{
    if success {
        Ok(path)
    } else {
        Err(CaptureError::Cancelled)
    }
}

/// The two ways a capture can be taken, selected once at startup.
#[derive(Debug, Clone, Copy, PartialEq, Eq, Structural)]
pub enum CaptureStrategy {
    /// The asynchronous desktop-portal protocol.
    Portal,
    /// A blocking region-selection utility run as a subprocess.
    Subprocess,
}

/// Picks the capture strategy from the desktop environment's name: a desktop
/// naming the subprocess tool's environment takes the subprocess path,
/// everything else the portal.
pub fn choose_strategy(desktop: &str) -> (r: CaptureStrategy)
    ensures
        r == (if contains_sub(upper_view(desktop@), "KDE"@) {
            CaptureStrategy::Subprocess
        } else {
            CaptureStrategy::Portal
        }),
{
    let up = to_ascii_upper(desktop);
    if str_contains_str(up.as_str(), "KDE") {
        CaptureStrategy::Subprocess
    } else {
        CaptureStrategy::Portal
    }
}

} // verus!
