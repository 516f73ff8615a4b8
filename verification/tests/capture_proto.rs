use ocr_translate::capture::{
    capture_step, choose_strategy, new_token, request_handle_path, sanitize_sender,
    subprocess_capture_result, temp_capture_file_name, uri_to_path, CaptureError, CaptureEvent,
    CaptureState, CaptureStrategy,
};

#[test]
fn happy_path_resolves_to_decoded_file_path() {
    let st = capture_step(CaptureState::AwaitingAck, CaptureEvent::AckReceived);
    assert!(matches!(st, CaptureState::AwaitingSignal));
    let st = capture_step(
        st,
        CaptureEvent::Signal { status: 0, uri: Some("file:///tmp/shot%20one.png".to_string()) },
    );
    match st {
        CaptureState::Resolved(p) => {
            assert_eq!(p, String::from("/tmp/shot one.png").into_bytes());
        },
        _ => panic!("expected a resolved capture"),
    }
}

#[test]
fn nonzero_status_is_a_cancellation_and_is_terminal() {
    let st = capture_step(
        CaptureState::AwaitingSignal,
        CaptureEvent::Signal { status: 1, uri: Some("file:///tmp/s.png".to_string()) },
    );
    assert!(matches!(st, CaptureState::Failed(CaptureError::Cancelled)));
    // The pipeline acts only on a resolved state, so nothing downstream of the
    // capture (no text extraction, no network call) can run after this; a
    // further event does not revive the attempt either.
    let st = capture_step(st, CaptureEvent::AckReceived);
    assert!(matches!(st, CaptureState::Failed(CaptureError::Cancelled)));
}

#[test]
fn missing_uri_is_a_protocol_error() {
    let st = capture_step(
        CaptureState::AwaitingSignal,
        CaptureEvent::Signal { status: 0, uri: None },
    );
    assert!(matches!(st, CaptureState::Failed(CaptureError::ProtocolError)));
}

#[test]
fn non_file_uri_is_a_protocol_error() {
    let st = capture_step(
        CaptureState::AwaitingSignal,
        CaptureEvent::Signal { status: 0, uri: Some("http://example.com/x.png".to_string()) },
    );
    assert!(matches!(st, CaptureState::Failed(CaptureError::ProtocolError)));
}

#[test]
fn transport_failure_fails_the_attempt() {
    let st = capture_step(CaptureState::AwaitingAck, CaptureEvent::TransportFailed);
    assert!(matches!(st, CaptureState::Failed(CaptureError::TransportError)));
}

#[test]
fn signal_before_acknowledgement_is_a_protocol_error() {
    let st = capture_step(
        CaptureState::AwaitingAck,
        CaptureEvent::Signal { status: 0, uri: None },
    );
    assert!(matches!(st, CaptureState::Failed(CaptureError::ProtocolError)));
}

#[test]
fn uri_decoding_strips_scheme_and_percent_escapes() {
    assert_eq!(
        uri_to_path("file:///tmp/a%20b.png").unwrap(),
        String::from("/tmp/a b.png").into_bytes()
    );
    assert_eq!(uri_to_path("ftp://x").unwrap_err(), CaptureError::ProtocolError);
    assert_eq!(uri_to_path("shrt").unwrap_err(), CaptureError::ProtocolError);
    // A stray percent sign without two hexadecimal digits passes through.
    assert_eq!(
        uri_to_path("file:///a%2x").unwrap(),
        String::from("/a%2x").into_bytes()
    );
}

#[test]
fn sender_is_sanitized_for_the_handle_address() {
    assert_eq!(sanitize_sender(":1.42"), "1_42");
    assert_eq!(sanitize_sender("::a.b.c"), "a_b_c");
    assert_eq!(
        request_handle_path(":1.42", "tok3n"),
        "/org/freedesktop/portal/desktop/request/1_42/tok3n"
    );
}

#[test]
fn tokens_are_ten_characters_from_the_alphabet() {
    let t = new_token();
    assert_eq!(t.chars().count(), 10);
    assert!(t.chars().all(|c| c.is_ascii_lowercase() || c.is_ascii_digit()));
}

#[test]
fn subprocess_outcome_maps_exit_status() {
    assert_eq!(
        subprocess_capture_result(true, "/tmp/c.png".to_string()),
        Ok("/tmp/c.png".to_string())
    );
    assert_eq!(
        subprocess_capture_result(false, "/tmp/c.png".to_string()),
        Err(CaptureError::Cancelled)
    );
}

#[test]
fn strategy_follows_the_desktop_name() {
    assert_eq!(choose_strategy("KDE"), CaptureStrategy::Subprocess);
    assert_eq!(choose_strategy("plasma kde"), CaptureStrategy::Subprocess);
    assert_eq!(choose_strategy("GNOME"), CaptureStrategy::Portal);
    assert_eq!(choose_strategy(""), CaptureStrategy::Portal);
}

#[test]
fn temp_file_name_embeds_the_token() {
    assert_eq!(temp_capture_file_name("abc123"), "capture_abc123.png");
}
