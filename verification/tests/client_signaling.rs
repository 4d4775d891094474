use nodetunnel::client::error::{RelayClientError, TransportError};
use nodetunnel::client::url::parse_url;
use nodetunnel::client::webrtc::{
    extract_sdp, get_string_field, peer_setup, HttpStatus, HttpStep, JsonField, SetupFailure, SignalingAction,
    SignalingEvent, SignalingState, WebRTCClientTransport,
};

fn started(url: &str) -> WebRTCClientTransport {
    WebRTCClientTransport::new(url.to_string(), Ok(())).unwrap()
}

/// Runs signaling up to waiting for the answer, with `body` as the request body.
fn offer_out(t: &mut WebRTCClientTransport, body: Vec<u8>) {
    t.set_pending_offer("offer".to_string(), "v=0".to_string());
    assert!(matches!(t.signaling_step(SignalingEvent::Poll), SignalingAction::SetLocalDescription { .. }));
    assert!(matches!(
        t.signaling_step(SignalingEvent::OfferApplied { body }),
        SignalingAction::ConnectToHost { .. }
    ));
    assert!(matches!(t.signaling_step(SignalingEvent::HostConnecting), SignalingAction::Nothing));
}

fn other_message(e: TransportError) -> String {
    match e {
        TransportError::Other(m) => m,
        other => panic!("unexpected error {:?}", other),
    }
}

#[test]
fn url_with_explicit_port_and_path() {
    let (host, port, path) = parse_url("http://relay.example.com:8080/signal").unwrap();
    assert_eq!(host, "relay.example.com");
    assert_eq!(port, 8080);
    assert_eq!(path, "/signal");
}

#[test]
fn url_default_ports_and_path() {
    let (host, port, path) = parse_url("https://relay.example.com").unwrap();
    assert_eq!((host.as_str(), port, path.as_str()), ("relay.example.com", 443, "/"));
    let (host, port, path) = parse_url("http://localhost/a/b").unwrap();
    assert_eq!((host.as_str(), port, path.as_str()), ("localhost", 80, "/a/b"));
}

#[test]
fn url_is_trimmed() {
    let (host, port, path) = parse_url("  \thttp://h:9000/x \n").unwrap();
    assert_eq!((host.as_str(), port, path.as_str()), ("h", 9000, "/x"));
}

#[test]
fn url_errors() {
    let e = parse_url("ftp://h/x").unwrap_err();
    assert_eq!(other_message(e), "URL must start with http:// or https://");
    let e = parse_url("http://h:port/x").unwrap_err();
    assert_eq!(other_message(e), "Invalid port number");
    let e = parse_url("http://h:/x").unwrap_err();
    assert_eq!(other_message(e), "Invalid port number");
    let e = parse_url("http://h:99999999999/x").unwrap_err();
    assert_eq!(other_message(e), "Invalid port number");
}

#[test]
fn url_signed_port_is_taken_as_parse_gives_it() {
    let (_, port, _) = parse_url("http://h:+81").unwrap();
    assert_eq!(port, 81);
    let (_, port, _) = parse_url("http://h:-1").unwrap();
    assert_eq!(port, -1);
}

#[test]
fn json_fields() {
    assert_eq!(get_string_field(JsonField::Text("x".to_string()), "sdp").unwrap(), "x");
    let e = get_string_field(JsonField::Missing, "sdp").unwrap_err();
    assert_eq!(other_message(e), "Missing 'sdp' in JSON");
    let e = get_string_field(JsonField::NotString, "type").unwrap_err();
    assert_eq!(other_message(e), "Failed to get 'type' from JSON");
}

#[test]
fn sdp_type_is_checked_first() {
    let d = extract_sdp(JsonField::Text("answer".to_string()), JsonField::Text("v=0".to_string())).unwrap();
    assert_eq!(d.type_, "answer");
    assert_eq!(d.sdp, "v=0");
    let e = extract_sdp(JsonField::Missing, JsonField::Missing).unwrap_err();
    assert_eq!(other_message(e), "Missing 'type' in JSON");
    let e = extract_sdp(JsonField::Text("answer".to_string()), JsonField::NotString).unwrap_err();
    assert_eq!(other_message(e), "Failed to get 'sdp' from JSON");
}

#[test]
fn signaling_runs_offer_then_answer() {
    let mut t = started("http://relay:8080/signal");
    assert_eq!(t.signaling_state(), SignalingState::WaitingForOffer);
    assert!(matches!(t.signaling_step(SignalingEvent::Poll), SignalingAction::Nothing));
    t.set_pending_offer("offer".to_string(), "v=0".to_string());
    match t.signaling_step(SignalingEvent::Poll) {
        SignalingAction::SetLocalDescription { type_, sdp } => assert_eq!((type_.as_str(), sdp.as_str()), ("offer", "v=0")),
        other => panic!("unexpected {:?}", other),
    }
    assert!(t.take_offer().is_none());
    // An HTTP response before the offer went out is ignored.
    assert!(matches!(t.on_http_response(500), Ok(false)));
    assert!(matches!(t.signaling_step(SignalingEvent::Response { code: 500 }), SignalingAction::Nothing));
    // The answer cannot complete signaling before the offer went out.
    t.signaling_step(SignalingEvent::AnswerApplied);
    assert_eq!(t.signaling_state(), SignalingState::WaitingForOffer);
    match t.signaling_step(SignalingEvent::OfferApplied { body: vec![1, 2, 3] }) {
        SignalingAction::ConnectToHost { host } => assert_eq!(host, "relay:8080"),
        other => panic!("unexpected {:?}", other),
    }
    assert_eq!(t.signaling_state(), SignalingState::WaitingForOffer);
    t.signaling_step(SignalingEvent::HostConnecting);
    assert_eq!(t.signaling_state(), SignalingState::WaitingForAnswer);
    assert_eq!(t.take_request_body(), Some(vec![1, 2, 3]));
    assert_eq!(t.take_request_body(), None);
    assert!(matches!(t.on_http_response(200), Ok(true)));
    assert!(matches!(t.signaling_step(SignalingEvent::Response { code: 200 }), SignalingAction::ApplyAnswer));
    t.signaling_step(SignalingEvent::AnswerApplied);
    assert_eq!(t.signaling_state(), SignalingState::Complete);
    assert!(matches!(t.on_http_response(200), Ok(false)));
    // Nothing moves signaling back.
    t.signaling_step(SignalingEvent::HostConnecting);
    assert_eq!(t.signaling_state(), SignalingState::Complete);
}

#[test]
fn offer_body_is_kept_when_the_url_is_bad() {
    let mut t = started("relay/signal");
    t.set_pending_offer("offer".to_string(), "v=0".to_string());
    t.signaling_step(SignalingEvent::Poll);
    match t.signaling_step(SignalingEvent::OfferApplied { body: vec![9] }) {
        SignalingAction::Fail { message } => assert_eq!(message, "URL must start with http:// or https://"),
        other => panic!("unexpected {:?}", other),
    }
    assert_eq!(t.signaling_state(), SignalingState::WaitingForOffer);
    assert_eq!(t.take_request_body(), Some(vec![9]));
}

#[test]
fn new_transport_reports_setup_failures() {
    let setup = peer_setup();
    assert_eq!(setup.ice_server_urls, vec!["stun:stun.l.google.com:19302".to_string()]);
    assert_eq!(setup.data_channel_label, "game");
    let t = started("http://relay/");
    assert!(!t.is_connected(true));
    assert_eq!(t.signaling_state(), SignalingState::WaitingForOffer);
    let e = WebRTCClientTransport::new("http://relay/".to_string(), Err(SetupFailure::Initialize { detail: "ERR_BUG".to_string() }));
    assert_eq!(other_message(e.err().unwrap()), "Failed to initialize WebRTC peer connection: ERR_BUG");
    let e = WebRTCClientTransport::new("http://relay/".to_string(), Err(SetupFailure::DataChannel));
    assert_eq!(other_message(e.err().unwrap()), "Failed to create data channel");
    let e = WebRTCClientTransport::new(
        "http://relay/".to_string(),
        Err(SetupFailure::ConnectSignal { detail: "X".to_string() }),
    );
    assert_eq!(other_message(e.err().unwrap()), "Failed to connect session_description_created signal: X");
    let e = WebRTCClientTransport::new("http://relay/".to_string(), Err(SetupFailure::CreateOffer { detail: "Y".to_string() }));
    assert_eq!(other_message(e.err().unwrap()), "Failed to create offer: Y");
}

#[test]
fn signaling_failure_reports_status() {
    let mut t = started("http://relay/signal");
    offer_out(&mut t, Vec::new());
    match t.signaling_step(SignalingEvent::Response { code: 404 }) {
        SignalingAction::Fail { message } => assert_eq!(message, "Signaling failed: 404"),
        other => panic!("unexpected {:?}", other),
    }
    let e = t.on_http_response(404).unwrap_err();
    assert_eq!(other_message(e), "Signaling failed: 404");
    let e = t.on_http_response(-3).unwrap_err();
    assert_eq!(other_message(e), "Signaling failed: -3");
}

#[test]
fn signaling_host_keeps_unusual_ports() {
    let t = started("http://relay:8080/signal");
    assert_eq!(t.signaling_host().unwrap(), "relay:8080");
    let t = started("https://relay/signal");
    assert_eq!(t.signaling_host().unwrap(), "relay");
    let t = started("http://relay:443/signal");
    assert_eq!(t.signaling_host().unwrap(), "relay");
    let t = started("relay");
    assert_eq!(other_message(t.signaling_host().unwrap_err()), "URL must start with http:// or https://");
    assert_eq!(t.signaling_url(), "relay");
}

#[test]
fn connection_needs_an_open_channel() {
    let mut t = started("http://relay/");
    assert!(!t.is_connected(true));
    t.update_connection_status(true, true);
    assert!(t.is_connected(true));
    assert!(!t.is_connected(false));
    t.update_connection_status(true, false);
    assert!(!t.is_connected(true));
    assert!(t.check_channel_ready(true).is_ok());
    assert_eq!(other_message(t.check_channel_ready(false).unwrap_err()), "Data channel is not ready");
}

#[test]
fn client_errors_convert() {
    let io = std::io::Error::new(std::io::ErrorKind::Other, "boom");
    assert!(matches!(TransportError::from(io), TransportError::IoError(_)));
    let e: RelayClientError = TransportError::other("x").into();
    match e {
        RelayClientError::TransportError(TransportError::Other(m)) => assert_eq!(m, "x"),
        other => panic!("unexpected {:?}", other),
    }
}

#[test]
fn http_exchange_posts_once_then_reads() {
    let mut t = started("http://relay/");
    assert!(matches!(t.http_step(HttpStatus::Connected), HttpStep::Wait));
    offer_out(&mut t, vec![7, 8]);
    assert!(matches!(t.http_step(HttpStatus::Connecting), HttpStep::Wait));
    assert!(matches!(t.http_step(HttpStatus::Resolving), HttpStep::Wait));
    match t.http_step(HttpStatus::Connected) {
        HttpStep::PostRequest { body } => assert_eq!(body, vec![7, 8]),
        other => panic!("unexpected {:?}", other),
    }
    assert!(matches!(t.http_step(HttpStatus::Connected), HttpStep::Wait));
    assert!(matches!(t.http_step(HttpStatus::Requesting), HttpStep::Wait));
    assert!(matches!(t.http_step(HttpStatus::Body), HttpStep::ReadBody));
    assert!(matches!(t.http_step(HttpStatus::CantConnect), HttpStep::Wait));
}

#[test]
fn port_numbers_at_the_edges() {
    assert_eq!(parse_url("http://h:2147483647").unwrap().1, 2147483647);
    assert_eq!(parse_url("http://h:-2147483648").unwrap().1, -2147483648);
    assert_eq!(parse_url("http://h:0008").unwrap().1, 8);
    for bad in ["http://h:2147483648", "http://h:-2147483649", "http://h:+", "http://h:-", "http://h:1a", "http://h: 1"] {
        assert_eq!(other_message(parse_url(bad).unwrap_err()), "Invalid port number", "{}", bad);
    }
}

#[test]
fn failure_codes_print_in_full() {
    let mut t = started("http://relay/");
    offer_out(&mut t, Vec::new());
    assert_eq!(other_message(t.on_http_response(i64::MIN).unwrap_err()), "Signaling failed: -9223372036854775808");
    assert_eq!(other_message(t.on_http_response(i64::MAX).unwrap_err()), "Signaling failed: 9223372036854775807");
    assert_eq!(other_message(t.on_http_response(0).unwrap_err()), "Signaling failed: 0");
    let t = started("http://relay:2147483647/");
    assert_eq!(t.signaling_host().unwrap(), "relay:2147483647");
    let t = started("http://relay:-5/");
    assert_eq!(t.signaling_host().unwrap(), "relay:-5");
}

#[test]
fn trimming_uses_unicode_white_space() {
    let (host, port, _) = parse_url("\u{3000}\u{a0} http://h:81/\u{2028}\u{85}").unwrap();
    assert_eq!((host.as_str(), port), ("h", 81));
    assert_eq!(other_message(parse_url("\u{200b}http://h/").unwrap_err()), "URL must start with http:// or https://");
}

#[test]
fn steps_advance_only_when_asked_for() {
    let mut t = started("http://relay/");
    // Neither step was asked for: nothing moves.
    t.signaling_step(SignalingEvent::HostConnecting);
    t.signaling_step(SignalingEvent::AnswerApplied);
    assert_eq!(t.signaling_state(), SignalingState::WaitingForOffer);
    assert!(matches!(t.signaling_step(SignalingEvent::OfferApplied { body: vec![1] }), SignalingAction::Nothing));
    assert_eq!(t.take_request_body(), None);
    offer_out(&mut t, vec![1]);
    assert_eq!(t.signaling_state(), SignalingState::WaitingForAnswer);
    // The answer is applied only after a 200 asked for it.
    t.signaling_step(SignalingEvent::AnswerApplied);
    assert_eq!(t.signaling_state(), SignalingState::WaitingForAnswer);
    assert!(matches!(t.signaling_step(SignalingEvent::Response { code: 500 }), SignalingAction::Fail { .. }));
    t.signaling_step(SignalingEvent::AnswerApplied);
    assert_eq!(t.signaling_state(), SignalingState::WaitingForAnswer);
    assert!(matches!(t.signaling_step(SignalingEvent::Response { code: 200 }), SignalingAction::ApplyAnswer));
    t.signaling_step(SignalingEvent::AnswerApplied);
    assert_eq!(t.signaling_state(), SignalingState::Complete);
}
