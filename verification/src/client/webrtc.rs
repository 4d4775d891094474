//! Signaling state of the client's WebRTC transport: the offer is created
//! locally, posted to the relay over HTTP, and the relay's answer completes the
//! connection.

use crate::client::error::TransportError;
use crate::client::url::{host_with_port_spec, parse_url, parse_url_spec, url_error_message};
use vstd::prelude::*;

verus! {

/// Where signaling stands.
#[derive(Clone, Copy, Debug, PartialEq, Eq, Structural)]
pub enum SignalingState {
    NotStarted,
    WaitingForOffer,
    WaitingForAnswer,
    Complete,
}

/// What the peer connection is set up with: the ICE servers it is initialised
/// with and the label of the data channel it opens.
pub struct PeerSetup {
    pub ice_server_urls: Vec<String>,
    pub data_channel_label: String,
}

/// The STUN server the peer connection is initialised with.
pub open spec fn stun_server_url() -> Seq<char> {
    "stun:stun.l.google.com:19302"@
}

/// The label of the data channel the client opens.
pub open spec fn data_channel_label() -> Seq<char> {
    "game"@
}

/// The setup of the client's peer connection: one ICE server, the STUN server,
/// and a data channel labelled "game".
pub fn peer_setup() -> (res: PeerSetup)
    ensures
        res.ice_server_urls@.len() == 1,
        res.ice_server_urls@[0]@ == stun_server_url(),
        res.data_channel_label@ == data_channel_label(),
{
    let mut urls: Vec<String> = Vec::new();
    urls.push("stun:stun.l.google.com:19302".to_owned());
    PeerSetup { ice_server_urls: urls, data_channel_label: "game".to_owned() }
}

/// The step of setting up the peer connection that failed, with the error the
/// WebRTC library reported for it, as text.
#[derive(Debug)]
pub enum SetupFailure {
    /// Initialising the peer connection with the ICE servers.
    Initialize { detail: String },
    /// Creating the data channel.
    DataChannel,
    /// Connecting the session-description signal to its handler.
    ConnectSignal { detail: String },
    /// Starting to create the offer.
    CreateOffer { detail: String },
}

/// The message a failed setup step is reported with.
pub open spec fn setup_failure_message(f: SetupFailure) -> Seq<char> {
    match f {
        SetupFailure::Initialize { detail } => "Failed to initialize WebRTC peer connection: "@ + detail@,
        SetupFailure::DataChannel => "Failed to create data channel"@,
        SetupFailure::ConnectSignal { detail } => "Failed to connect session_description_created signal: "@
            + detail@,
        SetupFailure::CreateOffer { detail } => "Failed to create offer: "@ + detail@,
    }
}

/// Appends text to a message.
fn with_detail(prefix: &str, detail: &String) -> (res: String)
    ensures
        res@ == prefix@ + detail@,
{
    let mut m = prefix.to_owned();
    m.append(detail.as_str());
    m
}

/// The status of the HTTP connection signaling goes over.
#[derive(Clone, Copy, Debug, PartialEq, Eq, Structural)]
pub enum HttpStatus {
    Disconnected,
    Resolving,
    CantResolve,
    Connecting,
    CantConnect,
    Connected,
    Requesting,
    Body,
    ConnectionError,
    TlsHandshakeError,
}

/// What to do with the HTTP connection next.
#[derive(Debug)]
pub enum HttpStep {
    /// Nothing to do yet.
    Wait,
    /// Post this body to the signaling URL.
    PostRequest { body: Vec<u8> },
    /// The response arrived: read its body and code, then close.
    ReadBody,
}

/// A session description: its type ("offer" or "answer") and its SDP text.
#[derive(Debug)]
pub struct SdpDescription {
    pub type_: String,
    pub sdp: String,
}

/// The decimal digit for a value below ten.
pub open spec fn digit_char(d: nat) -> char {
    if d == 0 { '0' } else if d == 1 { '1' } else if d == 2 { '2' } else if d == 3 { '3' } else if d
        == 4 { '4' } else if d == 5 { '5' } else if d == 6 { '6' } else if d == 7 { '7' } else if d
        == 8 { '8' } else { '9' }
}

/// Decimal digits of a natural number, without leading zeros.
pub open spec fn decimal_nat(n: nat) -> Seq<char>
    decreases n,
{
    if n < 10 {
        seq![digit_char(n)]
    } else {
        decimal_nat(n / 10).push(digit_char(n % 10))
    }
}

/// Decimal text of an integer, with a leading `-` when negative.
pub open spec fn decimal(n: int) -> Seq<char> {
    if n < 0 {
        seq!['-'] + decimal_nat((-n) as nat)
    } else {
        decimal_nat(n as nat)
    }
}

/// The text of one decimal digit.
fn digit_text(d: u64) -> (res: &'static str)
    requires
        d < 10,
    ensures
        res@ == seq![digit_char(d as nat)],
{
    proof {
        reveal_strlit("0");
        reveal_strlit("1");
        reveal_strlit("2");
        reveal_strlit("3");
        reveal_strlit("4");
        reveal_strlit("5");
        reveal_strlit("6");
        reveal_strlit("7");
        reveal_strlit("8");
        reveal_strlit("9");
    }
    if d == 0 {
        "0"
    } else if d == 1 {
        "1"
    } else if d == 2 {
        "2"
    } else if d == 3 {
        "3"
    } else if d == 4 {
        "4"
    } else if d == 5 {
        "5"
    } else if d == 6 {
        "6"
    } else if d == 7 {
        "7"
    } else if d == 8 {
        "8"
    } else {
        "9"
    }
}

/// Appends the decimal digits of `n`.
pub(crate) fn push_decimal(s: &mut String, n: u64)
    ensures
        final(s)@ == old(s)@ + decimal_nat(n as nat),
    decreases n,
{
    if n >= 10 {
        push_decimal(s, n / 10);
    }
    s.append(digit_text(n % 10));
    proof {
        if n >= 10 {
            assert(decimal_nat(n as nat) == decimal_nat((n / 10) as nat).push(digit_char((n % 10) as nat)));
        }
    }
    assert(s@ =~= old(s)@ + decimal_nat(n as nat));
}

/// Decimal text of an `i64`, as `ToString` writes it.
fn i64_to_string(n: i64) -> (res: String)
    ensures
        res@ == decimal(n as int),
{
    let mut s = String::new();
    if n < 0 {
        proof {
            reveal_strlit("-");
        }
        s.append("-");
        let m: u64 = (-(n + 1)) as u64 + 1;
        push_decimal(&mut s, m);
        assert(s@ =~= decimal(n as int));
    } else {
        push_decimal(&mut s, n as u64);
        assert(s@ =~= decimal(n as int));
    }
    s
}

/// Decimal text of an `i32`, as `ToString` writes it.
fn i32_to_string(n: i32) -> (res: String)
    ensures
        res@ == decimal(n as int),
{
    i64_to_string(n as i64)
}

/// A field looked up in a parsed JSON object.
#[derive(Debug)]
pub enum JsonField {
    /// The object has no such field.
    Missing,
    /// The field holds something other than a string.
    NotString,
    /// The field holds a string.
    Text(String),
}

/// The message for a missing field.
pub open spec fn missing_field_message(name: Seq<char>) -> Seq<char> {
    "Missing '"@ + name + "' in JSON"@
}

/// The message for a field that holds no string.
pub open spec fn bad_field_message(name: Seq<char>) -> Seq<char> {
    "Failed to get '"@ + name + "' from JSON"@
}

/// The string in a JSON field, or the error naming the field.
pub fn get_string_field(field: JsonField, field_name: &str) -> (res: Result<String, TransportError>)
    ensures
        match field {
            JsonField::Text(s) => res matches Ok(r) && r@ == s@,
            JsonField::Missing => res matches Err(TransportError::Other(m)) && m@ == missing_field_message(field_name@),
            JsonField::NotString => res matches Err(TransportError::Other(m)) && m@ == bad_field_message(
                field_name@,
            ),
        },
{
    match field {
        JsonField::Text(s) => Ok(s),
        JsonField::Missing => {
            let mut m = "Missing '".to_owned();
            m.append(field_name);
            m.append("' in JSON");
            Err(TransportError::Other(m))
        },
        JsonField::NotString => {
            let mut m = "Failed to get '".to_owned();
            m.append(field_name);
            m.append("' from JSON");
            Err(TransportError::Other(m))
        },
    }
}

/// The session description in an answer's "type" and "sdp" fields; the "type"
/// field is checked first.
pub fn extract_sdp(type_field: JsonField, sdp_field: JsonField) -> (res: Result<SdpDescription, TransportError>)
    ensures
        match (type_field, sdp_field) {
            (JsonField::Text(t), JsonField::Text(s)) => res matches Ok(d) && d.type_@ == t@ && d.sdp@ == s@,
            (JsonField::Missing, _) => res matches Err(TransportError::Other(m)) && m@ == missing_field_message(
                "type"@,
            ),
            (JsonField::NotString, _) => res matches Err(TransportError::Other(m)) && m@ == bad_field_message(
                "type"@,
            ),
            (JsonField::Text(_), JsonField::Missing) => res matches Err(TransportError::Other(m)) && m@
                == missing_field_message("sdp"@),
            (JsonField::Text(_), JsonField::NotString) => res matches Err(TransportError::Other(m)) && m@
                == bad_field_message("sdp"@),
        },
{
    let type_ = get_string_field(type_field, "type")?;
    let sdp = get_string_field(sdp_field, "sdp")?;
    Ok(SdpDescription { type_, sdp })
}

/// The message for a signaling request the relay did not answer with 200.
pub open spec fn signaling_failed_message(code: i64) -> Seq<char> {
    "Signaling failed: "@ + decimal(code as int)
}

/// Something that happened to the client's signaling.
#[derive(Debug)]
pub enum SignalingEvent {
    /// The transport is polled: a pending local offer is to be applied.
    Poll,
    /// The offer was set as the local description; `body` is the request body
    /// (the offer as JSON) to post to the relay.
    OfferApplied { body: Vec<u8> },
    /// The HTTP connection to the signaling host is being opened.
    HostConnecting,
    /// The relay's HTTP response arrived with this status code.
    Response { code: i64 },
    /// The relay's answer was set as the remote description.
    AnswerApplied,
}

/// Abstract content of a signaling event.
pub enum SignalingEventView {
    Poll,
    OfferApplied { body: Seq<u8> },
    HostConnecting,
    Response { code: i64 },
    AnswerApplied,
}

impl View for SignalingEvent {
    type V = SignalingEventView;

    open spec fn view(&self) -> SignalingEventView {
        match self {
            SignalingEvent::Poll => SignalingEventView::Poll,
            SignalingEvent::OfferApplied { body } => SignalingEventView::OfferApplied { body: body@ },
            SignalingEvent::HostConnecting => SignalingEventView::HostConnecting,
            SignalingEvent::Response { code } => SignalingEventView::Response { code: *code },
            SignalingEvent::AnswerApplied => SignalingEventView::AnswerApplied,
        }
    }
}

/// What the client must do next for signaling.
#[derive(Debug)]
pub enum SignalingAction {
    /// Nothing.
    Nothing,
    /// Set this offer as the local description.
    SetLocalDescription { type_: String, sdp: String },
    /// Open the HTTP connection to this host.
    ConnectToHost { host: String },
    /// Read the answer from the response body and set it as the remote
    /// description.
    ApplyAnswer,
    /// Signaling failed with this message.
    Fail { message: String },
}

/// Abstract content of a signaling action.
pub enum SignalingActionView {
    Nothing,
    SetLocalDescription { type_: Seq<char>, sdp: Seq<char> },
    ConnectToHost { host: Seq<char> },
    ApplyAnswer,
    Fail { message: Seq<char> },
}

impl View for SignalingAction {
    type V = SignalingActionView;

    open spec fn view(&self) -> SignalingActionView {
        match self {
            SignalingAction::Nothing => SignalingActionView::Nothing,
            SignalingAction::SetLocalDescription { type_, sdp } => SignalingActionView::SetLocalDescription {
                type_: type_@,
                sdp: sdp@,
            },
            SignalingAction::ConnectToHost { host } => SignalingActionView::ConnectToHost { host: host@ },
            SignalingAction::ApplyAnswer => SignalingActionView::ApplyAnswer,
            SignalingAction::Fail { message } => SignalingActionView::Fail { message: message@ },
        }
    }
}

/// The step of signaling that was asked for and has not been reported done.
#[derive(Clone, Copy, Debug, PartialEq, Eq, Structural)]
pub enum OutstandingStep {
    /// No step is outstanding.
    Nothing,
    /// The offer is to be set as the local description.
    LocalDescription,
    /// The HTTP connection to the signaling host is to be opened.
    HostConnection,
    /// The relay's answer is to be set as the remote description.
    RemoteDescription,
}

/// What a signaling event does. Each step advances signaling only when it was
/// the step asked for. While waiting for the offer, a poll takes the pending
/// offer and asks for it to be set as the local description; once that is
/// done, its request body is kept and the signaling host is to be connected to
/// (a URL that does not parse fails signaling, with the body kept); once the
/// connection is being opened, signaling waits for the answer. While waiting
/// for the answer, a 200 response asks for the answer to be applied, any other
/// fails signaling; once the answer is applied, signaling is complete. Any
/// other event leaves everything as it is.
pub open spec fn signaling_step_spec(v: ClientSignalingView, e: SignalingEventView) -> (
    ClientSignalingView,
    SignalingActionView,
) {
    match e {
        SignalingEventView::Poll => {
            if v.signaling_state == SignalingState::WaitingForOffer && v.pending_offer is Some {
                let (t, s) = v.pending_offer->0;
                (
                    ClientSignalingView {
                        pending_offer: None,
                        outstanding: OutstandingStep::LocalDescription,
                        ..v
                    },
                    SignalingActionView::SetLocalDescription { type_: t, sdp: s },
                )
            } else {
                (v, SignalingActionView::Nothing)
            }
        },
        SignalingEventView::OfferApplied { body } => {
            if v.signaling_state == SignalingState::WaitingForOffer && v.outstanding
                == OutstandingStep::LocalDescription {
                match parse_url_spec(v.signaling_url) {
                    Ok((host, port, _)) => (
                        ClientSignalingView {
                            pending_http_request_body: Some(body),
                            outstanding: OutstandingStep::HostConnection,
                            ..v
                        },
                        SignalingActionView::ConnectToHost {
                            host: host_with_port_spec(host, port, decimal(port as int)),
                        },
                    ),
                    Err(err) => (
                        ClientSignalingView {
                            pending_http_request_body: Some(body),
                            outstanding: OutstandingStep::Nothing,
                            ..v
                        },
                        SignalingActionView::Fail { message: url_error_message(err) },
                    ),
                }
            } else {
                (v, SignalingActionView::Nothing)
            }
        },
        SignalingEventView::HostConnecting => {
            if v.signaling_state == SignalingState::WaitingForOffer && v.outstanding
                == OutstandingStep::HostConnection {
                (
                    ClientSignalingView {
                        signaling_state: SignalingState::WaitingForAnswer,
                        outstanding: OutstandingStep::Nothing,
                        ..v
                    },
                    SignalingActionView::Nothing,
                )
            } else {
                (v, SignalingActionView::Nothing)
            }
        },
        SignalingEventView::Response { code } => {
            if v.signaling_state == SignalingState::WaitingForAnswer {
                if code == 200 {
                    (
                        ClientSignalingView { outstanding: OutstandingStep::RemoteDescription, ..v },
                        SignalingActionView::ApplyAnswer,
                    )
                } else {
                    (v, SignalingActionView::Fail { message: signaling_failed_message(code) })
                }
            } else {
                (v, SignalingActionView::Nothing)
            }
        },
        SignalingEventView::AnswerApplied => {
            if v.signaling_state == SignalingState::WaitingForAnswer && v.outstanding
                == OutstandingStep::RemoteDescription {
                (
                    ClientSignalingView {
                        signaling_state: SignalingState::Complete,
                        outstanding: OutstandingStep::Nothing,
                        ..v
                    },
                    SignalingActionView::Nothing,
                )
            } else {
                (v, SignalingActionView::Nothing)
            }
        },
    }
}

/// The client's side of signaling with the relay, apart from the WebRTC and
/// HTTP objects that carry it out.
pub struct WebRTCClientTransport {
    pending_offer: Option<SdpDescription>,
    signaling_url: String,
    connected: bool,
    signaling_state: SignalingState,
    pending_http_request_body: Option<Vec<u8>>,
    outstanding: OutstandingStep,
}

/// Abstract state of the client's signaling.
pub struct ClientSignalingView {
    pub pending_offer: Option<(Seq<char>, Seq<char>)>,
    pub signaling_url: Seq<char>,
    pub connected: bool,
    pub signaling_state: SignalingState,
    pub pending_http_request_body: Option<Seq<u8>>,
    pub outstanding: OutstandingStep,
}

impl View for WebRTCClientTransport {
    type V = ClientSignalingView;

    closed spec fn view(&self) -> ClientSignalingView {
        ClientSignalingView {
            pending_offer: match self.pending_offer {
                Some(d) => Some((d.type_@, d.sdp@)),
                None => None,
            },
            signaling_url: self.signaling_url@,
            connected: self.connected,
            signaling_state: self.signaling_state,
            pending_http_request_body: match self.pending_http_request_body {
                Some(b) => Some(b@),
                None => None,
            },
            outstanding: self.outstanding,
        }
    }
}

impl WebRTCClientTransport {
    /// The transport to the relay at `signaling_url`, once its peer connection
    /// was set up as `peer_setup` says: `setup` is how that went. On success
    /// signaling has started (waiting for the local offer) and the transport is
    /// not connected yet; a failed step is reported with its message.
    pub fn new(signaling_url: String, setup: Result<(), SetupFailure>) -> (res: Result<Self, TransportError>)
        ensures
            match setup {
                Ok(()) => res matches Ok(t) && {
                    &&& t@.signaling_url == signaling_url@
                    &&& t@.signaling_state == SignalingState::WaitingForOffer
                    &&& t@.pending_offer is None
                    &&& t@.pending_http_request_body is None
                    &&& t@.outstanding == OutstandingStep::Nothing
                    &&& !t@.connected
                },
                Err(f) => res matches Err(TransportError::Other(m)) && m@ == setup_failure_message(f),
            },
    {
        match setup {
            Ok(()) => {
                let mut t = WebRTCClientTransport {
                    pending_offer: None,
                    signaling_url,
                    connected: false,
                    signaling_state: SignalingState::NotStarted,
                    pending_http_request_body: None,
                    outstanding: OutstandingStep::Nothing,
                };
                t.start_signaling();
                Ok(t)
            },
            Err(SetupFailure::Initialize { detail }) => Err(
                TransportError::Other(with_detail("Failed to initialize WebRTC peer connection: ", &detail)),
            ),
            Err(SetupFailure::DataChannel) => Err(TransportError::other("Failed to create data channel")),
            Err(SetupFailure::ConnectSignal { detail }) => Err(
                TransportError::Other(with_detail("Failed to connect session_description_created signal: ", &detail)),
            ),
            Err(SetupFailure::CreateOffer { detail }) => Err(
                TransportError::Other(with_detail("Failed to create offer: ", &detail)),
            ),
        }
    }

    /// The relay's signaling URL.
    pub fn signaling_url(&self) -> (res: &str)
        ensures
            res@ == self@.signaling_url,
    {
        self.signaling_url.as_str()
    }

    /// Where signaling stands.
    pub fn signaling_state(&self) -> (res: SignalingState)
        ensures
            res == self@.signaling_state,
    {
        self.signaling_state
    }

    /// Starts signaling: wait for the local offer, forgetting any pending one.
    fn start_signaling(&mut self)
        ensures
            final(self)@ == (ClientSignalingView {
                signaling_state: SignalingState::WaitingForOffer,
                pending_offer: None,
                ..old(self)@
            }),
    {
        self.signaling_state = SignalingState::WaitingForOffer;
        self.pending_offer = None;
    }

    /// Keeps the local offer the WebRTC connection produced.
    pub fn set_pending_offer(&mut self, type_: String, sdp: String)
        ensures
            final(self)@ == (ClientSignalingView { pending_offer: Some((type_@, sdp@)), ..old(self)@ }),
    {
        self.pending_offer = Some(SdpDescription { type_, sdp });
    }

    /// While waiting for the offer, hands out the pending offer (once); nothing
    /// otherwise.
    pub fn take_offer(&mut self) -> (res: Option<SdpDescription>)
        ensures
            old(self)@.signaling_state == SignalingState::WaitingForOffer ==> {
                &&& match old(self)@.pending_offer {
                    Some((t, s)) => res matches Some(d) && d.type_@ == t && d.sdp@ == s,
                    None => res is None,
                }
                &&& final(self)@ == (ClientSignalingView { pending_offer: None, ..old(self)@ })
            },
            old(self)@.signaling_state != SignalingState::WaitingForOffer ==> res is None && final(self)@
                == old(self)@,
    {
        if self.signaling_state == SignalingState::WaitingForOffer {
            self.pending_offer.take()
        } else {
            None
        }
    }

    /// The request body to post, handed out once, when the HTTP connection is
    /// up.
    pub fn take_request_body(&mut self) -> (res: Option<Vec<u8>>)
        ensures
            match old(self)@.pending_http_request_body {
                Some(b) => res matches Some(r) && r@ == b,
                None => res is None,
            },
            final(self)@ == (ClientSignalingView { pending_http_request_body: None, ..old(self)@ }),
    {
        self.pending_http_request_body.take()
    }

    /// Steps the HTTP exchange by its status: once connected, the pending
    /// request body is posted (once); once the response is there, its body is
    /// read; otherwise there is nothing to do.
    pub fn http_step(&mut self, status: HttpStatus) -> (res: HttpStep)
        ensures
            status == HttpStatus::Connected ==> {
                &&& match old(self)@.pending_http_request_body {
                    Some(b) => res matches HttpStep::PostRequest { body } && body@ == b,
                    None => res is Wait,
                }
                &&& final(self)@ == (ClientSignalingView { pending_http_request_body: None, ..old(self)@ })
            },
            status == HttpStatus::Body ==> res is ReadBody && final(self)@ == old(self)@,
            status != HttpStatus::Connected && status != HttpStatus::Body ==> res is Wait && final(self)@
                == old(self)@,
    {
        match status {
            HttpStatus::Connected => match self.take_request_body() {
                Some(body) => HttpStep::PostRequest { body },
                None => HttpStep::Wait,
            },
            HttpStatus::Body => HttpStep::ReadBody,
            _ => HttpStep::Wait,
        }
    }

    /// Reacts to the relay's HTTP response: while waiting for the answer, a 200
    /// means the body holds the answer to apply (`Ok(true)`), any other status
    /// fails signaling. At any other time the response is ignored (`Ok(false)`).
    pub fn on_http_response(&self, response_code: i64) -> (res: Result<bool, TransportError>)
        ensures
            self@.signaling_state != SignalingState::WaitingForAnswer ==> (res matches Ok(b) && !b),
            self@.signaling_state == SignalingState::WaitingForAnswer && response_code == 200 ==> (res matches Ok(
                b,
            ) && b),
            self@.signaling_state == SignalingState::WaitingForAnswer && response_code != 200 ==> (res matches Err(
                TransportError::Other(m),
            ) && m@ == signaling_failed_message(response_code)),
    {
        if self.signaling_state == SignalingState::WaitingForAnswer {
            if response_code == 200 {
                Ok(true)
            } else {
                let mut m = "Signaling failed: ".to_owned();
                let code = i64_to_string(response_code);
                m.append(code.as_str());
                Err(TransportError::Other(m))
            }
        } else {
            Ok(false)
        }
    }

    /// Reacts to a signaling event; see `signaling_step_spec`.
    pub fn signaling_step(&mut self, event: SignalingEvent) -> (res: SignalingAction)
        ensures
            (final(self)@, res@) == signaling_step_spec(old(self)@, event@),
    {
        match event {
            SignalingEvent::Poll => match self.take_offer() {
                Some(offer) => {
                    self.outstanding = OutstandingStep::LocalDescription;
                    SignalingAction::SetLocalDescription { type_: offer.type_, sdp: offer.sdp }
                },
                None => SignalingAction::Nothing,
            },
            SignalingEvent::OfferApplied { body } => {
                if self.signaling_state == SignalingState::WaitingForOffer && self.outstanding
                    == OutstandingStep::LocalDescription {
                    self.pending_http_request_body = Some(body);
                    match self.signaling_host() {
                        Ok(host) => {
                            self.outstanding = OutstandingStep::HostConnection;
                            SignalingAction::ConnectToHost { host }
                        },
                        Err(TransportError::Other(message)) => {
                            self.outstanding = OutstandingStep::Nothing;
                            SignalingAction::Fail { message }
                        },
                        Err(_) => SignalingAction::Nothing,
                    }
                } else {
                    SignalingAction::Nothing
                }
            },
            SignalingEvent::HostConnecting => {
                if self.signaling_state == SignalingState::WaitingForOffer && self.outstanding
                    == OutstandingStep::HostConnection {
                    self.signaling_state = SignalingState::WaitingForAnswer;
                    self.outstanding = OutstandingStep::Nothing;
                }
                SignalingAction::Nothing
            },
            SignalingEvent::Response { code } => match self.on_http_response(code) {
                Ok(true) => {
                    self.outstanding = OutstandingStep::RemoteDescription;
                    SignalingAction::ApplyAnswer
                },
                Ok(false) => SignalingAction::Nothing,
                Err(TransportError::Other(message)) => SignalingAction::Fail { message },
                Err(_) => SignalingAction::Nothing,
            },
            SignalingEvent::AnswerApplied => {
                if self.signaling_state == SignalingState::WaitingForAnswer && self.outstanding
                    == OutstandingStep::RemoteDescription {
                    self.signaling_state = SignalingState::Complete;
                    self.outstanding = OutstandingStep::Nothing;
                }
                SignalingAction::Nothing
            },
        }
    }

    /// The address to open the HTTP connection to: the signaling URL's host,
    /// with the port unless it is 80 or 443.
    pub fn signaling_host(&self) -> (res: Result<String, TransportError>)
        ensures
            match parse_url_spec(self@.signaling_url) {
                Ok((host, port, _)) => res matches Ok(h) && h@ == host_with_port_spec(host, port, decimal(port as int)),
                Err(e) => res matches Err(TransportError::Other(m)) && m@ == url_error_message(e),
            },
    {
        let (host, port, _path) = parse_url(self.signaling_url.as_str())?;
        if port == 80 || port == 443 {
            Ok(host)
        } else {
            let mut h = host;
            h.append(":");
            let p = i32_to_string(port);
            h.append(p.as_str());
            Ok(h)
        }
    }

    /// Records whether the connection is up: the peer connection is connected
    /// and the data channel is open.
    pub fn update_connection_status(&mut self, peer_connected: bool, channel_open: bool)
        ensures
            final(self)@ == (ClientSignalingView { connected: peer_connected && channel_open, ..old(self)@ }),
    {
        self.connected = peer_connected && channel_open;
    }

    /// Whether the transport can be used: it was last seen connected and the
    /// data channel is open.
    pub fn is_connected(&self, channel_open: bool) -> (res: bool)
        ensures
            res == (self@.connected && channel_open),
    {
        self.connected && channel_open
    }

    /// Sending needs an open data channel.
    pub fn check_channel_ready(&self, channel_open: bool) -> (res: Result<(), TransportError>)
        ensures
            channel_open ==> res is Ok,
            !channel_open ==> (res matches Err(TransportError::Other(m)) && m@ == "Data channel is not ready"@),
    {
        if channel_open {
            Ok(())
        } else {
            Err(TransportError::other("Data channel is not ready"))
        }
    }
}

} // verus!
