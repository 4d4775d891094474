//! Decisions of the WebRTC signaling endpoint.

use vstd::prelude::*;

verus! {

/// A session description sent by a client: `sdp_type` must be "offer".
pub struct SignalingRequest {
    pub sdp_type: String,
    pub sdp: String,
}

/// The relay's answer to an offer.
pub struct SignalingResponse {
    pub sdp_type: String,
    pub sdp: String,
}

/// HTTP statuses the endpoint fails with.
#[derive(Clone, Copy, Debug, PartialEq, Eq, Structural)]
pub enum SignalingStatus {
    BadRequest,
    InternalServerError,
}

/// Steps of answering an offer that can fail.
#[derive(Clone, Copy, Debug, PartialEq, Eq, Structural)]
pub enum SignalingStep {
    RegisterCodecs,
    RegisterInterceptors,
    CreatePeerConnection,
    ParseOffer,
    SetRemoteDescription,
    CreateAnswer,
    SetLocalDescription,
}

/// States of a peer connection.
#[derive(Clone, Copy, Debug, PartialEq, Eq, Structural)]
pub enum PeerConnectionState {
    Unspecified,
    New,
    Connecting,
    Connected,
    Disconnected,
    Failed,
    Closed,
}

/// The numeric HTTP status.
pub fn status_code(status: SignalingStatus) -> (res: u16)
    ensures
        res == (match status {
            SignalingStatus::BadRequest => 400u16,
            SignalingStatus::InternalServerError => 500u16,
        }),
{
    match status {
        SignalingStatus::BadRequest => 400,
        SignalingStatus::InternalServerError => 500,
    }
}

/// Only offers are answered; anything else is a bad request.
pub fn check_offer(request: &SignalingRequest) -> (res: Result<(), SignalingStatus>)
    ensures
        res is Ok <==> request.sdp_type@ == "offer"@,
        res is Err ==> res == Err::<(), SignalingStatus>(SignalingStatus::BadRequest),
{
    let offer = "offer".to_owned();
    if request.sdp_type == offer {
        Ok(())
    } else {
        Err(SignalingStatus::BadRequest)
    }
}

/// The status a failed step is reported with: an offer that does not parse is
/// the client's fault, every other failure is the relay's.
pub fn failure_status(step: SignalingStep) -> (res: SignalingStatus)
    ensures
        res == (if step == SignalingStep::ParseOffer {
            SignalingStatus::BadRequest
        } else {
            SignalingStatus::InternalServerError
        }),
{
    match step {
        SignalingStep::ParseOffer => SignalingStatus::BadRequest,
        _ => SignalingStatus::InternalServerError,
    }
}

/// The answer sent back: the final local description when the connection has
/// one, the answer as first created otherwise.
pub fn answer_response(local_sdp: Option<String>, answer_sdp: String) -> (res: SignalingResponse)
    ensures
        res.sdp_type@ == "answer"@,
        res.sdp@ == (match local_sdp {
            Some(s) => s@,
            None => answer_sdp@,
        }),
{
    let sdp = match local_sdp {
        Some(s) => s,
        None => answer_sdp,
    };
    SignalingResponse { sdp_type: "answer".to_owned(), sdp }
}

/// Whether a peer connection is still worth watching: it is not once closed or
/// failed.
pub fn keeps_monitoring(state: PeerConnectionState) -> (res: bool)
    ensures
        res == !(state == PeerConnectionState::Closed || state == PeerConnectionState::Failed),
{
    match state {
        PeerConnectionState::Closed | PeerConnectionState::Failed => false,
        _ => true,
    }
}

} // verus!
