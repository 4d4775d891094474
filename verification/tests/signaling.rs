use nodetunnel::server::log_level::{get_log_level, level_from_lowercase, LogLevel};
use nodetunnel::server::signaling::{
    answer_response, check_offer, failure_status, keeps_monitoring, status_code, PeerConnectionState,
    SignalingRequest, SignalingStatus, SignalingStep,
};

#[test]
fn only_offers_are_answered() {
    let r = SignalingRequest { sdp_type: "offer".to_string(), sdp: "v=0".to_string() };
    assert!(check_offer(&r).is_ok());
    let r = SignalingRequest { sdp_type: "answer".to_string(), sdp: "v=0".to_string() };
    assert_eq!(check_offer(&r), Err(SignalingStatus::BadRequest));
    assert_eq!(status_code(SignalingStatus::BadRequest), 400);
    assert_eq!(status_code(SignalingStatus::InternalServerError), 500);
}

#[test]
fn failures_map_to_statuses() {
    assert_eq!(failure_status(SignalingStep::ParseOffer), SignalingStatus::BadRequest);
    for step in [
        SignalingStep::RegisterCodecs,
        SignalingStep::RegisterInterceptors,
        SignalingStep::CreatePeerConnection,
        SignalingStep::SetRemoteDescription,
        SignalingStep::CreateAnswer,
        SignalingStep::SetLocalDescription,
    ] {
        assert_eq!(failure_status(step), SignalingStatus::InternalServerError);
    }
}

#[test]
fn answer_prefers_final_description() {
    let r = answer_response(Some("final".to_string()), "first".to_string());
    assert_eq!(r.sdp_type, "answer");
    assert_eq!(r.sdp, "final");
    let r = answer_response(None, "first".to_string());
    assert_eq!(r.sdp, "first");
}

#[test]
fn monitoring_stops_when_closed_or_failed() {
    assert!(!keeps_monitoring(PeerConnectionState::Closed));
    assert!(!keeps_monitoring(PeerConnectionState::Failed));
    assert!(keeps_monitoring(PeerConnectionState::Connected));
    assert!(keeps_monitoring(PeerConnectionState::Disconnected));
}

#[test]
fn log_levels() {
    assert_eq!(get_log_level(None), (LogLevel::Debug, true));
    assert_eq!(get_log_level(Some("INFO")), (LogLevel::Info, true));
    assert_eq!(get_log_level(Some("Trace")), (LogLevel::Trace, true));
    assert_eq!(get_log_level(Some("warn")), (LogLevel::Warn, true));
    assert_eq!(get_log_level(Some("ERROR")), (LogLevel::Error, true));
    assert_eq!(get_log_level(Some("verbose")), (LogLevel::Debug, false));
    assert_eq!(level_from_lowercase("INFO"), (LogLevel::Debug, false));
}
