use nodetunnel::protocol::{Channel, PacketType};
use nodetunnel::server::apps::Apps;
use nodetunnel::server::auth::{
    app_allowed, authenticate_client, check_local_whitelist, is_version_allowed, remote_whitelist_configured,
    remote_whitelist_url, remote_whitelist_verdict, AuthHandler, AUTH_ERROR_CODE,
};
use nodetunnel::server::clients::{ClientState, Clients};
use nodetunnel::server::config::Config;
use nodetunnel::server::registry::{Outbound, Route, TransportRegistry};

fn config(versions: &[&str], whitelist: &[&str], endpoint: &str, token: &str) -> Config {
    Config {
        udp_bind_address: "0.0.0.0:8080".to_string(),
        http_bind_address: "0.0.0.0:8081".to_string(),
        allowed_versions: versions.iter().map(|s| s.to_string()).collect(),
        whitelist: whitelist.iter().map(|s| s.to_string()).collect(),
        remote_whitelist_endpoint: endpoint.to_string(),
        remote_whitelist_token: token.to_string(),
    }
}

#[test]
fn version_check() {
    let c = config(&["1.0", "1.1"], &[], "", "");
    assert!(is_version_allowed(&c, "1.1"));
    assert!(!is_version_allowed(&c, "2.0"));
    assert!(!is_version_allowed(&c, ""));
}

#[test]
fn local_whitelist_empty_admits_everything() {
    let c = config(&["1"], &[], "", "");
    assert!(check_local_whitelist(&c, "anything"));
    let c = config(&["1"], &["a", "b"], "", "");
    assert!(check_local_whitelist(&c, "b"));
    assert!(!check_local_whitelist(&c, "c"));
}

#[test]
fn remote_whitelist_needs_endpoint_and_token() {
    assert!(!remote_whitelist_configured(&config(&[], &[], "http://x", "")));
    assert!(!remote_whitelist_configured(&config(&[], &[], "", "t")));
    assert!(remote_whitelist_configured(&config(&[], &[], "http://x", "t")));
}

#[test]
fn remote_verdict_counts_only_when_configured() {
    let remote = config(&["1"], &["a"], "http://x", "t");
    assert!(app_allowed(&remote, "z", Some(true)));
    assert!(!app_allowed(&remote, "a", Some(false)));
    // a failed remote check falls back to the local whitelist
    assert!(app_allowed(&remote, "a", None));
    assert!(!app_allowed(&remote, "z", None));
    let local = config(&["1"], &["a"], "", "");
    assert!(!app_allowed(&local, "z", Some(true)));
    assert!(app_allowed(&local, "a", Some(false)));
}

#[test]
fn remote_status_verdicts() {
    assert_eq!(remote_whitelist_verdict(200), Some(true));
    assert_eq!(remote_whitelist_verdict(404), Some(false));
    assert_eq!(remote_whitelist_verdict(500), None);
    assert_eq!(remote_whitelist_verdict(201), None);
}

#[test]
fn remote_url_joins_endpoint_and_token() {
    assert_eq!(remote_whitelist_url("https://api.example/apps", "tok"), "https://api.example/apps/tok");
}

fn setup(ids: &[u64]) -> (TransportRegistry, Clients, Apps) {
    let mut t = TransportRegistry::new();
    let mut c = Clients::new();
    for id in ids {
        c.create(*id);
        t.register_webrtc_client(*id);
    }
    (t, c, Apps::new())
}

#[test]
fn refused_version_gets_error_then_disconnect() {
    let c = config(&["1.0"], &[], "", "");
    let (mut t, mut cl, mut apps) = setup(&[5]);
    let actions = authenticate_client(&mut t, &mut cl, &mut apps, &c, 5, "tok", "0.9", None);
    assert_eq!(actions.len(), 3);
    match &actions[0] {
        Outbound::Send { route, target, packet: PacketType::Error { error_code, error_message }, channel } => {
            assert_eq!(*route, Route::WebRTC);
            assert_eq!(*target, 5);
            assert_eq!(*error_code, AUTH_ERROR_CODE);
            assert_eq!(*error_code, 401);
            assert_eq!(error_message, "Version 0.9 is not allowed.");
            assert_eq!(*channel, Channel::Reliable);
        }
        other => panic!("unexpected {:?}", other),
    }
    assert!(matches!(actions[1], Outbound::Send { target: 5, packet: PacketType::ForceDisconnect, .. }));
    assert!(matches!(actions[2], Outbound::Release { route: Route::WebRTC, target: 5 }));
    assert!(!t.is_client_registered(5));
    assert_eq!(cl.get(5), Some(ClientState::Connected));
    assert!(apps.get_by_token("tok").is_none());
}

#[test]
fn refused_token_gets_error_then_disconnect() {
    let c = config(&["1.0"], &["good"], "", "");
    let (mut t, mut cl, mut apps) = setup(&[5]);
    let actions = authenticate_client(&mut t, &mut cl, &mut apps, &c, 5, "bad", "1.0", None);
    match &actions[0] {
        Outbound::Send { packet: PacketType::Error { error_message, .. }, .. } => {
            assert_eq!(error_message, "App token bad is not allowed.");
        }
        other => panic!("unexpected {:?}", other),
    }
    assert_eq!(actions.len(), 3);
}

#[test]
fn admitted_client_is_authenticated_and_told() {
    let c = config(&["1.0"], &[], "", "");
    let (mut t, mut cl, mut apps) = setup(&[5, 6]);
    let a1 = authenticate_client(&mut t, &mut cl, &mut apps, &c, 5, "tok", "1.0", None);
    assert_eq!(a1.len(), 1);
    assert!(matches!(a1[0], Outbound::Send { target: 5, packet: PacketType::ClientAuthenticated, channel: Channel::Reliable, .. }));
    assert_eq!(cl.get(5), Some(ClientState::Authenticated { app_id: 1 }));
    // same token, same application
    let a2 = authenticate_client(&mut t, &mut cl, &mut apps, &c, 6, "tok", "1.0", None);
    assert_eq!(a2.len(), 1);
    assert_eq!(cl.get(6), Some(ClientState::Authenticated { app_id: 1 }));
    assert_eq!(apps.next_app_id(), 2);
}

#[test]
fn missing_client_is_ignored() {
    let c = config(&["1.0"], &[], "", "");
    let (mut t, mut cl, mut apps) = setup(&[]);
    let actions = authenticate_client(&mut t, &mut cl, &mut apps, &c, 9, "tok", "1.0", None);
    assert!(actions.is_empty());
    assert!(apps.get_by_token("tok").is_none());
}

#[test]
fn auth_handler_owns_state() {
    let c = config(&["1.0"], &[], "", "");
    let (t, cl, apps) = setup(&[3]);
    let mut h = AuthHandler::new(t, cl, apps, &c);
    let actions = h.authenticate_client(3, "x", "1.0", None);
    assert_eq!(actions.len(), 1);
    let (_, clients, apps) = h.into_parts();
    assert_eq!(clients.get(3), Some(ClientState::Authenticated { app_id: 1 }));
    assert_eq!(apps.get(1).map(|a| a.id()), Some(1));
}
