use nodetunnel::protocol::{Channel, PacketType};
use nodetunnel::server::clients::ClientState;
use nodetunnel::server::config::Config;
use nodetunnel::server::events::ServerEvent;
use nodetunnel::server::registry::{Outbound, Route};
use nodetunnel::server::relay::{Dispatch, RelayServer};

fn config(endpoint: &str, token: &str) -> Config {
    Config {
        udp_bind_address: "0.0.0.0:8080".to_string(),
        http_bind_address: "0.0.0.0:8081".to_string(),
        allowed_versions: vec!["1.0".to_string()],
        whitelist: vec![],
        remote_whitelist_endpoint: endpoint.to_string(),
        remote_whitelist_token: token.to_string(),
    }
}

fn packet(client_id: u64, p: PacketType) -> ServerEvent {
    ServerEvent::PacketReceived { client_id, data: p.to_bytes(), channel: Channel::Reliable }
}

fn done(d: Dispatch) -> Vec<Outbound> {
    match d {
        Dispatch::Done(actions) => actions,
        other => panic!("unexpected {:?}", other),
    }
}

#[test]
fn connection_registers_client_and_transport() {
    let mut s = RelayServer::new(config("", ""));
    assert!(done(s.handle_event(ServerEvent::ClientConnected { client_id: 4 }, true)).is_empty());
    assert!(done(s.handle_event(ServerEvent::ClientConnected { client_id: 5 }, false)).is_empty());
    assert_eq!(s.clients.get(4), Some(ClientState::Connected));
    assert_eq!(s.transport.route(4), Route::Udp);
    assert_eq!(s.transport.route(5), Route::WebRTC);
    assert!(s.transport.webrtc());
}

#[test]
fn authentication_then_room_requests_are_routed() {
    let mut s = RelayServer::new(config("", ""));
    s.handle_event(ServerEvent::ClientConnected { client_id: 1 }, false);
    let auth = PacketType::Authenticate { app_id: "game".to_string(), version: "1.0".to_string() };
    let actions = done(s.handle_event(packet(1, auth), false));
    assert!(matches!(actions[0], Outbound::Send { target: 1, packet: PacketType::ClientAuthenticated, route: Route::WebRTC, .. }));
    assert_eq!(s.clients.get(1), Some(ClientState::Authenticated { app_id: 1 }));

    let create = PacketType::CreateRoom { is_public: true, metadata: "m".to_string() };
    match s.handle_event(packet(1, create), false) {
        Dispatch::CreateRoom { client_id, app_id, is_public, metadata } => {
            assert_eq!((client_id, app_id, is_public, metadata.as_str()), (1, 1, true, "m"));
        }
        other => panic!("unexpected {:?}", other),
    }
    match s.handle_event(packet(1, PacketType::ReqRooms), false) {
        Dispatch::RoomList { client_id: 1, app_id: 1 } => {}
        other => panic!("unexpected {:?}", other),
    }
    match s.handle_event(packet(1, PacketType::ReqJoin { room_id: "3".to_string(), metadata: "x".to_string() }), false) {
        Dispatch::JoinRequest { client_id: 1, app_id: 1, room_id, metadata } => {
            assert_eq!(room_id, "3");
            assert_eq!(metadata, "x");
        }
        other => panic!("unexpected {:?}", other),
    }
    // game data is unexpected outside a room
    assert!(done(s.handle_event(packet(1, PacketType::GameData { from_peer: 1, data: vec![1] }), false)).is_empty());
}

#[test]
fn in_room_packets_are_routed() {
    let mut s = RelayServer::new(config("", ""));
    s.handle_event(ServerEvent::ClientConnected { client_id: 1 }, true);
    s.clients.set_state(1, ClientState::InRoom { app_id: 2, room_id: 9 });
    match s.handle_event(packet(1, PacketType::GameData { from_peer: 3, data: vec![7, 7] }), true) {
        Dispatch::GameData { client_id: 1, app_id: 2, room_id: 9, from_peer: 3, data, channel } => {
            assert_eq!(data, vec![7, 7]);
            assert_eq!(channel, Channel::Reliable);
        }
        other => panic!("unexpected {:?}", other),
    }
    match s.handle_event(packet(1, PacketType::JoinRes { room_id: "x".to_string(), target_id: 8, allowed: true }), true) {
        Dispatch::JoinResponse { app_id: 2, target_id: 8, room_id: 9, allowed: true } => {}
        other => panic!("unexpected {:?}", other),
    }
    match s.handle_event(packet(1, PacketType::UpdateRoom { room_id: "x".to_string(), metadata: "new".to_string() }), true) {
        Dispatch::UpdateRoom { client_id: 1, app_id: 2, room_id: 9, metadata } => assert_eq!(metadata, "new"),
        other => panic!("unexpected {:?}", other),
    }
    assert!(done(s.handle_event(packet(1, PacketType::ReqRooms), true)).is_empty());
}

#[test]
fn unknown_clients_and_garbage_are_dropped() {
    let mut s = RelayServer::new(config("", ""));
    assert!(done(s.handle_event(packet(42, PacketType::ReqRooms), true)).is_empty());
    s.handle_event(ServerEvent::ClientConnected { client_id: 1 }, true);
    let garbage = ServerEvent::PacketReceived { client_id: 1, data: vec![200, 1, 2], channel: Channel::Unreliable };
    assert!(done(s.handle_event(garbage, true)).is_empty());
    assert_eq!(s.clients.get(1), Some(ClientState::Connected));
    // only authentication is expected before authenticating
    assert!(done(s.handle_event(packet(1, PacketType::ReqRooms), true)).is_empty());
}

#[test]
fn remote_whitelist_is_asked_after_the_version_check() {
    let mut s = RelayServer::new(config("https://wl.example", "secret"));
    s.handle_event(ServerEvent::ClientConnected { client_id: 1 }, false);
    let bad = PacketType::Authenticate { app_id: "g".to_string(), version: "0.1".to_string() };
    let actions = done(s.handle_event(packet(1, bad), false));
    assert_eq!(actions.len(), 3);
    s.handle_event(ServerEvent::ClientConnected { client_id: 2 }, false);
    let good = PacketType::Authenticate { app_id: "g".to_string(), version: "1.0".to_string() };
    match s.handle_event(packet(2, good), false) {
        Dispatch::CheckRemoteWhitelist { client_id: 2, app_token, version } => {
            assert_eq!(app_token, "g");
            assert_eq!(version, "1.0");
        }
        other => panic!("unexpected {:?}", other),
    }
    let actions = s.finish_authentication(2, "g", "1.0", Some(false));
    match &actions[0] {
        Outbound::Send { packet: PacketType::Error { error_message, .. }, .. } => {
            assert_eq!(error_message, "App token g is not allowed.")
        }
        other => panic!("unexpected {:?}", other),
    }
    s.handle_event(ServerEvent::ClientConnected { client_id: 3 }, false);
    let actions = s.finish_authentication(3, "g", "1.0", Some(true));
    assert!(matches!(actions[0], Outbound::Send { packet: PacketType::ClientAuthenticated, .. }));
}

#[test]
fn disconnect_event_forgets_client() {
    let mut s = RelayServer::new(config("", ""));
    s.handle_event(ServerEvent::ClientConnected { client_id: 1 }, true);
    assert!(done(s.handle_event(ServerEvent::ClientDisconnected { client_id: 1 }, true)).is_empty());
    assert_eq!(s.clients.get(1), None);
    assert!(done(s.handle_event(ServerEvent::ClientDisconnected { client_id: 1 }, true)).is_empty());
}

#[test]
fn cleanup_drops_every_client_and_closes_rooms() {
    let mut s = RelayServer::new(config("", ""));
    for id in [1u64, 2, 3] {
        s.handle_event(ServerEvent::ClientConnected { client_id: id }, id != 2);
    }
    let app = s.apps.create("t".to_string());
    let room = s.apps.create_room(app, 1).unwrap();
    s.apps.add_peer(app, room, 2, 2);
    let actions = s.cleanup();
    let kinds: Vec<String> = actions
        .iter()
        .map(|a| match a {
            Outbound::Send { target, packet, .. } => format!("{} {:?}", target, packet),
            Outbound::Release { target, route } => format!("{} {:?}", target, route),
        })
        .collect();
    // each client gets the notice, then its release; the order of clients is the registry's
    let mut pairs: Vec<String> = kinds.chunks(2).map(|c| c.join(", ")).collect();
    pairs.sort();
    assert_eq!(
        pairs,
        vec!["1 ForceDisconnect, 1 Udp", "2 ForceDisconnect, 2 WebRTC", "3 ForceDisconnect, 3 Udp"]
    );
    assert!(s.apps.get(app).unwrap().room(room).is_none());
    for id in [1u64, 2, 3] {
        assert!(!s.transport.is_client_registered(id));
    }
    assert_eq!(s.clients.get(1), Some(ClientState::Connected));
}
