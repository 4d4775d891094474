use nodetunnel::protocol::{Channel, PacketType};
use nodetunnel::server::apps::{Apps, Room};
use nodetunnel::server::clients::{ClientState, Clients};
use nodetunnel::server::disconnect::DisconnectHandler;
use nodetunnel::server::registry::{Outbound, Route, TransportRegistry};

fn targets_of(actions: &[Outbound]) -> Vec<(u64, String)> {
    actions
        .iter()
        .map(|a| match a {
            Outbound::Send { target, packet, .. } => (*target, format!("send {:?}", packet)),
            Outbound::Release { target, route } => (*target, format!("release {:?}", route)),
        })
        .collect()
}

#[test]
fn room_lists_host_first() {
    let mut room = Room::new(7, 10);
    assert!(room.add_peer(11, 2));
    assert!(!room.add_peer(11, 3));
    assert_eq!(room.get_clients(), vec![10, 11]);
    assert_eq!(room.get_host(), 10);
    assert_eq!(room.client_to_gd(10), Some(1));
    assert_eq!(room.client_to_gd(11), Some(2));
    assert_eq!(room.client_to_gd(12), None);
    room.remove_peer(11);
    assert_eq!(room.get_clients(), vec![10]);
}

#[test]
fn apps_reuse_tokens() {
    let mut apps = Apps::new();
    let a = apps.create("tok".to_string());
    let b = apps.create("other".to_string());
    assert_eq!(a, 1);
    assert_eq!(b, 2);
    assert_eq!(apps.get_by_token("tok").map(|x| x.id()), Some(1));
    assert_eq!(apps.get_by_token("other").map(|x| x.id()), Some(2));
    assert!(apps.get_by_token("none").is_none());
}

#[test]
fn host_disconnect_closes_room_and_kicks_peers() {
    let mut transport = TransportRegistry::new();
    let mut clients = Clients::new();
    let mut apps = Apps::new();
    let app_id = apps.create("tok".to_string());
    for id in [1u64, 2, 3] {
        clients.create(id);
    }
    transport.register_udp_client(1);
    transport.register_webrtc_client(2);
    let room_id = apps.create_room(app_id, 1).unwrap();
    assert!(apps.add_peer(app_id, room_id, 2, 5));
    assert!(apps.add_peer(app_id, room_id, 3, 6));
    for id in [1u64, 2, 3] {
        clients.set_state(id, ClientState::InRoom { app_id, room_id });
    }
    let mut handler = DisconnectHandler::new(transport, clients, apps);
    let actions = handler.handle_disconnect(1);
    let got = targets_of(&actions);
    assert_eq!(
        got,
        vec![
            (2, "send ForceDisconnect".to_string()),
            (2, "release WebRTC".to_string()),
            (3, "send ForceDisconnect".to_string()),
        ]
    );
    match &actions[0] {
        Outbound::Send { route, channel, .. } => {
            assert_eq!(*route, Route::WebRTC);
            assert_eq!(*channel, Channel::Reliable);
        }
        _ => panic!("expected a send"),
    }
    let (transport, clients, apps) = handler.into_parts();
    assert!(!clients.contains(1) && !clients.contains(2) && !clients.contains(3));
    assert!(!transport.is_client_registered(2));
    assert!(transport.is_client_registered(1));
    assert!(apps.get(app_id).unwrap().room(room_id).is_none());
}

#[test]
fn peer_disconnect_notifies_others() {
    let transport = TransportRegistry::new();
    let mut clients = Clients::new();
    let mut apps = Apps::new();
    let app_id = apps.create("tok".to_string());
    let room_id = apps.create_room(app_id, 1).unwrap();
    apps.add_peer(app_id, room_id, 2, 9);
    apps.add_peer(app_id, room_id, 3, 4);
    for id in [1u64, 2, 3] {
        clients.create(id);
        clients.set_state(id, ClientState::InRoom { app_id, room_id });
    }
    let mut handler = DisconnectHandler::new(transport, clients, apps);
    let actions = handler.handle_disconnect(2);
    assert_eq!(actions.len(), 2);
    for (a, expected) in actions.iter().zip([1u64, 3]) {
        match a {
            Outbound::Send { route, target, packet: PacketType::PeerLeftRoom { peer_id }, channel } => {
                assert_eq!(*target, expected);
                assert_eq!(*peer_id, 9);
                assert_eq!(*route, Route::Udp);
                assert_eq!(*channel, Channel::Reliable);
            }
            other => panic!("unexpected {:?}", other),
        }
    }
    let (_, clients, apps) = handler.into_parts();
    assert!(!clients.contains(2));
    assert!(clients.contains(1) && clients.contains(3));
    let room = apps.get(app_id).unwrap().room(room_id).unwrap();
    assert_eq!(room.get_clients(), vec![1, 3]);
}

#[test]
fn registry_lists_each_client_once() {
    let mut r = TransportRegistry::new();
    assert!(r.registered_clients().is_empty());
    r.register_udp_client(4);
    r.register_webrtc_client(2);
    r.register_udp_client(4);
    let mut ids = r.registered_clients();
    ids.sort();
    assert_eq!(ids, vec![2, 4]);
}
