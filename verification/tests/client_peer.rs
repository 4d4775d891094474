use nodetunnel::client::events::{RelayEvent, RoomInfo};
use nodetunnel::client::peer::{
    ConnectOutcome, ConnectionStatus, PeerAction, TransferMode, WebNodeTunnelPeer, MAX_PACKET_SIZE,
};
use nodetunnel::protocol::Channel;

fn joined(peer_id: i32) -> WebNodeTunnelPeer {
    let mut p = WebNodeTunnelPeer::new();
    p.set_app_id("app".to_string());
    p.mark_connecting();
    let actions = p.handle_relay_event(RelayEvent::RoomJoined { room_id: "R1".to_string(), peer_id }, true);
    assert!(!actions.is_empty());
    p
}

#[test]
fn new_peer_is_disconnected_and_empty() {
    let p = WebNodeTunnelPeer::new();
    assert_eq!(p.get_connection_status(), ConnectionStatus::Disconnected);
    assert_eq!(p.get_unique_id(), 0);
    assert_eq!(p.get_available_packet_count(), 0);
    assert_eq!(p.get_packet_peer(), 0);
    assert_eq!(p.get_packet_mode(), TransferMode::Unreliable);
    assert_eq!(p.get_transfer_mode(), TransferMode::Unreliable);
    assert_eq!(p.get_max_packet_size(), MAX_PACKET_SIZE);
    assert_eq!(p.get_max_packet_size(), 16777216);
    assert!(p.is_server_relay_supported());
    assert!(!p.is_server());
}

#[test]
fn connected_to_server_requests_auth() {
    let mut p = WebNodeTunnelPeer::new();
    p.set_app_id("my-app".to_string());
    let a = p.handle_relay_event(RelayEvent::ConnectedToServer, true);
    assert_eq!(a.len(), 1);
    assert!(matches!(&a[0], PeerAction::RequestAuth { app_id } if app_id == "my-app"));
    let a = p.handle_relay_event(RelayEvent::Authenticated, true);
    assert!(matches!(a.as_slice(), [PeerAction::EmitAuthenticated]));
}

#[test]
fn rooms_are_passed_on() {
    let mut p = WebNodeTunnelPeer::new();
    let rooms = vec![RoomInfo { id: "A".to_string(), metadata: "m".to_string() }];
    let a = p.handle_relay_event(RelayEvent::RoomsReceived { rooms }, true);
    match a.as_slice() {
        [PeerAction::EmitRoomsReceived { rooms }] => {
            assert_eq!(rooms.len(), 1);
            assert_eq!(rooms[0].id, "A");
            assert_eq!(rooms[0].metadata, "m");
        },
        other => panic!("unexpected {:?}", other),
    }
}

#[test]
fn host_joins_its_room() {
    let mut p = WebNodeTunnelPeer::new();
    let a = p.handle_relay_event(RelayEvent::RoomJoined { room_id: "R1".to_string(), peer_id: 1 }, true);
    assert!(matches!(a.as_slice(), [PeerAction::EmitRoomConnected]));
    assert!(p.is_server());
    assert_eq!(p.get_connection_status(), ConnectionStatus::Connected);
    assert_eq!(p.room_id(), "R1");
}

#[test]
fn member_join_also_connects_the_host() {
    let mut p = WebNodeTunnelPeer::new();
    let a = p.handle_relay_event(RelayEvent::RoomJoined { room_id: "R1".to_string(), peer_id: 5 }, true);
    assert!(matches!(a.as_slice(), [PeerAction::EmitPeerConnected { peer_id: 1 }, PeerAction::EmitRoomConnected]));
    assert_eq!(p.get_unique_id(), 5);
    assert!(!p.is_server());
}

#[test]
fn only_the_host_decides_joins() {
    let mut host = joined(1);
    let a = host.handle_relay_event(RelayEvent::PeerJoinAttempt { client_id: 42, metadata: "hi".to_string() }, true);
    match a.as_slice() {
        [PeerAction::DecideJoin { room_id, client_id, metadata }] => {
            assert_eq!(room_id, "R1");
            assert_eq!(*client_id, 42);
            assert_eq!(metadata, "hi");
        },
        other => panic!("unexpected {:?}", other),
    }
    let a = host.handle_relay_event(RelayEvent::PeerJoinedRoom { peer_id: 3 }, true);
    assert!(matches!(a.as_slice(), [PeerAction::EmitPeerConnected { peer_id: 3 }]));

    let mut member = joined(2);
    assert!(member
        .handle_relay_event(RelayEvent::PeerJoinAttempt { client_id: 42, metadata: String::new() }, true)
        .is_empty());
    assert!(member.handle_relay_event(RelayEvent::PeerJoinedRoom { peer_id: 3 }, true).is_empty());
}

#[test]
fn peer_left_and_errors_are_signalled() {
    let mut p = joined(1);
    let a = p.handle_relay_event(RelayEvent::PeerLeftRoom { peer_id: 7 }, true);
    assert!(matches!(a.as_slice(), [PeerAction::EmitPeerDisconnected { peer_id: 7 }]));
    let a = p.handle_relay_event(RelayEvent::Error { error_code: 401, error_message: "nope".to_string() }, true);
    assert!(matches!(&a[..], [PeerAction::EmitError { message }] if message == "nope"));
}

#[test]
fn game_data_is_queued_in_order() {
    let mut p = joined(1);
    let a = p.handle_relay_event(
        RelayEvent::GameDataReceived { channel: Channel::Reliable, from_peer: 3, data: vec![1, 2] },
        true,
    );
    assert!(a.is_empty());
    p.handle_relay_event(RelayEvent::GameDataReceived { channel: Channel::Unreliable, from_peer: 4, data: vec![9] }, true);
    assert_eq!(p.get_available_packet_count(), 2);
    assert_eq!(p.get_packet_peer(), 3);
    assert_eq!(p.get_packet_mode(), TransferMode::Reliable);
    assert_eq!(p.get_packet_script(), vec![1, 2]);
    assert_eq!(p.get_packet_peer(), 4);
    assert_eq!(p.get_packet_mode(), TransferMode::Unreliable);
    assert_eq!(p.get_packet_script(), vec![9]);
    assert_eq!(p.get_available_packet_count(), 0);
    assert_eq!(p.get_packet_script(), Vec::<u8>::new());
}

#[test]
fn put_packets_follow_target_and_mode() {
    let mut p = joined(1);
    p.set_target_peer(5);
    p.put_packet_script(vec![1]);
    p.set_transfer_mode(TransferMode::Reliable);
    p.put_packet_script(vec![2]);
    p.set_transfer_mode(TransferMode::UnreliableOrdered);
    p.set_target_peer(6);
    p.put_packet_script(vec![3]);
    let out = p.take_outgoing();
    assert_eq!(out.len(), 3);
    assert_eq!((out[0].target_peer, out[0].data.clone(), out[0].channel), (5, vec![1], Channel::Unreliable));
    assert_eq!((out[1].target_peer, out[1].data.clone(), out[1].channel), (5, vec![2], Channel::Reliable));
    assert_eq!((out[2].target_peer, out[2].data.clone(), out[2].channel), (6, vec![3], Channel::Unreliable));
    assert!(p.take_outgoing().is_empty());
}

#[test]
fn only_channel_zero_exists() {
    let mut p = WebNodeTunnelPeer::new();
    assert!(p.set_transfer_channel(0));
    assert!(!p.set_transfer_channel(1));
    assert_eq!(p.get_transfer_channel(), 0);
    assert_eq!(p.get_packet_channel(), 0);
}

#[test]
fn close_disconnects_once() {
    let mut p = joined(2);
    assert!(!p.close(false));
    assert_eq!(p.get_connection_status(), ConnectionStatus::Connected);
    assert!(p.close(true));
    assert_eq!(p.get_connection_status(), ConnectionStatus::Disconnected);
    assert_eq!(p.get_unique_id(), 0);
    assert!(!p.close(true));
}

#[test]
fn forced_disconnect_closes_a_connected_peer() {
    let mut p = joined(2);
    let a = p.handle_relay_event(RelayEvent::ForceDisconnect, true);
    assert!(matches!(a.as_slice(), [PeerAction::ReleaseSignalNode, PeerAction::EmitForcedDisconnect]));
    assert_eq!(p.get_connection_status(), ConnectionStatus::Disconnected);
    assert!(p.handle_relay_event(RelayEvent::ForceDisconnect, true).is_empty());

    let mut q = joined(2);
    let a = q.handle_relay_event(RelayEvent::ForceDisconnect, false);
    assert!(matches!(a.as_slice(), [PeerAction::EmitForcedDisconnect]));
    assert_eq!(q.get_connection_status(), ConnectionStatus::Connected);
}

#[test]
fn connecting_needs_a_transport() {
    let mut p = WebNodeTunnelPeer::new();
    assert_eq!(p.transport_created("app".to_string(), false), ConnectOutcome::CantCreate);
    assert_eq!(p.get_connection_status(), ConnectionStatus::Disconnected);
    assert_eq!(p.transport_created("app".to_string(), true), ConnectOutcome::Started);
    assert_eq!(p.get_connection_status(), ConnectionStatus::Connecting);
    let a = p.handle_relay_event(RelayEvent::ConnectedToServer, true);
    assert!(matches!(&a[0], PeerAction::RequestAuth { app_id } if app_id == "app"));
}

#[test]
fn joins_are_allowed_without_validation() {
    let host = joined(1);
    let answer = host.answer_join(42, None);
    assert_eq!((answer.room_id.as_str(), answer.client_id, answer.allowed), ("R1", 42, true));
    assert!(!host.answer_join(42, Some(false)).allowed);
    assert!(host.answer_join(7, Some(true)).allowed);
}
