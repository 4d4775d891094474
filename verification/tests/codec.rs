use nodetunnel::protocol::PacketType;

fn all_packets() -> Vec<PacketType> {
    vec![
        PacketType::Authenticate { app_id: "app".to_string(), version: "1.0".to_string() },
        PacketType::ClientAuthenticated,
        PacketType::CreateRoom { is_public: true, metadata: "{\"name\":\"é\"}".to_string() },
        PacketType::ReqJoin { room_id: "12".to_string(), metadata: String::new() },
        PacketType::ReqRooms,
        PacketType::UpdateRoom { room_id: "7".to_string(), metadata: "m".to_string() },
        PacketType::JoinRes { room_id: "7".to_string(), target_id: u64::MAX - 1, allowed: false },
        PacketType::GameData { from_peer: -5, data: vec![0, 255, 3] },
        PacketType::PeerLeftRoom { peer_id: 123456 },
        PacketType::ForceDisconnect,
        PacketType::Error { error_code: 401, error_message: "no".to_string() },
    ]
}

#[test]
fn every_packet_round_trips() {
    for p in all_packets() {
        assert!(p.fits());
        let bytes = p.to_bytes();
        let q = PacketType::from_bytes(&bytes).expect("decodes");
        assert_eq!(format!("{:?}", p), format!("{:?}", q));
        assert_eq!(q.to_bytes(), bytes);
    }
}

#[test]
fn exact_layouts() {
    let p = PacketType::Authenticate { app_id: "ab".to_string(), version: "1".to_string() };
    assert_eq!(p.to_bytes(), vec![0, 0, 0, 0, 2, b'a', b'b', 0, 0, 0, 1, b'1']);
    let p = PacketType::PeerLeftRoom { peer_id: -1 };
    assert_eq!(p.to_bytes(), vec![8, 255, 255, 255, 255]);
    let p = PacketType::JoinRes { room_id: String::new(), target_id: 258, allowed: true };
    assert_eq!(p.to_bytes(), vec![6, 0, 0, 0, 0, 0, 0, 0, 0, 0, 0, 1, 2, 1]);
    assert_eq!(PacketType::ForceDisconnect.to_bytes(), vec![9]);
    let p = PacketType::Error { error_code: 401, error_message: "x".to_string() };
    assert_eq!(p.to_bytes(), vec![10, 0, 0, 1, 145, 0, 0, 0, 1, b'x']);
}

#[test]
fn rejects_what_no_packet_encodes_to() {
    assert!(PacketType::from_bytes(&[]).is_err());
    assert!(PacketType::from_bytes(&[11]).is_err());
    assert!(PacketType::from_bytes(&[255]).is_err());
    // trailing byte
    assert!(PacketType::from_bytes(&[9, 0]).is_err());
    // truncated length prefix and payload
    assert!(PacketType::from_bytes(&[0, 0, 0]).is_err());
    assert!(PacketType::from_bytes(&[0, 0, 0, 0, 5, b'a']).is_err());
    // bool must be 0 or 1
    assert!(PacketType::from_bytes(&[2, 2, 0, 0, 0, 0]).is_err());
    // invalid UTF-8
    assert!(PacketType::from_bytes(&[5, 0, 0, 0, 1, 0xff, 0, 0, 0, 0]).is_err());
    // truncated integer
    assert!(PacketType::from_bytes(&[8, 0, 0, 1]).is_err());
}

#[test]
fn decodes_hand_written_bytes() {
    let p = PacketType::from_bytes(&[7, 0, 0, 0, 2, 0, 0, 0, 2, 9, 8]).unwrap();
    match p {
        PacketType::GameData { from_peer, data } => {
            assert_eq!(from_peer, 2);
            assert_eq!(data, vec![9, 8]);
        }
        other => panic!("unexpected {:?}", other),
    }
    let p = PacketType::from_bytes(&[3, 0, 0, 0, 2, 0xc3, 0xa9, 0, 0, 0, 0]).unwrap();
    match p {
        PacketType::ReqJoin { room_id, metadata } => {
            assert_eq!(room_id, "é");
            assert_eq!(metadata, "");
        }
        other => panic!("unexpected {:?}", other),
    }
}
