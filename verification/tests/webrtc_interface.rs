use nodetunnel::protocol::Channel;
use nodetunnel::server::events::ServerEvent;
use nodetunnel::server::webrtc_interface::{is_keepalive, refusal_error, SendErrorKind, SendRefusal, WebRTCInterface};

#[test]
fn ids_are_handed_out_in_order() {
    let mut w = WebRTCInterface::new();
    assert_eq!(w.next_client_id(), 1);
    assert!(matches!(w.register_data_channel(7), ServerEvent::ClientConnected { client_id: 1 }));
    assert!(matches!(w.register_data_channel(7), ServerEvent::ClientConnected { client_id: 2 }));
    assert_eq!(w.next_client_id(), 3);
    assert_eq!(w.channel_of(1), Some(7));
    assert_eq!(w.channel_of(3), None);
}

#[test]
fn keepalive_is_not_forwarded() {
    let mut w = WebRTCInterface::new();
    w.register_data_channel(0);
    assert!(is_keepalive(&vec![0xFF, 0xFF]));
    assert!(!is_keepalive(&vec![0xFF]));
    assert!(!is_keepalive(&vec![0xFF, 0xFF, 0xFF]));
    assert!(w.handle_data_channel_message(1, vec![0xFF, 0xFF]).is_none());
    match w.handle_data_channel_message(1, vec![0xFF, 0xFE]) {
        Some(ServerEvent::PacketReceived { client_id, data, channel }) => {
            assert_eq!(client_id, 1);
            assert_eq!(data, vec![0xFF, 0xFE]);
            assert_eq!(channel, Channel::Reliable);
        }
        other => panic!("unexpected {:?}", other),
    }
    assert!(w.handle_data_channel_message(2, vec![1]).is_none());
}

#[test]
fn unregister_takes_first_channel_with_the_id() {
    let mut w = WebRTCInterface::new();
    w.register_data_channel(5);
    w.register_data_channel(6);
    w.register_data_channel(5);
    assert!(matches!(w.unregister_data_channel(5), Some(ServerEvent::ClientDisconnected { client_id: 1 })));
    assert!(w.handle_data_channel_message(1, vec![1]).is_none());
    assert!(w.handle_data_channel_message(3, vec![1]).is_some());
    assert!(matches!(w.unregister_data_channel(5), Some(ServerEvent::ClientDisconnected { client_id: 3 })));
    assert!(w.unregister_data_channel(5).is_none());
    assert!(w.remove_client(2));
    assert!(!w.remove_client(2));
    assert!(w.handle_data_channel_message(2, vec![1]).is_none());
}

#[test]
fn sends_need_a_registered_open_channel() {
    let mut w = WebRTCInterface::new();
    assert_eq!(w.check_send(1, true), Err(SendRefusal::NoChannel));
    w.register_data_channel(9);
    assert_eq!(w.check_send(1, true), Ok(9));
    assert_eq!(w.check_send(1, false), Err(SendRefusal::NotOpen { dc_id: 9 }));
    assert!(w.remove_client(1));
    assert_eq!(w.check_send(1, true), Err(SendRefusal::NoChannel));
}

#[test]
fn refused_sends_are_reported() {
    let (kind, m) = refusal_error(SendRefusal::NoChannel, 18446744073709551615, "");
    assert_eq!(kind, SendErrorKind::NotFound);
    assert_eq!(m, "No data channel found for client 18446744073709551615");
    let (kind, m) = refusal_error(SendRefusal::NotOpen { dc_id: 0 }, 3, "Closing");
    assert_eq!(kind, SendErrorKind::NotConnected);
    assert_eq!(m, "Data channel 0 not open (state: Closing)");
}
