use nodetunnel::client::error::{RelayClientError, TransportError as ClientTransportError};
use nodetunnel::transport::error::TransportError;

fn io(msg: &str) -> std::io::Error {
    std::io::Error::new(std::io::ErrorKind::Other, msg.to_string())
}

#[test]
fn relay_transport_errors_describe_themselves() {
    assert_eq!(TransportError::BindError(io("busy")).describe(), "Failed to bind UDP socket: busy");
    assert_eq!(TransportError::SendError(io("x")).describe(), "Failed to send packet: x");
    assert_eq!(TransportError::RecvError(io("y")).describe(), "Failed to recv packet: y");
    assert_eq!(
        TransportError::NetcodeCreationFailed(io("z")).describe(),
        "Failed to create Netcode server udp: z"
    );
    assert_eq!(TransportError::IoError(io("w")).describe(), "IO error: w");
    assert_eq!(TransportError::other("plain").describe(), "plain");
    assert_eq!(TransportError::from("slice").describe(), "slice");
    assert_eq!(TransportError::from("owned".to_string()).message(), Some("owned"));
    assert_eq!(TransportError::IoError(io("w")).message(), None);
}

#[test]
fn relay_transport_errors_convert() {
    assert!(matches!(TransportError::from(io("a")), TransportError::IoError(_)));
    let clock = std::time::UNIX_EPOCH.duration_since(std::time::SystemTime::now()).unwrap_err();
    let e = TransportError::from(clock);
    assert!(matches!(e, TransportError::ClockError(_)));
    assert!(e.describe().starts_with("Clock may have gone backwards: "));
}

#[test]
fn client_errors_describe_themselves() {
    assert_eq!(ClientTransportError::IoError(io("gone")).describe(), "IO error: gone");
    assert_eq!(ClientTransportError::other("m").describe(), "m");
    assert_eq!(RelayClientError::TransportNotInitialized.describe(), "Transport not initialized");
    assert_eq!(RelayClientError::InvalidPacketType.describe(), "Invalid packet type");
    assert_eq!(RelayClientError::PacketParsingError.describe(), "Packet parsing error");
    assert_eq!(
        RelayClientError::from(ClientTransportError::other("Data channel is not ready")).describe(),
        "Transport error: Data channel is not ready"
    );
    assert_eq!(
        RelayClientError::from(ClientTransportError::IoError(io("eof"))).describe(),
        "Transport error: IO error: eof"
    );
}
