//! Events the client side reacts to.

use crate::protocol::Channel;
use vstd::prelude::*;

verus! {

/// Something a client transport received.
#[derive(Debug)]
pub enum ClientEvent {
    PacketReceived { data: Vec<u8>, channel: Channel },
}

/// A room as listed by the relay.
#[derive(Debug)]
pub struct RoomInfo {
    pub id: String,
    pub metadata: String,
}

/// Something the relay told the client.
#[derive(Debug)]
pub enum RelayEvent {
    /// The transport to the relay is up.
    ConnectedToServer,
    /// The relay accepted the client's application token.
    Authenticated,
    /// The relay's list of rooms.
    RoomsReceived { rooms: Vec<RoomInfo> },
    /// The client entered a room under a game peer id.
    RoomJoined { room_id: String, peer_id: i32 },
    /// A client asks to join the room this client hosts.
    PeerJoinAttempt { client_id: u64, metadata: String },
    /// A game peer entered the room.
    PeerJoinedRoom { peer_id: i32 },
    /// A game peer left the room.
    PeerLeftRoom { peer_id: i32 },
    /// Game data from a peer.
    GameDataReceived { channel: Channel, from_peer: i32, data: Vec<u8> },
    /// The relay dropped the client.
    ForceDisconnect,
    /// The relay reported an error.
    Error { error_code: u32, error_message: String },
}

} // verus!
