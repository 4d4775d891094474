//! Packets exchanged between relay clients and the relay server.

use vstd::prelude::*;

verus! {

/// Delivery guarantee requested for a packet.
#[derive(Clone, Copy, Debug, PartialEq, Eq, Structural)]
pub enum Channel {
    Reliable,
    Unreliable,
}

/// The channel type under the name the server uses for it.
pub type TransferChannel = Channel;

/// A protocol packet.
#[derive(Debug)]
pub enum PacketType {
    /// Client asks to be admitted for an application token.
    Authenticate { app_id: String, version: String },
    /// Server confirms authentication.
    ClientAuthenticated,
    /// Client asks to host a new room.
    CreateRoom { is_public: bool, metadata: String },
    /// Client asks to join a room.
    ReqJoin { room_id: String, metadata: String },
    /// Client asks for the list of rooms.
    ReqRooms,
    /// Host updates its room's metadata.
    UpdateRoom { room_id: String, metadata: String },
    /// Host answers a join request.
    JoinRes { room_id: String, target_id: u64, allowed: bool },
    /// Game payload relayed between room members.
    GameData { from_peer: i32, data: Vec<u8> },
    /// A member of the room left.
    PeerLeftRoom { peer_id: i32 },
    /// The server drops the client.
    ForceDisconnect,
    /// The server reports an error.
    Error { error_code: u32, error_message: String },
}

/// Abstract content of a packet: strings as characters, payloads as bytes.
pub enum PacketView {
    Authenticate { app_id: Seq<char>, version: Seq<char> },
    ClientAuthenticated,
    CreateRoom { is_public: bool, metadata: Seq<char> },
    ReqJoin { room_id: Seq<char>, metadata: Seq<char> },
    ReqRooms,
    UpdateRoom { room_id: Seq<char>, metadata: Seq<char> },
    JoinRes { room_id: Seq<char>, target_id: u64, allowed: bool },
    GameData { from_peer: i32, data: Seq<u8> },
    PeerLeftRoom { peer_id: i32 },
    ForceDisconnect,
    Error { error_code: u32, error_message: Seq<char> },
}

impl View for PacketType {
    type V = PacketView;

    open spec fn view(&self) -> PacketView {
        match self {
            PacketType::Authenticate { app_id, version } => PacketView::Authenticate {
                app_id: app_id@,
                version: version@,
            },
            PacketType::ClientAuthenticated => PacketView::ClientAuthenticated,
            PacketType::CreateRoom { is_public, metadata } => PacketView::CreateRoom {
                is_public: *is_public,
                metadata: metadata@,
            },
            PacketType::ReqJoin { room_id, metadata } => PacketView::ReqJoin {
                room_id: room_id@,
                metadata: metadata@,
            },
            PacketType::ReqRooms => PacketView::ReqRooms,
            PacketType::UpdateRoom { room_id, metadata } => PacketView::UpdateRoom {
                room_id: room_id@,
                metadata: metadata@,
            },
            PacketType::JoinRes { room_id, target_id, allowed } => PacketView::JoinRes {
                room_id: room_id@,
                target_id: *target_id,
                allowed: *allowed,
            },
            PacketType::GameData { from_peer, data } => PacketView::GameData {
                from_peer: *from_peer,
                data: data@,
            },
            PacketType::PeerLeftRoom { peer_id } => PacketView::PeerLeftRoom { peer_id: *peer_id },
            PacketType::ForceDisconnect => PacketView::ForceDisconnect,
            PacketType::Error { error_code, error_message } => PacketView::Error {
                error_code: *error_code,
                error_message: error_message@,
            },
        }
    }
}

} // verus!
