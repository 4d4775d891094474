//! The game peer's state: its identity in the room, its connection status, and
//! the queues of game packets going in and out.

use crate::client::events::{RelayEvent, RoomInfo};
use crate::protocol::Channel;
use vstd::prelude::*;

verus! {

/// How the game wants packets delivered.
#[derive(Clone, Copy, Debug, PartialEq, Eq, Structural)]
pub enum TransferMode {
    Unreliable,
    UnreliableOrdered,
    Reliable,
}

/// The peer's connection status as the game sees it.
#[derive(Clone, Copy, Debug, PartialEq, Eq, Structural)]
pub enum ConnectionStatus {
    Disconnected,
    Connecting,
    Connected,
}

/// The game peer id of the room's host.
pub const SERVER_PEER_ID: i32 = 1;

/// The largest packet the peer accepts.
pub const MAX_PACKET_SIZE: i32 = 16777216;

/// A game packet received from a peer.
#[derive(Debug)]
pub struct GamePacket {
    pub from_peer: i32,
    pub data: Vec<u8>,
    pub transfer_mode: TransferMode,
}

/// Abstract content of a received game packet.
pub struct GamePacketView {
    pub from_peer: i32,
    pub data: Seq<u8>,
    pub transfer_mode: TransferMode,
}

impl View for GamePacket {
    type V = GamePacketView;

    open spec fn view(&self) -> GamePacketView {
        GamePacketView { from_peer: self.from_peer, data: self.data@, transfer_mode: self.transfer_mode }
    }
}

/// A game packet waiting to be sent.
#[derive(Debug)]
pub struct OutgoingPacket {
    pub target_peer: i32,
    pub data: Vec<u8>,
    pub channel: Channel,
}

/// Abstract content of a packet waiting to be sent.
pub struct OutgoingPacketView {
    pub target_peer: i32,
    pub data: Seq<u8>,
    pub channel: Channel,
}

impl View for OutgoingPacket {
    type V = OutgoingPacketView;

    open spec fn view(&self) -> OutgoingPacketView {
        OutgoingPacketView { target_peer: self.target_peer, data: self.data@, channel: self.channel }
    }
}

/// What the game peer must do in response to a relay event.
#[derive(Debug)]
pub enum PeerAction {
    /// Ask the relay to authenticate the application.
    RequestAuth { app_id: String },
    /// Signal that the relay authenticated the application.
    EmitAuthenticated,
    /// Signal the relay's room list.
    EmitRoomsReceived { rooms: Vec<RoomInfo> },
    /// Signal that a game peer connected.
    EmitPeerConnected { peer_id: i64 },
    /// Signal that this peer entered a room.
    EmitRoomConnected,
    /// Decide on a join request and answer the relay for the room, as
    /// `WebNodeTunnelPeer::answer_join` says.
    DecideJoin { room_id: String, client_id: u64, metadata: String },
    /// Signal that a game peer disconnected.
    EmitPeerDisconnected { peer_id: i64 },
    /// Release the helper node the WebRTC signals are delivered to.
    ReleaseSignalNode,
    /// Signal that the relay dropped this peer.
    EmitForcedDisconnect,
    /// Signal a relay error.
    EmitError { message: String },
}

/// Abstract content of a peer action.
pub enum PeerActionView {
    RequestAuth { app_id: Seq<char> },
    EmitAuthenticated,
    EmitRoomsReceived { rooms: Seq<(Seq<char>, Seq<char>)> },
    EmitPeerConnected { peer_id: i64 },
    EmitRoomConnected,
    DecideJoin { room_id: Seq<char>, client_id: u64, metadata: Seq<char> },
    EmitPeerDisconnected { peer_id: i64 },
    ReleaseSignalNode,
    EmitForcedDisconnect,
    EmitError { message: Seq<char> },
}

/// Abstract content of a room list.
pub open spec fn room_infos(rooms: Seq<RoomInfo>) -> Seq<(Seq<char>, Seq<char>)> {
    rooms.map_values(|r: RoomInfo| (r.id@, r.metadata@))
}

impl View for PeerAction {
    type V = PeerActionView;

    open spec fn view(&self) -> PeerActionView {
        match self {
            PeerAction::RequestAuth { app_id } => PeerActionView::RequestAuth { app_id: app_id@ },
            PeerAction::EmitAuthenticated => PeerActionView::EmitAuthenticated,
            PeerAction::EmitRoomsReceived { rooms } => PeerActionView::EmitRoomsReceived { rooms: room_infos(rooms@) },
            PeerAction::EmitPeerConnected { peer_id } => PeerActionView::EmitPeerConnected { peer_id: *peer_id },
            PeerAction::EmitRoomConnected => PeerActionView::EmitRoomConnected,
            PeerAction::DecideJoin { room_id, client_id, metadata } => PeerActionView::DecideJoin {
                room_id: room_id@,
                client_id: *client_id,
                metadata: metadata@,
            },
            PeerAction::EmitPeerDisconnected { peer_id } => PeerActionView::EmitPeerDisconnected {
                peer_id: *peer_id,
            },
            PeerAction::ReleaseSignalNode => PeerActionView::ReleaseSignalNode,
            PeerAction::EmitForcedDisconnect => PeerActionView::EmitForcedDisconnect,
            PeerAction::EmitError { message } => PeerActionView::EmitError { message: message@ },
        }
    }
}

/// Abstract content of a list of peer actions.
pub open spec fn action_views(s: Seq<PeerAction>) -> Seq<PeerActionView> {
    s.map_values(|a: PeerAction| a@)
}

/// The transfer mode a packet received on a channel is reported with.
pub open spec fn mode_of_channel(channel: Channel) -> TransferMode {
    match channel {
        Channel::Reliable => TransferMode::Reliable,
        Channel::Unreliable => TransferMode::Unreliable,
    }
}

/// The channel a packet sent in a transfer mode goes over: reliable only for
/// the reliable mode.
pub open spec fn channel_of_mode(mode: TransferMode) -> Channel {
    match mode {
        TransferMode::Reliable => Channel::Reliable,
        _ => Channel::Unreliable,
    }
}

/// How asking to connect to the relay ended.
#[derive(Clone, Copy, Debug, PartialEq, Eq, Structural)]
pub enum ConnectOutcome {
    /// The transport exists; the peer is connecting.
    Started,
    /// The transport could not be created.
    CantCreate,
}

/// The host's answer to a join request, to be sent to the relay.
#[derive(Debug)]
pub struct JoinAnswer {
    pub room_id: String,
    pub client_id: u64,
    pub allowed: bool,
}

/// The game peer's state.
pub struct WebNodeTunnelPeer {
    app_id: String,
    unique_id: i32,
    room_id: String,
    connection_status: ConnectionStatus,
    target_peer: i32,
    transfer_mode: TransferMode,
    incoming_packets: Vec<GamePacket>,
    outgoing_queue: Vec<OutgoingPacket>,
}

/// Abstract state of the game peer.
pub struct PeerView {
    pub app_id: Seq<char>,
    pub unique_id: i32,
    pub room_id: Seq<char>,
    pub connection_status: ConnectionStatus,
    pub target_peer: i32,
    pub transfer_mode: TransferMode,
    pub incoming: Seq<GamePacketView>,
    pub outgoing: Seq<OutgoingPacketView>,
}

impl View for WebNodeTunnelPeer {
    type V = PeerView;

    closed spec fn view(&self) -> PeerView {
        PeerView {
            app_id: self.app_id@,
            unique_id: self.unique_id,
            room_id: self.room_id@,
            connection_status: self.connection_status,
            target_peer: self.target_peer,
            transfer_mode: self.transfer_mode,
            incoming: self.incoming_packets@.map_values(|p: GamePacket| p@),
            outgoing: self.outgoing_queue@.map_values(|p: OutgoingPacket| p@),
        }
    }
}

/// What a relay event does to the peer, given the peer before it and whether
/// the relay client still holds a transport.
pub open spec fn relay_event_effect(peer: PeerView, event: RelayEvent, relay_connected: bool) -> (
    PeerView,
    Seq<PeerActionView>,
) {
    match event {
        RelayEvent::ConnectedToServer => (peer, seq![PeerActionView::RequestAuth { app_id: peer.app_id }]),
        RelayEvent::Authenticated => (peer, seq![PeerActionView::EmitAuthenticated]),
        RelayEvent::RoomsReceived { rooms } => (
            peer,
            seq![PeerActionView::EmitRoomsReceived { rooms: room_infos(rooms@) }],
        ),
        RelayEvent::RoomJoined { room_id, peer_id } => {
            let joined = PeerView {
                connection_status: ConnectionStatus::Connected,
                unique_id: peer_id,
                room_id: room_id@,
                ..peer
            };
            if peer_id == SERVER_PEER_ID {
                (joined, seq![PeerActionView::EmitRoomConnected])
            } else {
                (
                    joined,
                    seq![
                        PeerActionView::EmitPeerConnected { peer_id: SERVER_PEER_ID as i64 },
                        PeerActionView::EmitRoomConnected,
                    ],
                )
            }
        },
        RelayEvent::PeerJoinAttempt { client_id, metadata } => {
            if peer.unique_id == SERVER_PEER_ID {
                (
                    peer,
                    seq![PeerActionView::DecideJoin { room_id: peer.room_id, client_id, metadata: metadata@ }],
                )
            } else {
                (peer, Seq::empty())
            }
        },
        RelayEvent::PeerJoinedRoom { peer_id } => {
            if peer.unique_id == SERVER_PEER_ID {
                (peer, seq![PeerActionView::EmitPeerConnected { peer_id: peer_id as i64 }])
            } else {
                (peer, Seq::empty())
            }
        },
        RelayEvent::PeerLeftRoom { peer_id } => (
            peer,
            seq![PeerActionView::EmitPeerDisconnected { peer_id: peer_id as i64 }],
        ),
        RelayEvent::GameDataReceived { channel, from_peer, data } => (
            PeerView {
                incoming: peer.incoming.push(
                    GamePacketView { from_peer, data: data@, transfer_mode: mode_of_channel(channel) },
                ),
                ..peer
            },
            Seq::empty(),
        ),
        RelayEvent::ForceDisconnect => {
            if peer.connection_status == ConnectionStatus::Connected {
                let (closed, released) = close_effect(peer, relay_connected);
                (
                    closed,
                    if released {
                        seq![PeerActionView::ReleaseSignalNode, PeerActionView::EmitForcedDisconnect]
                    } else {
                        seq![PeerActionView::EmitForcedDisconnect]
                    },
                )
            } else {
                (peer, Seq::empty())
            }
        },
        RelayEvent::Error { error_message, .. } => (peer, seq![PeerActionView::EmitError { message: error_message@ }]),
    }
}

/// What reading a packet does: the oldest received packet leaves the queue and
/// its data is handed out; with nothing received, empty data and no change.
pub open spec fn read_packet(peer: PeerView) -> (PeerView, Seq<u8>) {
    if peer.incoming.len() > 0 {
        (PeerView { incoming: peer.incoming.drop_first(), ..peer }, peer.incoming[0].data)
    } else {
        (peer, Seq::empty())
    }
}

/// What closing does: nothing while disconnected or without a relay transport;
/// otherwise the peer id is cleared, the peer is disconnected, and the signal
/// node is to be released (the flag).
pub open spec fn close_effect(peer: PeerView, relay_connected: bool) -> (PeerView, bool) {
    if peer.connection_status == ConnectionStatus::Disconnected || !relay_connected {
        (peer, false)
    } else {
        (PeerView { unique_id: 0, connection_status: ConnectionStatus::Disconnected, ..peer }, true)
    }
}

impl WebNodeTunnelPeer {
    /// A disconnected peer with no identity, no room and empty queues, sending
    /// unreliably to peer 0.
    pub fn new() -> (res: Self)
        ensures
            res@.app_id == Seq::<char>::empty(),
            res@.unique_id == 0,
            res@.room_id == Seq::<char>::empty(),
            res@.connection_status == ConnectionStatus::Disconnected,
            res@.target_peer == 0,
            res@.transfer_mode == TransferMode::Unreliable,
            res@.incoming == Seq::<GamePacketView>::empty(),
            res@.outgoing == Seq::<OutgoingPacketView>::empty(),
    {
        let res = WebNodeTunnelPeer {
            app_id: String::new(),
            unique_id: 0,
            room_id: String::new(),
            connection_status: ConnectionStatus::Disconnected,
            target_peer: 0,
            transfer_mode: TransferMode::Unreliable,
            incoming_packets: Vec::new(),
            outgoing_queue: Vec::new(),
        };
        assert(res@.incoming =~= Seq::<GamePacketView>::empty());
        assert(res@.outgoing =~= Seq::<OutgoingPacketView>::empty());
        res
    }

    /// Remembers the application the peer connects for.
    pub fn set_app_id(&mut self, app_id: String)
        ensures
            final(self)@ == (PeerView { app_id: app_id@, ..old(self)@ }),
    {
        self.app_id = app_id;
    }

    /// The transport to the relay exists: the peer is connecting.
    pub fn mark_connecting(&mut self)
        ensures
            final(self)@ == (PeerView { connection_status: ConnectionStatus::Connecting, ..old(self)@ }),
    {
        self.connection_status = ConnectionStatus::Connecting;
    }

    /// Connecting to the relay for an application: the application is
    /// remembered, and the peer is connecting when the transport to the relay
    /// was created (`created`); otherwise its status stays and the connection
    /// cannot be created.
    pub fn transport_created(&mut self, app_id: String, created: bool) -> (res: ConnectOutcome)
        ensures
            final(self)@.app_id == app_id@,
            created ==> final(self)@ == (PeerView {
                app_id: app_id@,
                connection_status: ConnectionStatus::Connecting,
                ..old(self)@
            }) && res == ConnectOutcome::Started,
            !created ==> final(self)@ == (PeerView { app_id: app_id@, ..old(self)@ }) && res
                == ConnectOutcome::CantCreate,
    {
        self.set_app_id(app_id);
        if created {
            self.mark_connecting();
            ConnectOutcome::Started
        } else {
            ConnectOutcome::CantCreate
        }
    }

    /// The answer to a join request for the peer's room: the game's validation
    /// decides when it has one (`validation` is its verdict), and the request
    /// is allowed when it has none.
    pub fn answer_join(&self, client_id: u64, validation: Option<bool>) -> (res: JoinAnswer)
        ensures
            res.room_id@ == self@.room_id,
            res.client_id == client_id,
            res.allowed == match validation {
                Some(verdict) => verdict,
                None => true,
            },
    {
        let allowed = match validation {
            Some(verdict) => verdict,
            None => true,
        };
        JoinAnswer { room_id: self.room_id.clone(), client_id, allowed }
    }

    /// The room the peer is in.
    pub fn room_id(&self) -> (res: &str)
        ensures
            res@ == self@.room_id,
    {
        self.room_id.as_str()
    }

    /// Number of received packets waiting to be read.
    pub fn get_available_packet_count(&self) -> (res: i32)
        ensures
            res == self@.incoming.len() as i32,
    {
        self.incoming_packets.len() as i32
    }

    /// The largest packet the peer accepts.
    pub fn get_max_packet_size(&self) -> (res: i32)
        ensures
            res == MAX_PACKET_SIZE,
    {
        MAX_PACKET_SIZE
    }

    /// Takes the oldest received packet's data; empty when there is none.
    pub fn get_packet_script(&mut self) -> (res: Vec<u8>)
        ensures
            (final(self)@, res@) == read_packet(old(self)@),
    {
        if self.incoming_packets.len() > 0 {
            let ghost before = self@;
            let packet = self.incoming_packets.remove(0);
            assert(self@.incoming =~= before.incoming.drop_first());
            packet.data
        } else {
            Vec::new()
        }
    }

    /// Queues data for the current target peer, over the channel of the current
    /// transfer mode.
    pub fn put_packet_script(&mut self, data: Vec<u8>)
        ensures
            final(self)@ == (PeerView {
                outgoing: old(self)@.outgoing.push(
                    OutgoingPacketView {
                        target_peer: old(self)@.target_peer,
                        data: data@,
                        channel: channel_of_mode(old(self)@.transfer_mode),
                    },
                ),
                ..old(self)@
            }),
    {
        let channel = match self.transfer_mode {
            TransferMode::Reliable => Channel::Reliable,
            _ => Channel::Unreliable,
        };
        let ghost before = self@;
        let ghost data_view = data@;
        self.outgoing_queue.push(OutgoingPacket { target_peer: self.target_peer, data, channel });
        assert(self@.outgoing =~= before.outgoing.push(
            OutgoingPacketView { target_peer: before.target_peer, data: data_view, channel },
        ));
    }

    /// The channel of the next packet: always 0.
    pub fn get_packet_channel(&self) -> (res: i32)
        ensures
            res == 0,
    {
        0
    }

    /// The transfer mode of the oldest received packet; unreliable when there is
    /// none.
    pub fn get_packet_mode(&self) -> (res: TransferMode)
        ensures
            res == (if self@.incoming.len() > 0 {
                self@.incoming[0].transfer_mode
            } else {
                TransferMode::Unreliable
            }),
    {
        if self.incoming_packets.len() > 0 {
            self.incoming_packets[0].transfer_mode
        } else {
            TransferMode::Unreliable
        }
    }

    /// Only channel 0 exists; returns whether the requested channel is it.
    pub fn set_transfer_channel(&mut self, p_channel: i32) -> (res: bool)
        ensures
            res == (p_channel == 0),
            final(self)@ == old(self)@,
    {
        p_channel == 0
    }

    /// The transfer channel: always 0.
    pub fn get_transfer_channel(&self) -> (res: i32)
        ensures
            res == 0,
    {
        0
    }

    /// Sets the transfer mode of packets put from now on.
    pub fn set_transfer_mode(&mut self, p_mode: TransferMode)
        ensures
            final(self)@ == (PeerView { transfer_mode: p_mode, ..old(self)@ }),
    {
        self.transfer_mode = p_mode;
    }

    /// The transfer mode of packets put from now on.
    pub fn get_transfer_mode(&self) -> (res: TransferMode)
        ensures
            res == self@.transfer_mode,
    {
        self.transfer_mode
    }

    /// Sets the peer that packets put from now on go to.
    pub fn set_target_peer(&mut self, p_peer: i32)
        ensures
            final(self)@ == (PeerView { target_peer: p_peer, ..old(self)@ }),
    {
        self.target_peer = p_peer;
    }

    /// The sender of the oldest received packet; 0 when there is none.
    pub fn get_packet_peer(&self) -> (res: i32)
        ensures
            res == (if self@.incoming.len() > 0 {
                self@.incoming[0].from_peer
            } else {
                0
            }),
    {
        if self.incoming_packets.len() > 0 {
            self.incoming_packets[0].from_peer
        } else {
            0
        }
    }

    /// Whether this peer hosts its room.
    pub fn is_server(&self) -> (res: bool)
        ensures
            res == (self@.unique_id == SERVER_PEER_ID),
    {
        self.unique_id == SERVER_PEER_ID
    }

    /// Hands out the packets waiting to be sent, oldest first, and empties the
    /// queue.
    pub fn take_outgoing(&mut self) -> (res: Vec<OutgoingPacket>)
        ensures
            res@.map_values(|p: OutgoingPacket| p@) == old(self)@.outgoing,
            final(self)@ == (PeerView { outgoing: Seq::empty(), ..old(self)@ }),
    {
        let mut out: Vec<OutgoingPacket> = Vec::new();
        std::mem::swap(&mut out, &mut self.outgoing_queue);
        assert(self@.outgoing =~= Seq::<OutgoingPacketView>::empty());
        out
    }

    /// Closes the connection; see `close_effect`. Returns whether the signal
    /// node is to be released.
    pub fn close(&mut self, relay_connected: bool) -> (res: bool)
        ensures
            (final(self)@, res) == close_effect(old(self)@, relay_connected),
    {
        if self.connection_status == ConnectionStatus::Disconnected || !relay_connected {
            return false;
        }
        self.unique_id = 0;
        self.connection_status = ConnectionStatus::Disconnected;
        true
    }

    /// The peer's id in the room; 0 when not in one.
    pub fn get_unique_id(&self) -> (res: i32)
        ensures
            res == self@.unique_id,
    {
        self.unique_id
    }

    /// Packets between peers are relayed.
    pub fn is_server_relay_supported(&self) -> (res: bool)
        ensures
            res,
    {
        true
    }

    /// The connection status.
    pub fn get_connection_status(&self) -> (res: ConnectionStatus)
        ensures
            res == self@.connection_status,
    {
        self.connection_status
    }

    /// Reacts to a relay event; see `relay_event_effect`.
    pub fn handle_relay_event(&mut self, event: RelayEvent, relay_connected: bool) -> (res: Vec<PeerAction>)
        ensures
            (final(self)@, action_views(res@)) == relay_event_effect(old(self)@, event, relay_connected),
    {
        let ghost ev = event;
        let mut actions: Vec<PeerAction> = Vec::new();
        match event {
            RelayEvent::ConnectedToServer => {
                actions.push(PeerAction::RequestAuth { app_id: self.app_id.clone() });
            },
            RelayEvent::Authenticated => {
                actions.push(PeerAction::EmitAuthenticated);
            },
            RelayEvent::RoomsReceived { rooms } => {
                actions.push(PeerAction::EmitRoomsReceived { rooms });
            },
            RelayEvent::RoomJoined { room_id, peer_id } => {
                self.connection_status = ConnectionStatus::Connected;
                self.unique_id = peer_id;
                self.room_id = room_id;
                if !self.is_server() {
                    actions.push(PeerAction::EmitPeerConnected { peer_id: SERVER_PEER_ID as i64 });
                }
                actions.push(PeerAction::EmitRoomConnected);
            },
            RelayEvent::PeerJoinAttempt { client_id, metadata } => {
                if self.is_server() {
                    actions.push(PeerAction::DecideJoin { room_id: self.room_id.clone(), client_id, metadata });
                }
            },
            RelayEvent::PeerJoinedRoom { peer_id } => {
                if self.is_server() {
                    actions.push(PeerAction::EmitPeerConnected { peer_id: peer_id as i64 });
                }
            },
            RelayEvent::PeerLeftRoom { peer_id } => {
                actions.push(PeerAction::EmitPeerDisconnected { peer_id: peer_id as i64 });
            },
            RelayEvent::GameDataReceived { channel, from_peer, data } => {
                let transfer_mode = match channel {
                    Channel::Reliable => TransferMode::Reliable,
                    Channel::Unreliable => TransferMode::Unreliable,
                };
                let ghost before = self@;
                let ghost data_view = data@;
                self.incoming_packets.push(GamePacket { from_peer, data, transfer_mode });
                assert(self@.incoming =~= before.incoming.push(
                    GamePacketView { from_peer, data: data_view, transfer_mode },
                ));
            },
            RelayEvent::ForceDisconnect => {
                if self.connection_status == ConnectionStatus::Connected {
                    if self.close(relay_connected) {
                        actions.push(PeerAction::ReleaseSignalNode);
                    }
                    actions.push(PeerAction::EmitForcedDisconnect);
                }
            },
            RelayEvent::Error { error_message, .. } => {
                actions.push(PeerAction::EmitError { message: error_message });
            },
        }
        assert(action_views(actions@) =~= relay_event_effect(old(self)@, ev, relay_connected).1);
        actions
    }
}

} // verus!
