//! The relay: routes transport events and client packets by client state.

use crate::protocol::{Channel, PacketType, PacketView};
use crate::server::apps::{without_rooms, Apps, AppsView};
use crate::server::laws::lemma_kick_all_registry;
use crate::server::auth::{
    auth_effect, authenticate_client, is_version_allowed, remote_configured_spec,
    remote_whitelist_configured, version_allowed_spec,
};
use crate::server::clients::{ClientState, Clients};
use crate::server::config::Config;
use crate::server::events::{ServerEvent, ServerEventView};
use crate::codec::{decode, decode_spec};
use crate::server::disconnect::{disconnect_effect, handle_client_disconnect, kick_all, kick_targets};
use crate::server::registry::{outbound_views, ClientTransport, Outbound, OutboundView, TransportRegistry};
use vstd::prelude::*;

verus! {

/// What the relay decided about an event: either the work for the transports,
/// or a request that another part of the relay must carry out.
#[derive(Debug)]
pub enum Dispatch {
    /// Work for the transports; nothing else is pending.
    Done(Vec<Outbound>),
    /// The version passed; the remote endpoint must now be asked about the
    /// application token before authentication can finish.
    CheckRemoteWhitelist { client_id: u64, app_token: String, version: String },
    /// An authenticated client asks to host a room.
    CreateRoom { client_id: u64, app_id: u64, is_public: bool, metadata: String },
    /// An authenticated client asks to join a room.
    JoinRequest { client_id: u64, app_id: u64, room_id: String, metadata: String },
    /// An authenticated client asks for the room list.
    RoomList { client_id: u64, app_id: u64 },
    /// A client in a room updates the room's metadata.
    UpdateRoom { client_id: u64, app_id: u64, room_id: u64, metadata: String },
    /// A client in a room answers a join request.
    JoinResponse { app_id: u64, target_id: u64, room_id: u64, allowed: bool },
    /// A client in a room sends game data.
    GameData { client_id: u64, app_id: u64, room_id: u64, from_peer: i32, data: Vec<u8>, channel: Channel },
}

/// Abstract content of a dispatch.
pub enum DispatchView {
    Done(Seq<OutboundView>),
    CheckRemoteWhitelist { client_id: u64, app_token: Seq<char>, version: Seq<char> },
    CreateRoom { client_id: u64, app_id: u64, is_public: bool, metadata: Seq<char> },
    JoinRequest { client_id: u64, app_id: u64, room_id: Seq<char>, metadata: Seq<char> },
    RoomList { client_id: u64, app_id: u64 },
    UpdateRoom { client_id: u64, app_id: u64, room_id: u64, metadata: Seq<char> },
    JoinResponse { app_id: u64, target_id: u64, room_id: u64, allowed: bool },
    GameData { client_id: u64, app_id: u64, room_id: u64, from_peer: i32, data: Seq<u8>, channel: Channel },
}

impl View for Dispatch {
    type V = DispatchView;

    open spec fn view(&self) -> DispatchView {
        match self {
            Dispatch::Done(actions) => DispatchView::Done(outbound_views(actions@)),
            Dispatch::CheckRemoteWhitelist { client_id, app_token, version } => DispatchView::CheckRemoteWhitelist {
                client_id: *client_id,
                app_token: app_token@,
                version: version@,
            },
            Dispatch::CreateRoom { client_id, app_id, is_public, metadata } => DispatchView::CreateRoom {
                client_id: *client_id,
                app_id: *app_id,
                is_public: *is_public,
                metadata: metadata@,
            },
            Dispatch::JoinRequest { client_id, app_id, room_id, metadata } => DispatchView::JoinRequest {
                client_id: *client_id,
                app_id: *app_id,
                room_id: room_id@,
                metadata: metadata@,
            },
            Dispatch::RoomList { client_id, app_id } => DispatchView::RoomList {
                client_id: *client_id,
                app_id: *app_id,
            },
            Dispatch::UpdateRoom { client_id, app_id, room_id, metadata } => DispatchView::UpdateRoom {
                client_id: *client_id,
                app_id: *app_id,
                room_id: *room_id,
                metadata: metadata@,
            },
            Dispatch::JoinResponse { app_id, target_id, room_id, allowed } => DispatchView::JoinResponse {
                app_id: *app_id,
                target_id: *target_id,
                room_id: *room_id,
                allowed: *allowed,
            },
            Dispatch::GameData { client_id, app_id, room_id, from_peer, data, channel } => DispatchView::GameData {
                client_id: *client_id,
                app_id: *app_id,
                room_id: *room_id,
                from_peer: *from_peer,
                data: data@,
                channel: *channel,
            },
        }
    }
}

/// The request a packet makes, by the sender's state, for every packet other
/// than an authentication attempt of a client that has not authenticated yet.
/// Packets that the state does not expect are dropped (`Done` with no work).
pub open spec fn route_packet(state: ClientState, from: u64, packet: PacketView, channel: Channel) -> DispatchView {
    match state {
        ClientState::Connected => DispatchView::Done(Seq::empty()),
        ClientState::Authenticated { app_id } => match packet {
            PacketView::CreateRoom { is_public, metadata } => DispatchView::CreateRoom {
                client_id: from,
                app_id,
                is_public,
                metadata,
            },
            PacketView::ReqJoin { room_id, metadata } => DispatchView::JoinRequest {
                client_id: from,
                app_id,
                room_id,
                metadata,
            },
            PacketView::ReqRooms => DispatchView::RoomList { client_id: from, app_id },
            _ => DispatchView::Done(Seq::empty()),
        },
        ClientState::InRoom { app_id, room_id } => match packet {
            PacketView::UpdateRoom { metadata, .. } => DispatchView::UpdateRoom {
                client_id: from,
                app_id,
                room_id,
                metadata,
            },
            PacketView::JoinRes { target_id, allowed, .. } => DispatchView::JoinResponse {
                app_id,
                target_id,
                room_id,
                allowed,
            },
            PacketView::GameData { from_peer, data } => DispatchView::GameData {
                client_id: from,
                app_id,
                room_id,
                from_peer,
                data,
                channel,
            },
            _ => DispatchView::Done(Seq::empty()),
        },
    }
}

/// The relay state a step reads and changes, with what it decided.
pub struct RelayStep {
    pub dispatch: DispatchView,
    pub transports: Map<u64, ClientTransport>,
    pub clients: Map<u64, ClientState>,
    pub apps: AppsView,
}

/// What a packet (`None` when the bytes were not a packet) from a client does.
/// Packets from unknown clients and undecodable packets are dropped. An
/// authentication attempt from a client that has not authenticated is refused
/// at once for a version the settings do not admit; otherwise it is decided at
/// once when no remote endpoint is configured, and handed back as
/// `CheckRemoteWhitelist` when one is. Every other packet is routed by the
/// sender's state (`route_packet`).
pub open spec fn packet_step(
    reg: Map<u64, ClientTransport>,
    clients: Map<u64, ClientState>,
    apps: AppsView,
    config: &Config,
    from: u64,
    packet: Option<PacketView>,
    channel: Channel,
) -> RelayStep {
    let unchanged = |d: DispatchView| RelayStep { dispatch: d, transports: reg, clients, apps };
    if !clients.contains_key(from) || packet is None {
        unchanged(DispatchView::Done(Seq::empty()))
    } else {
        let p = packet->0;
        match (clients[from], p) {
            (ClientState::Connected, PacketView::Authenticate { app_id, version }) => {
                if version_allowed_spec(config, version) && remote_configured_spec(config) {
                    unchanged(DispatchView::CheckRemoteWhitelist { client_id: from, app_token: app_id, version })
                } else {
                    let e = auth_effect(reg, clients, apps, config, from, app_id, version, None);
                    RelayStep {
                        dispatch: DispatchView::Done(e.actions),
                        transports: e.transports,
                        clients: e.clients,
                        apps: e.apps,
                    }
                }
            },
            _ => unchanged(route_packet(clients[from], from, p, channel)),
        }
    }
}

/// The relay's state apart from its I/O: settings, applications and rooms,
/// clients, and the transport of each client.
pub struct RelayServer {
    pub transport: TransportRegistry,
    pub config: Config,
    pub apps: Apps,
    pub clients: Clients,
}

impl RelayServer {
    /// A relay with the given settings, no application and no client.
    pub fn new(config: Config) -> (res: Self)
        ensures
            res.transport@ == Map::<u64, crate::server::registry::ClientTransport>::empty(),
            res.clients@ == Map::<u64, ClientState>::empty(),
            res.apps@.apps.len() == 0,
            res.apps@.wf(),
            res.config == config,
    {
        RelayServer { transport: TransportRegistry::new(), config, apps: Apps::new(), clients: Clients::new() }
    }

    /// Handles a packet already decoded from a client's bytes (`None` when the
    /// bytes were not a packet); see `packet_step`.
    pub fn handle_decoded_packet(
        &mut self,
        from_client_id: u64,
        packet: Option<PacketType>,
        channel: Channel,
    ) -> (res: Dispatch)
        ensures
            final(self).config == old(self).config,
            old(self).apps@.wf() ==> final(self).apps@.wf(),
            ({
                let step = packet_step(
                    old(self).transport@,
                    old(self).clients@,
                    old(self).apps@,
                    &old(self).config,
                    from_client_id,
                    match packet {
                        Some(p) => Some(p@),
                        None => None,
                    },
                    channel,
                );
                &&& res@ == step.dispatch
                &&& final(self).transport@ == step.transports
                &&& final(self).clients@ == step.clients
                &&& final(self).apps@ == step.apps
            }),
    {
        let state = match self.clients.get(from_client_id) {
            Some(state) => state,
            None => {
                let v: Vec<Outbound> = Vec::new();
                assert(outbound_views(v@) =~= Seq::<OutboundView>::empty());
                return Dispatch::Done(v);
            },
        };
        let packet = match packet {
            Some(packet) => packet,
            None => {
                let v: Vec<Outbound> = Vec::new();
                assert(outbound_views(v@) =~= Seq::<OutboundView>::empty());
                return Dispatch::Done(v);
            },
        };
        let empty: Vec<Outbound> = Vec::new();
        assert(outbound_views(empty@) =~= Seq::<OutboundView>::empty());
        match state {
            ClientState::Connected => match packet {
                PacketType::Authenticate { app_id, version } => {
                    if is_version_allowed(&self.config, version.as_str()) && remote_whitelist_configured(
                        &self.config,
                    ) {
                        Dispatch::CheckRemoteWhitelist { client_id: from_client_id, app_token: app_id, version }
                    } else {
                        let actions = authenticate_client(
                            &mut self.transport,
                            &mut self.clients,
                            &mut self.apps,
                            &self.config,
                            from_client_id,
                            app_id.as_str(),
                            version.as_str(),
                            None,
                        );
                        Dispatch::Done(actions)
                    }
                },
                _ => Dispatch::Done(empty),
            },
            ClientState::Authenticated { app_id } => match packet {
                PacketType::CreateRoom { is_public, metadata } => Dispatch::CreateRoom {
                    client_id: from_client_id,
                    app_id,
                    is_public,
                    metadata,
                },
                PacketType::ReqJoin { room_id, metadata } => Dispatch::JoinRequest {
                    client_id: from_client_id,
                    app_id,
                    room_id,
                    metadata,
                },
                PacketType::ReqRooms => Dispatch::RoomList { client_id: from_client_id, app_id },
                _ => Dispatch::Done(empty),
            },
            ClientState::InRoom { app_id, room_id } => match packet {
                PacketType::UpdateRoom { metadata, .. } => Dispatch::UpdateRoom {
                    client_id: from_client_id,
                    app_id,
                    room_id,
                    metadata,
                },
                PacketType::JoinRes { target_id, allowed, .. } => Dispatch::JoinResponse {
                    app_id,
                    target_id,
                    room_id,
                    allowed,
                },
                PacketType::GameData { from_peer, data } => Dispatch::GameData {
                    client_id: from_client_id,
                    app_id,
                    room_id,
                    from_peer,
                    data,
                    channel,
                },
                _ => Dispatch::Done(empty),
            },
        }
    }

    /// Handles bytes received from a client: they are decoded (`decode_spec`)
    /// and the packet is handled as `packet_step` says.
    pub fn handle_packet(&mut self, from_client_id: u64, data: Vec<u8>, channel: Channel) -> (res: Dispatch)
        ensures
            final(self).config == old(self).config,
            old(self).apps@.wf() ==> final(self).apps@.wf(),
            ({
                let step = packet_step(
                    old(self).transport@,
                    old(self).clients@,
                    old(self).apps@,
                    &old(self).config,
                    from_client_id,
                    decode_spec(data@),
                    channel,
                );
                &&& res@ == step.dispatch
                &&& final(self).transport@ == step.transports
                &&& final(self).clients@ == step.clients
                &&& final(self).apps@ == step.apps
            }),
    {
        if !self.clients.contains(from_client_id) {
            let v: Vec<Outbound> = Vec::new();
            assert(outbound_views(v@) =~= Seq::<OutboundView>::empty());
            return Dispatch::Done(v);
        }
        let packet = decode(data.as_slice());
        self.handle_decoded_packet(from_client_id, packet, channel)
    }

    /// Handles a transport event: a new connection becomes a client in the
    /// `Connected` state, registered with the transport it came over (UDP when
    /// `is_udp`, WebRTC otherwise); a lost connection is handled as
    /// `disconnect_effect` says; received bytes are handled by `handle_packet`.
    pub fn handle_event(&mut self, event: ServerEvent, is_udp: bool) -> (res: Dispatch)
        ensures
            final(self).config == old(self).config,
            old(self).apps@.wf() ==> final(self).apps@.wf(),
            match event@ {
                ServerEventView::ClientConnected { client_id } => {
                    &&& res@ == DispatchView::Done(Seq::empty())
                    &&& final(self).clients@ == old(self).clients@.insert(client_id, ClientState::Connected)
                    &&& final(self).transport@ == old(self).transport@.insert(
                        client_id,
                        if is_udp {
                            ClientTransport::Udp
                        } else {
                            ClientTransport::WebRTC
                        },
                    )
                    &&& final(self).apps@ == old(self).apps@
                },
                ServerEventView::ClientDisconnected { client_id } => {
                    let e = disconnect_effect(old(self).transport@, old(self).clients@, old(self).apps@.apps, client_id);
                    &&& res@ == DispatchView::Done(e.actions)
                    &&& final(self).transport@ == e.transports
                    &&& final(self).clients@ == e.clients
                    &&& final(self).apps@.apps == e.apps
                    &&& final(self).apps@.next_app_id == old(self).apps@.next_app_id
                    &&& final(self).apps@.next_room_id == old(self).apps@.next_room_id
                },
                ServerEventView::PacketReceived { client_id, data, channel } => {
                    let step = packet_step(
                        old(self).transport@,
                        old(self).clients@,
                        old(self).apps@,
                        &old(self).config,
                        client_id,
                        decode_spec(data),
                        channel,
                    );
                    &&& res@ == step.dispatch
                    &&& final(self).transport@ == step.transports
                    &&& final(self).clients@ == step.clients
                    &&& final(self).apps@ == step.apps
                },
            },
    {
        match event {
            ServerEvent::ClientConnected { client_id } => {
                self.clients.create(client_id);
                if is_udp {
                    self.transport.register_udp_client(client_id);
                } else {
                    self.transport.register_webrtc_client(client_id);
                }
                let v: Vec<Outbound> = Vec::new();
                assert(outbound_views(v@) =~= Seq::<OutboundView>::empty());
                Dispatch::Done(v)
            },
            ServerEvent::ClientDisconnected { client_id } => {
                let actions = handle_client_disconnect(&mut self.transport, &mut self.clients, &mut self.apps, client_id);
                Dispatch::Done(actions)
            },
            ServerEvent::PacketReceived { client_id, data, channel } => self.handle_packet(client_id, data, channel),
        }
    }

    /// Finishes an authentication handed back as `CheckRemoteWhitelist`, given the
    /// remote endpoint's verdict (`None` when asking it failed).
    pub fn finish_authentication(&mut self, client_id: u64, app_token: &str, version: &str, remote: Option<bool>) -> (res: Vec<Outbound>)
        ensures
            ({
                let e = auth_effect(
                    old(self).transport@,
                    old(self).clients@,
                    old(self).apps@,
                    &old(self).config,
                    client_id,
                    app_token@,
                    version@,
                    remote,
                );
                &&& outbound_views(res@) == e.actions
                &&& final(self).transport@ == e.transports
                &&& final(self).clients@ == e.clients
                &&& final(self).apps@ == e.apps
            }),
            final(self).config == old(self).config,
            old(self).apps@.wf() ==> final(self).apps@.wf(),
    {
        authenticate_client(
            &mut self.transport,
            &mut self.clients,
            &mut self.apps,
            &self.config,
            client_id,
            app_token,
            version,
            remote,
        )
    }

    /// Disconnects every client of the relay and closes every room; to be done
    /// when the relay shuts down. Each registered client, in the order the
    /// registry hands them out, is sent the disconnect notice and forgotten by
    /// its transport, so that no client is registered afterwards.
    pub fn cleanup(&mut self) -> (res: Vec<Outbound>)
        ensures
            exists|order: Seq<u64>|
                #![trigger kick_all(old(self).transport@, order)]
                {
                    &&& order.to_set() == old(self).transport@.dom()
                    &&& order.no_duplicates()
                    &&& outbound_views(res@) == kick_all(old(self).transport@, order).0
                },
            final(self).transport@ == Map::<u64, ClientTransport>::empty(),
            final(self).clients@ == old(self).clients@,
            final(self).apps@.apps == without_rooms(old(self).apps@.apps),
            final(self).apps@.next_app_id == old(self).apps@.next_app_id,
            final(self).apps@.next_room_id == old(self).apps@.next_room_id,
            final(self).config == old(self).config,
            old(self).apps@.wf() ==> final(self).apps@.wf(),
    {
        let targets = self.transport.registered_clients();
        let mut out: Vec<Outbound> = Vec::new();
        kick_targets(&mut self.transport, &targets, &mut out);
        self.apps.clear_rooms();
        proof {
            let reg = old(self).transport@;
            assert(outbound_views(out@) =~= kick_all(reg, targets@).0);
            lemma_kick_all_registry(reg, targets@);
            assert(reg.remove_keys(reg.dom()) =~= Map::<u64, ClientTransport>::empty());
        }
        out
    }
}

} // verus!
