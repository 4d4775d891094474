//! Properties of the relay that span its operations.

use crate::protocol::{Channel, PacketView};
use crate::seq_util::{distinct, first_index, lemma_first_index_distinct, lemma_first_index_some};
use crate::server::apps::{
    app_ids, app_tokens, locate_room, member_ids, room_ids, with_room, without_member, without_room,
    AppView, AppsView, RoomView,
};
use crate::server::auth::{
    app_allowed_spec, auth_effect, token_refusal, version_allowed_spec, version_refusal, AUTH_ERROR_CODE,
};
use crate::server::clients::ClientState;
use crate::server::config::Config;
use crate::server::disconnect::{
    disconnect_effect, force_disconnect_effect, kick_all, lemma_without_id_contains, peer_left_notices,
    without_id,
};
use crate::server::registry::{route_of, ClientTransport, OutboundView};
use crate::server::relay::{packet_step, DispatchView};
use crate::server::webrtc_interface::{
    channel_clients, channel_ids, forwards, is_keepalive_spec, without_client, ChannelEntry, WebRTCView,
};
use vstd::prelude::*;

verus! {

/// Whether a work item sends the disconnect notice to a client.
pub open spec fn notifies_drop(o: OutboundView, client_id: u64) -> bool {
    match o {
        OutboundView::Send { target, packet, channel, .. } => target == client_id && packet
            == PacketView::ForceDisconnect && channel == Channel::Reliable,
        _ => false,
    }
}

/// Forced disconnects of several clients leave the registry without exactly
/// those clients.
pub proof fn lemma_kick_all_registry(reg: Map<u64, ClientTransport>, targets: Seq<u64>)
    ensures
        kick_all(reg, targets).1 == reg.remove_keys(targets.to_set()),
    decreases targets.len(),
{
    if targets.len() > 0 {
        lemma_kick_all_registry(reg, targets.drop_last());
        assert(targets.to_set() =~= targets.drop_last().to_set().insert(targets.last())) by {
            assert forall|y: u64| targets.to_set().contains(y) <==> targets.drop_last().to_set().insert(
                targets.last(),
            ).contains(y) by {
                if targets.contains(y) {
                    let k = choose|k: int| 0 <= k < targets.len() && targets[k] == y;
                    if k < targets.len() - 1 {
                        assert(targets.drop_last()[k] == y);
                    }
                }
                if targets.drop_last().contains(y) {
                    let k = choose|k: int| 0 <= k < targets.drop_last().len() && targets.drop_last()[k] == y;
                    assert(targets[k] == y);
                }
            }
        }
        assert(kick_all(reg, targets).1 =~= reg.remove_keys(targets.to_set()));
    }
}

/// Every client dropped by forced disconnects is sent the disconnect notice.
pub proof fn lemma_kick_all_notifies(reg: Map<u64, ClientTransport>, targets: Seq<u64>, m: u64)
    requires
        targets.contains(m),
    ensures
        exists|i: int| 0 <= i < kick_all(reg, targets).0.len() && notifies_drop(#[trigger] kick_all(reg, targets).0[i], m),
    decreases targets.len(),
{
    let (done, reg1) = kick_all(reg, targets.drop_last());
    let (more, reg2) = force_disconnect_effect(reg1, targets.last());
    assert(kick_all(reg, targets).0 == done + more);
    if targets.last() == m {
        let i = done.len() as int;
        assert((done + more)[i] == more[0]);
    } else {
        let k = choose|k: int| 0 <= k < targets.len() && targets[k] == m;
        assert(k < targets.len() - 1);
        assert(targets.drop_last()[k] == m);
        lemma_kick_all_notifies(reg, targets.drop_last(), m);
        let i = choose|i: int| 0 <= i < done.len() && notifies_drop(#[trigger] done[i], m);
        assert((done + more)[i] == done[i]);
    }
}

/// A client whose connection goes away is no longer a client of the relay.
pub proof fn lemma_disconnect_forgets_client(
    reg: Map<u64, ClientTransport>,
    clients: Map<u64, ClientState>,
    apps: Seq<AppView>,
    client_id: u64,
)
    ensures
        !disconnect_effect(reg, clients, apps, client_id).clients.contains_key(client_id),
{
}

/// When the host of a room disconnects, the room is closed, and every other
/// member is dropped: told so, forgotten by the client list and by its
/// transport.
pub proof fn lemma_host_departure_closes_room(
    reg: Map<u64, ClientTransport>,
    clients: Map<u64, ClientState>,
    apps: AppsView,
    host: u64,
    app_id: u64,
    room_id: u64,
    member: u64,
)
    requires
        apps.wf(),
        clients.contains_key(host),
        clients[host] == (ClientState::InRoom { app_id, room_id }),
        locate_room(apps.apps, app_id, room_id) matches Some((a, r)) && apps.apps[a].rooms[r].host == host
            && member_ids(apps.apps[a].rooms[r].peers).contains(host) && member_ids(apps.apps[a].rooms[r].peers).contains(member),
        member != host,
    ensures
        ({
            let e = disconnect_effect(reg, clients, apps.apps, host);
            &&& locate_room(e.apps, app_id, room_id) is None
            &&& !e.clients.contains_key(host)
            &&& !e.clients.contains_key(member)
            &&& !e.transports.contains_key(member)
            &&& exists|i: int| 0 <= i < e.actions.len() && notifies_drop(#[trigger] e.actions[i], member)
        }),
{
    let (a, r) = locate_room(apps.apps, app_id, room_id)->0;
    let room = apps.apps[a].rooms[r];
    lemma_first_index_some(member_ids(room.peers), host);
    let others = without_id(member_ids(room.peers), host);
    lemma_without_id_contains(member_ids(room.peers), host, member);
    lemma_kick_all_registry(reg, others);
    lemma_kick_all_notifies(reg, others, member);
    assert(others.to_set().contains(member));
    let e = disconnect_effect(reg, clients, apps.apps, host);
    // the application keeps its position, and its rooms no longer hold the room
    lemma_first_index_some(app_ids(apps.apps), app_id);
    lemma_first_index_some(room_ids(apps.apps[a].rooms), room_id);
    let after = without_room(apps.apps, a, r);
    assert(app_ids(after) =~= app_ids(apps.apps)) by {
        assert forall|i: int| 0 <= i < apps.apps.len() implies app_ids(after)[i] == app_ids(apps.apps)[i] by {}
    }
    lemma_first_index_distinct(app_ids(after), app_id, a);
    assert(room_ids(after[a].rooms) =~= room_ids(apps.apps[a].rooms).remove(r));
    assert(!room_ids(after[a].rooms).contains(room_id)) by {
        if room_ids(after[a].rooms).contains(room_id) {
            let k = choose|k: int| 0 <= k < room_ids(after[a].rooms).len() && room_ids(after[a].rooms)[k] == room_id;
            let orig = if k < r { k } else { k + 1 };
            assert(room_ids(apps.apps[a].rooms)[orig] == room_id);
            assert(room_ids(apps.apps[a].rooms)[r] == room_id);
            assert(distinct(room_ids(apps.apps[a].rooms)));
        }
    }
    assert(crate::server::apps::godot_id_of(room.peers, host) is Some);
    assert(e.apps == after);
    assert(locate_room(after, app_id, room_id) is None);
    assert(e.clients == clients.remove(host).remove_keys(others.to_set()));
    assert(e.transports == kick_all(reg, others).1);
    assert(e.actions == kick_all(reg, others).0);
}

/// When a member other than the host disconnects, the room stays open without
/// it, and each other member is told which game peer left.
pub proof fn lemma_member_departure_notifies(
    reg: Map<u64, ClientTransport>,
    clients: Map<u64, ClientState>,
    apps: AppsView,
    leaver: u64,
    app_id: u64,
    room_id: u64,
)
    requires
        apps.wf(),
        clients.contains_key(leaver),
        clients[leaver] == (ClientState::InRoom { app_id, room_id }),
        locate_room(apps.apps, app_id, room_id) matches Some((a, r)) && apps.apps[a].rooms[r].host != leaver
            && member_ids(apps.apps[a].rooms[r].peers).contains(leaver),
    ensures
        ({
            let (a, r) = locate_room(apps.apps, app_id, room_id)->0;
            let room = apps.apps[a].rooms[r];
            let godot_id = room.peers[first_index(member_ids(room.peers), leaver)->0].godot_id;
            let e = disconnect_effect(reg, clients, apps.apps, leaver);
            &&& locate_room(e.apps, app_id, room_id) == Some((a, r))
            &&& !member_ids(e.apps[a].rooms[r].peers).contains(leaver)
            &&& forall|m: u64| m != leaver ==> (member_ids(e.apps[a].rooms[r].peers).contains(m) <==> member_ids(room.peers).contains(m))
            &&& e.actions == peer_left_notices(reg, without_id(member_ids(room.peers), leaver), godot_id)
            &&& e.transports == reg
            &&& e.clients == clients.remove(leaver)
        }),
{
    let (a, r) = locate_room(apps.apps, app_id, room_id)->0;
    let room = apps.apps[a].rooms[r];
    lemma_first_index_some(member_ids(room.peers), leaver);
    let i = first_index(member_ids(room.peers), leaver)->0;
    let new_room = RoomView { peers: without_member(room.peers, leaver), ..room };
    let after = with_room(apps.apps, a, r, new_room);
    lemma_first_index_some(app_ids(apps.apps), app_id);
    lemma_first_index_some(room_ids(apps.apps[a].rooms), room_id);
    assert(app_ids(after) =~= app_ids(apps.apps)) by {
        assert forall|k: int| 0 <= k < apps.apps.len() implies app_ids(after)[k] == app_ids(apps.apps)[k] by {}
    }
    assert(room_ids(after[a].rooms) =~= room_ids(apps.apps[a].rooms));
    lemma_first_index_distinct(app_ids(after), app_id, a);
    lemma_first_index_distinct(room_ids(after[a].rooms), room_id, r);
    let ids = member_ids(room.peers);
    assert(member_ids(new_room.peers) =~= ids.remove(i));
    assert(distinct(ids));
    assert forall|m: u64| m != leaver implies (member_ids(new_room.peers).contains(m) <==> ids.contains(m)) by {
        if ids.contains(m) {
            let k = choose|k: int| 0 <= k < ids.len() && ids[k] == m;
            assert(k != i);
            let nk = if k < i { k } else { k - 1 };
            assert(ids.remove(i)[nk] == m);
        }
        if ids.remove(i).contains(m) {
            let k = choose|k: int| 0 <= k < ids.remove(i).len() && ids.remove(i)[k] == m;
            let ok = if k < i { k } else { k + 1 };
            assert(ids[ok] == m);
        }
    }
    assert(!member_ids(new_room.peers).contains(leaver)) by {
        if ids.remove(i).contains(leaver) {
            let k = choose|k: int| 0 <= k < ids.remove(i).len() && ids.remove(i)[k] == leaver;
            let ok = if k < i { k } else { k + 1 };
            assert(ids[ok] == leaver);
            assert(ids[i] == leaver);
        }
    }
}

/// Two clients that authenticate, one after the other, with the same
/// application token end up authenticated for the same application.
pub proof fn lemma_same_token_same_app(
    reg: Map<u64, ClientTransport>,
    clients: Map<u64, ClientState>,
    apps: AppsView,
    config: &Config,
    first: u64,
    second: u64,
    token: Seq<char>,
    version: Seq<char>,
    remote: Option<bool>,
)
    requires
        version_allowed_spec(config, version),
        app_allowed_spec(config, token, remote),
        clients.contains_key(first),
        clients.contains_key(second),
        app_tokens(apps.apps).contains(token) || apps.next_app_id < u64::MAX,
    ensures
        ({
            let e1 = auth_effect(reg, clients, apps, config, first, token, version, remote);
            let e2 = auth_effect(e1.transports, e1.clients, e1.apps, config, second, token, version, remote);
            &&& e2.clients.contains_key(first)
            &&& e2.clients.contains_key(second)
            &&& e2.clients[second] == e2.clients[first] || first == second
            &&& e2.clients[second] is Authenticated
        }),
{
    let e1 = auth_effect(reg, clients, apps, config, first, token, version, remote);
    match first_index(app_tokens(apps.apps), token) {
        Some(a) => {},
        None => {
            if app_tokens(apps.apps).contains(token) {
                crate::seq_util::lemma_first_index_some(app_tokens(apps.apps), token);
            }
            let tokens1 = app_tokens(e1.apps.apps);
            let n = apps.apps.len() as int;
            assert(tokens1 =~= app_tokens(apps.apps).push(token));
            assert forall|j: int| 0 <= j < n implies tokens1[j] != token by {
                if tokens1[j] == token {
                    assert(app_tokens(apps.apps)[j] == token);
                    assert(app_tokens(apps.apps).contains(token));
                }
            }
            crate::seq_util::lemma_first_index_at(tokens1, token, n);
        },
    }
}

/// A client refused for its version or its application token is first sent
/// the authentication error, then the disconnect notice, and its transport
/// forgets it; nothing else changes.
pub proof fn lemma_refused_client_is_told_and_dropped(
    reg: Map<u64, ClientTransport>,
    clients: Map<u64, ClientState>,
    apps: AppsView,
    config: &Config,
    sender: u64,
    token: Seq<char>,
    version: Seq<char>,
    remote: Option<bool>,
)
    requires
        !version_allowed_spec(config, version) || !app_allowed_spec(config, token, remote),
    ensures
        ({
            let e = auth_effect(reg, clients, apps, config, sender, token, version, remote);
            &&& e.actions.len() >= 2
            &&& e.actions[0] == (OutboundView::Send {
                route: route_of(reg, sender),
                target: sender,
                packet: PacketView::Error {
                    error_code: AUTH_ERROR_CODE,
                    error_message: if !version_allowed_spec(config, version) {
                        version_refusal(version)
                    } else {
                        token_refusal(token)
                    },
                },
                channel: Channel::Reliable,
            })
            &&& notifies_drop(e.actions[1], sender)
            &&& e.transports == reg.remove(sender)
            &&& e.clients == clients
            &&& e.apps == apps
        }),
{
}

/// Shutting down drops every client of the relay: whatever order the registry
/// hands its clients out in, each registered client is sent the disconnect
/// notice and no client stays registered.
pub proof fn lemma_cleanup_drops_every_client(reg: Map<u64, ClientTransport>, order: Seq<u64>, client: u64)
    requires
        order.to_set() == reg.dom(),
        reg.contains_key(client),
    ensures
        ({
            let (actions, transports) = kick_all(reg, order);
            &&& transports == Map::<u64, ClientTransport>::empty()
            &&& exists|i: int| 0 <= i < actions.len() && notifies_drop(#[trigger] actions[i], client)
        }),
{
    lemma_kick_all_registry(reg, order);
    assert(reg.remove_keys(reg.dom()) =~= Map::<u64, ClientTransport>::empty());
    assert(order.to_set().contains(client));
    lemma_kick_all_notifies(reg, order, client);
}

/// A data channel registered under the next client id has every message but
/// the keepalive passed on to the relay as that client's.
pub proof fn lemma_registered_channel_forwards(v: WebRTCView, dc_id: u16, data: Seq<u8>)
    ensures
        forwards(v.channels.push(ChannelEntry { client_id: v.next_client_id, dc_id }), v.next_client_id, data)
            == !is_keepalive_spec(data),
{
    let after = v.channels.push(ChannelEntry { client_id: v.next_client_id, dc_id });
    assert(channel_clients(after)[v.channels.len() as int] == v.next_client_id);
}

/// Once a client is removed, nothing it sends is passed on.
pub proof fn lemma_removed_client_is_silent(v: WebRTCView, client_id: u64, data: Seq<u8>)
    requires
        v.wf(),
    ensures
        !forwards(without_client(v.channels, client_id), client_id, data),
{
    lemma_gone_after_remove(v.channels, client_id);
}

/// Once a data channel is unregistered, nothing its client sends is passed on.
pub proof fn lemma_unregistered_channel_is_silent(v: WebRTCView, dc_id: u16, data: Seq<u8>)
    requires
        v.wf(),
        channel_ids(v.channels).contains(dc_id),
    ensures
        ({
            let i = first_index(channel_ids(v.channels), dc_id)->0;
            !forwards(v.channels.remove(i), v.channels[i].client_id, data)
        }),
{
    lemma_first_index_some(channel_ids(v.channels), dc_id);
    let i = first_index(channel_ids(v.channels), dc_id)->0;
    let c = v.channels[i].client_id;
    assert(channel_clients(v.channels)[i] == c);
    lemma_first_index_distinct(channel_clients(v.channels), c, i);
    lemma_gone_after_remove(v.channels, c);
}

/// With distinct client ids, removing a client's channel leaves no channel of
/// that client.
proof fn lemma_gone_after_remove(channels: Seq<ChannelEntry>, client_id: u64)
    requires
        distinct(channel_clients(channels)),
    ensures
        !channel_clients(without_client(channels, client_id)).contains(client_id),
{
    let ids = channel_clients(channels);
    match first_index(ids, client_id) {
        Some(i) => {
            lemma_first_index_some(ids, client_id);
            let after = channels.remove(i);
            if channel_clients(after).contains(client_id) {
                let k = choose|k: int| 0 <= k < channel_clients(after).len() && channel_clients(after)[k] == client_id;
                let orig = if k < i { k } else { k + 1 };
                assert(after[k] == channels[orig]);
                assert(ids[orig] == client_id);
                assert(ids[i] == client_id);
            }
        },
        None => {
            if ids.contains(client_id) {
                lemma_first_index_some(ids, client_id);
            }
        },
    }
}

/// A client in a room updates and answers joins for its own room: whatever
/// room id the packet names, the request is for the room the client is in.
pub proof fn lemma_room_requests_use_own_room(
    reg: Map<u64, ClientTransport>,
    clients: Map<u64, ClientState>,
    apps: AppsView,
    config: &Config,
    from: u64,
    app_id: u64,
    room_id: u64,
    named_room: Seq<char>,
    metadata: Seq<char>,
    target_id: u64,
    allowed: bool,
    channel: Channel,
)
    requires
        clients.contains_key(from),
        clients[from] == (ClientState::InRoom { app_id, room_id }),
    ensures
        packet_step(
            reg,
            clients,
            apps,
            config,
            from,
            Some(PacketView::UpdateRoom { room_id: named_room, metadata }),
            channel,
        ).dispatch == (DispatchView::UpdateRoom { client_id: from, app_id, room_id, metadata }),
        packet_step(
            reg,
            clients,
            apps,
            config,
            from,
            Some(PacketView::JoinRes { room_id: named_room, target_id, allowed }),
            channel,
        ).dispatch == (DispatchView::JoinResponse { app_id, target_id, room_id, allowed }),
{
}

/// An authenticated client's requests are handed back with what the packet
/// says, unchanged, and with the sender and its application: a room is created
/// public or private as asked, and a join names the room and metadata sent.
pub proof fn lemma_requests_carry_the_packet(
    reg: Map<u64, ClientTransport>,
    clients: Map<u64, ClientState>,
    apps: AppsView,
    config: &Config,
    from: u64,
    app_id: u64,
    is_public: bool,
    room: Seq<char>,
    metadata: Seq<char>,
    channel: Channel,
)
    requires
        clients.contains_key(from),
        clients[from] == (ClientState::Authenticated { app_id }),
    ensures
        ({
            let step = packet_step(
                reg,
                clients,
                apps,
                config,
                from,
                Some(PacketView::CreateRoom { is_public, metadata }),
                channel,
            );
            &&& step.dispatch matches DispatchView::CreateRoom { client_id, app_id: a, is_public: p, metadata: m }
                && client_id == from && a == app_id && p == is_public && m == metadata
            &&& step.transports == reg && step.clients == clients && step.apps == apps
        }),
        ({
            let step = packet_step(
                reg,
                clients,
                apps,
                config,
                from,
                Some(PacketView::ReqJoin { room_id: room, metadata }),
                channel,
            );
            &&& step.dispatch matches DispatchView::JoinRequest { client_id, app_id: a, room_id: r, metadata: m }
                && client_id == from && a == app_id && r == room && m == metadata
            &&& step.transports == reg && step.clients == clients && step.apps == apps
        }),
{
}

/// A client admitted with a token that is already registered is authenticated
/// for the first application registered under that token, whatever was
/// registered after it, and is told so; nothing else changes.
pub proof fn lemma_known_token_gives_its_app(
    reg: Map<u64, ClientTransport>,
    clients: Map<u64, ClientState>,
    apps: AppsView,
    config: &Config,
    sender: u64,
    token: Seq<char>,
    version: Seq<char>,
    remote: Option<bool>,
    a: int,
)
    requires
        version_allowed_spec(config, version),
        app_allowed_spec(config, token, remote),
        clients.contains_key(sender),
        0 <= a < apps.apps.len(),
        apps.apps[a].token == token,
        forall|j: int| 0 <= j < a ==> apps.apps[j].token != token,
    ensures
        ({
            let e = auth_effect(reg, clients, apps, config, sender, token, version, remote);
            &&& e.clients == clients.insert(sender, ClientState::Authenticated { app_id: apps.apps[a].id })
            &&& e.apps == apps
            &&& e.transports == reg
            &&& e.actions == seq![
                OutboundView::Send {
                    route: route_of(reg, sender),
                    target: sender,
                    packet: PacketView::ClientAuthenticated,
                    channel: Channel::Reliable,
                },
            ]
        }),
{
    let tokens = app_tokens(apps.apps);
    assert(tokens[a] == token);
    assert forall|j: int| 0 <= j < a implies tokens[j] != token by {
        assert(tokens[j] == apps.apps[j].token);
    }
    crate::seq_util::lemma_first_index_at(tokens, token, a);
}

/// Every registered client's messages are passed on, whichever channel was
/// registered last: a message other than the two-byte keepalive, from a client
/// that has a channel at any position, is forwarded.
pub proof fn lemma_every_registered_client_forwards(channels: Seq<ChannelEntry>, i: int, data: Seq<u8>)
    requires
        0 <= i < channels.len(),
        data != seq![0xFFu8, 0xFFu8],
    ensures
        forwards(channels, channels[i].client_id, data),
{
    assert(channel_clients(channels)[i] == channels[i].client_id);
}

} // verus!
