//! What happens when a client goes away.

use crate::protocol::{Channel, PacketType, PacketView};
use crate::server::apps::{
    locate_room, godot_id_of, member_ids, with_room, without_member, without_room, AppView, Apps,
    RoomView,
};
use crate::server::clients::{ClientState, Clients};
use crate::server::registry::{
    backend_of, outbound_views, route_of, ClientTransport, Outbound, OutboundView, TransportRegistry,
};
use vstd::prelude::*;

verus! {

/// The ids of a sequence other than `x`, in order.
pub open spec fn without_id(ids: Seq<u64>, x: u64) -> Seq<u64>
    decreases ids.len(),
{
    if ids.len() == 0 {
        Seq::empty()
    } else if ids.last() == x {
        without_id(ids.drop_last(), x)
    } else {
        without_id(ids.drop_last(), x).push(ids.last())
    }
}

/// The ids kept by `without_id` are exactly those other than `x`.
pub proof fn lemma_without_id_contains(ids: Seq<u64>, x: u64, y: u64)
    ensures
        without_id(ids, x).contains(y) <==> (ids.contains(y) && y != x),
    decreases ids.len(),
{
    if ids.len() > 0 {
        lemma_without_id_contains(ids.drop_last(), x, y);
        assert(ids =~= ids.drop_last().push(ids.last()));
        if ids.drop_last().contains(y) {
            let i = choose|i: int| 0 <= i < ids.drop_last().len() && ids.drop_last()[i] == y;
            assert(ids[i] == y);
        }
        if ids.contains(y) && !ids.drop_last().contains(y) {
            let i = choose|i: int| 0 <= i < ids.len() && ids[i] == y;
            if i < ids.len() - 1 {
                assert(ids.drop_last()[i] == y);
            }
        }
        let w = without_id(ids.drop_last(), x);
        if ids.last() != x {
            if w.push(ids.last()).contains(y) && y != ids.last() {
                let i = choose|i: int| 0 <= i < w.push(ids.last()).len() && w.push(ids.last())[i] == y;
                assert(w[i] == y);
            }
            if w.contains(y) {
                let i = choose|i: int| 0 <= i < w.len() && w[i] == y;
                assert(w.push(ids.last())[i] == y);
            }
            assert(w.push(ids.last())[w.len() as int] == ids.last());
        }
    }
}

/// What a forced disconnect does: tell the client it is dropped, then have its
/// transport forget it. Returns the work produced and the registry after.
pub open spec fn force_disconnect_effect(reg: Map<u64, ClientTransport>, target: u64) -> (
    Seq<OutboundView>,
    Map<u64, ClientTransport>,
) {
    let send = OutboundView::Send {
        route: route_of(reg, target),
        target,
        packet: PacketView::ForceDisconnect,
        channel: Channel::Reliable,
    };
    let release = if reg.contains_key(target) {
        seq![OutboundView::Release { route: backend_of(reg[target]), target }]
    } else {
        Seq::empty()
    };
    (seq![send] + release, reg.remove(target))
}

/// Forced disconnects of several clients, one after the other.
pub open spec fn kick_all(reg: Map<u64, ClientTransport>, targets: Seq<u64>) -> (
    Seq<OutboundView>,
    Map<u64, ClientTransport>,
)
    decreases targets.len(),
{
    if targets.len() == 0 {
        (Seq::empty(), reg)
    } else {
        let (done, reg1) = kick_all(reg, targets.drop_last());
        let (more, reg2) = force_disconnect_effect(reg1, targets.last());
        (done + more, reg2)
    }
}

/// The notice that the game peer `godot_id` left, sent to each of `peers`.
pub open spec fn peer_left_notices(reg: Map<u64, ClientTransport>, peers: Seq<u64>, godot_id: i32) -> Seq<
    OutboundView,
> {
    peers.map_values(
        |p: u64|
            OutboundView::Send {
                route: route_of(reg, p),
                target: p,
                packet: PacketView::PeerLeftRoom { peer_id: godot_id },
                channel: Channel::Reliable,
            },
    )
}

/// The relay state that a decision reads and changes, with the work it produces.
pub struct RelayEffect {
    pub actions: Seq<OutboundView>,
    pub transports: Map<u64, ClientTransport>,
    pub clients: Map<u64, ClientState>,
    pub apps: Seq<AppView>,
}

/// A client (already forgotten by the client list) leaves the room it was in.
/// A host's departure closes the room and drops the other members; a member's
/// departure takes it out of the room and tells the others which game peer left.
/// Nothing happens when the room or the membership cannot be found.
pub open spec fn room_departure(
    reg: Map<u64, ClientTransport>,
    clients: Map<u64, ClientState>,
    apps: Seq<AppView>,
    sender: u64,
    app_id: u64,
    room_id: u64,
) -> RelayEffect {
    let unchanged = RelayEffect { actions: Seq::empty(), transports: reg, clients, apps };
    match locate_room(apps, app_id, room_id) {
        None => unchanged,
        Some((a, r)) => {
            let room = apps[a].rooms[r];
            match godot_id_of(room.peers, sender) {
                None => unchanged,
                Some(godot_id) => {
                    let others = without_id(member_ids(room.peers), sender);
                    if room.host == sender {
                        let (actions, transports) = kick_all(reg, others);
                        RelayEffect {
                            actions,
                            transports,
                            clients: clients.remove_keys(others.to_set()),
                            apps: without_room(apps, a, r),
                        }
                    } else {
                        RelayEffect {
                            actions: peer_left_notices(reg, others, godot_id),
                            transports: reg,
                            clients,
                            apps: with_room(
                                apps,
                                a,
                                r,
                                RoomView { peers: without_member(room.peers, sender), ..room },
                            ),
                        }
                    }
                },
            }
        },
    }
}

/// A client's connection is gone: forget it, and if it was in a room, handle its
/// departure from the room.
pub open spec fn disconnect_effect(
    reg: Map<u64, ClientTransport>,
    clients: Map<u64, ClientState>,
    apps: Seq<AppView>,
    client_id: u64,
) -> RelayEffect {
    if !clients.contains_key(client_id) {
        RelayEffect { actions: Seq::empty(), transports: reg, clients, apps }
    } else {
        match clients[client_id] {
            ClientState::InRoom { app_id, room_id } => room_departure(
                reg,
                clients.remove(client_id),
                apps,
                client_id,
                app_id,
                room_id,
            ),
            _ => RelayEffect {
                actions: Seq::empty(),
                transports: reg,
                clients: clients.remove(client_id),
                apps,
            },
        }
    }
}

/// Ids of `ids` other than `x`, in order.
fn ids_without(ids: &Vec<u64>, x: u64) -> (res: Vec<u64>)
    ensures
        res@ == without_id(ids@, x),
{
    let mut res: Vec<u64> = Vec::new();
    let mut i: usize = 0;
    while i < ids.len()
        invariant
            i <= ids@.len(),
            res@ == without_id(ids@.take(i as int), x),
        decreases ids@.len() - i,
    {
        assert(ids@.take(i + 1).drop_last() =~= ids@.take(i as int));
        if ids[i] != x {
            res.push(ids[i]);
        }
        i = i + 1;
    }
    assert(ids@.take(i as int) =~= ids@);
    res
}

/// Drops a client: tells it so, and has its transport forget it.
pub fn force_disconnect(transport: &mut TransportRegistry, target: u64, out: &mut Vec<Outbound>)
    ensures
        outbound_views(final(out)@) == outbound_views(old(out)@) + force_disconnect_effect(old(transport)@, target).0,
        final(transport)@ == force_disconnect_effect(old(transport)@, target).1,
{
    let send = transport.send(target, PacketType::ForceDisconnect, Channel::Reliable);
    out.push(send);
    let ghost mid = out@;
    match transport.remove_client(target) {
        Some(release) => {
            out.push(release);
        },
        None => {},
    }
    assert(outbound_views(out@) =~= outbound_views(old(out)@) + force_disconnect_effect(old(transport)@, target).0);
}

/// Forced disconnects of `targets` in order, each also forgotten by the client list.
fn kick_and_forget(
    transport: &mut TransportRegistry,
    clients: &mut Clients,
    targets: &Vec<u64>,
    out: &mut Vec<Outbound>,
)
    ensures
        outbound_views(final(out)@) == outbound_views(old(out)@) + kick_all(old(transport)@, targets@).0,
        final(transport)@ == kick_all(old(transport)@, targets@).1,
        final(clients)@ == old(clients)@.remove_keys(targets@.to_set()),
{
    let ghost reg0 = transport@;
    let ghost out0 = out@;
    let ghost clients0 = clients@;
    let mut i: usize = 0;
    while i < targets.len()
        invariant
            i <= targets@.len(),
            outbound_views(out@) == outbound_views(out0) + kick_all(reg0, targets@.take(i as int)).0,
            transport@ == kick_all(reg0, targets@.take(i as int)).1,
            clients@ == clients0.remove_keys(targets@.take(i as int).to_set()),
        decreases targets@.len() - i,
    {
        let target = targets[i];
        let ghost before_out = out@;
        clients.remove(target);
        force_disconnect(transport, target, out);
        proof {
            let t = targets@.take(i + 1);
            assert(t.drop_last() =~= targets@.take(i as int));
            assert(t.last() == target);
            assert(outbound_views(out@) =~= outbound_views(out0) + kick_all(reg0, t).0);
            assert(t.to_set() =~= targets@.take(i as int).to_set().insert(target)) by {
                assert forall|y: u64| t.to_set().contains(y) <==> targets@.take(i as int).to_set().insert(target).contains(y) by {
                    if t.contains(y) {
                        let k = choose|k: int| 0 <= k < t.len() && t[k] == y;
                        if k < i {
                            assert(targets@.take(i as int)[k] == y);
                        }
                    }
                    if targets@.take(i as int).contains(y) {
                        let k = choose|k: int| 0 <= k < i && targets@.take(i as int)[k] == y;
                        assert(t[k] == y);
                    }
                    assert(t[i as int] == target);
                }
            }
            assert(clients@ =~= clients0.remove_keys(t.to_set()));
        }
        i = i + 1;
    }
    assert(targets@.take(i as int) =~= targets@);
}

/// A client that is no longer in the client list leaves the room it was in.
fn handle_room_disconnect(
    transport: &mut TransportRegistry,
    clients: &mut Clients,
    apps: &mut Apps,
    sender_id: u64,
    app_id: u64,
    room_id: u64,
    out: &mut Vec<Outbound>,
)
    ensures
        ({
            let e = room_departure(old(transport)@, old(clients)@, old(apps)@.apps, sender_id, app_id, room_id);
            &&& outbound_views(final(out)@) == outbound_views(old(out)@) + e.actions
            &&& final(transport)@ == e.transports
            &&& final(clients)@ == e.clients
            &&& final(apps)@.apps == e.apps
        }),
        final(apps)@.next_app_id == old(apps)@.next_app_id,
        final(apps)@.next_room_id == old(apps)@.next_room_id,
        old(apps)@.wf() ==> final(apps)@.wf(),
{
    let (is_host, godot_id, other_peers) = {
        let app = match apps.get(app_id) {
            Some(app) => app,
            None => {
                assert(outbound_views(out@) =~= outbound_views(old(out)@) + Seq::<OutboundView>::empty());
                return ;
            },
        };
        let room = match app.room(room_id) {
            Some(room) => room,
            None => {
                assert(outbound_views(out@) =~= outbound_views(old(out)@) + Seq::<OutboundView>::empty());
                return ;
            },
        };
        let godot_id = match room.client_to_gd(sender_id) {
            Some(godot_id) => godot_id,
            None => {
                assert(outbound_views(out@) =~= outbound_views(old(out)@) + Seq::<OutboundView>::empty());
                return ;
            },
        };
        let clients_in_room = room.get_clients();
        (room.get_host() == sender_id, godot_id, ids_without(&clients_in_room, sender_id))
    };
    if is_host {
        apps.remove_room(app_id, room_id);
        kick_and_forget(transport, clients, &other_peers, out);
    } else {
        apps.remove_peer(app_id, room_id, sender_id);
        let ghost reg = transport@;
        let ghost out0 = out@;
        let mut i: usize = 0;
        while i < other_peers.len()
            invariant
                i <= other_peers@.len(),
                transport@ == reg,
                outbound_views(out@) == outbound_views(out0) + peer_left_notices(reg, other_peers@.take(i as int), godot_id),
            decreases other_peers@.len() - i,
        {
            let target = other_peers[i];
            let notice = transport.send(target, PacketType::PeerLeftRoom { peer_id: godot_id }, Channel::Reliable);
            let ghost prev = out@;
            let ghost nv = notice@;
            out.push(notice);
            assert(outbound_views(out@) =~= outbound_views(prev).push(nv));
            assert(other_peers@.take(i + 1) =~= other_peers@.take(i as int).push(target));
            assert(peer_left_notices(reg, other_peers@.take(i + 1), godot_id) =~= peer_left_notices(reg, other_peers@.take(i as int), godot_id).push(nv));
            i = i + 1;
            assert(outbound_views(out@) =~= outbound_views(out0) + peer_left_notices(reg, other_peers@.take(i as int), godot_id));
        }
        assert(other_peers@.take(i as int) =~= other_peers@);
    }
}

/// A client's connection is gone: it is forgotten, and if it was in a room its
/// departure from the room is handled. Returns the work for the transports.
pub fn handle_client_disconnect(
    transport: &mut TransportRegistry,
    clients: &mut Clients,
    apps: &mut Apps,
    client_id: u64,
) -> (res: Vec<Outbound>)
    ensures
        ({
            let e = disconnect_effect(old(transport)@, old(clients)@, old(apps)@.apps, client_id);
            &&& outbound_views(res@) == e.actions
            &&& final(transport)@ == e.transports
            &&& final(clients)@ == e.clients
            &&& final(apps)@.apps == e.apps
        }),
        final(apps)@.next_app_id == old(apps)@.next_app_id,
        final(apps)@.next_room_id == old(apps)@.next_room_id,
        old(apps)@.wf() ==> final(apps)@.wf(),
{
    let mut out: Vec<Outbound> = Vec::new();
    match clients.remove(client_id) {
        None => {},
        Some(ClientState::InRoom { app_id, room_id }) => {
            handle_room_disconnect(transport, clients, apps, client_id, app_id, room_id, &mut out);
            assert(outbound_views(out@) =~= outbound_views(Seq::<Outbound>::empty()) + outbound_views(out@));
        },
        Some(_) => {},
    }
    out
}

/// Decides what happens to the relay state when clients leave. It owns the
/// state it works on while it is in use.
pub struct DisconnectHandler {
    pub transport: TransportRegistry,
    pub clients: Clients,
    pub apps: Apps,
}

impl DisconnectHandler {
    /// A handler working on the given relay state.
    pub fn new(transport: TransportRegistry, clients: Clients, apps: Apps) -> (res: Self)
        ensures
            res.transport@ == transport@,
            res.clients@ == clients@,
            res.apps@ == apps@,
    {
        DisconnectHandler { transport, clients, apps }
    }

    /// A client's connection is gone; see `handle_client_disconnect`.
    pub fn handle_disconnect(&mut self, client_id: u64) -> (res: Vec<Outbound>)
        ensures
            ({
                let e = disconnect_effect(
                    old(self).transport@,
                    old(self).clients@,
                    old(self).apps@.apps,
                    client_id,
                );
                &&& outbound_views(res@) == e.actions
                &&& final(self).transport@ == e.transports
                &&& final(self).clients@ == e.clients
                &&& final(self).apps@.apps == e.apps
            }),
            final(self).apps@.next_app_id == old(self).apps@.next_app_id,
            final(self).apps@.next_room_id == old(self).apps@.next_room_id,
            old(self).apps@.wf() ==> final(self).apps@.wf(),
    {
        handle_client_disconnect(&mut self.transport, &mut self.clients, &mut self.apps, client_id)
    }

    /// Drops a client: tells it so and has its transport forget it. The client
    /// list and the rooms are left as they are.
    pub fn force_disconnect(&mut self, target_client: u64) -> (res: Vec<Outbound>)
        ensures
            outbound_views(res@) == force_disconnect_effect(old(self).transport@, target_client).0,
            final(self).transport@ == force_disconnect_effect(old(self).transport@, target_client).1,
            final(self).clients@ == old(self).clients@,
            final(self).apps@ == old(self).apps@,
    {
        let mut out: Vec<Outbound> = Vec::new();
        force_disconnect(&mut self.transport, target_client, &mut out);
        assert(outbound_views(out@) =~= force_disconnect_effect(old(self).transport@, target_client).0);
        out
    }

    /// Hands the relay state back.
    pub fn into_parts(self) -> (res: (TransportRegistry, Clients, Apps))
        ensures
            res.0@ == self.transport@,
            res.1@ == self.clients@,
            res.2@ == self.apps@,
    {
        (self.transport, self.clients, self.apps)
    }
}

/// Forced disconnects of `targets` in order.
pub fn kick_targets(transport: &mut TransportRegistry, targets: &Vec<u64>, out: &mut Vec<Outbound>)
    ensures
        outbound_views(final(out)@) == outbound_views(old(out)@) + kick_all(old(transport)@, targets@).0,
        final(transport)@ == kick_all(old(transport)@, targets@).1,
{
    let ghost reg0 = transport@;
    let ghost out0 = out@;
    let mut i: usize = 0;
    while i < targets.len()
        invariant
            i <= targets@.len(),
            outbound_views(out@) == outbound_views(out0) + kick_all(reg0, targets@.take(i as int)).0,
            transport@ == kick_all(reg0, targets@.take(i as int)).1,
        decreases targets@.len() - i,
    {
        let target = targets[i];
        force_disconnect(transport, target, out);
        proof {
            let t = targets@.take(i + 1);
            assert(t.drop_last() =~= targets@.take(i as int));
            assert(outbound_views(out@) =~= outbound_views(out0) + kick_all(reg0, t).0);
        }
        i = i + 1;
    }
    assert(targets@.take(i as int) =~= targets@);
}

} // verus!
