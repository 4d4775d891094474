//! Which transport each client is reached through.

use crate::protocol::{Channel, PacketType, PacketView};
use std::collections::HashMap;
use vstd::prelude::*;

verus! {

broadcast use vstd::std_specs::hash::group_hash_axioms;

/// The transport a client was registered with.
#[derive(Clone, Copy, Debug, PartialEq, Eq, Structural)]
pub enum ClientTransport {
    Udp,
    WebRTC,
}

/// The transport backend an outgoing packet or a removal goes to.
#[derive(Clone, Copy, Debug, PartialEq, Eq, Structural)]
pub enum Route {
    Udp,
    WebRTC,
}

/// Work for the transport backends that a decision of the relay produces.
#[derive(Debug)]
pub enum Outbound {
    /// Deliver `packet` to `target` over `route`.
    Send { route: Route, target: u64, packet: PacketType, channel: Channel },
    /// Tell the `route` backend to forget `target`.
    Release { route: Route, target: u64 },
}

/// Abstract content of the work for a backend.
pub enum OutboundView {
    Send { route: Route, target: u64, packet: PacketView, channel: Channel },
    Release { route: Route, target: u64 },
}

impl View for Outbound {
    type V = OutboundView;

    open spec fn view(&self) -> OutboundView {
        match self {
            Outbound::Send { route, target, packet, channel } => OutboundView::Send {
                route: *route,
                target: *target,
                packet: packet@,
                channel: *channel,
            },
            Outbound::Release { route, target } => OutboundView::Release { route: *route, target: *target },
        }
    }
}

/// Abstract content of a list of work items.
pub open spec fn outbound_views(s: Seq<Outbound>) -> Seq<OutboundView> {
    s.map_values(|o: Outbound| o@)
}

/// The route for a client: its registered transport, UDP for a client that is
/// not registered.
pub open spec fn route_of(reg: Map<u64, ClientTransport>, client_id: u64) -> Route {
    if reg.contains_key(client_id) && reg[client_id] == ClientTransport::WebRTC {
        Route::WebRTC
    } else {
        Route::Udp
    }
}

/// The backend that a registered transport belongs to.
pub open spec fn backend_of(t: ClientTransport) -> Route {
    match t {
        ClientTransport::Udp => Route::Udp,
        ClientTransport::WebRTC => Route::WebRTC,
    }
}

/// Client id to transport.
pub struct TransportRegistry {
    transports: HashMap<u64, ClientTransport>,
}

impl View for TransportRegistry {
    type V = Map<u64, ClientTransport>;

    closed spec fn view(&self) -> Map<u64, ClientTransport> {
        self.transports@
    }
}

impl TransportRegistry {
    /// No client registered.
    pub fn new() -> (res: Self)
        ensures
            res@ == Map::<u64, ClientTransport>::empty(),
    {
        TransportRegistry { transports: HashMap::new() }
    }

    /// Registers a client that came in over UDP.
    pub fn register_udp_client(&mut self, client_id: u64)
        ensures
            final(self)@ == old(self)@.insert(client_id, ClientTransport::Udp),
    {
        self.transports.insert(client_id, ClientTransport::Udp);
    }

    /// Registers a client that came in over WebRTC.
    pub fn register_webrtc_client(&mut self, client_id: u64)
        ensures
            final(self)@ == old(self)@.insert(client_id, ClientTransport::WebRTC),
    {
        self.transports.insert(client_id, ClientTransport::WebRTC);
    }

    /// The route to a client: its registered transport, or UDP for a client that
    /// is not registered.
    pub fn route(&self, client_id: u64) -> (res: Route)
        ensures
            res == route_of(self@, client_id),
    {
        match self.transports.get(&client_id) {
            Some(ClientTransport::WebRTC) => Route::WebRTC,
            Some(ClientTransport::Udp) => Route::Udp,
            None => Route::Udp,
        }
    }

    /// Addresses a packet to a client over the client's route.
    pub fn send(&self, client_id: u64, packet: PacketType, channel: Channel) -> (res: Outbound)
        ensures
            res@ == (OutboundView::Send { route: route_of(self@, client_id), target: client_id, packet: packet@, channel }),
    {
        Outbound::Send { route: self.route(client_id), target: client_id, packet, channel }
    }

    /// Forgets a client; for a registered client, the backend it was registered
    /// with is told to forget it too.
    pub fn remove_client(&mut self, client_id: u64) -> (res: Option<Outbound>)
        ensures
            final(self)@ == old(self)@.remove(client_id),
            match res {
                Some(o) => old(self)@.contains_key(client_id) && o@ == (OutboundView::Release {
                    route: backend_of(old(self)@[client_id]),
                    target: client_id,
                }),
                None => !old(self)@.contains_key(client_id),
            },
    {
        match self.transports.remove(&client_id) {
            Some(ClientTransport::WebRTC) => Some(Outbound::Release { route: Route::WebRTC, target: client_id }),
            Some(ClientTransport::Udp) => Some(Outbound::Release { route: Route::Udp, target: client_id }),
            None => None,
        }
    }

    /// Whether a client is registered.
    pub fn is_client_registered(&self, client_id: u64) -> (res: bool)
        ensures
            res == self@.contains_key(client_id),
    {
        self.transports.contains_key(&client_id)
    }

    /// Every registered client, each once, in the order the map hands them out.
    pub fn registered_clients(&self) -> (res: Vec<u64>)
        ensures
            res@.to_set() == self@.dom(),
            res@.no_duplicates(),
    {
        let mut res: Vec<u64> = Vec::new();
        for k in it: self.transports.keys()
            invariant
                it.seq().unref().to_set() == self@.dom(),
                it.seq().unref().no_duplicates(),
                res@ == it.seq().unref().take(it.index() as int),
                it.index() == it.seq().len() ==> res@ == it.seq().unref(),
            ensures
                res@.to_set() == self@.dom(),
                res@.no_duplicates(),
        {
            res.push(*k);
            proof {
                assert(res@ =~= it.seq().unref().take(it.index() + 1));
                assert(it.index() + 1 == it.seq().len() ==> it.seq().unref().take(it.index() + 1)
                    =~= it.seq().unref());
            }
        }
        res
    }

    /// Whether some client is reached over WebRTC (the WebRTC backend is then in
    /// use).
    pub fn webrtc(&self) -> (res: bool)
        ensures
            res == self@.values().contains(ClientTransport::WebRTC),
    {
        for t in it: self.transports.values()
            invariant
                it.seq().unref().to_set() == self@.values(),
                self@.values().contains(ClientTransport::WebRTC) ==> exists|j: int|
                    it.index() <= j < it.seq().len() && *it.seq()[j] == ClientTransport::WebRTC,
        {
            if *t == ClientTransport::WebRTC {
                proof {
                    let k = it.index();
                    assert(it.seq().unref()[k] == ClientTransport::WebRTC);
                    assert(it.seq().unref().contains(ClientTransport::WebRTC));
                }
                return true;
            }
        }
        false
    }
}

} // verus!