//! The set of connected clients and the protocol state of each.

use std::collections::HashMap;
use vstd::prelude::*;

verus! {

broadcast use vstd::std_specs::hash::group_hash_axioms;

/// Where a client stands in the protocol.
#[derive(Clone, Copy, Debug, PartialEq, Eq, Structural)]
pub enum ClientState {
    /// Connected at the transport level, not yet authenticated.
    Connected,
    /// Authenticated for an application.
    Authenticated { app_id: u64 },
    /// Member of a room of an application.
    InRoom { app_id: u64, room_id: u64 },
}

/// Connected clients, keyed by client id.
pub struct Clients {
    clients: HashMap<u64, ClientState>,
}

impl View for Clients {
    type V = Map<u64, ClientState>;

    closed spec fn view(&self) -> Map<u64, ClientState> {
        self.clients@
    }
}

impl Clients {
    /// No client is connected.
    pub fn new() -> (res: Self)
        ensures
            res@ == Map::<u64, ClientState>::empty(),
    {
        Clients { clients: HashMap::new() }
    }

    /// Records a newly connected client in the `Connected` state.
    pub fn create(&mut self, client_id: u64)
        ensures
            final(self)@ == old(self)@.insert(client_id, ClientState::Connected),
    {
        self.clients.insert(client_id, ClientState::Connected);
    }

    /// The state of a client, if it is connected.
    pub fn get(&self, client_id: u64) -> (res: Option<ClientState>)
        ensures
            res == (if self@.contains_key(client_id) {
                Some(self@[client_id])
            } else {
                None
            }),
    {
        match self.clients.get(&client_id) {
            Some(state) => Some(*state),
            None => None,
        }
    }

    /// Whether a client is connected.
    pub fn contains(&self, client_id: u64) -> (res: bool)
        ensures
            res == self@.contains_key(client_id),
    {
        self.clients.contains_key(&client_id)
    }

    /// Sets the state of a connected client; returns whether it was connected.
    pub fn set_state(&mut self, client_id: u64, state: ClientState) -> (res: bool)
        ensures
            res == old(self)@.contains_key(client_id),
            final(self)@ == (if res {
                old(self)@.insert(client_id, state)
            } else {
                old(self)@
            }),
    {
        if self.clients.contains_key(&client_id) {
            self.clients.insert(client_id, state);
            true
        } else {
            false
        }
    }

    /// Forgets a client; returns the state it had.
    pub fn remove(&mut self, client_id: u64) -> (res: Option<ClientState>)
        ensures
            final(self)@ == old(self)@.remove(client_id),
            res == (if old(self)@.contains_key(client_id) {
                Some(old(self)@[client_id])
            } else {
                None
            }),
    {
        self.clients.remove(&client_id)
    }
}

} // verus!
