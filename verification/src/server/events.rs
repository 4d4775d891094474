//! Events the transports report to the relay.

use crate::protocol::Channel;
use vstd::prelude::*;

verus! {

/// Something that happened at the transport level.
#[derive(Debug)]
pub enum ServerEvent {
    ClientConnected { client_id: u64 },
    ClientDisconnected { client_id: u64 },
    PacketReceived { client_id: u64, data: Vec<u8>, channel: Channel },
}

/// Abstract content of a transport event.
pub enum ServerEventView {
    ClientConnected { client_id: u64 },
    ClientDisconnected { client_id: u64 },
    PacketReceived { client_id: u64, data: Seq<u8>, channel: Channel },
}

impl View for ServerEvent {
    type V = ServerEventView;

    open spec fn view(&self) -> ServerEventView {
        match self {
            ServerEvent::ClientConnected { client_id } => ServerEventView::ClientConnected { client_id: *client_id },
            ServerEvent::ClientDisconnected { client_id } => ServerEventView::ClientDisconnected {
                client_id: *client_id,
            },
            ServerEvent::PacketReceived { client_id, data, channel } => ServerEventView::PacketReceived {
                client_id: *client_id,
                data: data@,
                channel: *channel,
            },
        }
    }
}

} // verus!
