//! Verified core of the NodeTunnel relay: the relay server's client, room and
//! transport bookkeeping, its packet routing and disconnect handling, the WebRTC
//! channel registry, and the client-side signaling and packet-queue logic.

pub mod client;
pub mod codec;
pub mod protocol;
pub mod seq_util;
pub mod server;
pub mod transport;
