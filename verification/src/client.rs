//! Client-side logic: signaling with the relay over WebRTC and the game peer's
//! packet queues.

pub mod error;
pub mod events;
pub mod laws;
pub mod peer;
pub mod url;
pub mod webrtc;
