//! Relay server logic.

pub mod apps;
pub mod auth;
pub mod clients;
pub mod config;
pub mod disconnect;
pub mod log_level;
pub mod events;
pub mod laws;
pub mod relay;
pub mod signaling;
pub mod webrtc_interface;
pub mod registry;
