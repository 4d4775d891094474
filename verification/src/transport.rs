//! Errors shared by the relay's transports.

pub mod error;
