//! Errors of the client side.

use crate::transport::error::{clock_error_text, io_error_text};
use vstd::prelude::*;

verus! {

/// Why a client transport operation failed.
#[derive(Debug)]
pub enum TransportError {
    /// An I/O failure.
    IoError(std::io::Error),
    /// The clock went backwards.
    ClockError(std::time::SystemTimeError),
    /// A failure described by a message.
    Other(String),
}

/// Appends text to a message.
fn joined(prefix: &str, text: String) -> (res: String)
    ensures
        res@ == prefix@ + text@,
{
    let mut s = prefix.to_owned();
    s.append(text.as_str());
    s
}

impl TransportError {
    /// A failure described by a message.
    pub fn other(message: &str) -> (res: Self)
        ensures
            res matches TransportError::Other(m) && m@ == message@,
    {
        TransportError::Other(message.to_owned())
    }

    /// The failure as text: a fixed description of the variant followed by the
    /// text of the underlying error; an `Other` failure is its message.
    pub fn describe(&self) -> (res: String)
        ensures
            match self {
                TransportError::IoError(_) => "IO error: "@.is_prefix_of(res@),
                TransportError::ClockError(_) => "Clock may have gone backwards: "@.is_prefix_of(res@),
                TransportError::Other(m) => res@ == m@,
            },
    {
        let res = match self {
            TransportError::IoError(e) => joined("IO error: ", io_error_text(e)),
            TransportError::ClockError(e) => joined("Clock may have gone backwards: ", clock_error_text(e)),
            TransportError::Other(m) => m.clone(),
        };
        proof {
            match self {
                TransportError::IoError(_) => {
                    assert(res@.subrange(0, "IO error: "@.len() as int) =~= "IO error: "@);
                },
                TransportError::ClockError(_) => {
                    assert(res@.subrange(0, "Clock may have gone backwards: "@.len() as int)
                        =~= "Clock may have gone backwards: "@);
                },
                TransportError::Other(_) => {},
            }
        }
        res
    }
}

impl From<std::io::Error> for TransportError {
    fn from(err: std::io::Error) -> (res: Self) {
        TransportError::IoError(err)
    }
}

impl vstd::std_specs::convert::FromSpecImpl<std::io::Error> for TransportError {
    open spec fn obeys_from_spec() -> bool {
        true
    }

    open spec fn from_spec(v: std::io::Error) -> Self {
        TransportError::IoError(v)
    }
}

impl From<std::time::SystemTimeError> for TransportError {
    fn from(err: std::time::SystemTimeError) -> (res: Self) {
        TransportError::ClockError(err)
    }
}

impl vstd::std_specs::convert::FromSpecImpl<std::time::SystemTimeError> for TransportError {
    open spec fn obeys_from_spec() -> bool {
        true
    }

    open spec fn from_spec(v: std::time::SystemTimeError) -> Self {
        TransportError::ClockError(v)
    }
}

/// Why a request to the relay could not be made.
#[derive(Debug)]
pub enum RelayClientError {
    /// No transport to the relay exists yet.
    TransportNotInitialized,
    /// The transport failed.
    TransportError(TransportError),
    /// A packet of an unexpected type arrived.
    InvalidPacketType,
    /// A packet could not be parsed.
    PacketParsingError,
}

impl RelayClientError {
    /// The failure as text; a transport failure is described after
    /// "Transport error: ".
    pub fn describe(&self) -> (res: String)
        ensures
            match self {
                RelayClientError::TransportNotInitialized => res@ == "Transport not initialized"@,
                RelayClientError::TransportError(e) => match e {
                    TransportError::Other(m) => res@ == "Transport error: "@ + m@,
                    TransportError::IoError(_) => ("Transport error: "@ + "IO error: "@).is_prefix_of(res@),
                    TransportError::ClockError(_) => ("Transport error: "@
                        + "Clock may have gone backwards: "@).is_prefix_of(res@),
                },
                RelayClientError::InvalidPacketType => res@ == "Invalid packet type"@,
                RelayClientError::PacketParsingError => res@ == "Packet parsing error"@,
            },
    {
        match self {
            RelayClientError::TransportNotInitialized => "Transport not initialized".to_owned(),
            RelayClientError::TransportError(e) => {
                let inner = e.describe();
                let res = joined("Transport error: ", inner);
                proof {
                    let p = "Transport error: "@;
                    match e {
                        TransportError::IoError(_) => {
                            let q = "IO error: "@;
                            assert(res@.subrange(0, (p + q).len() as int) =~= p + q);
                        },
                        TransportError::ClockError(_) => {
                            let q = "Clock may have gone backwards: "@;
                            assert(res@.subrange(0, (p + q).len() as int) =~= p + q);
                        },
                        TransportError::Other(_) => {},
                    }
                }
                res
            },
            RelayClientError::InvalidPacketType => "Invalid packet type".to_owned(),
            RelayClientError::PacketParsingError => "Packet parsing error".to_owned(),
        }
    }
}

impl From<TransportError> for RelayClientError {
    fn from(err: TransportError) -> (res: Self) {
        RelayClientError::TransportError(err)
    }
}

impl vstd::std_specs::convert::FromSpecImpl<TransportError> for RelayClientError {
    open spec fn obeys_from_spec() -> bool {
        true
    }

    open spec fn from_spec(v: TransportError) -> Self {
        RelayClientError::TransportError(v)
    }
}

} // verus!
