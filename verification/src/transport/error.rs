//! Transport errors of the relay.

use vstd::prelude::*;

verus! {

/// An I/O failure reported by the operating system.
#[verifier::external_type_specification]
#[verifier::external_body]
pub struct ExIoError(std::io::Error);

/// A clock reading earlier than the epoch it was measured from.
#[verifier::external_type_specification]
#[verifier::external_body]
pub struct ExSystemTimeError(std::time::SystemTimeError);

/// The text `Display` gives for an I/O error (`ToString` of
/// `std::io::Error`). For an error of the operating system it is the system's
/// message, which depends on the platform, so nothing is stated of it.
#[verifier::external_body]
pub(crate) fn io_error_text(e: &std::io::Error) -> (res: String) {
    e.to_string()
}

/// The text `Display` gives for a clock error (`ToString` of
/// `std::time::SystemTimeError`). Its documentation does not give the text, so
/// nothing is stated of it.
#[verifier::external_body]
pub(crate) fn clock_error_text(e: &std::time::SystemTimeError) -> (res: String) {
    e.to_string()
}

/// Appends the text of an I/O error to a message.
fn with_io_text(prefix: &str, e: &std::io::Error) -> (res: String)
    ensures
        prefix@.is_prefix_of(res@),
{
    let mut s = prefix.to_owned();
    let t = io_error_text(e);
    s.append(t.as_str());
    assert(s@.subrange(0, prefix@.len() as int) =~= prefix@);
    s
}

/// Appends the text of a clock error to a message.
fn with_clock_text(prefix: &str, e: &std::time::SystemTimeError) -> (res: String)
    ensures
        prefix@.is_prefix_of(res@),
{
    let mut s = prefix.to_owned();
    let t = clock_error_text(e);
    s.append(t.as_str());
    assert(s@.subrange(0, prefix@.len() as int) =~= prefix@);
    s
}

/// Why a transport operation failed.
#[derive(Debug)]
pub enum TransportError {
    /// The UDP socket could not be bound.
    BindError(std::io::Error),
    /// A packet could not be sent.
    SendError(std::io::Error),
    /// A packet could not be received.
    RecvError(std::io::Error),
    /// The clock went backwards.
    ClockError(std::time::SystemTimeError),
    /// The UDP server could not be created.
    NetcodeCreationFailed(std::io::Error),
    /// Any other I/O failure.
    IoError(std::io::Error),
    /// A failure described by a message.
    Other(String),
}

impl TransportError {
    /// A failure described by a message.
    pub fn other(message: &str) -> (res: Self)
        ensures
            res matches TransportError::Other(m) && m@ == message@,
    {
        TransportError::Other(message.to_owned())
    }

    /// The failure as text: a fixed description of the variant followed by the
    /// text of the underlying error; an `Other` failure is its message.
    pub fn describe(&self) -> (res: String)
        ensures
            match self {
                TransportError::BindError(_) => "Failed to bind UDP socket: "@.is_prefix_of(res@),
                TransportError::SendError(_) => "Failed to send packet: "@.is_prefix_of(res@),
                TransportError::RecvError(_) => "Failed to recv packet: "@.is_prefix_of(res@),
                TransportError::ClockError(_) => "Clock may have gone backwards: "@.is_prefix_of(res@),
                TransportError::NetcodeCreationFailed(_) => "Failed to create Netcode server udp: "@.is_prefix_of(
                    res@,
                ),
                TransportError::IoError(_) => "IO error: "@.is_prefix_of(res@),
                TransportError::Other(m) => res@ == m@,
            },
    {
        match self {
            TransportError::BindError(e) => with_io_text("Failed to bind UDP socket: ", e),
            TransportError::SendError(e) => with_io_text("Failed to send packet: ", e),
            TransportError::RecvError(e) => with_io_text("Failed to recv packet: ", e),
            TransportError::ClockError(e) => with_clock_text("Clock may have gone backwards: ", e),
            TransportError::NetcodeCreationFailed(e) => with_io_text("Failed to create Netcode server udp: ", e),
            TransportError::IoError(e) => with_io_text("IO error: ", e),
            TransportError::Other(m) => m.clone(),
        }
    }

    /// The message of an `Other` failure.
    pub fn message(&self) -> (res: Option<&str>)
        ensures
            match self {
                TransportError::Other(m) => res matches Some(r) && r@ == m@,
                _ => res is None,
            },
    {
        match self {
            TransportError::Other(m) => Some(m.as_str()),
            _ => None,
        }
    }
}

impl From<String> for TransportError {
    fn from(err: String) -> (res: Self) {
        TransportError::Other(err)
    }
}

impl vstd::std_specs::convert::FromSpecImpl<String> for TransportError {
    open spec fn obeys_from_spec() -> bool {
        true
    }

    open spec fn from_spec(v: String) -> Self {
        TransportError::Other(v)
    }
}

impl From<&str> for TransportError {
    fn from(err: &str) -> (res: Self) {
        TransportError::other(err)
    }
}

/// The failure built from a message slice is an `Other` failure with that
/// message (see `TransportError::other`); as no string value can be named from
/// characters alone, the conversion's own contract claims nothing.
impl vstd::std_specs::convert::FromSpecImpl<&str> for TransportError {
    open spec fn obeys_from_spec() -> bool {
        false
    }

    open spec fn from_spec(v: &str) -> Self {
        vstd::pervasive::arbitrary()
    }
}

impl From<std::io::Error> for TransportError {
    fn from(err: std::io::Error) -> (res: Self) {
        TransportError::IoError(err)
    }
}

impl vstd::std_specs::convert::FromSpecImpl<std::io::Error> for TransportError {
    open spec fn obeys_from_spec() -> bool {
        true
    }

    open spec fn from_spec(v: std::io::Error) -> Self {
        TransportError::IoError(v)
    }
}

impl From<std::time::SystemTimeError> for TransportError {
    fn from(err: std::time::SystemTimeError) -> (res: Self) {
        TransportError::ClockError(err)
    }
}

impl vstd::std_specs::convert::FromSpecImpl<std::time::SystemTimeError> for TransportError {
    open spec fn obeys_from_spec() -> bool {
        true
    }

    open spec fn from_spec(v: std::time::SystemTimeError) -> Self {
        TransportError::ClockError(v)
    }
}

} // verus!
