//! The error kinds visible at the core's boundary.

use vstd::prelude::*;
use crate::grammar::ParseError;

verus! {

/// What can go wrong between the caller and the wire.
#[derive(Clone, Copy, Debug, PartialEq, Eq, Structural)]
pub enum ClientError {
    /// Empty address list, unrecognized URL scheme, or an unparseable
    /// address.
    AddressInvalid,
    /// The underlying socket read or write failed.
    IoFailed,
    /// A read returned zero bytes in the middle of a frame.
    ConnectionReset,
    /// The first frame from the server was not INFO.
    HandshakeUnexpected,
    /// Invalid server name or a failed TLS negotiation.
    TlsUpgradeFailed,
    /// A frame did not parse.
    ProtocolMalformed(ParseError),
    /// The command queue is closed: the event loop has terminated.
    EnqueueFailed,
    /// A request received no reply: the subscription closed first.
    DeliveryGone,
}

} // verus!
