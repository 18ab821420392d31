//! The failures that the harness tells apart.

use vstd::prelude::*;

verus! {

#[derive(Clone, Copy, Debug, PartialEq, Eq, Structural)]
pub enum LatencyError {
    /// A socket could not be bound or connected.
    Connectivity,
    /// A datagram came from an address other than the pinned peer.
    PeerMismatch,
    /// The handshake was not completed before its deadline.
    HandshakeTimeout,
    /// A send or receive failed in the middle of a session.
    TransportIo,
}

impl LatencyError {
    /// A short description of the failure.
    pub fn message(&self) -> (r: &'static str)
        ensures
            *self == LatencyError::Connectivity ==> r@ == "socket setup failed"@,
            *self == LatencyError::PeerMismatch ==> r@ == "recv from wrong addr"@,
            *self == LatencyError::HandshakeTimeout ==> r@ == "handshake timeout"@,
            *self == LatencyError::TransportIo ==> r@ == "transport i/o failed"@,
    {
        match self {
            LatencyError::Connectivity => "socket setup failed",
            LatencyError::PeerMismatch => "recv from wrong addr",
            LatencyError::HandshakeTimeout => "handshake timeout",
            LatencyError::TransportIo => "transport i/o failed",
        }
    }
}

} // verus!
