//! A socket address as plain values.

use vstd::prelude::*;

verus! {

/// The address of a datagram's sender or receiver. Two addresses are the
/// same peer exactly when every field agrees.
#[derive(Clone, Copy, Debug, PartialEq, Eq, Structural)]
pub enum PeerAddr {
    /// An IPv4 address, its four octets as one big-endian number, and a port.
    V4 { ip4: u32, port: u16 },
    /// An IPv6 address, its sixteen octets as one big-endian number, a port,
    /// the flow label and the scope.
    V6 { ip6: u128, port: u16, flowinfo: u32, scope_id: u32 },
}

} // verus!
