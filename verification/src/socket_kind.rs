//! Role markers of a datagram probe socket.

use vstd::prelude::*;

verus! {

/// The reflecting role: the socket learns its peer from the first datagram.
pub struct Server {}

/// The initiating role: the socket is made with its peer.
pub struct Client {}

} // verus!
