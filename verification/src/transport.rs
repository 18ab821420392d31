//! The transport capability and the datagram probe socket.

use vstd::prelude::*;
use crate::addr::PeerAddr;
use crate::error::LatencyError;
use crate::socket_kind::{Client, Server};

verus! {

/// The peer that a transport is pinned to after it took a datagram from
/// `from`: the peer it had, or `from` where it had none.
pub open spec fn peer_after(peer: Option<PeerAddr>, from: PeerAddr) -> Option<PeerAddr> {
    match peer {
        Some(p) => Some(p),
        None => Some(from),
    }
}

/// What a receive of `len` bytes from `from` returns on a transport pinned
/// to `peer`.
pub open spec fn recv_outcome(peer: Option<PeerAddr>, len: usize, from: PeerAddr) -> Result<
    usize,
    LatencyError,
> {
    match peer {
        Some(p) => if p == from {
            Ok(len)
        } else {
            Err(LatencyError::PeerMismatch)
        },
        None => Ok(len),
    }
}

/// Where a send on a transport pinned to `peer` goes. A transport that has
/// no peer yet has nowhere to send.
pub open spec fn send_outcome(peer: Option<PeerAddr>) -> Result<PeerAddr, LatencyError> {
    match peer {
        Some(p) => Ok(p),
        None => Err(LatencyError::TransportIo),
    }
}

/// One use of a transport.
#[derive(Clone, Copy, Debug, PartialEq, Eq, Structural)]
pub enum SocketOp {
    /// A send of a buffer.
    Send,
    /// A receive of a datagram that arrived from `from`.
    Recv { from: PeerAddr },
}

/// The peer of a transport after one use.
pub open spec fn peer_after_op(peer: Option<PeerAddr>, op: SocketOp) -> Option<PeerAddr> {
    match op {
        SocketOp::Send => peer,
        SocketOp::Recv { from } => peer_after(peer, from),
    }
}

/// The peer of a transport after a run of uses, in order.
pub open spec fn peer_after_ops(peer: Option<PeerAddr>, ops: Seq<SocketOp>) -> Option<PeerAddr>
    decreases ops.len(),
{
    if ops.len() == 0 {
        peer
    } else {
        peer_after_op(peer_after_ops(peer, ops.drop_last()), ops.last())
    }
}

/// Send and receive over an established peer. The caller owns the socket:
/// `send` says where a buffer is to go, and `recv` judges a datagram that the
/// socket delivered.
pub trait Latency {
    /// The peer that the transport is pinned to.
    spec fn peer(&self) -> Option<PeerAddr>;

    /// The address that `buf` is to be sent to.
    fn send(&mut self, buf: &[u8]) -> (r: Result<PeerAddr, LatencyError>)
        ensures
            final(self).peer() == old(self).peer(),
            r == send_outcome(old(self).peer()),
    ;

    /// Judges a datagram of `len` bytes that arrived from `from`: the number
    /// of bytes to process, or `PeerMismatch` for a datagram of a stranger.
    fn recv(&mut self, len: usize, from: PeerAddr) -> (r: Result<usize, LatencyError>)
        ensures
            final(self).peer() == peer_after(old(self).peer(), from),
            r == recv_outcome(old(self).peer(), len, from),
    ;
}

/// A datagram probe socket in the role `Kind`.
pub struct UdpLatency<Kind> {
    local: Option<PeerAddr>,
    peer: Option<PeerAddr>,
    kind: core::marker::PhantomData<Kind>,
}

impl<Kind> UdpLatency<Kind> {
    /// The address that the socket is bound to, where one was asked for.
    pub closed spec fn spec_local(&self) -> Option<PeerAddr> {
        self.local
    }

    pub fn local(&self) -> (r: Option<PeerAddr>)
        ensures
            r == self.spec_local(),
    {
        self.local
    }

    /// The peer that the socket is pinned to, if it has one yet.
    pub fn peer_addr(&self) -> (r: Option<PeerAddr>)
        ensures
            r == self.peer(),
    {
        self.peer
    }
}

impl UdpLatency<Server> {
    /// A reflector bound to `local`, with no peer yet.
    pub fn new(local: PeerAddr) -> (r: Self)
        ensures
            r.peer() == None::<PeerAddr>,
            r.spec_local() == Some(local),
    {
        UdpLatency { local: Some(local), peer: None, kind: core::marker::PhantomData }
    }
}

impl UdpLatency<Client> {
    /// An initiator pinned to `remote`, bound to no address of its choosing.
    pub fn new(remote: PeerAddr) -> (r: Self)
        ensures
            r.peer() == Some(remote),
            r.spec_local() == None::<PeerAddr>,
    {
        UdpLatency { local: None, peer: Some(remote), kind: core::marker::PhantomData }
    }
}

impl<Kind> Latency for UdpLatency<Kind> {
    closed spec fn peer(&self) -> Option<PeerAddr> {
        self.peer
    }

    fn send(&mut self, buf: &[u8]) -> (r: Result<PeerAddr, LatencyError>)
        ensures
            final(self).spec_local() == old(self).spec_local(),
    {
        match self.peer {
            Some(p) => Ok(p),
            None => Err(LatencyError::TransportIo),
        }
    }

    fn recv(&mut self, len: usize, from: PeerAddr) -> (r: Result<usize, LatencyError>)
        ensures
            final(self).spec_local() == old(self).spec_local(),
    {
        match self.peer {
            Some(p) => {
                if p == from {
                    Ok(len)
                } else {
                    Err(LatencyError::PeerMismatch)
                }
            },
            None => {
                self.peer = Some(from);
                Ok(len)
            },
        }
    }
}

/// A pinned peer stays: whatever sends and receives follow, from
/// whomever, a transport pinned to `p` is pinned to `p` afterwards, so every
/// send goes to `p` and nowhere else.
pub proof fn lemma_pinned_peer_stays(p: PeerAddr, ops: Seq<SocketOp>)
    ensures
        peer_after_ops(Some(p), ops) == Some(p),
        send_outcome(peer_after_ops(Some(p), ops)) == Ok::<PeerAddr, LatencyError>(p),
    decreases ops.len(),
{
    if ops.len() > 0 {
        lemma_pinned_peer_stays(p, ops.drop_last());
    }
}

/// A transport without a peer pins the sender `p` of its first datagram,
/// and from then on, whatever sends and receives follow, refuses a datagram
/// from any other address `q` and stays pinned to `p`.
pub proof fn lemma_first_sender_is_pinned(
    p: PeerAddr,
    ops: Seq<SocketOp>,
    q: PeerAddr,
    first: usize,
    len: usize,
)
    requires
        q != p,
    ensures
        recv_outcome(None, first, p) == Ok::<usize, LatencyError>(first),
        peer_after(None, p) == Some(p),
        recv_outcome(peer_after_ops(peer_after(None, p), ops), len, q) == Err::<
            usize,
            LatencyError,
        >(LatencyError::PeerMismatch),
        peer_after(peer_after_ops(peer_after(None, p), ops), q) == Some(p),
{
    lemma_pinned_peer_stays(p, ops);
}

} // verus!
