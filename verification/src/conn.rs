//! Connection contexts and the runner that relays between a local pipe and
//! a transport.

use vstd::prelude::*;
use vstd::slice::*;
use crate::addr::PeerAddr;
use crate::conn_state::{Connected, Disconnected};
use crate::error::LatencyError;
use crate::transport::{peer_after, recv_outcome, send_outcome, Latency};
use crate::wire::MAX_FRAME;

verus! {

/// The session's end of one probe connection: a pipe of type `P` and the
/// one-shot cancellation sender, of type `S`, of the paired runner. The
/// sender leaves the context when it is taken and cannot be taken twice.
#[derive(Debug)]
pub struct ConnCtx<P, S, State> {
    pub bidi: P,
    pub stop: Option<S>,
    pub state: core::marker::PhantomData<State>,
}

impl<P, S> ConnCtx<P, S, Disconnected> {
    pub fn new(bidi: P, stop: S) -> (r: Self)
        ensures
            r.bidi == bidi,
            r.stop == Some(stop),
    {
        ConnCtx { bidi, stop: Some(stop), state: core::marker::PhantomData }
    }

    /// The same context once its transport is bound.
    pub fn connect(self) -> (r: ConnCtx<P, S, Connected>)
        ensures
            r.bidi == self.bidi,
            r.stop == self.stop,
    {
        ConnCtx { bidi: self.bidi, stop: self.stop, state: core::marker::PhantomData }
    }
}

impl<P, S, State> ConnCtx<P, S, State> {
    /// Takes the cancellation sender out, if it is still there.
    pub fn take_stop(&mut self) -> (r: Option<S>)
        ensures
            r == old(self).stop,
            final(self).stop is None,
            final(self).bidi == old(self).bidi,
    {
        self.stop.take()
    }
}

/// The cancellation senders that a list of contexts still holds, in the
/// order of the contexts.
pub open spec fn armed_senders<P, S, State>(ctx: Seq<ConnCtx<P, S, State>>) -> Seq<S>
    decreases ctx.len(),
{
    if ctx.len() == 0 {
        Seq::empty()
    } else {
        let before = armed_senders(ctx.drop_last());
        match ctx.last().stop {
            Some(s) => before.push(s),
            None => before,
        }
    }
}

/// Whether every context of the list still holds its sender.
pub open spec fn all_armed<P, S, State>(ctx: Seq<ConnCtx<P, S, State>>) -> bool {
    forall|i: int| 0 <= i < ctx.len() ==> (#[trigger] ctx[i]).stop is Some
}

/// Whether no context of the list holds a sender any more.
pub open spec fn all_spent<P, S, State>(ctx: Seq<ConnCtx<P, S, State>>) -> bool {
    forall|i: int| 0 <= i < ctx.len() ==> (#[trigger] ctx[i]).stop is None
}

/// Takes the cancellation sender out of every context. What comes back is
/// every sender that was still there, each once, in the order of the
/// contexts; the caller fires each. The pipes stay where they are.
pub fn cancel_all<P, S, State>(ctx: &mut Vec<ConnCtx<P, S, State>>) -> (r: Vec<S>)
    ensures
        r@ == armed_senders(old(ctx)@),
        final(ctx)@.len() == old(ctx)@.len(),
        all_spent(final(ctx)@),
        forall|i: int| 0 <= i < old(ctx)@.len() ==> (#[trigger] final(ctx)@[i]).bidi == old(ctx)@[i].bidi,
{
    let mut out: Vec<S> = Vec::new();
    let n: usize = ctx.len();
    let mut i: usize = 0;
    while i < n
        invariant
            i <= n,
            ctx@.len() == n,
            n == old(ctx)@.len(),
            out@ == armed_senders(old(ctx)@.take(i as int)),
            forall|j: int| 0 <= j < i ==> (#[trigger] ctx@[j]).stop is None,
            forall|j: int| i <= j < n ==> (#[trigger] ctx@[j]).stop == old(ctx)@[j].stop,
            forall|j: int| 0 <= j < n ==> (#[trigger] ctx@[j]).bidi == old(ctx)@[j].bidi,
        decreases n - i,
    {
        let taken: Option<S> = ctx[i].take_stop();
        proof {
            let upto = old(ctx)@.take(i + 1);
            assert(upto.drop_last() =~= old(ctx)@.take(i as int));
            assert(upto.last() == old(ctx)@[i as int]);
        }
        match taken {
            Some(s) => {
                out.push(s);
            },
            None => {},
        }
        i = i + 1;
    }
    proof {
        assert(old(ctx)@.take(n as int) =~= old(ctx)@);
    }
    out
}

/// Where every context holds its sender, cancelling hands out one sender for
/// each context: the sender of that context, and no other.
pub proof fn lemma_armed_senders_all<P, S, State>(ctx: Seq<ConnCtx<P, S, State>>)
    requires
        all_armed(ctx),
    ensures
        armed_senders(ctx).len() == ctx.len(),
        forall|i: int| 0 <= i < ctx.len() ==> Some(#[trigger] armed_senders(ctx)[i]) == ctx[i].stop,
    decreases ctx.len(),
{
    if ctx.len() > 0 {
        let before = ctx.drop_last();
        assert forall|i: int| 0 <= i < before.len() implies (#[trigger] before[i]).stop is Some by {
            assert(before[i] == ctx[i]);
        }
        lemma_armed_senders_all(before);
        assert(ctx.last() == ctx[ctx.len() - 1]);
        assert forall|i: int| 0 <= i < ctx.len() implies Some(#[trigger] armed_senders(ctx)[i])
            == ctx[i].stop by {
            if i < before.len() {
                assert(before[i] == ctx[i]);
            }
        }
    }
}

/// Where no context holds a sender any more, cancelling hands out nothing:
/// no sender is ever handed out a second time.
pub proof fn lemma_armed_senders_none<P, S, State>(ctx: Seq<ConnCtx<P, S, State>>)
    requires
        all_spent(ctx),
    ensures
        armed_senders(ctx).len() == 0,
    decreases ctx.len(),
{
    if ctx.len() > 0 {
        let before = ctx.drop_last();
        assert forall|i: int| 0 <= i < before.len() implies (#[trigger] before[i]).stop is None by {
            assert(before[i] == ctx[i]);
        }
        lemma_armed_senders_none(before);
        assert(ctx.last() == ctx[ctx.len() - 1]);
    }
}

/// What a runner does next.
#[derive(Debug, PartialEq, Eq)]
pub enum RunnerAction {
    /// Send these bytes to this address, as one datagram.
    SendToSocket { to: PeerAddr, bytes: Vec<u8> },
    /// Write all of these bytes to the local pipe.
    WriteToPipe { bytes: Vec<u8> },
    /// Leave the loop: cancellation was asked for.
    Exit,
    /// Report the failure and leave the loop. Nothing is tried again.
    Fail(LatencyError),
}

/// A runner's action over sequences of bytes.
pub enum RunnerStep {
    SendToSocket { to: PeerAddr, bytes: Seq<u8> },
    WriteToPipe { bytes: Seq<u8> },
    Exit,
    Fail(LatencyError),
}

impl View for RunnerAction {
    type V = RunnerStep;

    open spec fn view(&self) -> RunnerStep {
        match *self {
            RunnerAction::SendToSocket { to, bytes } => RunnerStep::SendToSocket {
                to,
                bytes: bytes@,
            },
            RunnerAction::WriteToPipe { bytes } => RunnerStep::WriteToPipe { bytes: bytes@ },
            RunnerAction::Exit => RunnerStep::Exit,
            RunnerAction::Fail(e) => RunnerStep::Fail(e),
        }
    }
}

/// Whether a read of `len` bytes into a buffer of `cap` bytes is one that a
/// runner relays: it fits the buffer and the largest frame.
pub open spec fn relayable(cap: nat, len: usize) -> bool {
    len <= cap && len <= MAX_FRAME
}

/// The step after a read from the local pipe into `buf`: `read` is the
/// number of bytes read, or `None` where the read failed. The bytes read go
/// to the transport's peer, unchanged. A read of no bytes is the end of the
/// pipe: its other end is gone, and the runner leaves with it. A buffer
/// without room can read nothing, which is a failure and no end.
pub open spec fn pipe_read_step(peer: Option<PeerAddr>, buf: Seq<u8>, read: Option<usize>) -> RunnerStep {
    match read {
        Some(len) => if !relayable(buf.len(), len) || buf.len() == 0 {
            RunnerStep::Fail(LatencyError::TransportIo)
        } else if len == 0 {
            RunnerStep::Exit
        } else {
            match send_outcome(peer) {
                Ok(to) => RunnerStep::SendToSocket { to, bytes: buf.subrange(0, len as int) },
                Err(e) => RunnerStep::Fail(e),
            }
        },
        None => RunnerStep::Fail(LatencyError::TransportIo),
    }
}

/// The step after a receive from the socket into `buf`: `received` is the
/// number of bytes and the sender's address, or `None` where the receive
/// failed. The bytes of an admitted datagram go to the pipe, unchanged.
pub open spec fn socket_recv_step(
    peer: Option<PeerAddr>,
    buf: Seq<u8>,
    received: Option<(usize, PeerAddr)>,
) -> RunnerStep {
    match received {
        Some((len, from)) => if relayable(buf.len(), len) {
            match recv_outcome(peer, len, from) {
                Ok(n) => RunnerStep::WriteToPipe { bytes: buf.subrange(0, n as int) },
                Err(e) => RunnerStep::Fail(e),
            }
        } else {
            RunnerStep::Fail(LatencyError::TransportIo)
        },
        None => RunnerStep::Fail(LatencyError::TransportIo),
    }
}

/// The transport's peer after that receive: a datagram that is not
/// relayable is not shown to the transport.
pub open spec fn peer_after_recv(
    peer: Option<PeerAddr>,
    cap: nat,
    received: Option<(usize, PeerAddr)>,
) -> Option<PeerAddr> {
    match received {
        Some((len, from)) => if relayable(cap, len) {
            peer_after(peer, from)
        } else {
            peer
        },
        None => peer,
    }
}

/// What a runner can wake up to.
pub enum RunnerEvent<'a> {
    /// The local pipe delivered `read` bytes into `buf`, or failed.
    PipeRead { buf: &'a [u8], read: Option<usize> },
    /// The socket delivered a datagram into `buf`, or failed.
    SocketRecv { buf: &'a [u8], received: Option<(usize, PeerAddr)> },
    /// Cancellation was asked for.
    Stop,
    /// The send that the last step asked for failed.
    SendFailed,
    /// The write to the pipe that the last step asked for failed.
    PipeWriteFailed,
}

/// The step after an event, for a transport pinned to `peer`. A failure of
/// any of the four operations ends the runner; nothing is tried again.
pub open spec fn runner_step(peer: Option<PeerAddr>, ev: RunnerEvent) -> RunnerStep {
    match ev {
        RunnerEvent::PipeRead { buf, read } => pipe_read_step(peer, buf@, read),
        RunnerEvent::SocketRecv { buf, received } => socket_recv_step(peer, buf@, received),
        RunnerEvent::Stop => RunnerStep::Exit,
        RunnerEvent::SendFailed => RunnerStep::Fail(LatencyError::TransportIo),
        RunnerEvent::PipeWriteFailed => RunnerStep::Fail(LatencyError::TransportIo),
    }
}

/// The transport's peer after an event.
pub open spec fn peer_after_event(peer: Option<PeerAddr>, ev: RunnerEvent) -> Option<PeerAddr> {
    match ev {
        RunnerEvent::SocketRecv { buf, received } => peer_after_recv(peer, buf@.len(), received),
        _ => peer,
    }
}

/// Relays between a local pipe of type `P` and a transport, until the
/// cancellation receiver of type `R` fires. The caller waits for the first
/// of the three events and calls the matching step function.
pub struct ConnRunner<T: Latency, P, R> {
    pub bidi: P,
    pub stop: R,
    pub socket: T,
}

impl<T: Latency, P, R> ConnRunner<T, P, R> {
    pub fn new(socket: T, bidi: P, stop: R) -> (r: Self)
        ensures
            r.socket == socket,
            r.bidi == bidi,
            r.stop == stop,
    {
        ConnRunner { bidi, stop, socket }
    }

    /// One step of the relay loop.
    pub fn run(&mut self, ev: RunnerEvent<'_>) -> (r: RunnerAction)
        ensures
            r@ == runner_step(old(self).socket.peer(), ev),
            final(self).socket.peer() == peer_after_event(old(self).socket.peer(), ev),
            final(self).bidi == old(self).bidi,
            final(self).stop == old(self).stop,
    {
        match ev {
            RunnerEvent::PipeRead { buf, read } => self.on_pipe_read(buf, read),
            RunnerEvent::SocketRecv { buf, received } => self.on_socket_recv(buf, received),
            RunnerEvent::Stop => self.on_stop(),
            RunnerEvent::SendFailed => RunnerAction::Fail(LatencyError::TransportIo),
            RunnerEvent::PipeWriteFailed => RunnerAction::Fail(LatencyError::TransportIo),
        }
    }

    /// The local pipe delivered `read` bytes into `buf`, or failed.
    pub fn on_pipe_read(&mut self, buf: &[u8], read: Option<usize>) -> (r: RunnerAction)
        ensures
            r@ == pipe_read_step(old(self).socket.peer(), buf@, read),
            final(self).socket.peer() == old(self).socket.peer(),
            final(self).bidi == old(self).bidi,
            final(self).stop == old(self).stop,
    {
        match read {
            Some(len) => {
                if len > buf.len() || len > MAX_FRAME || buf.len() == 0 {
                    return RunnerAction::Fail(LatencyError::TransportIo);
                }
                if len == 0 {
                    return RunnerAction::Exit;
                }
                let part: &[u8] = slice_subrange(buf, 0, len);
                match self.socket.send(part) {
                    Ok(to) => RunnerAction::SendToSocket { to, bytes: slice_to_vec(part) },
                    Err(e) => RunnerAction::Fail(e),
                }
            },
            None => RunnerAction::Fail(LatencyError::TransportIo),
        }
    }

    /// The socket delivered a datagram into `buf`, or failed.
    pub fn on_socket_recv(&mut self, buf: &[u8], received: Option<(usize, PeerAddr)>) -> (r:
        RunnerAction)
        ensures
            r@ == socket_recv_step(old(self).socket.peer(), buf@, received),
            final(self).socket.peer() == peer_after_recv(
                old(self).socket.peer(),
                buf@.len(),
                received,
            ),
            final(self).bidi == old(self).bidi,
            final(self).stop == old(self).stop,
    {
        match received {
            Some((len, from)) => {
                if len > buf.len() || len > MAX_FRAME {
                    return RunnerAction::Fail(LatencyError::TransportIo);
                }
                match self.socket.recv(len, from) {
                    Ok(n) => RunnerAction::WriteToPipe {
                        bytes: slice_to_vec(slice_subrange(buf, 0, n)),
                    },
                    Err(e) => RunnerAction::Fail(e),
                }
            },
            None => RunnerAction::Fail(LatencyError::TransportIo),
        }
    }

    /// Cancellation was asked for.
    pub fn on_stop(&self) -> (r: RunnerAction)
        ensures
            r@ == RunnerStep::Exit,
    {
        RunnerAction::Exit
    }
}

/// An echo is exact: where a reflecting runner writes a datagram that holds
/// at least one byte to its pipe and the same bytes are read back from the
/// pipe, what goes out is the datagram, byte for byte, to the address that it
/// came from. (An empty datagram puts nothing into the pipe to read back.)
pub proof fn lemma_echo_returns_bytes(
    peer: Option<PeerAddr>,
    buf: Seq<u8>,
    len: usize,
    from: PeerAddr,
)
    requires
        relayable(buf.len(), len),
        len > 0,
        peer is None || peer == Some(from),
    ensures
        socket_recv_step(peer, buf, Some((len, from))) == (RunnerStep::WriteToPipe {
            bytes: buf.subrange(0, len as int),
        }),
        pipe_read_step(
            peer_after_recv(peer, buf.len(), Some((len, from))),
            buf.subrange(0, len as int),
            Some(len),
        ) == (RunnerStep::SendToSocket { to: from, bytes: buf.subrange(0, len as int) }),
{
    let part = buf.subrange(0, len as int);
    assert(part.subrange(0, len as int) =~= part);
}

} // verus!
