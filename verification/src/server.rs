//! The control server's bookkeeping: one supervision handle per admitted
//! client, and the stop signals to fire on shutdown.

use vstd::prelude::*;
use crate::session::{Client, Phase};

verus! {

/// Timeout, probe interval and probe size of an admitted client's session.
pub const SESSION_TIMEOUT_MS: u64 = 1000;

pub const SESSION_INTERVAL_MS: u64 = 1000;

pub const SESSION_PACKET_SIZE: u64 = 1000;

/// The server's handle on one session: the one-shot stop sender, of type
/// `S`, and the handle of the session's task, of type `H`.
pub struct ClientCtx<S, H> {
    pub stop: Option<S>,
    pub fut: H,
}

impl<S, H> ClientCtx<S, H> {
    pub fn new(stop: S, fut: H) -> (r: Self)
        ensures
            r.stop == Some(stop),
            r.fut == fut,
    {
        ClientCtx { stop: Some(stop), fut }
    }

    /// Takes the stop sender out, if it is still there.
    pub fn take_stop(&mut self) -> (r: Option<S>)
        ensures
            r == old(self).stop,
            final(self).stop is None,
            final(self).fut == old(self).fut,
    {
        self.stop.take()
    }
}

/// The handles after one more client was admitted.
pub open spec fn registered<S, H>(clients: Seq<ClientCtx<S, H>>, stop: S, fut: H) -> Seq<
    ClientCtx<S, H>,
> {
    clients.push(ClientCtx { stop: Some(stop), fut })
}

/// The handles after each of `arrivals` was admitted, in order.
pub open spec fn registered_all<S, H>(clients: Seq<ClientCtx<S, H>>, arrivals: Seq<(S, H)>) -> Seq<
    ClientCtx<S, H>,
>
    decreases arrivals.len(),
{
    if arrivals.len() == 0 {
        clients
    } else {
        registered(
            registered_all(clients, arrivals.drop_last()),
            arrivals.last().0,
            arrivals.last().1,
        )
    }
}

/// The stop senders that a list of handles still holds, in order.
pub open spec fn armed_stops<S, H>(clients: Seq<ClientCtx<S, H>>) -> Seq<S>
    decreases clients.len(),
{
    if clients.len() == 0 {
        Seq::empty()
    } else {
        let before = armed_stops(clients.drop_last());
        match clients.last().stop {
            Some(s) => before.push(s),
            None => before,
        }
    }
}

/// What the accept loop can wake up to.
pub enum ServerEvent<S, H> {
    /// A client connected, its control channel was opened and its session
    /// started: `stop` stops the session, `fut` is the session's task.
    Accepted { stop: S, fut: H },
    /// The shutdown trigger fired.
    Shutdown,
}

/// What the accept loop does next.
#[derive(Debug, PartialEq, Eq)]
pub enum ServerAction<S> {
    /// Go on accepting.
    Continue,
    /// Fire each of these stop senders and leave the loop, without waiting
    /// for the sessions to end.
    Stop(Vec<S>),
}

/// The control server: its listening endpoint, of type `Q`, and the
/// handles of the sessions it admitted.
pub struct CtrlServer<Q, S, H> {
    pub quinn: Q,
    pub clients: Vec<ClientCtx<S, H>>,
}

impl<Q, S, H> CtrlServer<Q, S, H> {
    /// A server on a listening endpoint, with no client yet.
    pub fn new(quinn: Q) -> (r: Self)
        ensures
            r.quinn == quinn,
            r.clients@.len() == 0,
    {
        CtrlServer { quinn, clients: Vec::new() }
    }

    /// The session for a client whose control channel was opened: about to
    /// shake hands, with the server's timeout, interval and probe size.
    pub fn session<Tx, Rx, R, P, C>(tx: Tx, rx: Rx, stop: R) -> (r: Client<Tx, Rx, R, P, C>)
        ensures
            r.ctx@.len() == 0,
            r.timeout == SESSION_TIMEOUT_MS,
            r.interval == SESSION_INTERVAL_MS,
            r.packet_size == SESSION_PACKET_SIZE,
            r.tx_ctrl == tx,
            r.rx_ctrl == rx,
            r.stop == stop,
            r.id == 0,
            r.seq == 0,
            !r.idle_reset,
            r.phase == Phase::Handshaking,
    {
        Client::new(tx, rx, stop, SESSION_TIMEOUT_MS, SESSION_INTERVAL_MS, SESSION_PACKET_SIZE)
    }

    /// One step of the accept loop.
    pub fn run(&mut self, ev: ServerEvent<S, H>) -> (r: ServerAction<S>)
        ensures
            final(self).quinn == old(self).quinn,
            match ev {
                ServerEvent::Accepted { stop, fut } => {
                    &&& r is Continue
                    &&& final(self).clients@ == registered(old(self).clients@, stop, fut)
                },
                ServerEvent::Shutdown => {
                    &&& r matches ServerAction::Stop(senders)
                    &&& senders@ == armed_stops(old(self).clients@)
                    &&& final(self).clients@.len() == old(self).clients@.len()
                    &&& forall|i: int|
                        0 <= i < old(self).clients@.len() ==> (#[trigger] final(self).clients@[i]).stop
                            is None && final(self).clients@[i].fut == old(self).clients@[i].fut
                },
            },
    {
        match ev {
            ServerEvent::Accepted { stop, fut } => {
                self.handle_client(stop, fut);
                ServerAction::Continue
            },
            ServerEvent::Shutdown => ServerAction::Stop(self.shutdown()),
        }
    }

    /// Keeps the handle of a session that was started for a new client.
    pub fn handle_client(&mut self, stop: S, fut: H)
        ensures
            final(self).clients@ == registered(old(self).clients@, stop, fut),
            final(self).quinn == old(self).quinn,
    {
        self.clients.push(ClientCtx::new(stop, fut));
    }

    /// Takes the stop sender of every session: each sender that was still
    /// there, once, in the order of admission. The caller fires each and
    /// leaves the accept loop; the task handles stay.
    pub fn shutdown(&mut self) -> (r: Vec<S>)
        ensures
            r@ == armed_stops(old(self).clients@),
            final(self).quinn == old(self).quinn,
            final(self).clients@.len() == old(self).clients@.len(),
            forall|i: int|
                0 <= i < old(self).clients@.len() ==> (#[trigger] final(self).clients@[i]).stop
                    is None && final(self).clients@[i].fut == old(self).clients@[i].fut,
    {
        let mut out: Vec<S> = Vec::new();
        let n: usize = self.clients.len();
        let mut i: usize = 0;
        while i < n
            invariant
                i <= n,
                self.clients@.len() == n,
                n == old(self).clients@.len(),
                self.quinn == old(self).quinn,
                out@ == armed_stops(old(self).clients@.take(i as int)),
                forall|j: int| 0 <= j < i ==> (#[trigger] self.clients@[j]).stop is None,
                forall|j: int|
                    i <= j < n ==> (#[trigger] self.clients@[j]).stop == old(self).clients@[j].stop,
                forall|j: int|
                    0 <= j < n ==> (#[trigger] self.clients@[j]).fut == old(self).clients@[j].fut,
            decreases n - i,
        {
            let taken: Option<S> = self.clients[i].take_stop();
            proof {
                let upto = old(self).clients@.take(i + 1);
                assert(upto.drop_last() =~= old(self).clients@.take(i as int));
                assert(upto.last() == old(self).clients@[i as int]);
            }
            match taken {
                Some(s) => {
                    out.push(s);
                },
                None => {},
            }
            i = i + 1;
        }
        proof {
            assert(old(self).clients@.take(n as int) =~= old(self).clients@);
        }
        out
    }
}

/// A server that admitted some clients holds exactly one handle for each,
/// in the order of admission, each with its own stop sender and task.
pub proof fn lemma_one_session_per_client<S, H>(arrivals: Seq<(S, H)>)
    ensures
        registered_all(Seq::<ClientCtx<S, H>>::empty(), arrivals).len() == arrivals.len(),
        forall|i: int|
            0 <= i < arrivals.len() ==> (#[trigger] registered_all(
                Seq::<ClientCtx<S, H>>::empty(),
                arrivals,
            )[i]) == (ClientCtx { stop: Some(arrivals[i].0), fut: arrivals[i].1 }),
    decreases arrivals.len(),
{
    if arrivals.len() > 0 {
        let before = arrivals.drop_last();
        lemma_one_session_per_client(before);
        assert forall|i: int| 0 <= i < arrivals.len() implies (#[trigger] registered_all(
            Seq::<ClientCtx<S, H>>::empty(),
            arrivals,
        )[i]) == (ClientCtx { stop: Some(arrivals[i].0), fut: arrivals[i].1 }) by {
            if i < before.len() {
                assert(before[i] == arrivals[i]);
            }
        }
    }
}

/// On shutdown every session that was admitted and not yet stopped gets its
/// stop signal: the senders handed out are one for each handle.
pub proof fn lemma_shutdown_reaches_all<S, H>(arrivals: Seq<(S, H)>)
    ensures
        armed_stops(registered_all(Seq::<ClientCtx<S, H>>::empty(), arrivals)).len()
            == arrivals.len(),
        forall|i: int|
            0 <= i < arrivals.len() ==> (#[trigger] armed_stops(
                registered_all(Seq::<ClientCtx<S, H>>::empty(), arrivals),
            )[i]) == arrivals[i].0,
    decreases arrivals.len(),
{
    if arrivals.len() > 0 {
        let before = arrivals.drop_last();
        lemma_shutdown_reaches_all(before);
        let all = registered_all(Seq::<ClientCtx<S, H>>::empty(), arrivals);
        let prior = registered_all(Seq::<ClientCtx<S, H>>::empty(), before);
        assert(all.drop_last() =~= prior);
        assert forall|i: int| 0 <= i < arrivals.len() implies (#[trigger] armed_stops(all)[i])
            == arrivals[i].0 by {
            if i < before.len() {
                assert(before[i] == arrivals[i]);
            }
        }
    }
}

} // verus!
