//! The per-client session: the handshake and the steady-state loop, as step
//! functions from an event to the action that the caller carries out.

use vstd::prelude::*;
use crate::conn::{all_spent, armed_senders, cancel_all, ConnCtx};
use crate::conn_state::Connected;
use crate::error::LatencyError;
use crate::wire::{
    compose_probe, decoded_message, frame, framed, handshake_bytes, lemma_handshake_round_trip,
    lemma_probe_round_trip, probe_payload, ClientHandshake, ClientMessage, LatencyMsg, TestType,
    MAX_FRAME,
};

verus! {

/// Where a session stands. A session only ever moves forward.
#[derive(Clone, Copy, Debug, PartialEq, Eq, Structural)]
pub enum Phase {
    Handshaking,
    SteadyState,
    Terminating,
}

/// The position of a phase in the session's life.
pub open spec fn phase_rank(p: Phase) -> nat {
    match p {
        Phase::Handshaking => 0,
        Phase::SteadyState => 1,
        Phase::Terminating => 2,
    }
}

/// What can happen while a session shakes hands.
#[derive(Clone, Copy, Debug, PartialEq, Eq, Structural)]
pub enum HandshakeEvent {
    /// The completion signal arrived.
    Complete,
    /// The retry timer fired.
    Tick,
    /// The overall deadline passed.
    Timeout,
}

/// What the caller does after a handshake event.
#[derive(Debug, PartialEq, Eq)]
pub enum HandshakeAction {
    /// The handshake is done: go on to the steady state.
    Completed,
    /// Write these bytes to the control channel: the handshake message
    /// behind its length prefix.
    SendControl(Vec<u8>),
    /// The handshake failed: end the session with this error.
    Failed(LatencyError),
    /// Nothing: the session is not shaking hands.
    Idle,
}

/// A handshake action over sequences of bytes.
pub enum HandshakeStep {
    Completed,
    SendControl(Seq<u8>),
    Failed(LatencyError),
    Idle,
}

impl View for HandshakeAction {
    type V = HandshakeStep;

    open spec fn view(&self) -> HandshakeStep {
        match *self {
            HandshakeAction::Completed => HandshakeStep::Completed,
            HandshakeAction::SendControl(bytes) => HandshakeStep::SendControl(bytes@),
            HandshakeAction::Failed(e) => HandshakeStep::Failed(e),
            HandshakeAction::Idle => HandshakeStep::Idle,
        }
    }
}

/// What can happen in the steady state, besides bytes on the control
/// channel.
#[derive(Clone, Copy, Debug, PartialEq, Eq, Structural)]
pub enum SessionEvent {
    /// The probe timer fired at the time `now`.
    Tick { now: u64 },
    /// The idle timeout, counted from the session's start, passed.
    IdleTimeout,
    /// The stop signal arrived.
    Stop,
    /// The control channel was closed.
    ControlClosed,
    /// A write to the pipe of the context at `pipe` failed.
    PipeFailed { pipe: usize },
}

/// What the caller does after a steady-state event.
#[derive(Debug, PartialEq, Eq)]
pub enum SessionAction<S> {
    /// Write all of `payload`, one probe, to the pipe of each context named
    /// in `pipes` by its index in the session's list.
    Broadcast { payload: Vec<u8>, pipes: Vec<usize> },
    /// Fire each of these cancellation senders and leave the loop, without
    /// waiting for the runners.
    Cancel(Vec<S>),
    /// Nothing: the session is not in the steady state, or it has used up
    /// its sequence numbers.
    Idle,
}

/// A session action over sequences.
pub enum SessionStep<S> {
    Broadcast { payload: Seq<u8>, pipes: Seq<usize> },
    Cancel(Seq<S>),
    Idle,
}

impl<S> View for SessionAction<S> {
    type V = SessionStep<S>;

    open spec fn view(&self) -> SessionStep<S> {
        match *self {
            SessionAction::Broadcast { payload, pipes } => SessionStep::Broadcast {
                payload: payload@,
                pipes: pipes@,
            },
            SessionAction::Cancel(senders) => SessionStep::Cancel(senders@),
            SessionAction::Idle => SessionStep::Idle,
        }
    }
}

/// The phase after a handshake event.
pub open spec fn phase_after_handshake(phase: Phase, ev: HandshakeEvent) -> Phase {
    if phase != Phase::Handshaking {
        phase
    } else {
        match ev {
            HandshakeEvent::Complete => Phase::SteadyState,
            HandshakeEvent::Tick => Phase::Handshaking,
            HandshakeEvent::Timeout => Phase::Terminating,
        }
    }
}

/// The action after a handshake event, for the session `id`.
pub open spec fn handshake_step(phase: Phase, id: u64, ev: HandshakeEvent) -> HandshakeStep {
    if phase != Phase::Handshaking {
        HandshakeStep::Idle
    } else {
        match ev {
            HandshakeEvent::Complete => HandshakeStep::Completed,
            HandshakeEvent::Tick => HandshakeStep::SendControl(
                framed(handshake_bytes(id, TestType::Udp.spec_code())),
            ),
            HandshakeEvent::Timeout => HandshakeStep::Failed(LatencyError::HandshakeTimeout),
        }
    }
}

/// The handshake event that a wake-up stands for, `elapsed` after the
/// handshake began, under an overall `timeout` in the same unit. The
/// deadline wins: a completion counts only strictly before it.
pub open spec fn handshake_event_at(elapsed: u64, timeout: u64, completed: bool) -> HandshakeEvent {
    if elapsed >= timeout {
        HandshakeEvent::Timeout
    } else if completed {
        HandshakeEvent::Complete
    } else {
        HandshakeEvent::Tick
    }
}

/// Tells which handshake event a wake-up is, from the time that has passed
/// since the handshake began and whether the completion signal has arrived.
pub fn handshake_event(elapsed: u64, timeout: u64, completed: bool) -> (r: HandshakeEvent)
    ensures
        r == handshake_event_at(elapsed, timeout, completed),
{
    if elapsed >= timeout {
        HandshakeEvent::Timeout
    } else if completed {
        HandshakeEvent::Complete
    } else {
        HandshakeEvent::Tick
    }
}

/// The phase after a run of handshake events, in order.
pub open spec fn phase_after_handshakes(phase: Phase, events: Seq<HandshakeEvent>) -> Phase
    decreases events.len(),
{
    if events.len() == 0 {
        phase
    } else {
        phase_after_handshake(phase_after_handshakes(phase, events.drop_last()), events.last())
    }
}

/// The phase after a steady-state event.
pub open spec fn phase_after_event(phase: Phase, ev: SessionEvent) -> Phase {
    if phase != Phase::SteadyState {
        phase
    } else {
        match ev {
            SessionEvent::Tick { now } => Phase::SteadyState,
            _ => Phase::Terminating,
        }
    }
}

/// Whether an event makes the session send a probe: a tick in the steady
/// state, while a greater sequence number is left.
pub open spec fn sends_probe(phase: Phase, seq: u64, ev: SessionEvent) -> bool {
    phase == Phase::SteadyState && ev is Tick && seq < u64::MAX
}

/// The last sequence number used, after an event.
pub open spec fn seq_after_event(phase: Phase, seq: u64, ev: SessionEvent) -> u64 {
    if sends_probe(phase, seq, ev) {
        (seq + 1) as u64
    } else {
        seq
    }
}

/// The time at which a session's idle timeout passes, for a session that
/// began at `started` and last saw traffic on its control channel at
/// `last_activity`. The timeout counts from the start, unless the session is
/// set to count from the last activity. A time past the largest number is
/// the largest number.
pub open spec fn idle_deadline_at(
    reset_on_activity: bool,
    started: u64,
    last_activity: u64,
    timeout: u64,
) -> u64 {
    let from = if reset_on_activity && last_activity > started {
        last_activity
    } else {
        started
    };
    if from + timeout > u64::MAX {
        u64::MAX
    } else {
        (from + timeout) as u64
    }
}

/// The indices of `n` pipes: each once, in order.
pub open spec fn every_pipe(n: nat) -> Seq<usize> {
    Seq::new(n, |i: int| i as usize)
}

/// The action after a steady-state event, for the session `id` whose last
/// probe had the number `seq`, and which sends probes of `packet_size`
/// bytes over the contexts `ctx`.
pub open spec fn session_step<P, S>(
    phase: Phase,
    id: u64,
    seq: u64,
    packet_size: u64,
    ctx: Seq<ConnCtx<P, S, Connected>>,
    ev: SessionEvent,
) -> SessionStep<S> {
    if phase != Phase::SteadyState {
        SessionStep::Idle
    } else {
        match ev {
            SessionEvent::Tick { now } => if seq < u64::MAX {
                SessionStep::Broadcast {
                    payload: probe_payload(
                        LatencyMsg { id, seq: (seq + 1) as u64, timestamp: now },
                        packet_size as nat,
                    ),
                    pipes: every_pipe(ctx.len()),
                }
            } else {
                SessionStep::Idle
            },
            _ => SessionStep::Cancel(armed_senders(ctx)),
        }
    }
}

/// The bytes that one broadcast of `payload` writes to the pipe at `pipe`:
/// the payload once for each time that `pipes` names it.
pub open spec fn written_to(pipes: Seq<usize>, payload: Seq<u8>, pipe: int) -> Seq<u8>
    decreases pipes.len(),
{
    if pipes.len() == 0 {
        Seq::empty()
    } else {
        written_to(pipes.drop_last(), payload, pipe) + (if pipes.last() == pipe {
            payload
        } else {
            Seq::empty()
        })
    }
}

/// The bytes that a step writes to the pipe at `pipe`.
pub open spec fn step_writes<S>(step: SessionStep<S>, pipe: int) -> Seq<u8> {
    match step {
        SessionStep::Broadcast { payload, pipes } => written_to(pipes, payload, pipe),
        _ => Seq::empty(),
    }
}

/// The bytes written to the pipe at `pipe` over a run of ticks at the times
/// `nows`, by a session in the steady state whose last probe before the run
/// had the number `seq`.
pub open spec fn tick_stream<P, S>(
    id: u64,
    seq: u64,
    packet_size: u64,
    ctx: Seq<ConnCtx<P, S, Connected>>,
    nows: Seq<u64>,
    pipe: int,
) -> Seq<u8>
    decreases nows.len(),
{
    if nows.len() == 0 {
        Seq::empty()
    } else {
        let before = nows.drop_last();
        tick_stream(id, seq, packet_size, ctx, before, pipe) + step_writes(
            session_step(
                Phase::SteadyState,
                id,
                (seq + before.len()) as u64,
                packet_size,
                ctx,
                SessionEvent::Tick { now: nows.last() },
            ),
            pipe,
        )
    }
}

/// The probes of a run of ticks at the times `nows`, one after another in
/// the order of the ticks, numbered from `seq + 1`.
pub open spec fn probes_in_order(id: u64, seq: u64, packet_size: u64, nows: Seq<u64>) -> Seq<u8>
    decreases nows.len(),
{
    if nows.len() == 0 {
        Seq::empty()
    } else {
        probes_in_order(id, seq, packet_size, nows.drop_last()) + probe_payload(
            LatencyMsg { id, seq: (seq + nows.len()) as u64, timestamp: nows.last() },
            packet_size as nat,
        )
    }
}

/// The phase and the last sequence number of each of several sessions,
/// after the session at `i` took a steady-state event.
pub open spec fn sessions_after_event(sessions: Seq<(Phase, u64)>, i: int, ev: SessionEvent) -> Seq<
    (Phase, u64),
> {
    sessions.update(
        i,
        (phase_after_event(sessions[i].0, ev), seq_after_event(sessions[i].0, sessions[i].1, ev)),
    )
}

/// The same after the session at `i` took a handshake event.
pub open spec fn sessions_after_handshake(
    sessions: Seq<(Phase, u64)>,
    i: int,
    ev: HandshakeEvent,
) -> Seq<(Phase, u64)> {
    sessions.update(i, (phase_after_handshake(sessions[i].0, ev), sessions[i].1))
}

fn indices(n: usize) -> (r: Vec<usize>)
    ensures
        r@ == every_pipe(n as nat),
{
    let mut out: Vec<usize> = Vec::new();
    let mut i: usize = 0;
    while i < n
        invariant
            i <= n,
            out@ == every_pipe(i as nat),
        decreases n - i,
    {
        out.push(i);
        i = i + 1;
        assert(out@ =~= every_pipe(i as nat));
    }
    out
}

/// One client's session. It owns the two halves of its control channel
/// (`Tx`, `Rx`), its stop receiver (`R`) and its connection contexts, each a
/// pipe (`P`) with a cancellation sender (`S`). Times are in milliseconds.
pub struct Client<Tx, Rx, R, P, S> {
    pub ctx: Vec<ConnCtx<P, S, Connected>>,
    pub timeout: u64,
    pub interval: u64,
    pub packet_size: u64,
    pub tx_ctrl: Tx,
    pub rx_ctrl: Rx,
    pub stop: R,
    pub id: u64,
    /// The sequence number of the last probe sent; none was sent at 0.
    pub seq: u64,
    /// Whether traffic on the control channel restarts the idle timeout.
    pub idle_reset: bool,
    pub phase: Phase,
}

impl<Tx, Rx, R, P, S> Client<Tx, Rx, R, P, S> {
    /// Whether the caller's parts of the session are those of `other`: the
    /// control channel, the stop receiver and the configuration.
    pub open spec fn same_setup(&self, other: &Self) -> bool {
        &&& self.timeout == other.timeout
        &&& self.interval == other.interval
        &&& self.packet_size == other.packet_size
        &&& self.tx_ctrl == other.tx_ctrl
        &&& self.rx_ctrl == other.rx_ctrl
        &&& self.stop == other.stop
        &&& self.id == other.id
        &&& self.idle_reset == other.idle_reset
    }

    /// A session with no connection contexts yet, about to shake hands. Its
    /// idle timeout counts from the start.
    pub fn new(
        tx_ctrl: Tx,
        rx_ctrl: Rx,
        stop: R,
        timeout: u64,
        interval: u64,
        packet_size: u64,
    ) -> (r: Self)
        ensures
            r.ctx@.len() == 0,
            r.timeout == timeout,
            r.interval == interval,
            r.packet_size == packet_size,
            r.tx_ctrl == tx_ctrl,
            r.rx_ctrl == rx_ctrl,
            r.stop == stop,
            r.id == 0,
            r.seq == 0,
            !r.idle_reset,
            r.phase == Phase::Handshaking,
    {
        Client {
            ctx: Vec::new(),
            timeout,
            interval,
            packet_size,
            tx_ctrl,
            rx_ctrl,
            stop,
            id: 0,
            seq: 0,
            idle_reset: false,
            phase: Phase::Handshaking,
        }
    }

    /// Whether the session's probes fit a frame. A session whose probes do
    /// not fit cannot run its steady state.
    pub fn can_run(&self) -> (r: bool)
        ensures
            r == (self.packet_size <= MAX_FRAME),
    {
        self.packet_size <= 65535
    }

    /// The time at which the idle timeout passes, in the unit of the
    /// session's timeout.
    pub fn idle_deadline(&self, started: u64, last_activity: u64) -> (r: u64)
        ensures
            r == idle_deadline_at(self.idle_reset, started, last_activity, self.timeout),
    {
        let from: u64 = if self.idle_reset && last_activity > started {
            last_activity
        } else {
            started
        };
        from.saturating_add(self.timeout)
    }

    /// Adds a connection context whose transport is bound.
    pub fn add_conn(&mut self, conn: ConnCtx<P, S, Connected>)
        ensures
            final(self).ctx@ == old(self).ctx@.push(conn),
            final(self).same_setup(old(self)),
            final(self).seq == old(self).seq,
            final(self).phase == old(self).phase,
    {
        self.ctx.push(conn);
    }

    /// The session's handshake message.
    pub fn handshake_message(&self) -> (r: ClientMessage)
        ensures
            r == ClientMessage::Handshake(
                ClientHandshake { id: self.id, protocol: TestType::Udp.spec_code() },
            ),
    {
        ClientMessage::Handshake(ClientHandshake { id: self.id, protocol: TestType::Udp.code() })
    }

    /// One step of the handshake.
    pub fn handshake(&mut self, ev: HandshakeEvent) -> (r: HandshakeAction)
        ensures
            r@ == handshake_step(old(self).phase, old(self).id, ev),
            final(self).phase == phase_after_handshake(old(self).phase, ev),
            phase_rank(final(self).phase) >= phase_rank(old(self).phase),
            final(self).ctx == old(self).ctx,
            final(self).seq == old(self).seq,
            final(self).same_setup(old(self)),
    {
        match self.phase {
            Phase::Handshaking => {},
            _ => {
                return HandshakeAction::Idle;
            },
        }
        match ev {
            HandshakeEvent::Complete => {
                self.phase = Phase::SteadyState;
                HandshakeAction::Completed
            },
            HandshakeEvent::Tick => {
                let msg: Vec<u8> = self.handshake_message().encode();
                proof {
                    lemma_handshake_round_trip(self.id, TestType::Udp.spec_code());
                }
                // A handshake message always fits behind a length prefix.
                match frame(msg.as_slice()) {
                    Some(bytes) => HandshakeAction::SendControl(bytes),
                    None => HandshakeAction::Idle,
                }
            },
            HandshakeEvent::Timeout => {
                self.phase = Phase::Terminating;
                HandshakeAction::Failed(LatencyError::HandshakeTimeout)
            },
        }
    }

    /// One step of the steady state. A tick sends one probe to every
    /// context; every other event ends the session and cancels every runner:
    /// a stop, the idle timeout, the loss of the control channel, and a
    /// failed write to any one pipe.
    pub fn run(&mut self, ev: SessionEvent) -> (r: SessionAction<S>)
        requires
            old(self).packet_size <= MAX_FRAME,
        ensures
            r@ == session_step(
                old(self).phase,
                old(self).id,
                old(self).seq,
                old(self).packet_size,
                old(self).ctx@,
                ev,
            ),
            final(self).seq == seq_after_event(old(self).phase, old(self).seq, ev),
            final(self).phase == phase_after_event(old(self).phase, ev),
            phase_rank(final(self).phase) >= phase_rank(old(self).phase),
            final(self).same_setup(old(self)),
            final(self).ctx@.len() == old(self).ctx@.len(),
            forall|i: int|
                0 <= i < old(self).ctx@.len() ==> (#[trigger] final(self).ctx@[i]).bidi
                    == old(self).ctx@[i].bidi,
            r@ is Cancel ==> all_spent(final(self).ctx@),
            !(r@ is Cancel) ==> final(self).ctx == old(self).ctx,
    {
        match self.phase {
            Phase::SteadyState => {},
            _ => {
                return SessionAction::Idle;
            },
        }
        match ev {
            SessionEvent::Tick { now } => {
                if self.seq == u64::MAX {
                    return SessionAction::Idle;
                }
                self.seq = self.seq + 1;
                let msg = LatencyMsg { id: self.id, seq: self.seq, timestamp: now };
                let payload: Vec<u8> = compose_probe(&msg, self.packet_size as usize);
                let pipes: Vec<usize> = indices(self.ctx.len());
                SessionAction::Broadcast { payload, pipes }
            },
            _ => {
                self.phase = Phase::Terminating;
                SessionAction::Cancel(cancel_all(&mut self.ctx))
            },
        }
    }

    /// Reads a message that arrived on the control channel. The session
    /// itself is not changed by any message known so far.
    pub fn handle_ctrl_msg(&mut self, msg: &[u8]) -> (r: Option<ClientMessage>)
        ensures
            r == decoded_message(msg@),
            *final(self) == *old(self),
    {
        ClientMessage::decode(msg)
    }
}

/// While only the retry timer fires, a session goes on shaking hands.
pub proof fn lemma_ticks_keep_handshaking(events: Seq<HandshakeEvent>)
    requires
        forall|i: int| 0 <= i < events.len() ==> events[i] == HandshakeEvent::Tick,
    ensures
        phase_after_handshakes(Phase::Handshaking, events) == Phase::Handshaking,
    decreases events.len(),
{
    if events.len() > 0 {
        let before = events.drop_last();
        assert forall|i: int| 0 <= i < before.len() implies before[i] == HandshakeEvent::Tick by {
            assert(before[i] == events[i]);
        }
        lemma_ticks_keep_handshaking(before);
        assert(events.last() == events[events.len() - 1]);
    }
}

/// A handshake that is answered completes: after any number of
/// retransmissions, the completion signal takes the session to the steady
/// state. One that is never answered fails: after any number of
/// retransmissions, the deadline ends the session with `HandshakeTimeout`,
/// and the session has not been in the steady state.
pub proof fn lemma_handshake_outcomes(retries: Seq<HandshakeEvent>, id: u64)
    requires
        forall|i: int| 0 <= i < retries.len() ==> retries[i] == HandshakeEvent::Tick,
    ensures
        phase_after_handshakes(Phase::Handshaking, retries.push(HandshakeEvent::Complete))
            == Phase::SteadyState,
        phase_after_handshakes(Phase::Handshaking, retries.push(HandshakeEvent::Timeout))
            == Phase::Terminating,
        handshake_step(
            phase_after_handshakes(Phase::Handshaking, retries),
            id,
            HandshakeEvent::Complete,
        ) == HandshakeStep::Completed,
        handshake_step(
            phase_after_handshakes(Phase::Handshaking, retries),
            id,
            HandshakeEvent::Timeout,
        ) == HandshakeStep::Failed(LatencyError::HandshakeTimeout),
{
    lemma_ticks_keep_handshaking(retries);
    assert(retries.push(HandshakeEvent::Complete).drop_last() =~= retries);
    assert(retries.push(HandshakeEvent::Timeout).drop_last() =~= retries);
}

/// A handshake completes only strictly before its deadline, and fails with
/// `HandshakeTimeout` exactly when the deadline is reached, answered or not.
pub proof fn lemma_handshake_deadline(elapsed: u64, timeout: u64, completed: bool, id: u64)
    ensures
        handshake_step(
            Phase::Handshaking,
            id,
            handshake_event_at(elapsed, timeout, completed),
        ) == HandshakeStep::Completed <==> completed && elapsed < timeout,
        handshake_step(
            Phase::Handshaking,
            id,
            handshake_event_at(elapsed, timeout, completed),
        ) == HandshakeStep::Failed(LatencyError::HandshakeTimeout) <==> elapsed >= timeout,
        phase_after_handshake(Phase::Handshaking, handshake_event_at(elapsed, timeout, completed))
            == Phase::SteadyState <==> completed && elapsed < timeout,
{
}

/// No event takes a session back: neither a handshake event nor a
/// steady-state event lowers the phase, and a terminating session stays so.
pub proof fn lemma_phase_only_advances(phase: Phase, h: HandshakeEvent, e: SessionEvent)
    ensures
        phase_rank(phase_after_handshake(phase, h)) >= phase_rank(phase),
        phase_rank(phase_after_event(phase, e)) >= phase_rank(phase),
        phase_after_handshake(Phase::Terminating, h) == Phase::Terminating,
        phase_after_event(Phase::Terminating, e) == Phase::Terminating,
{
}

/// On a timer tick in the steady state the same payload goes to every
/// context's pipe exactly once: the pipes named are as many as the
/// contexts, the pipe of each context is named, and none is named twice.
pub proof fn lemma_fan_out_once<P, S>(
    id: u64,
    seq: u64,
    packet_size: u64,
    ctx: Seq<ConnCtx<P, S, Connected>>,
    now: u64,
)
    requires
        ctx.len() <= usize::MAX,
        seq < u64::MAX,
    ensures
        session_step(
            Phase::SteadyState,
            id,
            seq,
            packet_size,
            ctx,
            SessionEvent::Tick { now },
        ) is Broadcast,
        ({
            let pipes = session_step(
                Phase::SteadyState,
                id,
                seq,
                packet_size,
                ctx,
                SessionEvent::Tick { now },
            )->pipes;
            &&& pipes.len() == ctx.len()
            &&& forall|k: int| 0 <= k < ctx.len() ==> #[trigger] pipes[k] == k
            &&& forall|i: int, j: int|
                0 <= i < pipes.len() && 0 <= j < pipes.len() && pipes[i] == pipes[j] ==> i == j
        }),
{
}

/// A broadcast over every pipe of `n` writes the payload to each of them
/// once, and nothing anywhere else.
pub proof fn lemma_written_once(n: nat, payload: Seq<u8>, pipe: int)
    requires
        n <= usize::MAX,
    ensures
        written_to(every_pipe(n), payload, pipe) == if 0 <= pipe < n {
            payload
        } else {
            Seq::<u8>::empty()
        },
    decreases n,
{
    if n > 0 {
        let fewer = (n - 1) as nat;
        lemma_written_once(fewer, payload, pipe);
        assert(every_pipe(n).drop_last() =~= every_pipe(fewer));
        assert(every_pipe(n).last() == fewer);
        assert(payload + Seq::<u8>::empty() =~= payload);
        assert(Seq::<u8>::empty() + payload =~= payload);
        assert(Seq::<u8>::empty() + Seq::<u8>::empty() =~= Seq::<u8>::empty());
    }
}

/// Over any number of ticks in the steady state, while sequence numbers
/// last, every pipe gets the same stream: the probe of each tick exactly
/// once, in the order of the ticks, `packet_size` bytes for each tick.
pub proof fn lemma_fan_out_over_ticks<P, S>(
    id: u64,
    seq: u64,
    packet_size: u64,
    ctx: Seq<ConnCtx<P, S, Connected>>,
    nows: Seq<u64>,
    pipe: int,
)
    requires
        ctx.len() <= usize::MAX,
        seq + nows.len() <= u64::MAX,
        0 <= pipe < ctx.len(),
    ensures
        tick_stream(id, seq, packet_size, ctx, nows, pipe) == probes_in_order(
            id,
            seq,
            packet_size,
            nows,
        ),
        tick_stream(id, seq, packet_size, ctx, nows, pipe).len() == nows.len() * packet_size,
    decreases nows.len(),
{
    if nows.len() > 0 {
        let before = nows.drop_last();
        lemma_fan_out_over_ticks(id, seq, packet_size, ctx, before, pipe);
        let msg = LatencyMsg { id, seq: (seq + nows.len()) as u64, timestamp: nows.last() };
        let payload = probe_payload(msg, packet_size as nat);
        lemma_written_once(ctx.len(), payload, pipe);
        lemma_probe_round_trip(msg, Seq::empty());
        assert(payload.len() == packet_size);
        assert((nows.len() - 1) * packet_size + packet_size == nows.len() * packet_size)
            by (nonlinear_arith);
    } else {
        assert(nows.len() * packet_size == 0) by (nonlinear_arith)
            requires
                nows.len() == 0,
        ;
    }
}

/// Sessions share nothing: an event of one session, of either kind, leaves
/// every other session where it was, however the first one ends.
pub proof fn lemma_sessions_independent(
    sessions: Seq<(Phase, u64)>,
    i: int,
    j: int,
    ev: SessionEvent,
    h: HandshakeEvent,
)
    requires
        0 <= i < sessions.len(),
        0 <= j < sessions.len(),
        i != j,
    ensures
        sessions_after_event(sessions, i, ev).len() == sessions.len(),
        sessions_after_event(sessions, i, ev)[j] == sessions[j],
        sessions_after_handshake(sessions, i, h).len() == sessions.len(),
        sessions_after_handshake(sessions, i, h)[j] == sessions[j],
{
}

/// Sequence numbers strictly increase: a probe that is sent carries a
/// number greater than that of the probe before it, and no event lowers
/// the number.
pub proof fn lemma_seq_increases(phase: Phase, seq: u64, ev: SessionEvent)
    ensures
        seq_after_event(phase, seq, ev) >= seq,
        sends_probe(phase, seq, ev) ==> seq_after_event(phase, seq, ev) > seq,
{
}

/// When a session in the steady state is stopped or times out, the senders
/// handed out for firing are those that its contexts held, and no later
/// step hands out any: a terminating session does nothing on an event.
pub proof fn lemma_cancel_once<P, S>(
    id: u64,
    seq: u64,
    packet_size: u64,
    ctx: Seq<ConnCtx<P, S, Connected>>,
    later: Seq<ConnCtx<P, S, Connected>>,
    ev: SessionEvent,
    next: SessionEvent,
)
    requires
        !(ev is Tick),
    ensures
        session_step(Phase::SteadyState, id, seq, packet_size, ctx, ev) == SessionStep::Cancel(
            armed_senders(ctx),
        ),
        session_step(
            phase_after_event(Phase::SteadyState, ev),
            id,
            seq,
            packet_size,
            later,
            next,
        ) == SessionStep::<S>::Idle,
{
}

} // verus!
