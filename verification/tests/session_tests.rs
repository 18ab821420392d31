use latency::conn::ConnCtx;
use latency::conn_state::Connected;
use latency::error::LatencyError;
use latency::server::{
    ClientCtx, CtrlServer, ServerAction, ServerEvent, SESSION_INTERVAL_MS, SESSION_PACKET_SIZE,
    SESSION_TIMEOUT_MS,
};
use latency::session::{
    handshake_event, Client, HandshakeAction, HandshakeEvent, Phase, SessionAction, SessionEvent,
};
use latency::wire::{deframe, ClientHandshake, ClientMessage, LatencyMsg};

type Session = Client<&'static str, &'static str, &'static str, Vec<u8>, u32>;

fn session(packet_size: u64) -> Session {
    Client::new("tx", "rx", "stop", 10_000, 1_000, packet_size)
}

fn steady(packet_size: u64, conns: u32) -> Session {
    let mut s = session(packet_size);
    for i in 0..conns {
        s.add_conn(ConnCtx::new(Vec::new(), 100 + i).connect());
    }
    assert_eq!(s.handshake(HandshakeEvent::Complete), HandshakeAction::Completed);
    s
}

#[test]
fn new_session_is_about_to_shake_hands() {
    let s = session(1000);
    assert_eq!(s.phase, Phase::Handshaking);
    assert_eq!(s.id, 0);
    assert_eq!(s.seq, 0);
    assert_eq!(s.timeout, 10_000);
    assert_eq!(s.interval, 1_000);
    assert_eq!(s.packet_size, 1000);
    assert_eq!(s.tx_ctrl, "tx");
    assert_eq!(s.rx_ctrl, "rx");
    assert_eq!(s.stop, "stop");
    assert!(s.ctx.is_empty());
    assert!(s.can_run());
    assert!(session(65535).can_run());
    assert!(!session(65536).can_run());
}

#[test]
fn handshake_retransmits_until_it_completes() {
    let mut s = session(1000);
    s.id = 42;
    for _ in 0..5 {
        let action = s.handshake(HandshakeEvent::Tick);
        let bytes = match action {
            HandshakeAction::SendControl(bytes) => bytes,
            other => panic!("unexpected action {:?}", other),
        };
        assert_eq!(bytes.len(), 24);
        assert_eq!(&bytes[..4], &[20, 0, 0, 0]);
        let (payload, used) = deframe(&bytes).unwrap();
        assert_eq!(used, 24);
        assert_eq!(
            ClientMessage::decode(&payload),
            Some(ClientMessage::Handshake(ClientHandshake { id: 42, protocol: 0 }))
        );
        assert_eq!(s.phase, Phase::Handshaking);
    }
    assert_eq!(s.handshake(HandshakeEvent::Complete), HandshakeAction::Completed);
    assert_eq!(s.phase, Phase::SteadyState);
    assert_eq!(s.handshake(HandshakeEvent::Timeout), HandshakeAction::Idle);
    assert_eq!(s.handshake(HandshakeEvent::Tick), HandshakeAction::Idle);
    assert_eq!(s.phase, Phase::SteadyState);
}

#[test]
fn handshake_times_out_without_reaching_steady_state() {
    let mut s = session(1000);
    assert!(matches!(s.handshake(HandshakeEvent::Tick), HandshakeAction::SendControl(_)));
    assert_eq!(
        s.handshake(HandshakeEvent::Timeout),
        HandshakeAction::Failed(LatencyError::HandshakeTimeout)
    );
    assert_eq!(s.phase, Phase::Terminating);
    assert_eq!(s.handshake(HandshakeEvent::Complete), HandshakeAction::Idle);
    assert_eq!(s.phase, Phase::Terminating);
    assert_eq!(s.run(SessionEvent::Tick { now: 1 }), SessionAction::Idle);
}

#[test]
fn handshake_deadline_decides() {
    assert_eq!(handshake_event(0, 5000, false), HandshakeEvent::Tick);
    assert_eq!(handshake_event(4999, 5000, false), HandshakeEvent::Tick);
    assert_eq!(handshake_event(4999, 5000, true), HandshakeEvent::Complete);
    assert_eq!(handshake_event(5000, 5000, false), HandshakeEvent::Timeout);
    assert_eq!(handshake_event(5000, 5000, true), HandshakeEvent::Timeout);
    assert_eq!(handshake_event(9000, 5000, true), HandshakeEvent::Timeout);
    assert_eq!(handshake_event(0, 0, true), HandshakeEvent::Timeout);
}

#[test]
fn tick_fans_one_payload_out_to_three_pipes() {
    let mut s = steady(1000, 3);
    let action = s.run(SessionEvent::Tick { now: 777 });
    let (payload, pipes) = match action {
        SessionAction::Broadcast { payload, pipes } => (payload, pipes),
        other => panic!("unexpected action {:?}", other),
    };
    assert_eq!(pipes, vec![0, 1, 2]);
    assert_eq!(payload.len(), 1000);
    assert_eq!(LatencyMsg::decode(&payload), Some(LatencyMsg { id: 0, seq: 1, timestamp: 777 }));
    for i in pipes {
        s.ctx[i].bidi.extend_from_slice(&payload);
    }
    for c in s.ctx.iter() {
        assert_eq!(c.bidi, payload);
    }
    assert_eq!(s.phase, Phase::SteadyState);
}

#[test]
fn tick_without_contexts_writes_nowhere() {
    let mut s = steady(100, 0);
    match s.run(SessionEvent::Tick { now: 0 }) {
        SessionAction::Broadcast { payload, pipes } => {
            assert_eq!(payload.len(), 100);
            assert!(pipes.is_empty());
        }
        other => panic!("unexpected action {:?}", other),
    }
}

#[test]
fn sequence_numbers_strictly_increase() {
    let mut s = steady(24, 1);
    let mut last = 0u64;
    for now in 0..10u64 {
        match s.run(SessionEvent::Tick { now }) {
            SessionAction::Broadcast { payload, .. } => {
                let msg = LatencyMsg::decode(&payload).unwrap();
                assert!(msg.seq > last);
                assert_eq!(msg.seq, now + 1);
                assert_eq!(msg.timestamp, now);
                last = msg.seq;
            }
            other => panic!("unexpected action {:?}", other),
        }
    }
    assert_eq!(s.seq, 10);
}

#[test]
fn no_probe_once_sequence_numbers_are_used_up() {
    let mut s = steady(24, 1);
    s.seq = u64::MAX - 1;
    match s.run(SessionEvent::Tick { now: 5 }) {
        SessionAction::Broadcast { payload, .. } => {
            assert_eq!(LatencyMsg::decode(&payload).unwrap().seq, u64::MAX);
        }
        other => panic!("unexpected action {:?}", other),
    }
    assert_eq!(s.run(SessionEvent::Tick { now: 6 }), SessionAction::Idle);
    assert_eq!(s.seq, u64::MAX);
    assert_eq!(s.phase, Phase::SteadyState);
}

#[test]
fn small_probe_is_padding_only() {
    let mut s = steady(8, 1);
    assert_eq!(
        s.run(SessionEvent::Tick { now: 9 }),
        SessionAction::Broadcast { payload: vec![0u8; 8], pipes: vec![0] }
    );
}

#[test]
fn stop_cancels_every_context_once() {
    let mut s = steady(1000, 3);
    assert_eq!(s.run(SessionEvent::Stop), SessionAction::Cancel(vec![100, 101, 102]));
    assert_eq!(s.phase, Phase::Terminating);
    assert!(s.ctx.iter().all(|c| c.stop.is_none()));
    assert_eq!(s.ctx.len(), 3);
    assert_eq!(s.run(SessionEvent::Stop), SessionAction::Idle);
    assert_eq!(s.run(SessionEvent::IdleTimeout), SessionAction::Idle);
    assert_eq!(s.run(SessionEvent::Tick { now: 3 }), SessionAction::Idle);
    assert_eq!(s.phase, Phase::Terminating);
}

#[test]
fn idle_timeout_cancels_every_context_once() {
    let mut s = steady(1000, 2);
    assert_eq!(s.run(SessionEvent::IdleTimeout), SessionAction::Cancel(vec![100, 101]));
    assert_eq!(s.phase, Phase::Terminating);
    assert_eq!(s.run(SessionEvent::IdleTimeout), SessionAction::Idle);
}

#[test]
fn steady_events_wait_for_the_handshake() {
    let mut s = session(1000);
    s.add_conn(ConnCtx::new(Vec::new(), 1).connect());
    assert_eq!(s.run(SessionEvent::Tick { now: 1 }), SessionAction::Idle);
    assert_eq!(s.run(SessionEvent::Stop), SessionAction::Idle);
    assert_eq!(s.phase, Phase::Handshaking);
    assert_eq!(s.ctx[0].stop, Some(1));
    assert_eq!(s.seq, 0);
}

#[test]
fn control_messages_are_decoded_and_change_nothing() {
    let mut s = steady(1000, 1);
    let msg = ClientMessage::Handshake(ClientHandshake { id: 5, protocol: 1 });
    assert_eq!(s.handle_ctrl_msg(&msg.encode()), Some(msg));
    assert_eq!(s.handle_ctrl_msg(b"junk"), None);
    assert_eq!(s.phase, Phase::SteadyState);
    assert_eq!(s.seq, 0);
    assert_eq!(s.ctx.len(), 1);
}

#[test]
fn handshake_message_names_the_session() {
    let mut s = session(1000);
    s.id = 3;
    assert_eq!(
        s.handshake_message(),
        ClientMessage::Handshake(ClientHandshake { id: 3, protocol: 0 })
    );
}

#[test]
fn server_keeps_one_handle_per_client() {
    let mut server: CtrlServer<&str, u32, &str> = CtrlServer::new("endpoint");
    assert_eq!(server.quinn, "endpoint");
    assert!(server.clients.is_empty());
    let n: u32 = 17;
    for i in 0..n {
        let s: Client<u8, u8, u8, Vec<u8>, u32> = CtrlServer::<&str, u32, &str>::session(1, 2, 3);
        assert_eq!(s.phase, Phase::Handshaking);
        server.handle_client(i, "task");
    }
    assert_eq!(server.clients.len(), 17);
    for (i, c) in server.clients.iter().enumerate() {
        assert_eq!(c.stop, Some(i as u32));
        assert_eq!(c.fut, "task");
    }
}

#[test]
fn sessions_progress_independently() {
    let mut a: Client<u8, u8, u8, Vec<u8>, u32> = CtrlServer::<(), (), ()>::session(1, 2, 3);
    let mut b: Client<u8, u8, u8, Vec<u8>, u32> = CtrlServer::<(), (), ()>::session(4, 5, 6);
    assert_eq!(a.handshake(HandshakeEvent::Complete), HandshakeAction::Completed);
    assert_eq!(a.phase, Phase::SteadyState);
    assert_eq!(b.phase, Phase::Handshaking);
    assert_eq!(b.handshake(HandshakeEvent::Complete), HandshakeAction::Completed);
    assert_eq!(b.phase, Phase::SteadyState);
    assert!(matches!(a.run(SessionEvent::Tick { now: 1 }), SessionAction::Broadcast { .. }));
    assert_eq!(a.seq, 1);
    assert_eq!(b.seq, 0);
}

#[test]
fn admitted_session_has_the_server_settings() {
    let s: Client<u8, u8, u8, Vec<u8>, u32> = CtrlServer::<(), (), ()>::session(1, 2, 3);
    assert_eq!(s.timeout, 1000);
    assert_eq!(s.interval, 1000);
    assert_eq!(s.packet_size, 1000);
    assert_eq!(SESSION_TIMEOUT_MS, 1000);
    assert_eq!(SESSION_INTERVAL_MS, 1000);
    assert_eq!(SESSION_PACKET_SIZE, 1000);
    assert_eq!((s.tx_ctrl, s.rx_ctrl, s.stop), (1, 2, 3));
    assert!(s.can_run());
}

#[test]
fn shutdown_stops_every_session_once() {
    let mut server: CtrlServer<(), u32, u8> = CtrlServer::new(());
    server.handle_client(1, 10);
    server.handle_client(2, 20);
    server.handle_client(3, 30);
    assert_eq!(server.clients[1].take_stop(), Some(2));
    assert_eq!(server.shutdown(), vec![1, 3]);
    assert!(server.clients.iter().all(|c| c.stop.is_none()));
    assert_eq!(server.clients.iter().map(|c| c.fut).collect::<Vec<u8>>(), vec![10, 20, 30]);
    assert_eq!(server.shutdown(), Vec::<u32>::new());
}

#[test]
fn client_handle_holds_its_sender() {
    let mut c = ClientCtx::new(5u32, "task");
    assert_eq!(c.stop, Some(5));
    assert_eq!(c.fut, "task");
    assert_eq!(c.take_stop(), Some(5));
    assert_eq!(c.take_stop(), None);
}

#[test]
fn connected_context_keeps_pipe_and_sender() {
    let c: ConnCtx<Vec<u8>, u32, Connected> = ConnCtx::new(vec![1, 2], 8).connect();
    assert_eq!(c.bidi, vec![1, 2]);
    assert_eq!(c.stop, Some(8));
}

#[test]
fn lost_control_channel_ends_the_session() {
    let mut s = steady(1000, 2);
    assert_eq!(s.run(SessionEvent::ControlClosed), SessionAction::Cancel(vec![100, 101]));
    assert_eq!(s.phase, Phase::Terminating);
    assert!(s.ctx.iter().all(|c| c.stop.is_none()));
}

#[test]
fn failed_pipe_write_ends_the_whole_session() {
    let mut s = steady(1000, 3);
    assert_eq!(
        s.run(SessionEvent::PipeFailed { pipe: 1 }),
        SessionAction::Cancel(vec![100, 101, 102])
    );
    assert_eq!(s.phase, Phase::Terminating);
    assert_eq!(s.run(SessionEvent::PipeFailed { pipe: 1 }), SessionAction::Idle);
}

#[test]
fn idle_deadline_counts_from_the_start_unless_told_otherwise() {
    let mut s = session(1000);
    assert!(!s.idle_reset);
    assert_eq!(s.idle_deadline(500, 500), 10_500);
    assert_eq!(s.idle_deadline(500, 9_000), 10_500);
    assert_eq!(s.idle_deadline(u64::MAX - 5, 0), u64::MAX);
    s.idle_reset = true;
    assert_eq!(s.idle_deadline(500, 9_000), 19_000);
    assert_eq!(s.idle_deadline(500, 100), 10_500);
    assert_eq!(s.idle_deadline(500, u64::MAX - 1), u64::MAX);
}

#[test]
fn accept_loop_admits_until_shutdown() {
    let mut server: CtrlServer<(), u32, u8> = CtrlServer::new(());
    for i in 0..4u32 {
        let action = server.run(ServerEvent::Accepted { stop: i, fut: i as u8 });
        assert_eq!(action, ServerAction::Continue);
        assert_eq!(server.clients.len(), i as usize + 1);
    }
    assert_eq!(server.run(ServerEvent::Shutdown), ServerAction::Stop(vec![0, 1, 2, 3]));
    assert_eq!(server.clients.len(), 4);
    assert!(server.clients.iter().all(|c| c.stop.is_none()));
    assert_eq!(server.run(ServerEvent::Shutdown), ServerAction::Stop(vec![]));
}

#[test]
fn every_pipe_gets_every_probe_in_tick_order() {
    let mut s = steady(32, 3);
    let mut expected: Vec<u8> = Vec::new();
    for tick in 0..5u64 {
        match s.run(SessionEvent::Tick { now: 1_000 + tick }) {
            SessionAction::Broadcast { payload, pipes } => {
                assert_eq!(pipes, vec![0, 1, 2]);
                assert_eq!(
                    LatencyMsg::decode(&payload),
                    Some(LatencyMsg { id: 0, seq: tick + 1, timestamp: 1_000 + tick })
                );
                for i in pipes {
                    s.ctx[i].bidi.extend_from_slice(&payload);
                }
                expected.extend_from_slice(&payload);
            }
            other => panic!("unexpected action {:?}", other),
        }
    }
    assert_eq!(expected.len(), 5 * 32);
    for c in s.ctx.iter() {
        assert_eq!(c.bidi, expected);
    }
}

#[test]
fn one_session_ending_leaves_the_others_running() {
    let mut a = steady(100, 1);
    let mut b = steady(100, 2);
    let mut c = session(100);
    assert_eq!(a.run(SessionEvent::IdleTimeout), SessionAction::Cancel(vec![100]));
    assert_eq!(
        c.handshake(HandshakeEvent::Timeout),
        HandshakeAction::Failed(LatencyError::HandshakeTimeout)
    );
    assert_eq!(b.phase, Phase::SteadyState);
    assert_eq!(b.ctx.len(), 2);
    assert!(b.ctx.iter().all(|x| x.stop.is_some()));
    assert!(matches!(b.run(SessionEvent::Tick { now: 1 }), SessionAction::Broadcast { .. }));
    assert_eq!(b.seq, 1);
    let mut server: CtrlServer<(), u32, u8> = CtrlServer::new(());
    assert_eq!(server.run(ServerEvent::Accepted { stop: 1, fut: 1 }), ServerAction::Continue);
    assert_eq!(server.run(ServerEvent::Accepted { stop: 2, fut: 2 }), ServerAction::Continue);
    assert_eq!(server.clients.len(), 2);
}
