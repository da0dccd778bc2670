use node_quic::address::{SocketAddress, StoredAddr};
use node_quic::datagrams::{max_datagram_payload, DatagramSend};
use node_quic::events::{EventAction, EventPass, StreamEvent};
use node_quic::flush::{DatagramNext, FlushNext, StreamWrite};
use node_quic::inbound::Pulled;
use node_quic::lifecycle::{
    CloseFrame, CloseOptions, CloseReport, DestroyNext, DriveStage, ExpiryNext, HandshakeFacts, LocalClose, Origin, PacketNext,
    TimerChange, TimerNext,
};
use node_quic::ngtcp2::{ngtcp2_ccerr, ngtcp2_conn_info};
use node_quic::number::JsNumber;
use node_quic::session::QuicSession;
use node_quic::value::JsValue;

fn num(n: f64) -> JsValue {
    JsValue::Number(JsNumber { bits: n.to_bits() })
}

fn text(s: &str) -> JsValue {
    JsValue::Text(s.as_bytes().to_vec())
}

fn addr(last: u8) -> StoredAddr {
    StoredAddr::from_socket_address(&SocketAddress::V4 { ip: [10, 0, 0, last], port: 443 })
}

fn live() -> QuicSession {
    let mut session = QuicSession::create_shell(addr(1), addr(2), 5);
    session.attach_connection(0, true, vec![vec![1, 1]], 5).ok().unwrap();
    session
}

fn actions(session: &mut QuicSession) -> Vec<EventAction> {
    let mut pass = EventPass::new();
    let mut seen = Vec::new();
    loop {
        match session.process_stream_events(&mut pass, 100) {
            EventAction::Done => return seen,
            EventAction::OpenStream { id } => {
                session.adopt_stream(id, 100);
                seen.push(EventAction::OpenStream { id });
            }
            action => seen.push(action),
        }
    }
}

#[test]
fn peer_streams_are_opened_once() {
    let mut session = live();
    session.on_stream_open(0);
    session.on_stream_open(0);
    session.on_stream_open(3);
    assert_eq!(
        actions(&mut session),
        vec![EventAction::OpenStream { id: 0 }, EventAction::OpenStream { id: 3 }]
    );
    assert!(session.streams.contains(0) && session.streams.contains(3));
    assert!(!session.adopt_stream(4, 1));
    assert!(session.adopt_stream(2, 1));
    assert!(session.adopt_stream(7, 1));
}

#[test]
fn a_stream_that_is_not_adopted_stays_unknown() {
    let mut session = live();
    session.on_stream_open(0);
    session.on_stream_data(0, 0, b"lost".to_vec());
    let mut pass = EventPass::new();
    assert_eq!(session.process_stream_events(&mut pass, 1), EventAction::OpenStream { id: 0 });
    assert_eq!(session.process_stream_events(&mut pass, 1), EventAction::Done);
    assert!(!session.streams.contains(0));
}

#[test]
fn data_wakes_each_reader_once_after_the_batch() {
    let mut session = live();
    for id in [0, 4] {
        session.adopt_stream(id, 1);
        session.streams.get_mut(id).unwrap().set_wakeup(Some(id as u64 + 100));
    }
    assert_eq!(session.on_stream_data(0, 0, b"ab".to_vec()), 2);
    assert_eq!(session.on_stream_data(0, 4, b"x".to_vec()), 1);
    assert_eq!(session.on_stream_data(1, 0, b"cd".to_vec()), 2);
    session.on_stream_data(0, 8, b"nobody".to_vec());
    assert_eq!(
        actions(&mut session),
        vec![
            EventAction::Wake { wakeup: 100, fin: true },
            EventAction::Wake { wakeup: 104, fin: false },
        ]
    );
    let stream = session.streams.get_mut(0).unwrap();
    assert_eq!(stream.pull().0, Pulled::Data(b"ab".to_vec()));
    assert_eq!(stream.pull().0, Pulled::Data(b"cd".to_vec()));
    assert_eq!(stream.pull().0, Pulled::Eos);
    session.on_stream_data(0, 4, b"y".to_vec());
    assert!(actions(&mut session).is_empty());
}

#[test]
fn closes_report_application_errors() {
    let mut session = live();
    session.adopt_stream(0, 1);
    session.on_stream_close(1, 0, 7);
    session.on_stream_close(0, 0, 7);
    session.on_stream_close(1, 0, 0);
    session.on_stream_close(1, 99, 7);
    assert_eq!(
        actions(&mut session),
        vec![
            EventAction::StreamClose { id: 0, error: Some(7) },
            EventAction::StreamClose { id: 0, error: None },
            EventAction::StreamClose { id: 0, error: None },
        ]
    );
    assert_eq!(session.streams.get_mut(0).unwrap().pull().0, Pulled::Eos);
}

#[test]
fn resets_are_told_to_those_who_listen() {
    let mut session = live();
    session.adopt_stream(0, 1);
    session.adopt_stream(4, 1);
    session.streams.get_mut(4).unwrap().state.wants_reset = 1;
    session.on_stream_reset(0, 5);
    session.on_stream_reset(4, 6);
    assert_eq!(actions(&mut session), vec![EventAction::StreamReset { id: 4, code: 6 }]);
    assert_eq!(session.streams.get(0).unwrap().state.reset_code, 5);
}

#[test]
fn drain_and_block_are_gated() {
    let mut session = live();
    session.adopt_stream(0, 1);
    session.on_max_stream_data(0);
    session.on_max_stream_data(0);
    session.stream_events.push_back(StreamEvent::Blocked(0));
    assert_eq!(actions(&mut session), vec![EventAction::StreamDrain { id: 0 }]);
    session.streams.get_mut(0).unwrap().state.wants_block = 1;
    session.stream_events.push_back(StreamEvent::Blocked(0));
    session.stream_events.push_back(StreamEvent::Blocked(4));
    assert_eq!(actions(&mut session), vec![EventAction::StreamBlocked { id: 0 }]);
}

#[test]
fn session_events_follow_the_listener_flags() {
    let fill = |session: &mut QuicSession| {
        session.on_datagram(1, b"dg".to_vec());
        session.on_datagram_status(3, true);
        session.on_datagram_status(4, false);
        assert!(session.on_session_ticket(b"t".to_vec()));
        session.on_new_token(b"n".to_vec());
        session.on_new_token(Vec::new());
    };
    let mut session = live();
    fill(&mut session);
    assert_eq!(session.stream_events.len(), 5);
    assert!(session.timer_active);
    assert!(actions(&mut session).is_empty());
    session.state.listener_flags = 0x1e;
    fill(&mut session);
    assert_eq!(
        actions(&mut session),
        vec![
            EventAction::Datagram { bytes: b"dg".to_vec(), early: true },
            EventAction::DatagramStatus { id: 3, lost: true },
            EventAction::DatagramStatus { id: 4, lost: false },
            EventAction::SessionTicket(b"t".to_vec()),
            EventAction::NewToken { token: b"n".to_vec(), remote: addr(2) },
        ]
    );
}

#[test]
fn destroyed_sessions_dispatch_nothing() {
    let mut session = live();
    session.adopt_stream(0, 1);
    session.state.listener_flags = 0x1e;
    session.on_stream_close(0, 0, 0);
    session.on_datagram(0, b"dg".to_vec());
    let mut pass = EventPass::new();
    assert_eq!(
        session.process_stream_events(&mut pass, 1),
        EventAction::StreamClose { id: 0, error: None }
    );
    session.teardown(9).unwrap();
    assert_eq!(session.process_stream_events(&mut pass, 1), EventAction::Done);
    assert!(pass.batch.is_empty() && pass.to_wake.is_empty());
    session.on_datagram(0, b"dg".to_vec());
    assert_eq!(session.process_stream_events(&mut pass, 1), EventAction::Done);
    assert!(session.stream_events.is_empty());
}

#[test]
fn events_recorded_meanwhile_are_dispatched_too() {
    let mut session = live();
    session.state.listener_flags = 0x2;
    session.on_datagram(0, b"1".to_vec());
    let mut pass = EventPass::new();
    assert!(matches!(session.process_stream_events(&mut pass, 1), EventAction::Datagram { .. }));
    session.on_datagram(0, b"2".to_vec());
    assert_eq!(
        session.process_stream_events(&mut pass, 1),
        EventAction::Datagram { bytes: b"2".to_vec(), early: false }
    );
    assert_eq!(session.process_stream_events(&mut pass, 1), EventAction::Done);
}

#[test]
fn dispatch_is_scheduled_only_with_events() {
    let mut session = live();
    assert!(!session.schedule_event_dispatch());
    session.on_max_stream_data(0);
    assert!(session.schedule_event_dispatch());
    assert!(session.timer_active);
    session.teardown(1).unwrap();
    session.on_max_stream_data(0);
    assert!(!session.schedule_event_dispatch());
}

#[test]
fn events_of_a_call_are_due_on_the_next_turn() {
    let mut session = live();
    assert!(session.stream_opened(0, 0, &JsValue::Buffer(b"body".to_vec()), 1));
    assert_eq!(session.next_stage(Origin::Call, DriveStage::Flush), DriveStage::Defer);
    let mut pending = session.begin_flush().unwrap();
    let write = session.stage_write(&pending);
    assert_eq!(session.settle_write(&mut pending, &write, 40, 1, false), FlushNext::Send);
    assert_eq!(session.stream_events.len(), 1);
    // The transport's own deadline is later, or there is none.
    assert_eq!(session.finish_call(10_000_000_000, 0), TimerChange::Arm(1));
    assert_eq!(session.finish_call(u64::MAX, 0), TimerChange::Arm(1));
    assert!(session.timer_active);
    assert_eq!(session.stream_events.len(), 1);
    assert_eq!(session.next_stage(Origin::Call, DriveStage::Defer), DriveStage::Done);
    assert_eq!(session.on_timer_fire(), TimerNext::Expire);
    assert_eq!(session.next_stage(Origin::Timer, DriveStage::Flush), DriveStage::Events);
}

#[test]
fn a_call_without_events_rearms_for_the_deadline() {
    let mut session = live();
    assert_eq!(session.finish_call(3_000_000, 1_000_000), TimerChange::Arm(2));
    assert!(session.timer_active);
    assert_eq!(session.finish_call(u64::MAX, 0), TimerChange::Cancel);
    assert_eq!(session.finish_call(u64::MAX, 0), TimerChange::Keep);
    session.on_max_stream_data(0);
    session.teardown(1).unwrap();
    session.on_max_stream_data(0);
    assert_eq!(session.finish_call(3_000_000, 1_000_000), TimerChange::Keep);
}

#[test]
fn a_scheduled_close_stays_due() {
    let mut session = live();
    assert!(session.graceful_close(None));
    // Neither a call nor a packet puts it off, with a deadline or without.
    assert_eq!(session.finish_call(u64::MAX, 6), TimerChange::Arm(1));
    assert!(session.pending_close && session.timer_active);
    assert_eq!(session.finish_call(10_000_000_000, 6), TimerChange::Arm(1));
    assert_eq!(session.rearm_timer(u64::MAX, 6), TimerChange::Arm(1));
    assert_eq!(session.rearm_timer(10_000_000_000, 6), TimerChange::Arm(1));
    assert!(session.pending_close && session.timer_active);
    session.on_max_stream_data(0);
    assert!(matches!(session.on_timer_fire(), TimerNext::Close { .. }));
    // What waits is not dispatched by the close.
    assert_eq!(session.stream_events.len(), 1);
    assert!(!session.pending_close && !session.timer_active);
    assert_eq!(session.rearm_timer(u64::MAX, 6), TimerChange::Keep);
    assert_eq!(session.finish_call(u64::MAX, 6), TimerChange::Arm(1));
    session.teardown(7).unwrap();
    assert!(session.stream_events.is_empty());
    assert_eq!(session.finish_call(u64::MAX, 8), TimerChange::Keep);
}

#[test]
fn a_batch_wakes_each_reader_once() {
    let mut session = live();
    for id in [0, 4, 8, 12, 16] {
        session.adopt_stream(id, 1);
        session.streams.get_mut(id).unwrap().set_wakeup(Some(id as u64 + 100));
    }
    session.on_stream_data(1, 0, b"a".to_vec());
    session.on_stream_reset(4, 9);
    session.on_stream_data(0, 0, b"b".to_vec());
    session.on_stream_data(0, 8, b"c".to_vec());
    session.on_stream_close(0, 12, 0);
    session.on_stream_data(0, 12, Vec::new());
    session.on_max_stream_data(16);
    assert_eq!(
        actions(&mut session),
        vec![
            EventAction::StreamClose { id: 12, error: None },
            EventAction::StreamDrain { id: 16 },
            EventAction::Wake { wakeup: 100, fin: true },
            EventAction::Wake { wakeup: 104, fin: true },
            EventAction::Wake { wakeup: 108, fin: false },
            EventAction::Wake { wakeup: 112, fin: true },
        ]
    );
    assert_eq!(session.streams.get_mut(16).unwrap().wakeup, Some(116));
}

#[test]
fn a_reader_gone_meanwhile_is_passed_over() {
    let mut session = live();
    for id in [0, 4] {
        session.adopt_stream(id, 1);
        session.streams.get_mut(id).unwrap().set_wakeup(Some(id as u64 + 100));
    }
    session.on_stream_data(0, 0, b"a".to_vec());
    session.on_stream_close(0, 4, 0);
    let mut pass = EventPass::new();
    assert!(matches!(session.process_stream_events(&mut pass, 1), EventAction::StreamClose { id: 4, .. }));
    // The callback tears one stream down and registers anew on the other.
    session.teardown_stream(4, 2).unwrap();
    session.streams.get_mut(0).unwrap().set_wakeup(Some(7));
    assert!(session.streams.get_mut(4).is_none());
    assert_eq!(session.process_stream_events(&mut pass, 3), EventAction::Wake { wakeup: 7, fin: false });
    assert_eq!(session.process_stream_events(&mut pass, 4), EventAction::Done);
}

#[test]
fn expiry_results_decide_what_follows() {
    let session = live();
    assert_eq!(session.finish_expiry(0), ExpiryNext::Drive);
    assert_eq!(session.finish_expiry(-222), ExpiryNext::Fail(-222));
}

#[test]
fn streams_take_turns() {
    let mut session = live();
    for id in [0, 4, 8] {
        assert!(session.stream_opened(0, id, &JsValue::Buffer(vec![7; 2000]), 1));
    }
    let mut pending = session.begin_flush().unwrap();
    let mut visited = Vec::new();
    for _ in 0..6 {
        let write = session.stage_write(&pending);
        visited.push(write.stream.unwrap());
        assert_eq!(session.settle_write(&mut pending, &write, 1200, 100, false), FlushNext::Send);
    }
    assert_eq!(visited[..3], visited[3..]);
    let mut first = visited[..3].to_vec();
    first.sort();
    assert_eq!(first, [0, 4, 8]);
    // One that cannot go on leaves the others their turns.
    let write = session.stage_write(&pending);
    assert_eq!(write.stream, Some(visited[0]));
    assert_eq!(session.settle_write(&mut pending, &write, -208, -1, false), FlushNext::Again);
    assert_eq!(pending, [visited[2], visited[1]]);
    // A packet that is not produced ends the pass and moves nothing.
    let write = session.stage_write(&pending);
    assert_eq!(session.settle_write(&mut pending, &write, 0, -1, false), FlushNext::Stop);
    assert_eq!(pending, [visited[2], visited[1]]);
}

#[test]
fn write_loop_sends_a_body_and_its_end() {
    let mut session = live();
    assert_eq!(session.open_stream(&num(0.0)), Some(false));
    assert!(session.stream_opened(0, 0, &JsValue::Buffer(vec![7; 2000]), 1));
    let mut pending = session.begin_flush().unwrap();
    assert_eq!(pending, vec![0]);
    let write = session.stage_write(&pending);
    assert_eq!(write, StreamWrite { stream: Some(0), len: 1500, fin: false });
    assert_eq!(session.staged_bytes(&write).unwrap().len(), 1500);
    assert_eq!(session.settle_write(&mut pending, &write, 1300, 1200, false), FlushNext::Send);
    assert_eq!(pending, vec![0]);
    let write = session.stage_write(&pending);
    assert_eq!(write, StreamWrite { stream: Some(0), len: 800, fin: true });
    assert_eq!(session.settle_write(&mut pending, &write, 900, 800, false), FlushNext::Send);
    assert!(pending.is_empty());
    let state = session.streams.get(0).unwrap().state;
    assert_eq!((state.fin_sent, state.write_ended), (1, 1));
    let write = session.stage_write(&pending);
    assert_eq!(write, StreamWrite { stream: None, len: 0, fin: false });
    assert!(session.staged_bytes(&write).is_none());
    assert_eq!(session.settle_write(&mut pending, &write, 0, -1, false), FlushNext::Stop);
    assert_eq!((session.stats[19], session.stats[20]), (2, 2200));
    assert_eq!(
        session.stream_events,
        vec![StreamEvent::Drain(0), StreamEvent::Drain(0)]
    );
}

#[test]
fn the_end_is_not_sent_before_the_last_byte() {
    let mut session = live();
    assert!(session.stream_opened(0, 0, &JsValue::Buffer(vec![7; 10]), 1));
    let mut pending = session.begin_flush().unwrap();
    let write = session.stage_write(&pending);
    assert!(write.fin);
    session.settle_write(&mut pending, &write, 50, 4, false);
    assert_eq!(session.streams.get(0).unwrap().state.fin_sent, 0);
    assert_eq!(session.streams.get(0).unwrap().outbound.data.len(), 6);
    assert_eq!(pending, vec![0]);
}

#[test]
fn blocked_streams_are_passed_over() {
    let mut session = live();
    session.stream_opened(0, 0, &JsValue::Buffer(vec![7; 10]), 1);
    for rv in [-208i64, -219, -220] {
        let mut pending = session.begin_flush().unwrap();
        let write = session.stage_write(&pending);
        assert_eq!(session.settle_write(&mut pending, &write, rv, -1, false), FlushNext::Again);
        assert!(pending.is_empty());
        assert_eq!(session.streams.get(0).unwrap().outbound.data.len(), 10);
        assert!(session.streams.get(0).unwrap().outbound.inflight.is_empty());
    }
    assert_eq!(session.stream_events, vec![StreamEvent::Blocked(0)]);
}

#[test]
fn write_errors_stop_or_fail() {
    let mut session = live();
    session.stream_opened(0, 0, &JsValue::Buffer(vec![7; 10]), 1);
    for (rv, fatal, next) in [
        (-224i64, true, FlushNext::Stop),
        (-501, true, FlushNext::Fail(-501)),
        (-203, false, FlushNext::Stop),
        (0, false, FlushNext::Stop),
    ] {
        let mut pending = session.begin_flush().unwrap();
        let write = session.stage_write(&pending);
        assert_eq!(session.settle_write(&mut pending, &write, rv, -1, fatal), next);
        assert_eq!(pending, vec![0]);
        assert_eq!(session.streams.get(0).unwrap().outbound.data.len(), 10);
    }
}

#[test]
fn flush_needs_a_live_session_with_an_endpoint() {
    let mut session = QuicSession::create_shell(addr(1), addr(2), 0);
    assert!(session.begin_flush().is_none());
    session.attach_connection(0, true, vec![], 0).ok().unwrap();
    assert_eq!(session.begin_flush(), Some(vec![]));
    session.teardown(1).unwrap();
    assert!(session.begin_flush().is_none());
}

#[test]
fn only_streams_with_data_are_visited() {
    let mut session = live();
    session.stream_opened(0, 0, &JsValue::Undefined, 1);
    session.stream_opened(0, 4, &JsValue::Buffer(vec![1]), 1);
    session.stream_opened(0, 8, &JsValue::Buffer(vec![]), 1);
    let mut pending = session.begin_flush().unwrap();
    pending.sort();
    assert_eq!(pending, vec![4, 8]);
}

#[test]
fn acknowledgements_reach_the_stream() {
    let mut session = live();
    session.stream_opened(0, 0, &JsValue::Buffer(vec![7; 10]), 1);
    let mut pending = session.begin_flush().unwrap();
    let write = session.stage_write(&pending);
    session.settle_write(&mut pending, &write, 50, 10, false);
    assert_eq!(session.streams.get(0).unwrap().outbound.inflight.len(), 1);
    session.on_stream_data_acked(0, 0, 10);
    session.on_stream_data_acked(44, 0, 10);
    assert!(session.streams.get(0).unwrap().outbound.inflight.is_empty());
}

#[test]
fn datagram_payload_is_the_largest_that_fits() {
    let frame = |payload: u64| {
        let len = if payload < 64 {
            1
        } else if payload < 16384 {
            2
        } else if payload < 1 << 30 {
            4
        } else {
            8
        };
        1 + len + payload
    };
    for size in (0..200).chain(16300..16500).chain((1 << 30) - 20..(1 << 30) + 20) {
        let payload = max_datagram_payload(size);
        if size >= 2 {
            assert!(frame(payload) <= size, "{}", size);
        } else {
            assert_eq!(payload, 0);
        }
        assert!(frame(payload + 1) > size, "{}", size);
    }
    assert_eq!(max_datagram_payload(1200), 1197);
    assert_eq!(max_datagram_payload(66), 63);
    assert_eq!(max_datagram_payload(67), 64);
    assert_eq!(max_datagram_payload(65535), 65530);
}

#[test]
fn full_queue_drops_the_oldest_datagram() {
    let mut session = live();
    session.state.max_pending_datagrams = 2;
    session.state.listener_flags = 0x4;
    for id in 1..=2 {
        assert_eq!(
            session.send_datagram(Some(vec![id as u8])),
            DatagramSend { id, abandoned: None, arm: true }
        );
    }
    assert_eq!(session.send_datagram(Some(vec![3])), DatagramSend { id: 3, abandoned: Some(1), arm: true });
    let ids: Vec<u64> = session.datagram_queue.iter().map(|(id, _)| *id).collect();
    assert_eq!(ids, vec![2, 3]);
    assert_eq!(session.state.last_datagram_id, 3);
}

#[test]
fn full_queue_drops_the_newest_datagram_on_request() {
    let mut session = live();
    session.datagram_drop_newest = true;
    session.state.max_pending_datagrams = 1;
    session.send_datagram(Some(vec![1]));
    assert_eq!(session.send_datagram(Some(vec![2])), DatagramSend { id: 2, abandoned: None, arm: true });
    session.state.listener_flags = 0x4;
    assert_eq!(session.send_datagram(Some(vec![3])), DatagramSend { id: 3, abandoned: Some(3), arm: true });
    assert_eq!(session.datagram_queue.len(), 1);
    assert_eq!(session.datagram_queue[0], (1, vec![1]));
}

#[test]
fn no_limit_means_no_drop() {
    let mut session = live();
    session.state.max_pending_datagrams = 0;
    for _ in 0..300 {
        assert_eq!(session.send_datagram(Some(vec![])).abandoned, None);
    }
    assert_eq!(session.datagram_queue.len(), 300);
}

#[test]
fn unsendable_datagrams_have_no_id() {
    let refused = DatagramSend { id: 0, abandoned: None, arm: false };
    let mut session = QuicSession::create_shell(addr(1), addr(2), 0);
    assert_eq!(session.send_datagram(Some(vec![1])), refused);
    let mut session = live();
    assert_eq!(session.send_datagram(None), refused);
    session.teardown(1).unwrap();
    assert_eq!(session.send_datagram(Some(vec![1])), refused);
    assert_eq!(session.next_datagram_id, 1);
}

#[test]
fn refused_datagram_is_offered_first_again() {
    let mut session = live();
    session.send_datagram(Some(vec![1]));
    session.send_datagram(Some(vec![2]));
    let (id, bytes) = session.next_datagram().unwrap();
    assert_eq!((id, bytes.clone()), (1, vec![1]));
    assert_eq!(
        session.settle_datagram(id, bytes, 40, false),
        DatagramNext { send: true, again: false }
    );
    assert_eq!(session.next_datagram(), Some((1, vec![1])));
    assert_eq!(
        session.settle_datagram(1, vec![1], 0, true),
        DatagramNext { send: false, again: true }
    );
    assert_eq!(session.next_datagram(), Some((2, vec![2])));
    assert_eq!(
        session.settle_datagram(2, vec![2], -211, false),
        DatagramNext { send: false, again: true }
    );
    assert_eq!(session.next_datagram(), None);
    assert_eq!(session.stream_events, vec![StreamEvent::DatagramStatus { id: 2, lost: true }]);
    assert_eq!((session.stats[19], session.stats[20]), (1, 40));
}

#[test]
fn packets_do_not_redirect_the_session() {
    let mut session = live();
    assert_eq!(session.begin_packet(addr(9)), Some((addr(1), addr(2))));
    let mut fresh = QuicSession::create_shell(addr(1), StoredAddr::default(), 0);
    assert_eq!(fresh.begin_packet(addr(9)), None);
    fresh.attach_connection(0, true, vec![], 0).ok().unwrap();
    assert_eq!(fresh.begin_packet(StoredAddr::default()), Some((addr(1), StoredAddr::default())));
    assert_eq!(fresh.begin_packet(addr(9)), Some((addr(1), addr(9))));
    assert_eq!(fresh.begin_packet(addr(8)), Some((addr(1), addr(9))));
}

#[test]
fn packet_results_decide_what_follows() {
    let mut session = live();
    assert_eq!(session.finish_packet(100, 0, false), PacketNext::Drive);
    assert_eq!(session.finish_packet(50, -224, true), PacketNext::RemoteClose);
    assert_eq!(session.finish_packet(0, -213, false), PacketNext::Fail(-213));
    assert_eq!(session.finish_packet(0, -501, true), PacketNext::Fail(-501));
    assert_eq!(session.finish_packet(0, -206, false), PacketNext::Drive);
    assert_eq!((session.stats[5], session.stats[21]), (150, 5));
}

#[test]
fn drive_stages_come_in_order() {
    let mut session = live();
    let walk = |session: &QuicSession, origin| {
        let mut stage = DriveStage::Flush;
        let mut seen = vec![stage];
        while stage != DriveStage::Done {
            stage = session.next_stage(origin, stage);
            seen.push(stage);
        }
        seen
    };
    assert_eq!(
        walk(&session, Origin::Packet),
        vec![
            DriveStage::Flush,
            DriveStage::Handshake,
            DriveStage::Events,
            DriveStage::Stats,
            DriveStage::Rearm,
            DriveStage::Done
        ]
    );
    assert_eq!(
        walk(&session, Origin::Timer),
        vec![DriveStage::Flush, DriveStage::Events, DriveStage::Rearm, DriveStage::Done]
    );
    session.teardown(1).unwrap();
    assert_eq!(session.next_stage(Origin::Packet, DriveStage::Flush), DriveStage::Done);
    assert_eq!(session.next_stage(Origin::Packet, DriveStage::Handshake), DriveStage::Done);
}

#[test]
fn timer_meets_the_deadline() {
    let mut session = live();
    assert_eq!(session.rearm_timer(u64::MAX, 0), TimerChange::Keep);
    assert_eq!(session.rearm_timer(5_000_001, 0), TimerChange::Arm(6));
    assert_eq!(session.rearm_timer(5_000_000, 0), TimerChange::Arm(5));
    assert_eq!(session.rearm_timer(5, 10), TimerChange::Arm(1));
    assert_eq!(session.rearm_timer(11, 10), TimerChange::Arm(1));
    assert_eq!(session.rearm_timer(u64::MAX - 1, 0), TimerChange::Arm(18_446_744_073_710));
    assert!(session.timer_active);
    assert_eq!(session.rearm_timer(u64::MAX, 0), TimerChange::Cancel);
    session.rearm_timer(5, 0);
    session.conn = false;
    assert_eq!(session.rearm_timer(5, 0), TimerChange::Cancel);
}

#[test]
fn connection_counters_are_copied() {
    let mut session = live();
    let info = ngtcp2_conn_info {
        bytes_in_flight: 30,
        cwnd: 1,
        latest_rtt: 2,
        min_rtt: 3,
        rttvar: 4,
        smoothed_rtt: 5,
        ssthresh: 6,
        ..ngtcp2_conn_info::default()
    };
    session.sync_conn_info_stats(&info);
    session.sync_conn_info_stats(&ngtcp2_conn_info { bytes_in_flight: 10, ..info });
    assert_eq!((session.stats[10], session.stats[11]), (30, 10));
    assert_eq!(session.stats[13..19], [1, 2, 3, 4, 5, 6]);
}

#[test]
fn handshake_is_reported_once() {
    let mut session = live();
    assert_eq!(session.maybe_report_handshake(false, 0, 50), None);
    assert_eq!(session.maybe_report_handshake(true, 1200, 50), Some(None));
    assert_eq!(session.state.handshake_completed, 1);
    assert_eq!(session.state.stream_open_allowed, 1);
    assert_eq!(session.state.max_datagram_size, 1197);
    assert_eq!(session.stats[3], 50);
    assert_eq!(session.maybe_report_handshake(true, 0, 60), None);
    assert!(session.get_ephemeral_key());
    let mut server = live();
    server.is_server = true;
    assert_eq!(server.maybe_report_handshake(true, 1 << 20, 50), Some(Some(addr(2))));
    assert_eq!(server.state.max_datagram_size, 65535);
    assert!(!server.get_ephemeral_key());
}

#[test]
fn handshake_text_that_is_empty_is_left_out() {
    let mut session = live();
    let facts = || HandshakeFacts {
        servername: Some(b"host".to_vec()),
        protocol: Some(b"h3".to_vec()),
        cipher: Some(Vec::new()),
        cipher_version: None,
        validation: Some((b"self signed".to_vec(), b"DEPTH_ZERO_SELF_SIGNED_CERT".to_vec())),
    };
    let info = session.handshake_info(facts()).unwrap();
    assert_eq!(info.servername, Some(b"host".to_vec()));
    assert_eq!(info.protocol, Some(b"h3".to_vec()));
    assert_eq!(info.cipher, None);
    assert_eq!(info.cipher_version, None);
    assert!(!info.early_data_attempted && !info.early_data_accepted);
    assert_eq!(info.validation_reason, Some(b"self signed".to_vec()));
    assert_eq!(info.validation_code, Some(b"DEPTH_ZERO_SELF_SIGNED_CERT".to_vec()));
    session.teardown(1).unwrap();
    assert!(session.handshake_info(facts()).is_none());
}

#[test]
fn graceful_close_completes_on_the_timer() {
    let mut session = live();
    let options = CloseOptions { code: num(42.0), type_: text("application"), reason: text("bye") };
    assert!(session.graceful_close(Some(options)));
    assert!(!session.graceful_close(None));
    assert_eq!(session.state.graceful_close, 1);
    assert_eq!(
        session.on_timer_fire(),
        TimerNext::Close {
            frame: CloseFrame::Error { type_: 1, code: 42 },
            report: CloseReport { error_type: 1, code: 42, reason: Some(b"bye".to_vec()), error_name: None },
        }
    );
    assert_eq!(session.on_timer_fire(), TimerNext::Expire);
}

#[test]
fn close_options_are_read() {
    let close = |options: Option<CloseOptions>| {
        let mut session = live();
        session.graceful_close(options);
        session.on_timer_fire()
    };
    let empty = CloseReport { error_type: 0, code: 0, reason: None, error_name: None };
    assert_eq!(close(None), TimerNext::Close { frame: CloseFrame::Default, report: empty });
    assert_eq!(
        close(Some(CloseOptions {
            code: JsValue::BigInt(u64::MAX),
            type_: text("transport"),
            reason: JsValue::Undefined
        })),
        TimerNext::Close {
            frame: CloseFrame::Error { type_: 0, code: u64::MAX },
            report: CloseReport { error_type: 0, code: u64::MAX, reason: None, error_name: None },
        }
    );
    assert_eq!(
        close(Some(CloseOptions {
            code: num(-1.0),
            type_: JsValue::Undefined,
            reason: text("r")
        })),
        TimerNext::Close {
            frame: CloseFrame::Error { type_: 0, code: 0 },
            report: CloseReport { error_type: 0, code: 0, reason: Some(b"r".to_vec()), error_name: None },
        }
    );
}

#[test]
fn silent_close_sends_nothing() {
    let mut session = live();
    assert!(session.silent_close());
    assert_eq!(
        session.on_timer_fire(),
        TimerNext::Close {
            frame: CloseFrame::Silent,
            report: CloseReport { error_type: 0, code: 0, reason: None, error_name: None },
        }
    );
    session.teardown(1).unwrap();
    assert!(!session.silent_close());
    assert_eq!(session.on_timer_fire(), TimerNext::Ignore);
}

#[test]
fn close_is_reported_once() {
    let mut session = live();
    session.send_datagram(Some(vec![1]));
    session.send_datagram(Some(vec![2]));
    session.state.listener_flags = 0x4;
    let mut abandoned = session.begin_report_close().unwrap();
    assert_eq!(abandoned, vec![1, 2]);
    assert!(session.datagram_queue.is_empty());
    assert_eq!(session.next_abandoned(&mut abandoned), Some(1));
    let report = CloseReport { error_type: 1, code: 2, reason: Some(Vec::new()), error_name: None };
    let shown = session.finish_report_close(report, 77);
    assert_eq!(shown, CloseReport { error_type: 1, code: 2, reason: None, error_name: None });
    let report = session.report_local_close(3, 0x178);
    assert_eq!(report, CloseReport { error_type: 3, code: 0x178, reason: None, error_name: None });
    let named = CloseReport { error_name: Some("CRYPTO_ERROR"), ..report };
    assert_eq!(session.finish_report_close(named, 77).error_name, Some("CRYPTO_ERROR"));
    assert_eq!((session.state.closing, session.stats[2]), (1, 77));
    assert!(session.begin_report_close().is_none());
    assert!(!session.graceful_close(None));
    session.teardown(1).unwrap();
    assert_eq!(session.next_abandoned(&mut abandoned), None);
}

#[test]
fn endpoint_closes_a_session_once() {
    let mut session = live();
    let report = CloseReport { error_type: 0, code: 0, reason: None, error_name: None };
    assert_eq!(session.close_from_endpoint(), Some((CloseFrame::Default, report)));
    session.begin_report_close().unwrap();
    assert_eq!(session.close_from_endpoint(), None);
    let mut session = live();
    session.teardown(1).unwrap();
    assert_eq!(session.close_from_endpoint(), None);
}

#[test]
fn abandoned_datagrams_are_not_reported_unheard() {
    let mut session = live();
    session.send_datagram(Some(vec![1]));
    assert!(session.begin_report_close().unwrap().is_empty());
    assert!(session.datagram_queue.is_empty());
    assert!(!session.reports_datagram_status());
}

#[test]
fn remote_close_is_shown_as_recorded() {
    let session = live();
    let ccerr = || ngtcp2_ccerr { type_: 1, error_code: 5, frame_type: 0, reason: b"why".to_vec() };
    assert_eq!(
        session.report_remote_close(Some(ccerr())),
        CloseReport { error_type: 1, code: 5, reason: Some(b"why".to_vec()), error_name: None }
    );
    let none = CloseReport { error_type: 0, code: 0, reason: None, error_name: None };
    assert_eq!(session.report_remote_close(None), none);
    let shell = QuicSession::create_shell(addr(1), addr(2), 0);
    assert_eq!(shell.report_remote_close(Some(ccerr())), none);
}

#[test]
fn local_errors_close_the_connection() {
    let mut session = live();
    assert_eq!(session.close_with_local_error(-213), LocalClose::TlsAlert);
    assert_eq!(session.close_with_local_error(-501), LocalClose::Library(-501));
    assert_eq!(session.send_connection_close(), Some((addr(1), addr(2))));
    session.teardown(1).unwrap();
    assert_eq!(session.close_with_local_error(-501), LocalClose::Ignore);
    assert_eq!(session.send_connection_close(), None);
}

#[test]
fn destroy_tells_the_peer_unless_closed() {
    let mut session = live();
    assert_eq!(
        session.destroy(&num(3.0)),
        DestroyNext::CloseFirst(CloseFrame::Error { type_: 1, code: 3 })
    );
    assert_eq!(session.destroy(&JsValue::Undefined), DestroyNext::CloseFirst(CloseFrame::Default));
    session.begin_report_close();
    assert_eq!(session.destroy(&num(3.0)), DestroyNext::TearDown);
    session.teardown(1).unwrap();
    assert_eq!(session.destroy(&num(3.0)), DestroyNext::Ignore);
}

#[test]
fn session_teardown_releases_everything_once() {
    let mut session = live();
    session.adopt_stream(0, 1);
    session.adopt_stream(4, 1);
    session.on_max_stream_data(0);
    session.rearm_timer(5, 0);
    assert!(session.add_connection_id(vec![2, 2]));
    let released = session.teardown(88).unwrap();
    assert!(released.cancel_timer && released.delete_conn);
    let mut ids: Vec<i64> = released.streams.iter().map(|stream| stream.id).collect();
    ids.sort();
    assert_eq!(ids, vec![0, 4]);
    assert!(released.streams.iter().all(|stream| stream.is_destroyed() && stream.stats[4] == 88));
    assert_eq!(released.cids, vec![vec![1, 1], vec![2, 2]]);
    assert_eq!(session.stats[1], 88);
    assert!(session.stream_events.is_empty() && !session.is_live());
    assert!(session.teardown(89).is_none());
    assert!(!session.add_connection_id(vec![3]));
    assert_eq!(session.get_remote_address(), None);
    assert_eq!(session.get_local_address(), None);
    assert_eq!(session.get_certificate(Some(vec![1])), None);
    assert_eq!(session.open_stream(&num(1.0)), None);
}

#[test]
fn failed_connection_tears_the_session_down() {
    for (rv, created) in [(-1, true), (0, false)] {
        let mut session = QuicSession::create_shell(addr(1), addr(2), 0);
        let released = session.attach_connection(rv, created, vec![vec![1]], 7).err().unwrap();
        assert!(!released.delete_conn && released.cids.is_empty());
        assert!(session.destroyed && !session.conn && session.registered_cids.is_empty());
    }
}

#[test]
fn connection_ids_come_and_go() {
    let mut session = live();
    assert!(session.add_connection_id(vec![2]));
    assert!(session.add_connection_id(vec![3]));
    assert!(session.add_connection_id(vec![2]));
    assert!(session.remove_connection_id(&[2]));
    assert_eq!(session.registered_cids, vec![vec![1, 1], vec![3]]);
    assert!(session.remove_connection_id(&[9]));
    assert_eq!(session.registered_cids.len(), 2);
}

#[test]
fn session_getters_show_the_addresses() {
    let session = live();
    assert_eq!(session.get_remote_address(), Some(SocketAddress::V4 { ip: [10, 0, 0, 2], port: 443 }));
    assert_eq!(session.get_local_address(), Some(SocketAddress::V4 { ip: [10, 0, 0, 1], port: 443 }));
    assert_eq!(session.get_certificate(Some(vec![1])), Some(vec![1]));
    assert_eq!(session.get_peer_certificate(None), None);
    assert_eq!(session.update_key(), Err("QuicSession.updateKey is not implemented yet"));
    let unset = QuicSession::create_shell(StoredAddr::default(), StoredAddr::default(), 0);
    assert_eq!(unset.get_remote_address(), None);
}

#[test]
fn local_streams_are_opened_by_direction() {
    let mut session = live();
    assert_eq!(session.open_stream(&num(1.0)), Some(true));
    assert_eq!(session.open_stream(&num(2.0)), Some(false));
    assert_eq!(session.open_stream(&JsValue::Undefined), Some(false));
    assert!(!session.stream_opened(-206, 0, &JsValue::Undefined, 1));
    assert!(!session.streams.contains(0));
    assert!(session.stream_opened(0, 2, &JsValue::Object, 1));
    assert!(!session.streams.get(2).unwrap().has_pending_outbound());
    let stream = session.teardown_stream(2, 5).unwrap();
    assert!(stream.is_destroyed() && !session.streams.contains(2));
    assert!(session.teardown_stream(2, 5).is_none());
    assert!(session.extend_stream_offset(1) && !session.extend_stream_offset(0));
}

#[test]
fn unacknowledged_bytes_stay_held() {
    let mut session = live();
    session.stream_opened(0, 0, &JsValue::Buffer((0..10).collect()), 1);
    let mut pending = session.begin_flush().unwrap();
    let write = session.stage_write(&pending);
    session.settle_write(&mut pending, &write, 50, 4, false);
    let write = session.stage_write(&pending);
    session.settle_write(&mut pending, &write, -208, -1, false);
    session.on_stream_reset(0, 1);
    actions(&mut session);
    let held = |session: &QuicSession| -> Vec<u8> {
        let outbound = &session.streams.get(0).unwrap().outbound;
        outbound.inflight.iter().flat_map(|chunk| chunk.bytes[..chunk.accepted].to_vec()).collect()
    };
    assert_eq!(held(&session), vec![0, 1, 2, 3]);
    session.on_stream_data_acked(0, 0, 3);
    assert_eq!(held(&session), vec![0, 1, 2, 3]);
    session.on_stream_data_acked(0, 3, 1);
    assert!(held(&session).is_empty());
}

#[test]
fn events_touch_only_their_stream() {
    let mut session = live();
    session.adopt_stream(0, 1);
    session.adopt_stream(4, 1);
    session.on_stream_data(1, 4, b"abc".to_vec());
    session.on_stream_reset(4, 3);
    session.on_max_stream_data(4);
    actions(&mut session);
    let quiet = session.streams.get(0).unwrap();
    assert_eq!((quiet.state.fin_received, quiet.state.reset, quiet.state.write_desired_size), (0, 0, 0));
    assert!(quiet.inbound.chunks.is_empty());
    let busy = session.streams.get(4).unwrap();
    assert_eq!((busy.state.fin_received, busy.state.reset, busy.state.write_desired_size), (1, 1, 65536));
}
