use node_quic::inbound::{Inbound, Pulled};
use node_quic::number::JsNumber;
use node_quic::outbound::Outbound;
use node_quic::stream::{Credit, Kick, QuicStream, Sides, StreamRequest};
use node_quic::value::JsValue;

fn num(n: f64) -> JsValue {
    JsValue::Number(JsNumber { bits: n.to_bits() })
}

fn queued(outbound: &Outbound) -> Vec<u8> {
    outbound.data.iter().copied().collect()
}

#[test]
fn writes_keep_the_byte_order() {
    let mut outbound = Outbound::new();
    outbound.queue(b"hello world");
    let mut sent: Vec<u8> = Vec::new();
    for accepted in [3usize, 0, 4, 100] {
        let staged = outbound.stage_chunk(5);
        let bytes = outbound.staged_bytes().unwrap().to_vec();
        assert_eq!(bytes.len(), staged);
        outbound.commit_staged(accepted);
        sent.extend_from_slice(&bytes[..accepted.min(staged)]);
        let mut all = sent.clone();
        all.extend(queued(&outbound));
        assert_eq!(all, b"hello world");
        assert_eq!(outbound.submitted, sent.len() as u64);
    }
    assert_eq!(sent, b"hello world");
    assert_eq!(outbound.inflight.len(), 3);
}

#[test]
fn staging_stops_at_the_limit_and_keeps_the_queue() {
    let mut outbound = Outbound::new();
    assert_eq!(outbound.stage_chunk(10), 0);
    assert!(outbound.staged_bytes().is_none());
    outbound.queue(b"abcdef");
    assert_eq!(outbound.stage_chunk(4), 4);
    assert_eq!(outbound.staged_bytes(), Some(&b"abcd"[..]));
    assert_eq!(queued(&outbound), b"abcdef");
}

#[test]
fn settling_without_a_chunk_does_nothing() {
    let mut outbound = Outbound::new();
    outbound.queue(b"x");
    outbound.commit_staged(1);
    assert_eq!(queued(&outbound), b"x");
    assert_eq!(outbound.submitted, 0);
}

#[test]
fn acknowledged_chunks_are_released() {
    let mut outbound = Outbound::new();
    outbound.queue(b"0123456789");
    for _ in 0..2 {
        outbound.stage_chunk(5);
        outbound.commit_staged(5);
    }
    outbound.on_acked(0, 4);
    assert_eq!(outbound.inflight.len(), 2);
    outbound.on_acked(4, 1);
    assert_eq!(outbound.inflight.len(), 1);
    assert_eq!(outbound.inflight[0].start, 5);
    outbound.on_acked(0, 3);
    assert_eq!(outbound.acked, 5);
    outbound.on_acked(u64::MAX, u64::MAX);
    assert_eq!(outbound.acked, u64::MAX);
    assert!(outbound.inflight.is_empty());
}

#[test]
fn reader_gets_data_then_the_end() {
    let mut inbound = Inbound::new();
    assert_eq!(inbound.pull(), Pulled::Blocked);
    inbound.receive(b"ab", false);
    inbound.receive(b"", false);
    inbound.receive(b"cd", true);
    assert_eq!(inbound.pull(), Pulled::Data(b"ab".to_vec()));
    assert_eq!(inbound.pull(), Pulled::Data(b"cd".to_vec()));
    assert_eq!(inbound.pull(), Pulled::Eos);
    assert_eq!(inbound.pull(), Pulled::Eos);
}

#[test]
fn reset_discards_and_errors() {
    let mut inbound = Inbound::new();
    inbound.receive(b"ab", false);
    inbound.reset();
    assert_eq!(inbound.pull(), Pulled::Error);
    assert!(inbound.ended && inbound.chunks.is_empty());
}

#[test]
fn pull_statuses_have_their_numbers() {
    assert_eq!(Pulled::Eos.status(), 0);
    assert_eq!(Pulled::Data(vec![1]).status(), 1);
    assert_eq!(Pulled::Blocked.status(), 2);
    assert_eq!(Pulled::Error.status(), -1);
}

#[test]
fn new_stream_has_its_defaults() {
    let stream = QuicStream::create(8, 77);
    assert_eq!(stream.state.id, 8);
    assert_eq!(stream.state.high_water_mark, 65536);
    assert_eq!(stream.state.write_desired_size, 0);
    assert_eq!(stream.stats[0], 77);
    assert_eq!(stream.stats[1], 77);
    assert_eq!(stream.stats[4], 0);
    assert!(!stream.is_destroyed());
    assert!(!stream.has_pending_outbound());
    assert_eq!(stream.get_priority(), 6);
}

#[test]
fn received_data_is_counted() {
    let mut stream = QuicStream::create(0, 1);
    stream.push_inbound(b"abc", false, 50);
    stream.push_inbound(b"", true, 60);
    assert_eq!(stream.stats[5], 3);
    assert_eq!(stream.stats[2], 50);
    assert_eq!(stream.state.fin_received, 1);
    let (pulled, credit) = stream.pull();
    assert_eq!(pulled, Pulled::Data(b"abc".to_vec()));
    assert_eq!(credit, Some(Credit { id: 0, bytes: 3 }));
    assert_eq!(stream.pull(), (Pulled::Eos, None));
}

#[test]
fn reset_marks_the_state() {
    let mut stream = QuicStream::create(0, 1);
    stream.push_inbound(b"abc", false, 2);
    stream.mark_reset(9);
    assert_eq!((stream.state.reset, stream.state.reset_code, stream.state.read_ended), (1, 9, 1));
    assert_eq!(stream.pull().0, Pulled::Error);
}

#[test]
fn wakeup_serves_once() {
    let mut stream = QuicStream::create(0, 1);
    stream.set_wakeup(Some(5));
    assert_eq!(stream.take_wakeup(), Some(5));
    assert_eq!(stream.take_wakeup(), None);
    stream.set_wakeup(Some(6));
    stream.set_wakeup(None);
    assert_eq!(stream.take_wakeup(), None);
}

#[test]
fn batches_are_queued_in_order() {
    let mut stream = QuicStream::create(4, 1);
    stream.init_streaming_source();
    assert_eq!(stream.state.write_desired_size, 65536);
    let batch = JsValue::Array(vec![
        JsValue::Buffer(b"ab".to_vec()),
        JsValue::Text(b"skipped".to_vec()),
        JsValue::Buffer(b"c".to_vec()),
    ]);
    assert_eq!(stream.write(&batch), (Some(3), Kick::Session));
    assert_eq!(stream.write(&JsValue::Buffer(b"d".to_vec())), (Some(1), Kick::Session));
    assert_eq!(stream.write(&JsValue::Object), (Some(0), Kick::Session));
    assert_eq!(queued(&stream.outbound), b"abcd");
    assert_eq!(stream.state.write_desired_size, 65532);
    assert!(stream.has_pending_outbound());
    assert_eq!(stream.end_write(), Kick::Session);
    assert!(stream.outbound.fin_pending);
}

#[test]
fn writer_is_told_when_room_is_back() {
    let mut stream = QuicStream::create(4, 1);
    stream.state.high_water_mark = 4;
    stream.init_streaming_source();
    stream.write(&JsValue::Buffer(b"abcdef".to_vec()));
    assert_eq!(stream.state.write_desired_size, 0);
    assert!(!stream.refresh_write_capacity());
    stream.stage_chunk(3);
    stream.commit_staged(3);
    assert!(stream.refresh_write_capacity());
    assert_eq!(stream.state.write_desired_size, 1);
    assert!(!stream.refresh_write_capacity());
}

#[test]
fn a_full_queue_leaves_no_room() {
    let mut stream = QuicStream::create(0, 1);
    stream.init_streaming_source();
    stream.write(&JsValue::Buffer(vec![1; 65535]));
    assert_eq!(stream.state.write_desired_size, 1);
    stream.write(&JsValue::Buffer(vec![1; 1]));
    assert_eq!(stream.state.write_desired_size, 0);
    stream.write(&JsValue::Buffer(vec![1; 65536]));
    assert_eq!(stream.state.write_desired_size, 0);
    assert!(!stream.refresh_write_capacity());
}

#[test]
fn a_history_of_writes_loses_no_byte() {
    let mut outbound = Outbound::new();
    outbound.queue(b"abcdef");
    assert_eq!(outbound.stage_chunk(4), 4);
    outbound.commit_staged(3);
    outbound.queue(b"gh");
    assert_eq!(outbound.stage_chunk(4), 4);
    outbound.commit_staged(0);
    assert_eq!(outbound.stage_chunk(2), 2);
    outbound.commit_staged(9);
    outbound.on_acked(0, 4);
    let held: Vec<u8> =
        outbound.inflight.iter().flat_map(|chunk| chunk.bytes[..chunk.accepted].to_vec()).collect();
    assert_eq!((outbound.inflight.len(), outbound.inflight[0].start), (1, 3));
    assert_eq!((held, queued(&outbound)), (b"de".to_vec(), b"fgh".to_vec()));
    assert_eq!((outbound.submitted, outbound.acked), (5, 4));
}

#[test]
fn attached_source_ends_the_stream() {
    let mut stream = QuicStream::create(4, 1);
    assert_eq!(stream.attach_source(&JsValue::Buffer(b"body".to_vec())), Ok(Kick::Session));
    assert!(stream.outbound.fin_pending && stream.outbound.started);
    assert_eq!(stream.state.has_outbound, 1);
    let mut empty = QuicStream::create(8, 1);
    assert_eq!(empty.attach_source(&JsValue::Undefined), Ok(Kick::Session));
    assert!(empty.has_pending_outbound());
    assert_eq!(
        empty.attach_source(&JsValue::Object),
        Err("Unsupported QUIC stream body source (Blob and FileHandle sources are not implemented yet)")
    );
}

#[test]
fn teardown_happens_once() {
    let mut stream = QuicStream::create(12, 1);
    stream.push_inbound(b"abc", false, 2);
    stream.set_wakeup(Some(1));
    assert_eq!(stream.teardown(99), Some(12));
    assert_eq!(stream.teardown(100), None);
    assert_eq!(stream.stats[4], 99);
    assert!(stream.is_destroyed() && !stream.attached);
    assert_eq!(stream.take_wakeup(), None);
    assert_eq!(stream.pull(), (Pulled::Blocked, None));
    assert_eq!(stream.write(&JsValue::Buffer(b"x".to_vec())), (None, Kick::Ignored));
    assert_eq!(stream.end_write(), Kick::Ignored);
    assert_eq!(stream.destroy(&num(1.0)), StreamRequest::Ignored);
    stream.push_inbound(b"late", true, 3);
    assert_eq!(stream.pull().0, Pulled::Blocked);
}

#[test]
fn stream_requests_carry_the_code() {
    let mut stream = QuicStream::create(3, 1);
    assert_eq!(stream.destroy(&num(7.0)), StreamRequest::Ask { id: 3, code: 7, sides: Sides::Both });
    assert_eq!(stream.stop_sending(&num(-7.0)), StreamRequest::Ask { id: 3, code: 0, sides: Sides::Reading });
    assert_eq!(stream.reset_stream(&JsValue::Undefined), StreamRequest::Ask { id: 3, code: 0, sides: Sides::Writing });
    assert_eq!(stream.state.write_ended, 1);
    stream.attached = false;
    assert_eq!(stream.stop_sending(&num(1.0)), StreamRequest::Detached);
    assert_eq!(
        stream.send_headers(),
        Err("QuicStream.sendHeaders requires the HTTP/3 application, which is not implemented yet")
    );
    stream.get_reader();
    assert_eq!(stream.state.has_reader, 1);
}

#[test]
fn sides_say_what_is_shut_down() {
    let shut = |sides: Sides| (sides.shuts_writing(), sides.shuts_reading());
    assert_eq!(shut(Sides::Both), (true, true));
    assert_eq!(shut(Sides::Reading), (false, true));
    assert_eq!(shut(Sides::Writing), (true, false));
}
