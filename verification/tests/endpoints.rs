use node_quic::address::{SocketAddress, StoredAddr};
use node_quic::endpoint::{ListenError, QuicEndpoint, Route, CLOSECONTEXT_CLOSE};
use node_quic::ngtcp2::ngtcp2_version_cid;
use node_quic::number::JsNumber;
use node_quic::session::QuicSession;
use node_quic::settings::{SessionOptions, TransportOptions};
use node_quic::stats::{endpoint_stats_fields, session_stats_fields, stream_stats_fields};
use node_quic::value::JsValue;

fn header(dcid: Option<Vec<u8>>) -> ngtcp2_version_cid {
    ngtcp2_version_cid { version: 1, dcid, scid: None }
}

fn num(n: f64) -> JsValue {
    JsValue::Number(JsNumber { bits: n.to_bits() })
}

fn with_params() -> SessionOptions {
    SessionOptions {
        transport_params: Some(TransportOptions {
            initial_max_stream_data_bidi_local: JsValue::Undefined,
            initial_max_stream_data_bidi_remote: JsValue::Undefined,
            initial_max_stream_data_uni: JsValue::Undefined,
            initial_max_data: JsValue::Undefined,
            initial_max_streams_bidi: JsValue::Undefined,
            initial_max_streams_uni: JsValue::Undefined,
            max_idle_timeout: JsValue::Undefined,
            active_connection_id_limit: JsValue::Undefined,
            ack_delay_exponent: JsValue::Undefined,
            max_ack_delay: JsValue::Undefined,
            max_datagram_frame_size: JsValue::Undefined,
        }),
        ..SessionOptions::absent()
    }
}

fn open() -> QuicEndpoint {
    let mut endpoint = QuicEndpoint::constructor(None, 3);
    endpoint.finish_bind();
    endpoint
}

#[test]
fn endpoint_binds_to_loopback_by_default() {
    let endpoint = QuicEndpoint::constructor(None, 3);
    assert_eq!(endpoint.ensure_bound(), Some((&b"127.0.0.1\0"[..], 0)));
    assert_eq!(endpoint.stats[0], 3);
    let endpoint = QuicEndpoint::constructor(Some((b"::1".to_vec(), 443)), 3);
    assert_eq!(endpoint.ensure_bound(), Some((&b"::1\0"[..], 443)));
    let endpoint = open();
    assert_eq!(endpoint.ensure_bound(), None);
    assert_eq!((endpoint.state.bound, endpoint.state.receiving), (1, 1));
}

#[test]
fn listening_happens_once() {
    let mut endpoint = QuicEndpoint::constructor(None, 3);
    assert_eq!(endpoint.listen(Some(&SessionOptions::absent())), Ok(true));
    endpoint.finish_bind();
    endpoint.finish_listen();
    assert_eq!(endpoint.state.listening, 1);
    assert!(endpoint.referenced && endpoint.listen_options);
    assert_eq!(endpoint.listen(Some(&SessionOptions::absent())), Ok(false));
    endpoint.close_gracefully();
    assert_eq!(endpoint.listen(Some(&SessionOptions::absent())), Err(ListenError::Closed));
}

#[test]
fn unacceptable_parameters_are_not_listened_with() {
    let mut endpoint = open();
    let mut options = with_params();
    let params = options.transport_params.as_mut().unwrap();
    params.ack_delay_exponent = num(21.0);
    params.max_datagram_frame_size = num(-1.0);
    assert_eq!(endpoint.listen(Some(&options)), Err(ListenError::InvalidArgValue("ackDelayExponent")));
    assert!(endpoint.state.listening == 0 && !endpoint.listen_options && !endpoint.referenced);
    options.transport_params.as_mut().unwrap().ack_delay_exponent = num(20.0);
    assert_eq!(endpoint.listen(Some(&options)), Err(ListenError::InvalidArgValue("maxDatagramFrameSize")));
    options.transport_params.as_mut().unwrap().max_datagram_frame_size = JsValue::Undefined;
    assert_eq!(endpoint.listen(Some(&options)), Ok(true));
    assert!(endpoint.listen_options);
}

#[test]
fn refusals_come_in_their_order() {
    let mut options = with_params();
    options.transport_params.as_mut().unwrap().initial_max_data = num(0.5);
    let mut endpoint = open();
    endpoint.listen(Some(&SessionOptions::absent())).unwrap();
    endpoint.finish_listen();
    assert_eq!(endpoint.listen(Some(&options)), Ok(false));
    endpoint.close_gracefully();
    assert_eq!(endpoint.listen(Some(&options)), Err(ListenError::Closed));
}

#[test]
fn packets_are_routed_by_destination() {
    let mut endpoint = open();
    assert_eq!(endpoint.receive_packet(10, 0, &header(Some(vec![1]))), Route::Drop);
    endpoint.register_session_cid(&[1], 70);
    endpoint.register_session_cid(&[2], 71);
    assert_eq!(endpoint.receive_packet(10, 0, &header(Some(vec![1]))), Route::Deliver(70));
    assert_eq!(endpoint.receive_packet(10, 0, &header(Some(vec![2]))), Route::Deliver(71));
    endpoint.register_session_cid(&[1], 72);
    assert_eq!(endpoint.receive_packet(10, 0, &header(Some(vec![1]))), Route::Deliver(72));
    endpoint.unregister_session_cid(&[1]);
    assert_eq!(endpoint.receive_packet(10, 0, &header(Some(vec![1]))), Route::Drop);
    assert_eq!(endpoint.receive_packet(10, 0, &header(Some(vec![2]))), Route::Deliver(71));
}

#[test]
fn unreadable_packets_are_dropped() {
    let mut endpoint = open();
    endpoint.register_session_cid(&[1], 70);
    endpoint.listen(Some(&SessionOptions::absent())).unwrap();
    endpoint.finish_listen();
    assert_eq!(endpoint.receive_packet(0, 0, &header(Some(vec![1]))), Route::Drop);
    assert_eq!(endpoint.receive_packet(10, -235, &header(Some(vec![1]))), Route::Drop);
    assert_eq!(endpoint.receive_packet(10, 0, &header(None)), Route::Drop);
    assert_eq!(endpoint.receive_packet(10, 0, &header(Some(vec![]))), Route::Drop);
    assert_eq!(endpoint.receive_packet(10, 0, &header(Some(vec![0; 21]))), Route::Drop);
    assert_eq!(endpoint.receive_packet(10, 0, &header(Some(vec![0; 20]))), Route::Accept);
}

#[test]
fn only_listeners_with_options_accept() {
    let mut endpoint = open();
    endpoint.listen(None).unwrap();
    endpoint.finish_listen();
    assert_eq!(endpoint.receive_packet(10, 0, &header(Some(vec![5]))), Route::Drop);
    let mut endpoint = open();
    endpoint.listen(Some(&SessionOptions::absent())).unwrap();
    assert_eq!(endpoint.receive_packet(10, 0, &header(Some(vec![5]))), Route::Drop);
    endpoint.finish_listen();
    assert_eq!(endpoint.receive_packet(10, 0, &header(Some(vec![5]))), Route::Accept);
}

#[test]
fn announced_session_may_be_gone() {
    let mut endpoint = open();
    endpoint.count_server_session();
    endpoint.register_session_cid(&[1], 70);
    assert!(endpoint.still_routed(&[1], 70));
    assert!(!endpoint.still_routed(&[1], 71));
    assert!(!endpoint.still_routed(&[2], 70));
    endpoint.close_gracefully();
    assert!(!endpoint.still_routed(&[1], 70));
    assert_eq!(endpoint.stats[6], 1);
}

#[test]
fn idle_endpoint_is_not_referenced() {
    let mut endpoint = QuicEndpoint::constructor(None, 3);
    endpoint.register_session_cid(&[1], 70);
    assert!(!endpoint.referenced);
    endpoint.finish_bind();
    endpoint.register_session_cid(&[2], 70);
    assert!(endpoint.referenced);
    endpoint.unregister_session_cid(&[1]);
    assert!(endpoint.referenced);
    endpoint.unregister_session_cid(&[2]);
    assert!(!endpoint.referenced);
    endpoint.do_ref(true);
    assert!(endpoint.referenced);
}

#[test]
fn nothing_leads_to_a_torn_down_session() {
    let mut endpoint = open();
    let mut session = QuicSession::create_shell(StoredAddr::default(), StoredAddr::default(), 0);
    let cids = vec![vec![1], vec![2]];
    endpoint.register_session_cids(&cids, 70);
    session.attach_connection(0, true, cids, 0).ok().unwrap();
    endpoint.register_session_cid(&[9], 71);
    if session.add_connection_id(vec![3]) {
        endpoint.register_session_cid(&[3], 70);
    }
    if session.remove_connection_id(&[1]) {
        endpoint.unregister_session_cid(&[1]);
    }
    let released = session.teardown(1).unwrap();
    endpoint.unregister_session_cids(&released.cids);
    for cid in [1u8, 2, 3] {
        assert_eq!(endpoint.receive_packet(10, 0, &header(Some(vec![cid]))), Route::Drop);
    }
    assert_eq!(endpoint.receive_packet(10, 0, &header(Some(vec![9]))), Route::Deliver(71));
}

#[test]
fn sent_and_received_packets_are_counted() {
    let dest = StoredAddr::from_socket_address(&SocketAddress::V4 { ip: [1, 2, 3, 4], port: 5 });
    let mut endpoint = QuicEndpoint::constructor(None, 3);
    assert!(!endpoint.send_packet(100, &dest));
    endpoint.finish_bind();
    assert!(endpoint.send_packet(100, &dest));
    assert!(!endpoint.send_packet(0, &dest));
    assert!(!endpoint.send_packet(100, &StoredAddr::default()));
    endpoint.count_received(3, 4000);
    endpoint.count_received(-1, 0);
    assert_eq!(endpoint.stats[2..6], [4000, 100, 3, 1]);
}

#[test]
fn connecting_needs_an_open_endpoint_and_an_address() {
    let mut endpoint = open();
    let remote = SocketAddress::V4 { ip: [1, 2, 3, 4], port: 5 };
    assert_eq!(endpoint.connect(Some(remote)), Ok(StoredAddr::from_socket_address(&remote)));
    assert_eq!(endpoint.connect(None), Err("Expected a SocketAddress to connect to"));
    endpoint.count_client_session();
    assert_eq!(endpoint.stats[7], 1);
    endpoint.close_gracefully();
    assert_eq!(endpoint.connect(None), Err("Endpoint is closed"));
}

#[test]
fn address_is_shown_while_open() {
    let mut endpoint = QuicEndpoint::constructor(None, 3);
    let mut ip = [0u8; 16];
    ip[0] = 127;
    assert_eq!(endpoint.address(99, &ip, 4), None);
    assert!(!endpoint.local_stored_addr(99, &ip, 4).is_set());
    endpoint.finish_bind();
    let bound = SocketAddress::V4 { ip: [127, 0, 0, 0], port: 99 };
    assert_eq!(endpoint.address(99, &ip, 4), Some(bound));
    assert_eq!(endpoint.local_stored_addr(99, &ip, 4).to_socket_address(), Some(bound));
    assert!(!endpoint.local_stored_addr(0, &ip, 4).is_set());
    assert_eq!(endpoint.address(99, &ip, 7), None);
}

#[test]
fn closing_lets_everything_go_once() {
    let mut endpoint = open();
    endpoint.listen(Some(&SessionOptions::absent())).unwrap();
    endpoint.finish_listen();
    endpoint.mark_busy(true);
    endpoint.register_session_cid(&[1], 70);
    endpoint.register_session_cid(&[2], 70);
    let live = endpoint.close_gracefully().unwrap();
    assert_eq!(live, vec![70, 70]);
    assert!(endpoint.close_gracefully().is_none());
    assert!(endpoint.finish_close(44));
    assert!(endpoint.sessions.is_empty() && !endpoint.socket && !endpoint.referenced);
    assert_eq!(endpoint.stats[1], 44);
    let state = endpoint.state;
    assert_eq!((state.closing, state.bound, state.receiving, state.listening, state.busy), (1, 0, 0, 0, 1));
    assert_eq!(endpoint.receive_packet(10, 0, &header(Some(vec![1]))), Route::Drop);
    assert!(!endpoint.finish_close(44));
    assert_eq!(CLOSECONTEXT_CLOSE, 0);
}

#[test]
fn sni_contexts_are_not_supported() {
    let mut endpoint = open();
    assert_eq!(
        endpoint.set_sni_contexts(),
        Err("QuicEndpoint.setSNIContexts is not implemented yet")
    );
    endpoint.mark_busy(true);
    endpoint.mark_busy(false);
    assert_eq!(endpoint.state.busy, 0);
}

#[test]
fn statistics_have_their_names() {
    let endpoint = endpoint_stats_fields();
    assert_eq!((endpoint.len(), endpoint[2], endpoint[18]), (19, "BYTES_RECEIVED", "PACKETS_BLOCKED"));
    let session = session_stats_fields();
    assert_eq!((session.len(), session[13], session[31]), (32, "CWND", "STREAMS_IDLE_TIMED_OUT"));
    let stream = stream_stats_fields();
    assert_eq!((stream.len(), stream[5], stream[12]), (13, "BYTES_RECEIVED", "MAX_BYTES_ACCUMULATED"));
}
