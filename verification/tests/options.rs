use node_quic::address::StoredAddr;
use node_quic::ngtcp2::{
    debug_assert_layout, ngtcp2_cid, ngtcp2_pkt_hd, ngtcp2_preferred_addr, ngtcp2_settings, ngtcp2_sockaddr_in,
    ngtcp2_sockaddr_in6, ngtcp2_transport_params, ngtcp2_version_info,
};
use node_quic::number::JsNumber;
use node_quic::session::QuicSession;
use node_quic::settings::{
    build_settings, client_version, datagram_drop_policy, keep_alive_timeout, transport_params_to_js,
    validate_transport_params, SessionOptions, TransportOptions,
};
use node_quic::setup::{
    build_callbacks, client_cids, client_connection, connection_id_len, server_cids, server_connection,
};
use node_quic::value::JsValue;

fn num(n: f64) -> JsValue {
    JsValue::Number(JsNumber { bits: n.to_bits() })
}

fn text(s: &str) -> JsValue {
    JsValue::Text(s.as_bytes().to_vec())
}

fn settings_defaults() -> ngtcp2_settings {
    ngtcp2_settings {
        cc_algo: 1,
        initial_ts: 0,
        initial_rtt: 333_000_000,
        max_tx_udp_payload_size: 1452,
        token: vec![1, 2],
        token_type: 0,
        max_window: 6,
        max_stream_window: 7,
        ack_thresh: 2,
        no_tx_udp_payload_size_shaping: 0,
        handshake_timeout: u64::MAX,
        preferred_versions: vec![],
        available_versions: vec![],
        original_version: 0,
        no_pmtud: 0,
        initial_pkt_num: 0,
        pmtud_probes: vec![],
        glitch_ratelim_burst: 0,
        glitch_ratelim_rate: 0,
    }
}

fn params_defaults() -> ngtcp2_transport_params {
    ngtcp2_transport_params {
        preferred_addr: ngtcp2_preferred_addr {
            cid: ngtcp2_cid::default(),
            ipv4: ngtcp2_sockaddr_in { family_port: [0; 4], addr: [0; 4], zero: [0; 8] },
            ipv6: ngtcp2_sockaddr_in6 { family_port: [0; 4], flowinfo: 0, addr: [0; 16], scope_id: 0 },
            ipv4_present: 0,
            ipv6_present: 0,
            stateless_reset_token: [0; 16],
        },
        original_dcid: ngtcp2_cid::default(),
        initial_scid: ngtcp2_cid::default(),
        retry_scid: ngtcp2_cid::default(),
        initial_max_stream_data_bidi_local: 0,
        initial_max_stream_data_bidi_remote: 0,
        initial_max_stream_data_uni: 0,
        initial_max_data: 0,
        initial_max_streams_bidi: 0,
        initial_max_streams_uni: 0,
        max_idle_timeout: 0,
        max_udp_payload_size: 65527,
        active_connection_id_limit: 2,
        ack_delay_exponent: 3,
        max_ack_delay: 25_000_000,
        max_datagram_frame_size: 0,
        stateless_reset_token_present: 0,
        disable_active_migration: 0,
        original_dcid_present: 0,
        initial_scid_present: 0,
        retry_scid_present: 0,
        preferred_addr_present: 0,
        stateless_reset_token: [0; 16],
        grease_quic_bit: 0,
        version_info: ngtcp2_version_info { chosen_version: 0, available_versions: vec![] },
        version_info_present: 0,
    }
}

fn no_params() -> TransportOptions {
    TransportOptions {
        initial_max_stream_data_bidi_local: JsValue::Undefined,
        initial_max_stream_data_bidi_remote: JsValue::Undefined,
        initial_max_stream_data_uni: JsValue::Undefined,
        initial_max_data: JsValue::Undefined,
        initial_max_streams_bidi: JsValue::Undefined,
        initial_max_streams_uni: JsValue::Undefined,
        max_idle_timeout: JsValue::Undefined,
        active_connection_id_limit: JsValue::Undefined,
        ack_delay_exponent: JsValue::Undefined,
        max_ack_delay: JsValue::Undefined,
        max_datagram_frame_size: JsValue::Undefined,
    }
}

fn with_params(params: TransportOptions) -> SessionOptions {
    SessionOptions { transport_params: Some(params), ..SessionOptions::absent() }
}

#[test]
fn layout_drift_is_named() {
    let mut settings = settings_defaults();
    let mut params = params_defaults();
    assert_eq!(debug_assert_layout(&settings, &params), Ok(()));
    params.max_ack_delay = 1;
    params.active_connection_id_limit = 9;
    assert_eq!(
        debug_assert_layout(&settings, &params),
        Err("ngtcp2_transport_params layout drift (max_ack_delay)")
    );
    params.max_ack_delay = 25_000_000;
    assert_eq!(
        debug_assert_layout(&settings, &params),
        Err("ngtcp2_transport_params layout drift (active_connection_id_limit)")
    );
    settings.ack_thresh = 3;
    assert_eq!(debug_assert_layout(&settings, &params), Err("ngtcp2_settings layout drift (ack_thresh)"));
    settings.cc_algo = 0;
    assert_eq!(debug_assert_layout(&settings, &params), Err("ngtcp2_settings layout drift (cc_algo)"));
}

#[test]
fn settings_default_without_options() {
    let (settings, params) =
        build_settings(&SessionOptions::absent(), settings_defaults(), params_defaults(), 1234);
    assert_eq!(settings.initial_ts, 1234);
    assert_eq!(settings.handshake_timeout, 10_000_000_000);
    assert_eq!(settings.initial_rtt, 333_000_000);
    assert_eq!(settings.cc_algo, 1);
    assert_eq!(settings.max_tx_udp_payload_size, 1452);
    assert_eq!(params.initial_max_stream_data_bidi_local, 262144);
    assert_eq!(params.initial_max_stream_data_bidi_remote, 262144);
    assert_eq!(params.initial_max_stream_data_uni, 262144);
    assert_eq!(params.initial_max_data, 1048576);
    assert_eq!(params.initial_max_streams_bidi, 100);
    assert_eq!(params.initial_max_streams_uni, 3);
    assert_eq!(params.max_idle_timeout, 10_000_000_000);
    assert_eq!(params.active_connection_id_limit, 2);
    assert_eq!(params.ack_delay_exponent, 3);
    assert_eq!(params.max_ack_delay, 25_000_000);
    assert_eq!(params.max_datagram_frame_size, 1200);
}

#[test]
fn options_override_the_settings() {
    let options = SessionOptions {
        handshake_timeout: num(5000.0),
        initial_rtt: num(100.0),
        max_payload_size: num(1300.0),
        max_window: num(10.0),
        max_stream_window: num(20.0),
        cc: text("bbr"),
        ..SessionOptions::absent()
    };
    let (settings, _) = build_settings(&options, settings_defaults(), params_defaults(), 0);
    assert_eq!(settings.handshake_timeout, 5_000_000_000);
    assert_eq!(settings.initial_rtt, 100_000_000);
    assert_eq!(settings.max_tx_udp_payload_size, 1300);
    assert_eq!((settings.max_window, settings.max_stream_window), (10, 20));
    assert_eq!(settings.cc_algo, 2);
}

#[test]
fn congestion_control_names() {
    for (name, algo) in [("reno", 0), ("cubic", 1), ("bbr", 2), ("bbr2", 1), ("", 1)] {
        let options = SessionOptions { cc: text(name), ..SessionOptions::absent() };
        let mut defaults = settings_defaults();
        defaults.cc_algo = 9;
        let (settings, _) = build_settings(&options, defaults, params_defaults(), 0);
        assert_eq!(settings.cc_algo, algo, "{}", name);
    }
    let mut defaults = settings_defaults();
    defaults.cc_algo = 9;
    let (settings, _) = build_settings(&SessionOptions::absent(), defaults, params_defaults(), 0);
    assert_eq!(settings.cc_algo, 9);
}

#[test]
fn given_params_read_back() {
    let mut given = no_params();
    given.max_idle_timeout = num(1500.0);
    given.max_ack_delay = num(33.0);
    given.initial_max_data = num(99.0);
    given.active_connection_id_limit = num(4.0);
    let (_, params) = build_settings(&with_params(given), settings_defaults(), params_defaults(), 0);
    assert_eq!(params.max_idle_timeout, 1_500_000_000);
    let pairs = transport_params_to_js(&params);
    assert_eq!(
        pairs,
        vec![
            ("initialMaxStreamDataBidiLocal", 262144),
            ("initialMaxStreamDataBidiRemote", 262144),
            ("initialMaxStreamDataUni", 262144),
            ("initialMaxData", 99),
            ("initialMaxStreamsBidi", 100),
            ("initialMaxStreamsUni", 3),
            ("maxIdleTimeout", 1500),
            ("activeConnectionIDLimit", 4),
            ("ackDelayExponent", 3),
            ("maxAckDelay", 33),
            ("maxDatagramFrameSize", 1200),
        ]
    );
}

#[test]
fn invalid_params_are_named() {
    assert_eq!(validate_transport_params(&SessionOptions::absent()), Ok(()));
    assert_eq!(validate_transport_params(&with_params(no_params())), Ok(()));
    let mut params = no_params();
    params.active_connection_id_limit = num(8.0);
    params.ack_delay_exponent = num(20.0);
    params.max_datagram_frame_size = num(65535.0);
    params.initial_max_data = num(1.8446744073709552e19);
    assert_eq!(validate_transport_params(&with_params(params)), Ok(()));
    for bad in [num(-1.0), num(0.5), num(f64::NAN), num(f64::INFINITY), JsValue::Null, text("1"), JsValue::BigInt(1)] {
        let mut params = no_params();
        params.initial_max_data = bad;
        params.max_datagram_frame_size = num(-1.0);
        assert_eq!(validate_transport_params(&with_params(params)), Err("initialMaxData"));
    }
    let mut params = no_params();
    params.active_connection_id_limit = num(9.0);
    assert_eq!(validate_transport_params(&with_params(params)), Err("activeConnectionIDLimit"));
    let mut params = no_params();
    params.ack_delay_exponent = num(21.0);
    assert_eq!(validate_transport_params(&with_params(params)), Err("ackDelayExponent"));
    let mut params = no_params();
    params.max_datagram_frame_size = num(65536.0);
    assert_eq!(validate_transport_params(&with_params(params)), Err("maxDatagramFrameSize"));
}

#[test]
fn durations_that_do_not_fit_are_found() {
    assert!(SessionOptions::absent().check_durations());
    let options = SessionOptions { handshake_timeout: num(1e15), ..SessionOptions::absent() };
    assert!(!options.check_durations());
    let options = SessionOptions { keep_alive: num(1e15), ..SessionOptions::absent() };
    assert!(!options.check_durations());
    let mut params = no_params();
    params.max_ack_delay = num(1e14);
    assert!(!with_params(params).check_durations());
    let options = SessionOptions { handshake_timeout: num(1e13), ..SessionOptions::absent() };
    assert!(options.check_durations());
}

#[test]
fn keep_alive_counts_above_zero() {
    for (value, timeout) in [
        (num(250.0), Some(250_000_000)),
        (num(0.5), Some(0)),
        (num(0.0), None),
        (num(-5.0), None),
        (num(f64::NAN), None),
        (JsValue::Undefined, None),
    ] {
        let options = SessionOptions { keep_alive: value, ..SessionOptions::absent() };
        assert_eq!(keep_alive_timeout(&options), timeout);
    }
}

#[test]
fn client_version_defaults_to_one() {
    assert_eq!(client_version(&SessionOptions::absent()), 1);
    let options = SessionOptions { version: num(1798521807.0), ..SessionOptions::absent() };
    assert_eq!(client_version(&options), 0x6b33_43cf);
}

#[test]
fn drop_policy_is_read() {
    assert_eq!(datagram_drop_policy(&SessionOptions::absent()), None);
    let options = SessionOptions { datagram_drop_policy: text("drop-newest"), ..SessionOptions::absent() };
    assert_eq!(datagram_drop_policy(&options), Some(true));
    let options = SessionOptions { datagram_drop_policy: text("drop-oldest"), ..SessionOptions::absent() };
    assert_eq!(datagram_drop_policy(&options), Some(false));
}

#[test]
fn callbacks_differ_by_side() {
    let client = build_callbacks(false);
    assert!(client.client_initial && client.recv_retry && client.recv_new_token);
    assert!(!client.recv_client_initial);
    let server = build_callbacks(true);
    assert!(server.recv_client_initial);
    assert!(!server.client_initial && !server.recv_retry && !server.recv_new_token);
    assert!(server.recv_stream_data && server.lost_datagram && server.get_new_connection_id);
}

#[test]
fn client_session_begins_from_its_options() {
    let options = SessionOptions { datagram_drop_policy: text("drop-newest"), ..SessionOptions::absent() };
    let (session, config) =
        QuicSession::new_client(StoredAddr::default(), StoredAddr::default(), &options, 9).ok().unwrap();
    assert!(session.datagram_drop_newest && !session.is_server && !session.conn && session.endpoint);
    assert_eq!(session.stats[0], 9);
    assert_eq!((session.state.max_datagram_size, session.state.max_pending_datagrams), (1200, 128));
    assert!(!config.is_server && config.servername.is_none());
    let mut params = no_params();
    params.max_ack_delay = num(-1.0);
    let refused =
        QuicSession::new_client(StoredAddr::default(), StoredAddr::default(), &with_params(params), 9);
    assert_eq!(refused.err(), Some("maxAckDelay"));
}

#[test]
fn client_connection_is_planned() {
    let options = SessionOptions { version: num(2.0), ..SessionOptions::absent() };
    let connection = client_connection(&options, settings_defaults(), params_defaults(), 3);
    assert_eq!(connection.version, 2);
    assert_eq!(connection.settings.initial_ts, 3);
    assert_eq!(connection.settings.token, [1, 2]);
    assert_eq!(connection.params.original_dcid_present, 0);
    assert!(connection.callbacks.client_initial);
    assert_eq!(client_cids(&ngtcp2_cid::from_bytes(&[5, 6])), vec![vec![5, 6]]);
}

#[test]
fn server_connection_tells_the_destination_back() {
    let header = ngtcp2_pkt_hd {
        dcid: ngtcp2_cid::from_bytes(&[1, 2, 3, 4]),
        scid: ngtcp2_cid::from_bytes(&[9, 8]),
        pkt_num: 0,
        token: vec![],
        pkt_numlen: 1,
        len: 0,
        version: 1,
        type_: 0,
        flags: 0,
    };
    let connection =
        server_connection(&SessionOptions::absent(), settings_defaults(), params_defaults(), &header, 3);
    assert!(connection.settings.token.is_empty());
    assert_eq!(connection.params.original_dcid.bytes(), [1, 2, 3, 4]);
    assert_eq!(connection.params.original_dcid_present, 1);
    assert_eq!(connection.peer_scid.bytes(), [9, 8]);
    assert_eq!(connection.version, 1);
    assert!(connection.callbacks.recv_client_initial);
    let scid = ngtcp2_cid::from_bytes(&[7; 16]);
    assert_eq!(server_cids(&header, &scid), vec![vec![1, 2, 3, 4], vec![7; 16]]);
    let (session, config) = QuicSession::new_server(
        StoredAddr::default(),
        StoredAddr::default(),
        &SessionOptions::absent(),
        1,
    );
    assert!(session.is_server && config.is_server);
}

#[test]
fn connection_id_lengths_are_bounded() {
    assert_eq!(connection_id_len(16), 16);
    assert_eq!(connection_id_len(20), 20);
    assert_eq!(connection_id_len(21), 20);
}

#[test]
fn shown_params_need_a_connection() {
    let mut session = QuicSession::create_shell(StoredAddr::default(), StoredAddr::default(), 0);
    assert!(session.shown_transport_params(&Some(params_defaults())).is_none());
    session.attach_connection(0, true, vec![], 0).ok().unwrap();
    assert!(session.shown_transport_params(&None).is_none());
    let pairs = session.shown_transport_params(&Some(params_defaults())).unwrap();
    assert_eq!(pairs[9], ("maxAckDelay", 25));
}
