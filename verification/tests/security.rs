use node_quic::tls::{
    alpn_select, ca_store_error, collect_pem_list, plan_tls_session, private_key_outcome, tls_step_error, tls_step_failed,
    validation_error, CaFailure, CertUse, ChainLoad, TlsConfig, TlsOptions, TlsStep,
};
use node_quic::value::JsValue;

fn text(s: &str) -> JsValue {
    JsValue::Text(s.as_bytes().to_vec())
}

fn options() -> TlsOptions {
    TlsOptions {
        alpn: JsValue::Undefined,
        servername: JsValue::Undefined,
        certs: JsValue::Undefined,
        keys: JsValue::Undefined,
        ca: JsValue::Undefined,
        verify_peer_strict: None,
        verify_hostname: None,
        verify_client: None,
    }
}

#[test]
fn server_preference_chooses_the_protocol() {
    let server = b"\x02h3\x05h3-29\x03foo";
    let client = b"\x03foo\x05h3-29";
    let (start, len) = alpn_select(server, client).unwrap();
    assert_eq!(&client[start..start + len as usize], b"h3-29");
    let (start, len) = alpn_select(b"\x03foo\x05h3-29", client).unwrap();
    assert_eq!((start, len), (1, 3));
}

#[test]
fn protocols_without_a_match_fail() {
    assert_eq!(alpn_select(b"\x02h3", b"\x02h2"), None);
    assert_eq!(alpn_select(b"", b"\x02h2"), None);
    assert_eq!(alpn_select(b"\x02h3", b""), None);
}

#[test]
fn malformed_protocol_lists_end_early() {
    assert_eq!(alpn_select(b"\x00\x02h3", b"\x02h3"), None);
    assert_eq!(alpn_select(b"\x05h3", b"\x05h3"), None);
    assert_eq!(alpn_select(b"\x02h2\x02h3", b"\x02h3\x09h2"), Some((1, 2)));
    assert_eq!(alpn_select(b"\x02h2\x09h3", b"\x02h3"), None);
}

#[test]
fn configuration_without_options_is_empty() {
    let config = TlsConfig::from_js(&None, true);
    assert!(config.is_server && config.alpn.is_empty() && config.servername.is_none());
    assert!(config.certs_pem.is_empty() && !config.verify_client);
}

#[test]
fn server_name_defaults_to_localhost() {
    let name = |value| TlsConfig::from_js(&Some(TlsOptions { servername: value, ..options() }), false).servername;
    assert_eq!(name(JsValue::Undefined), Some(b"localhost\0".to_vec()));
    assert_eq!(name(text("example.org")), Some(b"example.org\0".to_vec()));
    assert_eq!(name(text("bad\0name")), Some(b"localhost\0".to_vec()));
    assert_eq!(name(JsValue::Boolean(true)), Some(b"localhost\0".to_vec()));
}

#[test]
fn protocol_lists_keep_their_wire_format() {
    let alpn = |list: &str| TlsConfig::from_js(&Some(TlsOptions { alpn: text(list), ..options() }), false).alpn;
    let name = "a".repeat(128);
    let mut wire = vec![0x80];
    wire.extend_from_slice(name.as_bytes());
    assert_eq!(alpn(&format!("\u{80}{name}")), wire);
    // Every byte is one code point.
    let all: Vec<u8> = (0..=255).collect();
    let written: String = all.iter().map(|byte| char::from(*byte)).collect();
    assert_eq!(alpn(&written), all);
    let mut both = wire.clone();
    both.extend_from_slice(b"\x02h3");
    let (start, len) = alpn_select(&alpn(&format!("\u{80}{name}\u{2}h3")), b"\x02h3").unwrap();
    assert_eq!((start, len), (1, 2));
    let (start, len) = alpn_select(&both, &alpn(&format!("\u{2}h2\u{80}{name}"))).unwrap();
    assert_eq!((start, len), (4, 128));
}

#[test]
fn code_points_beyond_latin1_keep_their_bytes() {
    let alpn = |list: &str| TlsConfig::from_js(&Some(TlsOptions { alpn: text(list), ..options() }), true).alpn;
    for c in ["\u{100}", "\u{7ff}", "\u{20ac}", "\u{1f600}"] {
        assert_eq!(alpn(c), c.as_bytes());
    }
    assert_eq!(alpn("\u{e9}\u{20ac}\u{e9}"), b"\xe9\xe2\x82\xac\xe9");
    let cut = TlsOptions { alpn: JsValue::Text(vec![0x61, 0xc3]), ..options() };
    assert_eq!(TlsConfig::from_js(&Some(cut), true).alpn, b"a\xc3");
}

#[test]
fn configuration_takes_the_options() {
    let config = TlsConfig::from_js(
        &Some(TlsOptions {
            alpn: text("\x02h3"),
            certs: JsValue::Array(vec![text("c1"), JsValue::Null, JsValue::Buffer(b"c2".to_vec())]),
            keys: text("k"),
            ca: JsValue::Object,
            verify_peer_strict: Some(true),
            verify_hostname: Some(false),
            verify_client: Some(true),
            ..options()
        }),
        true,
    );
    assert_eq!(config.alpn, b"\x02h3");
    assert_eq!(config.certs_pem, vec![b"c1".to_vec(), b"c2".to_vec()]);
    assert_eq!(config.keys_pem, vec![b"k".to_vec()]);
    assert!(config.ca_pem.is_empty());
    assert!(config.verify_peer_strict && !config.verify_hostname && config.verify_client);
    assert!(collect_pem_list(&JsValue::Null).is_empty());
}

#[test]
fn client_setup_is_planned() {
    let config = TlsConfig::from_js(
        &Some(TlsOptions {
            alpn: text("\x02h3"),
            ca: text("ca"),
            verify_hostname: Some(true),
            verify_peer_strict: Some(true),
            ..options()
        }),
        false,
    );
    assert_eq!(
        plan_tls_session(&config),
        vec![
            TlsStep::AllocateContext,
            TlsStep::PinVersion,
            TlsStep::ConfigureClient,
            TlsStep::AllocateSession,
            TlsStep::AttachConnection,
            TlsStep::ConnectState,
            TlsStep::OfferAlpn,
            TlsStep::SetHostName,
            TlsStep::SetVerifiedHost,
            TlsStep::VerifyPeer { strict: true },
            TlsStep::SetCaStore,
        ]
    );
    assert_eq!(
        plan_tls_session(&TlsConfig::from_js(&None, false)),
        vec![
            TlsStep::AllocateContext,
            TlsStep::PinVersion,
            TlsStep::ConfigureClient,
            TlsStep::AllocateSession,
            TlsStep::AttachConnection,
            TlsStep::ConnectState,
            TlsStep::VerifyPeer { strict: false },
        ]
    );
}

#[test]
fn server_setup_is_planned() {
    let config = TlsConfig::from_js(
        &Some(TlsOptions {
            alpn: text("\x02h3"),
            certs: JsValue::Array(vec![text("c1"), text("c2")]),
            keys: text("k"),
            ca: text("ca"),
            verify_client: Some(true),
            ..options()
        }),
        true,
    );
    assert_eq!(
        plan_tls_session(&config),
        vec![
            TlsStep::AllocateContext,
            TlsStep::PinVersion,
            TlsStep::ConfigureServer,
            TlsStep::LoadCertChain(0),
            TlsStep::LoadCertChain(1),
            TlsStep::LoadPrivateKey,
            TlsStep::CheckPrivateKey,
            TlsStep::SelectAlpn,
            TlsStep::AllocateSession,
            TlsStep::AttachConnection,
            TlsStep::AcceptState,
            TlsStep::RequireClientCertificate,
        ]
    );
}

#[test]
fn failing_steps_have_their_messages() {
    for (step, message) in [
        (TlsStep::AllocateContext, Some("failed to allocate SSL_CTX")),
        (TlsStep::PinVersion, Some("failed to pin TLS 1.3")),
        (TlsStep::ConfigureServer, Some("failed to configure QUIC TLS context")),
        (TlsStep::ConfigureClient, Some("failed to configure QUIC TLS context")),
        (TlsStep::LoadCertChain(0), Some("failed to allocate certificate BIO")),
        (TlsStep::LoadPrivateKey, Some("failed to allocate key BIO")),
        (TlsStep::CheckPrivateKey, Some("private key does not match certificate")),
        (TlsStep::AllocateSession, Some("failed to allocate SSL")),
        (TlsStep::AttachConnection, Some("failed to attach QUIC connection reference")),
        (TlsStep::OfferAlpn, Some("failed to set ALPN protocols")),
        (TlsStep::SetCaStore, Some("failed to set CA store")),
        (TlsStep::SetHostName, None),
        (TlsStep::SetVerifiedHost, None),
        (TlsStep::VerifyPeer { strict: true }, None),
        (TlsStep::SelectAlpn, None),
    ] {
        assert_eq!(tls_step_error(step), message);
    }
    assert_eq!(ca_store_error(CaFailure::Store), "failed to allocate certificate store");
    assert_eq!(ca_store_error(CaFailure::Buffer), "failed to allocate CA BIO");
    assert_eq!(ca_store_error(CaFailure::Certificate), "failed to add CA certificate");
}

#[test]
fn first_certificate_is_the_leaf() {
    let mut load = ChainLoad::new();
    assert_eq!(load.finish(), Err("no certificate found in PEM"));
    assert_eq!(load.next_use(), CertUse::Leaf);
    assert_eq!(load.settle(true), Ok(()));
    assert_eq!(load.next_use(), CertUse::Chain);
    assert_eq!(load.settle(false), Err("failed to use certificate"));
    assert_eq!(load.finish(), Ok(()));
}

#[test]
fn private_keys_are_parsed_and_used() {
    assert_eq!(private_key_outcome(true, true), Ok(()));
    assert_eq!(private_key_outcome(false, false), Err("failed to parse private key"));
    assert_eq!(private_key_outcome(true, false), Err("failed to use private key"));
}

#[test]
fn validation_codes_are_named() {
    assert_eq!(validation_error(0, true), None);
    for (result, code) in [
        (2, "UNABLE_TO_GET_ISSUER_CERT"),
        (10, "CERT_HAS_EXPIRED"),
        (18, "DEPTH_ZERO_SELF_SIGNED_CERT"),
        (19, "SELF_SIGNED_CERT_IN_CHAIN"),
        (20, "UNABLE_TO_GET_ISSUER_CERT_LOCALLY"),
        (21, "UNABLE_TO_VERIFY_LEAF_SIGNATURE"),
        (62, "HOSTNAME_MISMATCH"),
        (9999, "UNABLE_TO_VERIFY_LEAF_SIGNATURE"),
    ] {
        assert_eq!(validation_error(result, true), Some((None, code)));
    }
    assert_eq!(
        validation_error(10, false),
        Some((Some("unknown certificate verification error"), "CERT_HAS_EXPIRED"))
    );
}

#[test]
fn failed_steps_end_the_setup_unless_passed_over() {
    assert_eq!(tls_step_failed(TlsStep::PinVersion, None), Some("failed to pin TLS 1.3"));
    assert_eq!(
        tls_step_failed(TlsStep::LoadCertChain(0), Some("failed to use certificate")),
        Some("failed to use certificate")
    );
    assert_eq!(tls_step_failed(TlsStep::SetVerifiedHost, None), None);
    assert_eq!(tls_step_failed(TlsStep::SetVerifiedHost, Some("not a name")), None);
}
