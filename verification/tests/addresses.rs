use node_quic::address::{bound_address, SocketAddress, StoredAddr, AF_INET, AF_INET6};
use node_quic::ngtcp2::{ngtcp2_cid, ngtcp2_conn_info};

#[test]
fn stored_address_reads_back() {
    let v4 = SocketAddress::V4 { ip: [192, 0, 2, 7], port: 4433 };
    let stored = StoredAddr::from_socket_address(&v4);
    assert_eq!(stored.len(), 16);
    assert_eq!(stored.decode(), Some((AF_INET, 4433, &[192u8, 0, 2, 7][..])));
    assert_eq!(stored.to_socket_address(), Some(v4));
    let ip = [0x20, 1, 0xd, 0xb8, 0, 0, 0, 0, 0, 0, 0, 0, 0, 0, 0, 9];
    let v6 = SocketAddress::V6 { ip, port: 65535, flowinfo: [0; 4], scope_id: [0; 4] };
    let stored = StoredAddr::from_socket_address(&v6);
    assert_eq!(stored.len(), 28);
    assert_eq!(stored.decode(), Some((AF_INET6, 65535, &ip[..])));
    assert_eq!(stored.to_socket_address(), Some(v6));
}

#[test]
fn unset_address_decodes_to_nothing() {
    let addr = StoredAddr::default();
    assert!(!addr.is_set());
    assert_eq!(addr.decode(), None);
    assert_eq!(addr.to_socket_address(), None);
    assert_eq!(addr.as_ptr(), [0u8; 28]);
}

#[test]
fn raw_addresses_are_cut() {
    let raw = [2u8; 40];
    let addr = StoredAddr::from_raw(&raw);
    assert_eq!(addr.len(), 28);
    assert_eq!(addr.as_ptr(), [2u8; 28]);
    let short = StoredAddr::from_raw(&[2, 0, 1, 2, 3, 4, 5]);
    assert_eq!(short.len(), 7);
    assert_eq!(short.decode(), None);
}

#[test]
fn unknown_families_decode_to_nothing() {
    let mut raw = [0u8; 28];
    raw[0] = 1;
    assert_eq!(StoredAddr::from_raw(&raw).decode(), None);
    raw[0] = 10;
    assert_eq!(StoredAddr::from_raw(&raw[..23]).decode(), None);
    assert!(StoredAddr::from_raw(&raw[..24]).decode().is_some());
}

#[test]
fn peer_family_decides_the_length() {
    let mut raw = [0u8; 128];
    raw[0] = 2;
    assert_eq!(StoredAddr::from_peer(&raw).len(), 16);
    raw[0] = 10;
    assert_eq!(StoredAddr::from_peer(&raw).len(), 28);
}

#[test]
fn bound_address_needs_a_port_and_a_length() {
    let mut ip = [0u8; 16];
    ip[..4].copy_from_slice(&[127, 0, 0, 1]);
    assert_eq!(
        bound_address(8080, &ip, 4),
        Some(SocketAddress::V4 { ip: [127, 0, 0, 1], port: 8080 })
    );
    assert_eq!(
        bound_address(8080, &ip, 16),
        Some(SocketAddress::V6 { ip, port: 8080, flowinfo: [0; 4], scope_id: [0; 4] })
    );
    assert_eq!(bound_address(0, &ip, 4), None);
    assert_eq!(bound_address(-1, &ip, 4), None);
    assert_eq!(bound_address(8080, &ip, 5), None);
}

#[test]
fn connection_ids_are_cut_to_twenty_bytes() {
    let cid = ngtcp2_cid::from_bytes(&[1, 2, 3]);
    assert_eq!((cid.datalen, cid.bytes()), (3, &[1u8, 2, 3][..]));
    let long: Vec<u8> = (0..30).collect();
    let cid = ngtcp2_cid::from_bytes(&long);
    assert_eq!((cid.datalen, cid.bytes()), (20, &long[..20]));
    let odd = ngtcp2_cid { datalen: 99, data: [4; 20] };
    assert_eq!(odd.bytes(), [4u8; 20]);
    assert_eq!(ngtcp2_cid::default().bytes(), [0u8; 0]);
    assert_eq!(ngtcp2_conn_info::default().cwnd, 0);
}

