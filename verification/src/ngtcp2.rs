//! The transport library's value types and constants, as plain data.
//!
//! Where the library's own structures point at memory, these hold the bytes
//! themselves; handles and callbacks are left to whoever drives the transport.

use vstd::prelude::*;
use vstd::slice::slice_subrange;

use crate::bytes::smaller;

verus! {

pub const NGTCP2_CC_ALGO_RENO: i32 = 0;

pub const NGTCP2_CC_ALGO_CUBIC: i32 = 1;

pub const NGTCP2_CC_ALGO_BBR: i32 = 2;

pub const NGTCP2_CCERR_TYPE_TRANSPORT: i32 = 0;

pub const NGTCP2_CCERR_TYPE_APPLICATION: i32 = 1;

pub const NGTCP2_PROTO_VER_V1: u32 = 0x0000_0001;

pub const NGTCP2_MAX_UDP_PAYLOAD_SIZE: u64 = 1200;

pub const NGTCP2_MAX_CIDLEN: usize = 20;

pub const NGTCP2_MILLISECONDS: u64 = 1_000_000;

pub const NGTCP2_SECONDS: u64 = 1_000_000_000;

// Library error codes.
pub const NGTCP2_ERR_STREAM_DATA_BLOCKED: i32 = -208;

pub const NGTCP2_ERR_CRYPTO: i32 = -213;

pub const NGTCP2_ERR_STREAM_SHUT_WR: i32 = -219;

pub const NGTCP2_ERR_STREAM_NOT_FOUND: i32 = -220;

pub const NGTCP2_ERR_DRAINING: i32 = -224;

// Flags of the write call.
pub const NGTCP2_WRITE_STREAM_FLAG_NONE: u32 = 0;

pub const NGTCP2_WRITE_STREAM_FLAG_FIN: u32 = 0x02;

// Flags of the receive callbacks.
pub const NGTCP2_STREAM_DATA_FLAG_FIN: u32 = 0x01;

pub const NGTCP2_STREAM_CLOSE_FLAG_APP_ERROR_CODE_SET: u32 = 0x01;

pub const NGTCP2_DATAGRAM_FLAG_0RTT: u32 = 0x01;

/// A connection ID of at most twenty bytes.
#[derive(Copy, Clone, Debug, PartialEq, Eq)]
pub struct ngtcp2_cid {
    pub datalen: usize,
    pub data: [u8; 20],
}

impl ngtcp2_cid {
    pub open spec fn kept(len: nat) -> nat {
        if len <= NGTCP2_MAX_CIDLEN {
            len
        } else {
            NGTCP2_MAX_CIDLEN as nat
        }
    }

    /// The bytes of the connection ID.
    pub open spec fn content(self) -> Seq<u8> {
        self.data@.take(ngtcp2_cid::kept(self.datalen as nat) as int)
    }

    /// The connection ID of these bytes, cut to what fits, with zeroes behind.
    pub open spec fn holds(self, bytes: Seq<u8>) -> bool {
        &&& self.datalen == ngtcp2_cid::kept(bytes.len())
        &&& self.content() == bytes.take(ngtcp2_cid::kept(bytes.len()) as int)
        &&& forall|i: int| self.datalen <= i < 20 ==> self.data@[i] == 0
    }

    /// A connection ID of these bytes, cut to what fits.
    pub fn from_bytes(bytes: &[u8]) -> (cid: ngtcp2_cid)
        ensures
            cid.holds(bytes@),
    {
        let mut cid = ngtcp2_cid { datalen: 0, data: [0; 20] };
        let len: usize = smaller(bytes.len(), NGTCP2_MAX_CIDLEN);
        let mut at: usize = 0;
        while at < len
            invariant
                at <= len <= 20,
                len <= bytes@.len(),
                forall|i: int| 0 <= i < at ==> cid.data@[i] == bytes@[i],
                forall|i: int| at <= i < 20 ==> cid.data@[i] == 0,
            decreases len - at,
        {
            cid.data[at] = bytes[at];
            at = at + 1;
        }
        cid.datalen = len;
        assert(cid.content() =~= bytes@.take(len as int));
        cid
    }

    /// The bytes of the connection ID.
    pub fn bytes(&self) -> (bytes: &[u8])
        ensures
            bytes@ == self.content(),
    {
        let len: usize = smaller(self.datalen, NGTCP2_MAX_CIDLEN);
        let bytes = slice_subrange(self.data.as_slice(), 0, len);
        assert(bytes@ =~= self.content());
        bytes
    }
}

impl Default for ngtcp2_cid {
    fn default() -> (cid: ngtcp2_cid)
        ensures
            cid.datalen == 0,
            cid.data@ == Seq::new(20, |i: int| 0u8),
    {
        let cid = ngtcp2_cid { datalen: 0, data: [0; 20] };
        assert(cid.data@ =~= Seq::new(20, |i: int| 0u8));
        cid
    }
}

#[derive(Copy, Clone, Debug)]
pub struct ngtcp2_sockaddr_in {
    pub family_port: [u8; 4],
    pub addr: [u8; 4],
    pub zero: [u8; 8],
}

#[derive(Copy, Clone, Debug)]
pub struct ngtcp2_sockaddr_in6 {
    pub family_port: [u8; 4],
    pub flowinfo: u32,
    pub addr: [u8; 16],
    pub scope_id: u32,
}

#[derive(Copy, Clone, Debug)]
pub struct ngtcp2_preferred_addr {
    pub cid: ngtcp2_cid,
    pub ipv4: ngtcp2_sockaddr_in,
    pub ipv6: ngtcp2_sockaddr_in6,
    pub ipv4_present: u8,
    pub ipv6_present: u8,
    pub stateless_reset_token: [u8; 16],
}

#[derive(Debug)]
pub struct ngtcp2_version_info {
    pub chosen_version: u32,
    pub available_versions: Vec<u8>,
}

/// Transport parameters, with their durations in nanoseconds.
#[derive(Debug)]
pub struct ngtcp2_transport_params {
    pub preferred_addr: ngtcp2_preferred_addr,
    pub original_dcid: ngtcp2_cid,
    pub initial_scid: ngtcp2_cid,
    pub retry_scid: ngtcp2_cid,
    pub initial_max_stream_data_bidi_local: u64,
    pub initial_max_stream_data_bidi_remote: u64,
    pub initial_max_stream_data_uni: u64,
    pub initial_max_data: u64,
    pub initial_max_streams_bidi: u64,
    pub initial_max_streams_uni: u64,
    pub max_idle_timeout: u64,
    pub max_udp_payload_size: u64,
    pub active_connection_id_limit: u64,
    pub ack_delay_exponent: u64,
    pub max_ack_delay: u64,
    pub max_datagram_frame_size: u64,
    pub stateless_reset_token_present: u8,
    pub disable_active_migration: u8,
    pub original_dcid_present: u8,
    pub initial_scid_present: u8,
    pub retry_scid_present: u8,
    pub preferred_addr_present: u8,
    pub stateless_reset_token: [u8; 16],
    pub grease_quic_bit: u8,
    pub version_info: ngtcp2_version_info,
    pub version_info_present: u8,
}

/// Connection settings, with their durations in nanoseconds.
#[derive(Debug)]
pub struct ngtcp2_settings {
    pub cc_algo: i32,
    pub initial_ts: u64,
    pub initial_rtt: u64,
    pub max_tx_udp_payload_size: usize,
    pub token: Vec<u8>,
    pub token_type: i32,
    pub max_window: u64,
    pub max_stream_window: u64,
    pub ack_thresh: usize,
    pub no_tx_udp_payload_size_shaping: u8,
    pub handshake_timeout: u64,
    pub preferred_versions: Vec<u32>,
    pub available_versions: Vec<u32>,
    pub original_version: u32,
    pub no_pmtud: u8,
    pub initial_pkt_num: u32,
    pub pmtud_probes: Vec<u16>,
    pub glitch_ratelim_burst: u64,
    pub glitch_ratelim_rate: u64,
}

/// Congestion and round-trip counters of a connection.
#[derive(Copy, Clone, Debug)]
pub struct ngtcp2_conn_info {
    pub latest_rtt: u64,
    pub min_rtt: u64,
    pub smoothed_rtt: u64,
    pub rttvar: u64,
    pub cwnd: u64,
    pub ssthresh: u64,
    pub bytes_in_flight: u64,
    pub pkt_sent: u64,
    pub bytes_sent: u64,
    pub pkt_recv: u64,
    pub bytes_recv: u64,
    pub pkt_lost: u64,
    pub bytes_lost: u64,
    pub ping_recv: u64,
    pub pkt_discarded: u64,
}

impl Default for ngtcp2_conn_info {
    fn default() -> (info: ngtcp2_conn_info)
        ensures
            info == (ngtcp2_conn_info {
                latest_rtt: 0,
                min_rtt: 0,
                smoothed_rtt: 0,
                rttvar: 0,
                cwnd: 0,
                ssthresh: 0,
                bytes_in_flight: 0,
                pkt_sent: 0,
                bytes_sent: 0,
                pkt_recv: 0,
                bytes_recv: 0,
                pkt_lost: 0,
                bytes_lost: 0,
                ping_recv: 0,
                pkt_discarded: 0,
            }),
    {
        ngtcp2_conn_info {
            latest_rtt: 0,
            min_rtt: 0,
            smoothed_rtt: 0,
            rttvar: 0,
            cwnd: 0,
            ssthresh: 0,
            bytes_in_flight: 0,
            pkt_sent: 0,
            bytes_sent: 0,
            pkt_recv: 0,
            bytes_recv: 0,
            pkt_lost: 0,
            bytes_lost: 0,
            ping_recv: 0,
            pkt_discarded: 0,
        }
    }
}

/// A connection error, as a CONNECTION_CLOSE frame carries it.
#[derive(Debug)]
pub struct ngtcp2_ccerr {
    pub type_: i32,
    pub error_code: u64,
    pub frame_type: u64,
    pub reason: Vec<u8>,
}

/// The header of an accepted Initial packet.
#[derive(Debug)]
pub struct ngtcp2_pkt_hd {
    pub dcid: ngtcp2_cid,
    pub scid: ngtcp2_cid,
    pub pkt_num: i64,
    pub token: Vec<u8>,
    pub pkt_numlen: usize,
    pub len: usize,
    pub version: u32,
    pub type_: u8,
    pub flags: u8,
}

/// The version and the connection IDs of a packet, as far as they could be
/// told without knowing the connection.
#[derive(Debug)]
pub struct ngtcp2_version_cid {
    pub version: u32,
    pub dcid: Option<Vec<u8>>,
    pub scid: Option<Vec<u8>>,
}

/// The first field that does not hold its documented default.
pub open spec fn first_drift(
    settings: ngtcp2_settings,
    params: ngtcp2_transport_params,
) -> Option<Seq<char>> {
    if settings.cc_algo != NGTCP2_CC_ALGO_CUBIC {
        Some("ngtcp2_settings layout drift (cc_algo)"@)
    } else if settings.initial_rtt != 333 * NGTCP2_MILLISECONDS {
        Some("ngtcp2_settings layout drift (initial_rtt)"@)
    } else if settings.max_tx_udp_payload_size != 1452 {
        Some("ngtcp2_settings layout drift (max_tx_udp_payload_size)"@)
    } else if settings.handshake_timeout != u64::MAX {
        Some("ngtcp2_settings layout drift (handshake_timeout)"@)
    } else if settings.ack_thresh != 2 {
        Some("ngtcp2_settings layout drift (ack_thresh)"@)
    } else if params.max_udp_payload_size != 65527 {
        Some("ngtcp2_transport_params layout drift (max_udp_payload_size)"@)
    } else if params.ack_delay_exponent != 3 {
        Some("ngtcp2_transport_params layout drift (ack_delay_exponent)"@)
    } else if params.max_ack_delay != 25 * NGTCP2_MILLISECONDS {
        Some("ngtcp2_transport_params layout drift (max_ack_delay)"@)
    } else if params.active_connection_id_limit != 2 {
        Some("ngtcp2_transport_params layout drift (active_connection_id_limit)"@)
    } else {
        None
    }
}

/// The library writes documented defaults; a difference tells that the
/// structures here and there do not agree. Names the first field that does not
/// hold its default.
pub fn debug_assert_layout(settings: &ngtcp2_settings, params: &ngtcp2_transport_params) -> (drift:
    Result<(), &'static str>)
    ensures
        match drift {
            Ok(()) => first_drift(*settings, *params) is None,
            Err(message) => first_drift(*settings, *params) == Some(message@),
        },
{
    if settings.cc_algo != NGTCP2_CC_ALGO_CUBIC {
        return Err("ngtcp2_settings layout drift (cc_algo)");
    }
    if settings.initial_rtt != 333 * NGTCP2_MILLISECONDS {
        return Err("ngtcp2_settings layout drift (initial_rtt)");
    }
    if settings.max_tx_udp_payload_size != 1452 {
        return Err("ngtcp2_settings layout drift (max_tx_udp_payload_size)");
    }
    if settings.handshake_timeout != u64::MAX {
        return Err("ngtcp2_settings layout drift (handshake_timeout)");
    }
    if settings.ack_thresh != 2 {
        return Err("ngtcp2_settings layout drift (ack_thresh)");
    }
    if params.max_udp_payload_size != 65527 {
        return Err("ngtcp2_transport_params layout drift (max_udp_payload_size)");
    }
    if params.ack_delay_exponent != 3 {
        return Err("ngtcp2_transport_params layout drift (ack_delay_exponent)");
    }
    if params.max_ack_delay != 25 * NGTCP2_MILLISECONDS {
        return Err("ngtcp2_transport_params layout drift (max_ack_delay)");
    }
    if params.active_connection_id_limit != 2 {
        return Err("ngtcp2_transport_params layout drift (active_connection_id_limit)");
    }
    Ok(())
}

/// A connection ID holds the bytes that it was made of, up to twenty of them.
pub proof fn law_connection_id_keeps_its_bytes(cid: ngtcp2_cid, bytes: Seq<u8>)
    requires
        cid.holds(bytes),
    ensures
        bytes.len() <= 20 ==> cid.datalen == bytes.len() && cid.content() == bytes,
        bytes.len() > 20 ==> cid.datalen == 20 && cid.content() == bytes.subrange(0, 20),
        forall|i: int| 0 <= i < cid.datalen ==> #[trigger] cid.data@[i] == bytes[i],
        forall|i: int| cid.datalen <= i < 20 ==> #[trigger] cid.data@[i] == 0,
{
    if bytes.len() <= 20 {
        assert(bytes.take(bytes.len() as int) =~= bytes);
    }
    assert forall|i: int| 0 <= i < cid.datalen implies #[trigger] cid.data@[i] == bytes[i] by {
        assert(cid.content()[i] == cid.data@[i]);
    }
}

/// The content of a connection ID is the bytes that its length tells of.
pub proof fn law_content_is_what_the_length_tells(cid: ngtcp2_cid)
    ensures
        cid.datalen <= 20 ==> cid.content() == cid.data@.subrange(0, cid.datalen as int),
        cid.datalen > 20 ==> cid.content() == cid.data@,
{
    assert(cid.datalen > 20 ==> cid.content() =~= cid.data@);
}

/// The structures agree exactly where every documented default is found.
pub proof fn law_no_drift_means_documented_defaults(
    settings: ngtcp2_settings,
    params: ngtcp2_transport_params,
)
    ensures
        first_drift(settings, params) is None <==> {
            &&& settings.cc_algo == 1
            &&& settings.initial_rtt == 333_000_000
            &&& settings.max_tx_udp_payload_size == 1452
            &&& settings.handshake_timeout == u64::MAX
            &&& settings.ack_thresh == 2
            &&& params.max_udp_payload_size == 65527
            &&& params.ack_delay_exponent == 3
            &&& params.max_ack_delay == 25_000_000
            &&& params.active_connection_id_limit == 2
        },
{
}

} // verus!
