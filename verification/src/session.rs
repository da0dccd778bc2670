//! One QUIC session: its connection state, its streams, its event queue and
//! its datagram queue.
//!
//! The session is plain state. Whoever drives it performs the transport calls,
//! the callbacks and the timers, and hands the outcomes back; the methods here
//! and in the modules beside this one decide what happens next.

use std::collections::VecDeque;

use vstd::prelude::*;
use vstd::slice::slice_to_vec;

use crate::address::{SocketAddress, StoredAddr};
use crate::bytes::bytes_equal;
use crate::events::StreamEvent;
use crate::ngtcp2::ngtcp2_conn_info;
use crate::stream::{wrapped_sum, StreamView};
use crate::table::StreamTable;

verus! {

/// Bits of `SessionState::listener_flags`, set while the matching callback is
/// installed.
pub const LISTENER_FLAG_DATAGRAM: u32 = 0x2;

pub const LISTENER_FLAG_DATAGRAM_STATUS: u32 = 0x4;

pub const LISTENER_FLAG_SESSION_TICKET: u32 = 0x8;

pub const LISTENER_FLAG_NEW_TOKEN: u32 = 0x10;

/// The state block of a session that the script shares.
#[derive(Copy, Clone, Debug, PartialEq, Eq, Structural)]
pub struct SessionState {
    pub listener_flags: u32,
    pub closing: u8,
    pub graceful_close: u8,
    pub silent_close: u8,
    pub stateless_reset: u8,
    pub handshake_completed: u8,
    pub handshake_confirmed: u8,
    pub stream_open_allowed: u8,
    pub priority_supported: u8,
    pub headers_supported: u8,
    pub wrapped: u8,
    pub application_type: u8,
    pub no_error_code: u64,
    pub internal_error_code: u64,
    pub max_datagram_size: u16,
    pub last_datagram_id: u64,
    pub max_pending_datagrams: u16,
}

/// Number of statistics slots of a session.
pub const SESSION_STATS: usize = 32;

pub const IDX_STATS_CREATED_AT: usize = 0;

pub const IDX_STATS_DESTROYED_AT: usize = 1;

pub const IDX_STATS_CLOSING_AT: usize = 2;

pub const IDX_STATS_HANDSHAKE_COMPLETED_AT: usize = 3;

pub const IDX_STATS_BYTES_RECEIVED: usize = 5;

pub const IDX_STATS_MAX_BYTES_IN_FLIGHT: usize = 10;

pub const IDX_STATS_BYTES_IN_FLIGHT: usize = 11;

pub const IDX_STATS_CWND: usize = 13;

pub const IDX_STATS_LATEST_RTT: usize = 14;

pub const IDX_STATS_MIN_RTT: usize = 15;

pub const IDX_STATS_RTTVAR: usize = 16;

pub const IDX_STATS_SMOOTHED_RTT: usize = 17;

pub const IDX_STATS_SSTHRESH: usize = 18;

pub const IDX_STATS_PKT_SENT: usize = 19;

pub const IDX_STATS_BYTES_SENT: usize = 20;

pub const IDX_STATS_PKT_RECV: usize = 21;

/// Close options captured from a close that the script asked for.
#[derive(Debug, PartialEq, Eq)]
pub struct CloseError {
    pub application: bool,
    pub code: u64,
    pub reason: Vec<u8>,
}

/// One session.
pub struct QuicSession {
    /// Whether the transport connection exists.
    pub conn: bool,
    /// Whether the TLS state exists.
    pub tls: bool,
    /// Whether the owning endpoint is still attached.
    pub endpoint: bool,
    pub state: SessionState,
    pub stats: [u64; 32],
    pub local_addr: StoredAddr,
    pub remote_addr: StoredAddr,
    /// The connection IDs that the endpoint routes to this session.
    pub registered_cids: Vec<Vec<u8>>,
    pub streams: StreamTable,
    /// Activity recorded during packet processing, dispatched afterwards.
    pub stream_events: VecDeque<StreamEvent>,
    /// Datagrams waiting for the write loop.
    pub datagram_queue: VecDeque<(u64, Vec<u8>)>,
    pub next_datagram_id: u64,
    /// Whether a full queue drops the newest datagram, not the oldest.
    pub datagram_drop_newest: bool,
    pub pending_close_error: Option<CloseError>,
    /// Whether this is the accepting side.
    pub is_server: bool,
    /// Whether the expiry timer is armed.
    pub timer_active: bool,
    pub handshake_reported: bool,
    pub close_reported: bool,
    /// A close that the script asked for waits for the next timer fire.
    pub pending_close: bool,
    pub destroyed: bool,
}

/// What a session stands for.
#[verifier::ext_equal]
pub struct SessionView {
    pub conn: bool,
    pub tls: bool,
    pub endpoint: bool,
    pub state: SessionState,
    pub stats: Seq<u64>,
    pub local_addr: StoredAddr,
    pub remote_addr: StoredAddr,
    pub registered_cids: Seq<Seq<u8>>,
    pub streams: Map<i64, StreamView>,
    pub stream_events: Seq<StreamEvent>,
    pub datagram_queue: Seq<(u64, Vec<u8>)>,
    pub next_datagram_id: u64,
    pub datagram_drop_newest: bool,
    pub pending_close_error: Option<CloseError>,
    pub is_server: bool,
    pub timer_active: bool,
    pub handshake_reported: bool,
    pub close_reported: bool,
    pub pending_close: bool,
    pub destroyed: bool,
}

/// Tells a connection ID from all others.
pub open spec fn other_than(cid: Seq<u8>) -> spec_fn(Seq<u8>) -> bool {
    |known: Seq<u8>| known != cid
}

pub open spec fn cid_views(cids: Seq<Vec<u8>>) -> Seq<Seq<u8>> {
    cids.map_values(|cid: Vec<u8>| cid@)
}

impl View for QuicSession {
    type V = SessionView;

    open spec fn view(&self) -> SessionView {
        SessionView {
            conn: self.conn,
            tls: self.tls,
            endpoint: self.endpoint,
            state: self.state,
            stats: self.stats@,
            local_addr: self.local_addr,
            remote_addr: self.remote_addr,
            registered_cids: cid_views(self.registered_cids@),
            streams: self.streams@,
            stream_events: self.stream_events@,
            datagram_queue: self.datagram_queue@,
            next_datagram_id: self.next_datagram_id,
            datagram_drop_newest: self.datagram_drop_newest,
            pending_close_error: self.pending_close_error,
            is_server: self.is_server,
            timer_active: self.timer_active,
            handshake_reported: self.handshake_reported,
            close_reported: self.close_reported,
            pending_close: self.pending_close,
            destroyed: self.destroyed,
        }
    }
}

pub open spec fn zero_session_state() -> SessionState {
    SessionState {
        listener_flags: 0,
        closing: 0,
        graceful_close: 0,
        silent_close: 0,
        stateless_reset: 0,
        handshake_completed: 0,
        handshake_confirmed: 0,
        stream_open_allowed: 0,
        priority_supported: 0,
        headers_supported: 0,
        wrapped: 0,
        application_type: 0,
        no_error_code: 0,
        internal_error_code: 0,
        max_datagram_size: 0,
        last_datagram_id: 0,
        max_pending_datagrams: 0,
    }
}

impl SessionView {
    /// Every stream is well-formed and stands under its own id. A destroyed
    /// session has let go of its connection, its endpoint and its streams; a
    /// live one has its endpoint.
    pub open spec fn well_formed(self) -> bool {
        &&& self.stats.len() == SESSION_STATS
        &&& forall|id: i64|
            #![trigger self.streams[id]]
            self.streams.contains_key(id) ==> self.streams[id].well_formed()
                && self.streams[id].id == id
        &&& self.destroyed ==> !self.conn && !self.tls && self.streams
            =~= Map::<i64, StreamView>::empty()
        &&& self.destroyed == !self.endpoint
    }

    /// The connection can be driven.
    pub open spec fn live(self) -> bool {
        !self.destroyed && self.conn
    }

    pub open spec fn wants(self, flag: u32) -> bool {
        self.state.listener_flags & flag != 0
    }

    pub open spec fn with_stat(self, index: int, value: u64) -> SessionView {
        SessionView { stats: self.stats.update(index, value), ..self }
    }

    pub open spec fn with_added(self, index: int, delta: u64) -> SessionView {
        self.with_stat(index, wrapped_sum(self.stats[index], delta))
    }

    pub open spec fn with_event(self, event: StreamEvent) -> SessionView {
        SessionView { stream_events: self.stream_events.push(event), ..self }
    }

    pub open spec fn with_stream(self, id: i64, stream: StreamView) -> SessionView {
        SessionView { streams: self.streams.insert(id, stream), ..self }
    }

    /// A session that was just created.
    pub open spec fn created(
        local_addr: StoredAddr,
        remote_addr: StoredAddr,
        now: u64,
    ) -> SessionView {
        SessionView {
            conn: false,
            tls: false,
            endpoint: true,
            state: SessionState {
                max_datagram_size: 1200,
                max_pending_datagrams: 128,
                ..zero_session_state()
            },
            stats: Seq::new(SESSION_STATS as nat, |i: int| 0u64).update(
                IDX_STATS_CREATED_AT as int,
                now,
            ),
            local_addr,
            remote_addr,
            registered_cids: Seq::empty(),
            streams: Map::empty(),
            stream_events: Seq::empty(),
            datagram_queue: Seq::empty(),
            next_datagram_id: 1,
            datagram_drop_newest: false,
            pending_close_error: None,
            is_server: false,
            timer_active: false,
            handshake_reported: false,
            close_reported: false,
            pending_close: false,
            destroyed: false,
        }
    }

    /// The congestion and round-trip counters copied into the statistics; the
    /// largest number of bytes in flight is kept.
    pub open spec fn with_conn_info(self, info: ngtcp2_conn_info) -> SessionView {
        if !self.live() {
            self
        } else {
            let peak = self.stats[IDX_STATS_MAX_BYTES_IN_FLIGHT as int];
            self.with_stat(
                IDX_STATS_MAX_BYTES_IN_FLIGHT as int,
                if peak >= info.bytes_in_flight {
                    peak
                } else {
                    info.bytes_in_flight
                },
            ).with_stat(IDX_STATS_BYTES_IN_FLIGHT as int, info.bytes_in_flight).with_stat(
                IDX_STATS_CWND as int,
                info.cwnd,
            ).with_stat(IDX_STATS_LATEST_RTT as int, info.latest_rtt).with_stat(
                IDX_STATS_MIN_RTT as int,
                info.min_rtt,
            ).with_stat(IDX_STATS_RTTVAR as int, info.rttvar).with_stat(
                IDX_STATS_SMOOTHED_RTT as int,
                info.smoothed_rtt,
            ).with_stat(IDX_STATS_SSTHRESH as int, info.ssthresh)
        }
    }

    /// One connection ID dropped from those that route here.
    pub open spec fn without_cid(self, cid: Seq<u8>) -> SessionView {
        SessionView {
            registered_cids: self.registered_cids.filter(other_than(cid)),
            ..self
        }
    }
}

impl QuicSession {
    /// A session without a connection yet.
    pub fn create_shell(local_addr: StoredAddr, remote_addr: StoredAddr, now: u64) -> (session:
        QuicSession)
        ensures
            session@ == SessionView::created(local_addr, remote_addr, now),
            session@.well_formed(),
    {
        let mut session = QuicSession {
            conn: false,
            tls: false,
            endpoint: true,
            state: SessionState {
                listener_flags: 0,
                closing: 0,
                graceful_close: 0,
                silent_close: 0,
                stateless_reset: 0,
                handshake_completed: 0,
                handshake_confirmed: 0,
                stream_open_allowed: 0,
                priority_supported: 0,
                headers_supported: 0,
                wrapped: 0,
                application_type: 0,
                no_error_code: 0,
                internal_error_code: 0,
                max_datagram_size: 1200,
                last_datagram_id: 0,
                max_pending_datagrams: 128,
            },
            stats: [0; 32],
            local_addr,
            remote_addr,
            registered_cids: Vec::new(),
            streams: StreamTable::new(),
            stream_events: VecDeque::new(),
            datagram_queue: VecDeque::new(),
            next_datagram_id: 1,
            datagram_drop_newest: false,
            pending_close_error: None,
            is_server: false,
            timer_active: false,
            handshake_reported: false,
            close_reported: false,
            pending_close: false,
            destroyed: false,
        };
        assert(session.stats@ =~= Seq::new(SESSION_STATS as nat, |i: int| 0u64));
        session.write_stat(IDX_STATS_CREATED_AT, now);
        assert(session@ =~= SessionView::created(local_addr, remote_addr, now));
        session
    }

    pub(crate) fn write_stat(&mut self, index: usize, value: u64)
        requires
            index < SESSION_STATS,
        ensures
            final(self)@ == old(self)@.with_stat(index as int, value),
    {
        self.stats[index] = value;
        assert(self@ =~= old(self)@.with_stat(index as int, value));
    }

    pub(crate) fn add_stat(&mut self, index: usize, delta: u64)
        requires
            index < SESSION_STATS,
        ensures
            final(self)@ == old(self)@.with_added(index as int, delta),
    {
        let value: u64 = self.stats[index].wrapping_add(delta);
        self.write_stat(index, value);
    }

    pub(crate) fn push_event(&mut self, event: StreamEvent)
        ensures
            final(self)@ == old(self)@.with_event(event),
    {
        self.stream_events.push_back(event);
        assert(self@ =~= old(self)@.with_event(event));
    }

    /// Whether the connection can be driven.
    pub fn is_live(&self) -> (live: bool)
        ensures
            live == self@.live(),
    {
        !self.destroyed && self.conn
    }

    /// Copy the live congestion and round-trip counters into the statistics.
    pub fn sync_conn_info_stats(&mut self, info: &ngtcp2_conn_info)
        requires
            old(self)@.well_formed(),
        ensures
            final(self)@ == old(self)@.with_conn_info(*info),
            final(self)@.well_formed(),
    {
        if self.destroyed || !self.conn {
            return;
        }
        let peak: u64 = self.stats[IDX_STATS_MAX_BYTES_IN_FLIGHT];
        let peak: u64 = if peak >= info.bytes_in_flight {
            peak
        } else {
            info.bytes_in_flight
        };
        self.write_stat(IDX_STATS_MAX_BYTES_IN_FLIGHT, peak);
        self.write_stat(IDX_STATS_BYTES_IN_FLIGHT, info.bytes_in_flight);
        self.write_stat(IDX_STATS_CWND, info.cwnd);
        self.write_stat(IDX_STATS_LATEST_RTT, info.latest_rtt);
        self.write_stat(IDX_STATS_MIN_RTT, info.min_rtt);
        self.write_stat(IDX_STATS_RTTVAR, info.rttvar);
        self.write_stat(IDX_STATS_SMOOTHED_RTT, info.smoothed_rtt);
        self.write_stat(IDX_STATS_SSTHRESH, info.ssthresh);
    }

    /// Take on a connection ID that was handed to the transport: the peer may
    /// switch to it at any time. Returns whether the endpoint is to route it.
    pub fn add_connection_id(&mut self, cid: Vec<u8>) -> (route: bool)
        requires
            old(self)@.well_formed(),
        ensures
            route == old(self)@.endpoint,
            final(self)@ == if old(self)@.endpoint {
                SessionView {
                    registered_cids: old(self)@.registered_cids.push(cid@),
                    ..old(self)@
                }
            } else {
                old(self)@
            },
            final(self)@.well_formed(),
    {
        if !self.endpoint {
            return false;
        }
        self.registered_cids.push(cid);
        assert(self@ =~= SessionView {
            registered_cids: old(self)@.registered_cids.push(cid@),
            ..old(self)@
        });
        true
    }

    /// The peer retired a connection ID. Returns whether the endpoint is to
    /// stop routing it.
    pub fn remove_connection_id(&mut self, cid: &[u8]) -> (unroute: bool)
        requires
            old(self)@.well_formed(),
        ensures
            unroute == old(self)@.endpoint,
            final(self)@ == old(self)@.without_cid(cid@),
            final(self)@.well_formed(),
    {
        let ghost before = self@.registered_cids;
        let ghost keeps = other_than(cid@);
        let mut kept: Vec<Vec<u8>> = Vec::new();
        let mut rest: Vec<Vec<u8>> = Vec::new();
        core::mem::swap(&mut rest, &mut self.registered_cids);
        assert(before.take(0).filter(keeps) =~= Seq::empty()) by {
            reveal(Seq::filter);
        }
        assert(cid_views(kept@) =~= Seq::empty());
        let mut at: usize = 0;
        while at < rest.len()
            invariant
                at <= rest@.len(),
                before == cid_views(rest@),
                keeps == other_than(cid@),
                cid_views(kept@) == before.take(at as int).filter(keeps),
            decreases rest@.len() - at,
        {
            assert(before.take(at + 1).drop_last() =~= before.take(at as int));
            assert(before.take(at + 1).last() == rest@[at as int]@);
            reveal(Seq::filter);
            if !bytes_equal(rest[at].as_slice(), cid) {
                let copy = slice_to_vec(rest[at].as_slice());
                kept.push(copy);
                assert(cid_views(kept@) =~= before.take(at as int).filter(keeps).push(copy@));
            }
            at = at + 1;
        }
        assert(before.take(at as int) =~= before);
        self.registered_cids = kept;
        assert(self@ =~= old(self)@.without_cid(cid@));
        self.endpoint
    }

    /// The peer's address, unless the session is destroyed.
    pub fn get_remote_address(&self) -> (address: Option<SocketAddress>)
        ensures
            if self@.destroyed {
                address is None
            } else {
                self@.remote_addr.shows(address)
            },
    {
        if self.destroyed || !self.remote_addr.is_set() {
            return None;
        }
        self.remote_addr.to_socket_address()
    }

    /// The local address, unless the session is destroyed.
    pub fn get_local_address(&self) -> (address: Option<SocketAddress>)
        ensures
            if self@.destroyed {
                address is None
            } else {
                self@.local_addr.shows(address)
            },
    {
        if self.destroyed || !self.local_addr.is_set() {
            return None;
        }
        self.local_addr.to_socket_address()
    }
}

/// A session lives while it is not destroyed and has its connection, and a
/// listener is one whose flag is set.
pub proof fn law_session_lives_with_its_connection(session: SessionView, flag: u32)
    ensures
        session.live() <==> !session.destroyed && session.conn,
        session.wants(flag) <==> session.state.listener_flags & flag != 0,
        LISTENER_FLAG_DATAGRAM == 0x2 && LISTENER_FLAG_DATAGRAM_STATUS == 0x4,
        LISTENER_FLAG_SESSION_TICKET == 0x8 && LISTENER_FLAG_NEW_TOKEN == 0x10,
{
}

/// A change of one statistic, one stream or one event is that change alone: a
/// statistic takes the value or counts on, a stream stands under its id, an
/// event comes last.
pub proof fn law_changes_are_local(
    session: SessionView,
    slot: int,
    value: u64,
    id: i64,
    stream: StreamView,
    event: StreamEvent,
)
    requires
        0 <= slot < session.stats.len(),
    ensures
        session.with_stat(slot, value) == (SessionView {
            stats: session.with_stat(slot, value).stats,
            ..session
        }),
        session.with_stat(slot, value).stats.len() == session.stats.len(),
        session.with_stat(slot, value).stats[slot] == value,
        forall|other: int|
            0 <= other < session.stats.len() && other != slot ==> #[trigger] session.with_stat(
                slot,
                value,
            ).stats[other] == session.stats[other],
        session.with_added(slot, value).stats[slot] == (session.stats[slot] + value)
            % 0x1_0000_0000_0000_0000,
        session.with_added(slot, value) == session.with_stat(
            slot,
            session.with_added(slot, value).stats[slot],
        ),
        session.with_event(event) == (SessionView {
            stream_events: session.stream_events.push(event),
            ..session
        }),
        session.with_stream(id, stream) == (SessionView {
            streams: session.with_stream(id, stream).streams,
            ..session
        }),
        session.with_stream(id, stream).streams.contains_key(id),
        session.with_stream(id, stream).streams[id] == stream,
        forall|other: i64|
            other != id ==> (#[trigger] session.with_stream(id, stream).streams.contains_key(other)
                <==> session.streams.contains_key(other)),
        forall|other: i64|
            other != id && session.streams.contains_key(other) ==> #[trigger] session.with_stream(
                id,
                stream,
            ).streams[other] == session.streams[other],
{
}

/// A new session has an endpoint and no connection, no stream, no event and no
/// datagram. Datagrams of 1200 bytes are offered until the peer's limit is
/// known, 128 of them may wait, the oldest of a full queue is dropped, and ids
/// start at one.
pub proof fn law_new_session_is_idle(local: StoredAddr, remote: StoredAddr, now: u64)
    ensures
        ({
            let session = SessionView::created(local, remote, now);
            &&& session.local_addr == local && session.remote_addr == remote
            &&& session.endpoint && !session.conn && !session.tls && !session.destroyed
            &&& session.registered_cids.len() == 0 && session.stream_events.len() == 0
            &&& session.datagram_queue.len() == 0
            &&& forall|id: i64| !#[trigger] session.streams.contains_key(id)
            &&& session.next_datagram_id == 1 && !session.datagram_drop_newest
            &&& session.pending_close_error is None && !session.pending_close
            &&& !session.is_server && !session.timer_active
            &&& !session.handshake_reported && !session.close_reported
            &&& session.state == (SessionState {
                listener_flags: 0,
                closing: 0,
                graceful_close: 0,
                silent_close: 0,
                stateless_reset: 0,
                handshake_completed: 0,
                handshake_confirmed: 0,
                stream_open_allowed: 0,
                priority_supported: 0,
                headers_supported: 0,
                wrapped: 0,
                application_type: 0,
                no_error_code: 0,
                internal_error_code: 0,
                max_datagram_size: 1200,
                last_datagram_id: 0,
                max_pending_datagrams: 128,
            })
            &&& session.stats.len() == 32
            &&& forall|slot: int|
                0 <= slot < 32 ==> #[trigger] session.stats[slot] == if slot == 0 {
                    now
                } else {
                    0
                }
        }),
{
}

/// The connection's counters are copied each into its own slot, the largest
/// number of bytes in flight is kept, and nothing else changes; of a session
/// that is not live nothing does.
pub proof fn law_counters_have_their_slots(session: SessionView, info: ngtcp2_conn_info)
    requires
        session.stats.len() == 32,
    ensures
        ({
            let after = session.with_conn_info(info);
            &&& session.destroyed || !session.conn ==> after == session
            &&& !session.destroyed && session.conn ==> {
                &&& after.stats[10] == if session.stats[10] >= info.bytes_in_flight {
                    session.stats[10]
                } else {
                    info.bytes_in_flight
                }
                &&& after.stats[11] == info.bytes_in_flight
                &&& after.stats[13] == info.cwnd
                &&& after.stats[14] == info.latest_rtt
                &&& after.stats[15] == info.min_rtt
                &&& after.stats[16] == info.rttvar
                &&& after.stats[17] == info.smoothed_rtt
                &&& after.stats[18] == info.ssthresh
                &&& after.stats.len() == 32
                &&& forall|slot: int|
                    0 <= slot < 10 || slot == 12 || 19 <= slot < 32 ==> #[trigger] after.stats[slot]
                        == session.stats[slot]
                &&& after == (SessionView { stats: after.stats, ..session })
            }
        }),
{
}

/// Dropping a connection ID drops it and no other, and keeps the order of the
/// others.
pub proof fn law_only_the_retired_id_leaves(session: SessionView, cid: Seq<u8>, other: Seq<u8>)
    ensures
        ({
            let after = session.without_cid(cid);
            &&& !after.registered_cids.contains(cid)
            &&& other != cid ==> (after.registered_cids.contains(other)
                <==> session.registered_cids.contains(other))
            &&& after == (SessionView { registered_cids: after.registered_cids, ..session })
        }),
        ({
            let longer = SessionView {
                registered_cids: session.registered_cids.push(other),
                ..session
            };
            longer.without_cid(cid).registered_cids == if other == cid {
                session.without_cid(cid).registered_cids
            } else {
                session.without_cid(cid).registered_cids.push(other)
            }
        }),
{
    reveal(Seq::filter);
    assert(session.registered_cids.push(other).drop_last() =~= session.registered_cids);
    let cids = session.registered_cids;
    lemma_filter_by(cids, other_than(cid), cid);
    lemma_filter_by(cids, other_than(cid), other);
}

/// A filter keeps exactly the items that pass it.
proof fn lemma_filter_by(list: Seq<Seq<u8>>, keeps: spec_fn(Seq<u8>) -> bool, item: Seq<u8>)
    ensures
        list.filter(keeps).contains(item) <==> list.contains(item) && keeps(item),
{
    let kept = list.filter(keeps);
    if kept.contains(item) {
        let i = choose|i: int| 0 <= i < kept.len() && kept[i] == item;
        list.lemma_filter_pred(keeps, i);
        list.lemma_filter_contains_rev(keeps, item);
    }
    if list.contains(item) && keeps(item) {
        let i = choose|i: int| 0 <= i < list.len() && list[i] == item;
        list.lemma_filter_contains(keeps, i);
    }
}

/// A session stands for what its fields hold.
pub proof fn law_session_is_seen_as_it_is(session: QuicSession)
    ensures
        session@.conn == session.conn,
        session@.tls == session.tls,
        session@.endpoint == session.endpoint,
        session@.state == session.state,
        session@.local_addr == session.local_addr,
        session@.remote_addr == session.remote_addr,
        session@.next_datagram_id == session.next_datagram_id,
        session@.datagram_drop_newest == session.datagram_drop_newest,
        session@.pending_close_error == session.pending_close_error,
        session@.is_server == session.is_server,
        session@.timer_active == session.timer_active,
        session@.handshake_reported == session.handshake_reported,
        session@.close_reported == session.close_reported,
        session@.pending_close == session.pending_close,
        session@.destroyed == session.destroyed,
        session@.stats == session.stats@,
        session@.streams == session.streams@,
        session@.stream_events == session.stream_events@,
        session@.datagram_queue == session.datagram_queue@,
        session@.registered_cids.len() == session.registered_cids@.len(),
{
}

/// Connection IDs stand for their bytes, one for one.
pub proof fn law_connection_ids_are_their_bytes(cids: Seq<Vec<u8>>, at: int)
    requires
        0 <= at < cids.len(),
    ensures
        cid_views(cids).len() == cids.len(),
        cid_views(cids)[at] == cids[at]@,
{
}

} // verus!
