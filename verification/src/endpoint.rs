//! The endpoint: one UDP socket, bound when it is first needed, and the routes
//! from connection IDs to sessions.

use vstd::prelude::*;

use crate::address::{bound_address, SocketAddress, StoredAddr};
use crate::ngtcp2::{ngtcp2_version_cid, NGTCP2_MAX_CIDLEN};
use crate::routes::{lists_sessions, RouteTable};
use crate::session::{cid_views, other_than, SessionView};
use crate::settings::{validate_transport_params, SessionOptions};
use crate::stream::wrapped_sum;

verus! {

/// The state block of an endpoint that the script shares.
#[derive(Copy, Clone, Debug, PartialEq, Eq, Structural)]
pub struct EndpointState {
    pub bound: u8,
    pub receiving: u8,
    pub listening: u8,
    pub closing: u8,
    pub busy: u8,
    pub max_connections_per_host: u16,
    pub max_connections_total: u16,
    pub pending_callbacks: u64,
}

/// Number of statistics slots of an endpoint.
pub const ENDPOINT_STATS: usize = 19;

pub const IDX_STATS_CREATED_AT: usize = 0;

pub const IDX_STATS_DESTROYED_AT: usize = 1;

pub const IDX_STATS_BYTES_RECEIVED: usize = 2;

pub const IDX_STATS_BYTES_SENT: usize = 3;

pub const IDX_STATS_PACKETS_RECEIVED: usize = 4;

pub const IDX_STATS_PACKETS_SENT: usize = 5;

pub const IDX_STATS_SERVER_SESSIONS: usize = 6;

pub const IDX_STATS_CLIENT_SESSIONS: usize = 7;

/// Length of the connection IDs that this side makes; received short packets
/// are parsed by it.
pub const LOCAL_CID_LEN: usize = 16;

/// Contexts that `onEndpointClose` is called with.
pub const CLOSECONTEXT_CLOSE: u8 = 0;

pub const CLOSECONTEXT_BIND_FAILURE: u8 = 1;

pub const CLOSECONTEXT_START_FAILURE: u8 = 2;

pub const CLOSECONTEXT_RECEIVE_FAILURE: u8 = 3;

pub const CLOSECONTEXT_SEND_FAILURE: u8 = 4;

pub const CLOSECONTEXT_LISTEN_FAILURE: u8 = 5;

/// Where the socket is bound.
pub struct BindConfig {
    /// The address in presentation format, closed by a zero byte.
    pub host: Vec<u8>,
    pub port: u16,
}

/// `127.0.0.1` and a zero byte.
pub open spec fn loopback_host() -> Seq<u8> {
    seq![0x31u8, 0x32u8, 0x37u8, 0x2eu8, 0x30u8, 0x2eu8, 0x30u8, 0x2eu8, 0x31u8, 0u8]
}

impl Default for BindConfig {
    /// The loopback address, on a port of the system's choice.
    fn default() -> (config: BindConfig)
        ensures
            config.host@ == loopback_host(),
            config.port == 0,
    {
        let mut host: Vec<u8> = Vec::new();
        host.push(0x31);
        host.push(0x32);
        host.push(0x37);
        host.push(0x2e);
        host.push(0x30);
        host.push(0x2e);
        host.push(0x30);
        host.push(0x2e);
        host.push(0x31);
        host.push(0);
        assert(host@ =~= loopback_host());
        BindConfig { host, port: 0 }
    }
}

/// One endpoint.
pub struct QuicEndpoint {
    pub state: EndpointState,
    pub stats: [u64; 19],
    pub closed: bool,
    /// Whether the socket is open.
    pub socket: bool,
    pub bind_config: BindConfig,
    /// Whether the endpoint keeps the event loop alive.
    pub referenced: bool,
    /// Whether session options for incoming connections are there.
    pub listen_options: bool,
    /// Routes received packets to their session, by the session's key.
    pub sessions: RouteTable,
}

/// What an endpoint stands for.
#[verifier::ext_equal]
pub struct EndpointView {
    pub state: EndpointState,
    pub stats: Seq<u64>,
    pub closed: bool,
    pub socket: bool,
    pub host: Seq<u8>,
    pub port: u16,
    pub referenced: bool,
    pub listen_options: bool,
    pub routes: Map<Seq<u8>, u64>,
}

impl View for QuicEndpoint {
    type V = EndpointView;

    open spec fn view(&self) -> EndpointView {
        EndpointView {
            state: self.state,
            stats: self.stats@,
            closed: self.closed,
            socket: self.socket,
            host: self.bind_config.host@,
            port: self.bind_config.port,
            referenced: self.referenced,
            listen_options: self.listen_options,
            routes: self.sessions@,
        }
    }
}

/// Where a received packet goes.
#[derive(Copy, Clone, Debug, PartialEq, Eq, Structural)]
pub enum Route {
    /// Nowhere.
    Drop,
    /// To the session of this key.
    Deliver(u64),
    /// To a new session, if it is an acceptable first packet.
    Accept,
}

/// Why a call of `listen` is refused.
#[derive(Copy, Clone, Debug, PartialEq, Eq)]
pub enum ListenError {
    /// The endpoint is closed.
    Closed,
    /// The transport parameter of this name is not acceptable:
    /// `ERR_INVALID_ARG_VALUE`.
    InvalidArgValue(&'static str),
}

impl EndpointView {
    pub open spec fn created(host: Seq<u8>, port: u16, now: u64) -> EndpointView {
        EndpointView {
            state: EndpointState {
                bound: 0,
                receiving: 0,
                listening: 0,
                closing: 0,
                busy: 0,
                max_connections_per_host: 0,
                max_connections_total: 0,
                pending_callbacks: 0,
            },
            stats: Seq::new(ENDPOINT_STATS as nat, |i: int| 0u64).update(
                IDX_STATS_CREATED_AT as int,
                now,
            ),
            closed: false,
            socket: false,
            host,
            port,
            referenced: false,
            listen_options: false,
            routes: Map::empty(),
        }
    }

    pub open spec fn with_stat(self, index: int, value: u64) -> EndpointView {
        EndpointView { stats: self.stats.update(index, value), ..self }
    }

    pub open spec fn with_added(self, index: int, delta: u64) -> EndpointView {
        self.with_stat(index, wrapped_sum(self.stats[index], delta))
    }

    /// There is work to do: new connections to listen for, or packets to
    /// route.
    pub open spec fn active(self) -> bool {
        self.state.listening != 0 || self.routes != Map::<Seq<u8>, u64>::empty()
    }

    /// The event loop kept alive exactly while there is work to do.
    pub open spec fn with_keepalive(self) -> EndpointView {
        if self.closed || !self.socket {
            self
        } else {
            EndpointView { referenced: self.active(), ..self }
        }
    }

    pub open spec fn with_socket(self) -> EndpointView {
        EndpointView {
            socket: true,
            state: EndpointState { bound: 1, receiving: 1, ..self.state },
            ..self
        }
    }

    pub open spec fn with_route(self, cid: Seq<u8>, session: u64) -> EndpointView {
        EndpointView { routes: self.routes.insert(cid, session), ..self }.with_keepalive()
    }

    pub open spec fn without_route(self, cid: Seq<u8>) -> EndpointView {
        EndpointView { routes: self.routes.remove(cid), ..self }.with_keepalive()
    }

    /// Several connection IDs routed to a session, one after the other.
    pub open spec fn with_routes(self, cids: Seq<Seq<u8>>, session: u64) -> EndpointView
        decreases cids.len(),
    {
        if cids.len() == 0 {
            self
        } else {
            self.with_routes(cids.drop_last(), session).with_route(cids.last(), session)
        }
    }

    /// Several connection IDs routed nowhere, one after the other.
    pub open spec fn without_routes(self, cids: Seq<Seq<u8>>) -> EndpointView
        decreases cids.len(),
    {
        if cids.len() == 0 {
            self
        } else {
            self.without_routes(cids.drop_last()).without_route(cids.last())
        }
    }

    /// Where a packet with this destination goes.
    pub open spec fn route(self, cid: Seq<u8>) -> Route {
        if cid.len() == 0 || cid.len() > NGTCP2_MAX_CIDLEN {
            Route::Drop
        } else if self.routes.contains_key(cid) {
            Route::Deliver(self.routes[cid])
        } else if self.state.listening != 0 && self.listen_options {
            Route::Accept
        } else {
            Route::Drop
        }
    }

    pub open spec fn with_closed(self, now: u64) -> EndpointView {
        EndpointView {
            routes: Map::empty(),
            socket: false,
            referenced: false,
            listen_options: false,
            state: EndpointState {
                closing: 1,
                bound: 0,
                receiving: 0,
                listening: 0,
                ..self.state
            },
            ..self.with_stat(IDX_STATS_DESTROYED_AT as int, now)
        }
    }
}

impl QuicEndpoint {
    pub open spec fn well_formed(self) -> bool {
        self.sessions.well_formed() && self.stats@.len() == ENDPOINT_STATS
    }

    /// An endpoint that is not bound yet. `address` is the address and port to
    /// bind to, where the options give one; otherwise the loopback address.
    pub fn constructor(address: Option<(Vec<u8>, u16)>, now: u64) -> (endpoint: QuicEndpoint)
        ensures
            endpoint@ == match address {
                Some((host, port)) => EndpointView::created(host@.push(0), port, now),
                None => EndpointView::created(loopback_host(), 0, now),
            },
            endpoint.well_formed(),
    {
        let bind_config = match address {
            Some((host, port)) => {
                let mut host = host;
                host.push(0);
                BindConfig { host, port }
            },
            None => BindConfig::default(),
        };
        let ghost (host, port) = (bind_config.host@, bind_config.port);
        let mut endpoint = QuicEndpoint {
            state: EndpointState {
                bound: 0,
                receiving: 0,
                listening: 0,
                closing: 0,
                busy: 0,
                max_connections_per_host: 0,
                max_connections_total: 0,
                pending_callbacks: 0,
            },
            stats: [0; 19],
            closed: false,
            socket: false,
            bind_config,
            referenced: false,
            listen_options: false,
            sessions: RouteTable::new(),
        };
        assert(endpoint.stats@ =~= Seq::new(ENDPOINT_STATS as nat, |i: int| 0u64));
        endpoint.write_stat(IDX_STATS_CREATED_AT, now);
        assert(endpoint@ =~= EndpointView::created(host, port, now));
        endpoint
    }

    fn write_stat(&mut self, index: usize, value: u64)
        requires
            index < ENDPOINT_STATS,
            old(self).well_formed(),
        ensures
            final(self)@ == old(self)@.with_stat(index as int, value),
            final(self).well_formed(),
    {
        self.stats[index] = value;
        assert(self@ =~= old(self)@.with_stat(index as int, value));
    }

    fn add_stat(&mut self, index: usize, delta: u64)
        requires
            index < ENDPOINT_STATS,
            old(self).well_formed(),
        ensures
            final(self)@ == old(self)@.with_added(index as int, delta),
            final(self).well_formed(),
    {
        let value: u64 = self.stats[index].wrapping_add(delta);
        self.write_stat(index, value);
    }

    /// Where to bind the socket, unless it is open already.
    pub fn ensure_bound(&self) -> (target: Option<(&[u8], u16)>)
        ensures
            match target {
                Some((host, port)) => !self@.socket && host@ == self@.host && port == self@.port,
                None => self@.socket,
            },
    {
        if self.socket {
            return None;
        }
        Some((self.bind_config.host.as_slice(), self.bind_config.port))
    }

    /// The socket is open.
    pub fn finish_bind(&mut self)
        requires
            old(self).well_formed(),
        ensures
            final(self)@ == old(self)@.with_socket(),
            final(self).well_formed(),
    {
        self.socket = true;
        self.state.bound = 1;
        self.state.receiving = 1;
        assert(self@ =~= old(self)@.with_socket());
    }

    /// Keep the event loop alive only while there is work to do: an idle
    /// endpoint must not keep the process alive.
    fn update_keepalive(&mut self)
        requires
            old(self).well_formed(),
        ensures
            final(self)@ == old(self)@.with_keepalive(),
            final(self).well_formed(),
    {
        if self.closed || !self.socket {
            return;
        }
        let active: bool = self.state.listening != 0 || !self.sessions.is_empty();
        self.referenced = active;
        assert(self@ =~= old(self)@.with_keepalive());
    }

    /// `listen(options)`; `None` where the argument is not an object. Transport
    /// parameters that a session could not be made with are refused. Returns
    /// whether to go on: bind the socket, then call `finish_listen`.
    pub fn listen(&mut self, options: Option<&SessionOptions>) -> (go_on: Result<bool, ListenError>)
        requires
            old(self).well_formed(),
        ensures
            match go_on {
                Err(ListenError::Closed) => {
                    &&& old(self)@.closed
                    &&& final(self)@ == old(self)@
                },
                Err(ListenError::InvalidArgValue(name)) => {
                    &&& !old(self)@.closed && old(self)@.state.listening == 0
                    &&& options matches Some(options) && options.checked(Err(name@))
                    &&& final(self)@ == old(self)@
                },
                Ok(false) => {
                    &&& !old(self)@.closed && old(self)@.state.listening != 0
                    &&& final(self)@ == old(self)@
                },
                Ok(true) => {
                    &&& !old(self)@.closed && old(self)@.state.listening == 0
                    &&& options matches Some(options) ==> options.checked(Ok(()))
                    &&& final(self)@ == (EndpointView {
                        listen_options: old(self)@.listen_options || options is Some,
                        ..old(self)@
                    })
                },
            },
            final(self).well_formed(),
    {
        if self.closed {
            return Err(ListenError::Closed);
        }
        if self.state.listening != 0 {
            return Ok(false);
        }
        if let Some(options) = options {
            if let Err(name) = validate_transport_params(options) {
                return Err(ListenError::InvalidArgValue(name));
            }
            self.listen_options = true;
        }
        assert(self@ =~= EndpointView {
            listen_options: old(self)@.listen_options || options is Some,
            ..old(self)@
        });
        Ok(true)
    }

    /// The socket is bound: new connections are accepted from now on.
    pub fn finish_listen(&mut self)
        requires
            old(self).well_formed(),
        ensures
            final(self)@ == (EndpointView {
                state: EndpointState { listening: 1, ..old(self)@.state },
                ..old(self)@
            }).with_keepalive(),
            final(self).well_formed(),
    {
        self.state.listening = 1;
        assert(self@ =~= EndpointView {
            state: EndpointState { listening: 1, ..old(self)@.state },
            ..old(self)@
        });
        self.update_keepalive();
    }

    /// The local address, from what the socket reports of itself.
    pub fn local_stored_addr(&self, port: i32, ip: &[u8; 16], len: i32) -> (addr: StoredAddr)
        ensures
            addr.well_formed(),
            if self@.socket && port > 0 && (len == 4 || len == 16) {
                exists|address: SocketAddress|
                    {
                        &&& addr.copies(#[trigger] address.raw())
                        &&& address.is_bound(port, ip@, len)
                    }
            } else {
                addr.len == 0
            },
    {
        if !self.socket {
            return StoredAddr::unset();
        }
        match bound_address(port, ip, len) {
            Some(address) => {
                let addr = StoredAddr::from_socket_address(&address);
                assert(addr.copies(address.raw()) && address.is_bound(port, ip@, len));
                addr
            },
            None => StoredAddr::unset(),
        }
    }

    /// Whether a packet of `len` bytes is to be sent to `dest`; it is counted.
    pub fn send_packet(&mut self, len: usize, dest: &StoredAddr) -> (send: bool)
        requires
            old(self).well_formed(),
        ensures
            send == (old(self)@.socket && len > 0 && dest.len != 0),
            final(self)@ == if send {
                old(self)@.with_added(IDX_STATS_PACKETS_SENT as int, 1).with_added(
                    IDX_STATS_BYTES_SENT as int,
                    len as u64,
                )
            } else {
                old(self)@
            },
            final(self).well_formed(),
    {
        if !self.socket || len == 0 || !dest.is_set() {
            return false;
        }
        self.add_stat(IDX_STATS_PACKETS_SENT, 1);
        self.add_stat(IDX_STATS_BYTES_SENT, len as u64);
        true
    }

    /// Route packets for `cid` to a session.
    pub fn register_session_cid(&mut self, cid: &[u8], session: u64)
        requires
            old(self).well_formed(),
        ensures
            final(self)@ == old(self)@.with_route(cid@, session),
            final(self).well_formed(),
    {
        self.sessions.insert(cid, session);
        assert(self@ =~= EndpointView {
            routes: old(self)@.routes.insert(cid@, session),
            ..old(self)@
        });
        self.update_keepalive();
    }

    /// Route packets for `cid` nowhere.
    pub fn unregister_session_cid(&mut self, cid: &[u8])
        requires
            old(self).well_formed(),
        ensures
            final(self)@ == old(self)@.without_route(cid@),
            final(self).well_formed(),
    {
        self.sessions.remove(cid);
        assert(self@ =~= EndpointView { routes: old(self)@.routes.remove(cid@), ..old(self)@ });
        self.update_keepalive();
    }

    /// Route packets for a new session's connection IDs to it.
    pub fn register_session_cids(&mut self, cids: &Vec<Vec<u8>>, session: u64)
        requires
            old(self).well_formed(),
        ensures
            final(self)@ == old(self)@.with_routes(cid_views(cids@), session),
            final(self).well_formed(),
    {
        let ghost views = cid_views(cids@);
        let mut at: usize = 0;
        while at < cids.len()
            invariant
                at <= cids@.len(),
                views == cid_views(cids@),
                self@ == old(self)@.with_routes(views.take(at as int), session),
                self.well_formed(),
            decreases cids@.len() - at,
        {
            self.register_session_cid(cids[at].as_slice(), session);
            at = at + 1;
            assert(views.take(at as int).drop_last() =~= views.take(at - 1));
        }
        assert(views.take(at as int) =~= views);
    }

    /// Route packets for a torn down session's connection IDs nowhere.
    pub fn unregister_session_cids(&mut self, cids: &Vec<Vec<u8>>)
        requires
            old(self).well_formed(),
        ensures
            final(self)@ == old(self)@.without_routes(cid_views(cids@)),
            final(self).well_formed(),
    {
        let ghost views = cid_views(cids@);
        let mut at: usize = 0;
        while at < cids.len()
            invariant
                at <= cids@.len(),
                views == cid_views(cids@),
                self@ == old(self)@.without_routes(views.take(at as int)),
                self.well_formed(),
            decreases cids@.len() - at,
        {
            self.unregister_session_cid(cids[at].as_slice());
            at = at + 1;
            assert(views.take(at as int).drop_last() =~= views.take(at - 1));
        }
        assert(views.take(at as int) =~= views);
    }

    /// Where a received packet of `len` bytes goes, given what the transport
    /// could tell of it: `rv` is not zero where it could not tell.
    pub fn receive_packet(&self, len: usize, rv: i32, header: &ngtcp2_version_cid) -> (route: Route)
        requires
            self.well_formed(),
        ensures
            route == match header.dcid {
                Some(dcid) if len > 0 && rv == 0 => self@.route(dcid@),
                _ => Route::Drop,
            },
    {
        if len == 0 || rv != 0 {
            return Route::Drop;
        }
        let dcid = match &header.dcid {
            Some(dcid) => dcid.as_slice(),
            None => {
                return Route::Drop;
            },
        };
        if dcid.len() == 0 || dcid.len() > NGTCP2_MAX_CIDLEN {
            return Route::Drop;
        }
        if let Some(session) = self.sessions.get(dcid) {
            return Route::Deliver(session);
        }
        // Unknown: only a server that accepts new connections cares.
        if self.state.listening == 0 || !self.listen_options {
            return Route::Drop;
        }
        Route::Accept
    }

    /// A server session was created.
    pub fn count_server_session(&mut self)
        requires
            old(self).well_formed(),
        ensures
            final(self)@ == old(self)@.with_added(IDX_STATS_SERVER_SESSIONS as int, 1),
            final(self).well_formed(),
    {
        self.add_stat(IDX_STATS_SERVER_SESSIONS, 1);
    }

    /// Whether a session that was just announced still takes its first packet:
    /// the announcement may have destroyed it, or the endpoint.
    pub fn still_routed(&self, cid: &[u8], session: u64) -> (routed: bool)
        requires
            self.well_formed(),
        ensures
            routed == (!self@.closed && self@.routes.contains_key(cid@) && self@.routes[cid@]
                == session),
    {
        if self.closed {
            return false;
        }
        match self.sessions.get(cid) {
            Some(found) => found == session,
            None => false,
        }
    }

    /// Packets arrived; `packets` is the socket's count and `bytes` the size
    /// of what was handled.
    pub fn count_received(&mut self, packets: i32, bytes: u64)
        requires
            old(self).well_formed(),
        ensures
            final(self)@ == old(self)@.with_added(
                IDX_STATS_PACKETS_RECEIVED as int,
                if packets > 0 {
                    packets as u64
                } else {
                    0
                },
            ).with_added(IDX_STATS_BYTES_RECEIVED as int, bytes),
            final(self).well_formed(),
    {
        let count: u64 = if packets > 0 {
            packets as u64
        } else {
            0
        };
        self.add_stat(IDX_STATS_PACKETS_RECEIVED, count);
        self.add_stat(IDX_STATS_BYTES_RECEIVED, bytes);
    }

    /// `connect(address, ..)`: the address to connect to, where the argument
    /// is one.
    pub fn connect(&self, remote: Option<SocketAddress>) -> (target: Result<
        StoredAddr,
        &'static str,
    >)
        ensures
            match target {
                Ok(addr) => !self@.closed && remote is Some && addr.copies(remote->0.raw()),
                Err(message) => if self@.closed {
                    message@ == "Endpoint is closed"@
                } else {
                    remote is None && message@ == "Expected a SocketAddress to connect to"@
                },
            },
    {
        if self.closed {
            return Err("Endpoint is closed");
        }
        match remote {
            Some(address) => Ok(StoredAddr::from_socket_address(&address)),
            None => Err("Expected a SocketAddress to connect to"),
        }
    }

    /// A client session was created.
    pub fn count_client_session(&mut self)
        requires
            old(self).well_formed(),
        ensures
            final(self)@ == old(self)@.with_added(IDX_STATS_CLIENT_SESSIONS as int, 1),
            final(self).well_formed(),
    {
        self.add_stat(IDX_STATS_CLIENT_SESSIONS, 1);
    }

    /// Contexts by server name are not supported.
    pub fn set_sni_contexts(&self) -> (outcome: Result<(), &'static str>)
        ensures
            outcome matches Err(message) && message@
                == "QuicEndpoint.setSNIContexts is not implemented yet"@,
    {
        Err("QuicEndpoint.setSNIContexts is not implemented yet")
    }

    /// `markBusy(on)`.
    pub fn mark_busy(&mut self, busy: bool)
        requires
            old(self).well_formed(),
        ensures
            final(self)@ == (EndpointView {
                state: EndpointState {
                    busy: if busy {
                        1
                    } else {
                        0
                    },
                    ..old(self)@.state
                },
                ..old(self)@
            }),
            final(self).well_formed(),
    {
        self.state.busy = if busy {
            1
        } else {
            0
        };
        assert(self@ =~= EndpointView { state: self.state, ..old(self)@ });
    }

    /// `ref(on)`: whether the event loop is kept alive, while a socket is
    /// open.
    pub fn do_ref(&mut self, on: bool)
        requires
            old(self).well_formed(),
        ensures
            final(self)@ == if old(self)@.socket && !old(self)@.closed {
                EndpointView { referenced: on, ..old(self)@ }
            } else {
                old(self)@
            },
            final(self).well_formed(),
    {
        if self.socket && !self.closed {
            self.referenced = on;
            assert(self@ =~= EndpointView { referenced: on, ..old(self)@ });
        }
    }

    /// The address that the socket is bound to, from what it reports of
    /// itself.
    pub fn address(&self, port: i32, ip: &[u8; 16], len: i32) -> (address: Option<SocketAddress>)
        ensures
            match address {
                Some(address) => self@.socket && !self@.closed && address.is_bound(port, ip@, len),
                None => !self@.socket || self@.closed || port <= 0 || (len != 4 && len != 16),
            },
    {
        if !self.socket || self.closed {
            return None;
        }
        bound_address(port, ip, len)
    }

    /// `closeGracefully()`: the sessions to close first, through the socket
    /// that is still open. A second call does nothing.
    pub fn close_gracefully(&mut self) -> (live: Option<Vec<u64>>)
        requires
            old(self).well_formed(),
        ensures
            match live {
                Some(live) => !old(self)@.closed && lists_sessions(live@, old(self)@.routes),
                None => old(self)@.closed,
            },
            final(self)@ == (EndpointView { closed: true, ..old(self)@ }),
            final(self).well_formed(),
    {
        if self.closed {
            assert(self@ =~= EndpointView { closed: true, ..old(self)@ });
            return None;
        }
        self.closed = true;
        assert(self@ =~= EndpointView { closed: true, ..old(self)@ });
        Some(self.sessions.sessions())
    }

    /// The sessions are closed: let everything else go. Returns whether there
    /// is a socket to close; `onEndpointClose` is called afterwards.
    pub fn finish_close(&mut self, now: u64) -> (close_socket: bool)
        requires
            old(self).well_formed(),
        ensures
            close_socket == old(self)@.socket,
            final(self)@ == old(self)@.with_closed(now),
            final(self).well_formed(),
    {
        self.sessions = RouteTable::new();
        let close_socket: bool = self.socket;
        self.socket = false;
        self.referenced = false;
        self.listen_options = false;
        self.state.closing = 1;
        self.state.bound = 0;
        self.state.receiving = 0;
        self.state.listening = 0;
        assert(self@ =~= EndpointView { stats: old(self)@.stats, ..old(self)@.with_closed(now) });
        self.write_stat(IDX_STATS_DESTROYED_AT, now);
        assert(self@ =~= old(self)@.with_closed(now));
        close_socket
    }
}

/// A registered connection ID leads to its session, and no other route
/// changes.
pub proof fn law_registered_cid_is_routed(
    endpoint: EndpointView,
    cid: Seq<u8>,
    session: u64,
    other: Seq<u8>,
)
    requires
        0 < cid.len() <= NGTCP2_MAX_CIDLEN,
        other != cid,
    ensures
        endpoint.with_route(cid, session).route(cid) == Route::Deliver(session),
        endpoint.with_route(cid, session).route(other) == endpoint.route(other),
{
}

/// A connection ID that was unregistered leads to no session, and no other
/// route changes.
pub proof fn law_unregistered_cid_is_not_routed(
    endpoint: EndpointView,
    cid: Seq<u8>,
    other: Seq<u8>,
)
    requires
        other != cid,
    ensures
        !(endpoint.without_route(cid).route(cid) is Deliver),
        endpoint.without_route(cid).route(other) == endpoint.route(other),
{
}

/// The event loop is kept alive exactly while there is work to do: after any
/// change of the routes of an open endpoint.
pub proof fn law_idle_endpoint_is_not_referenced(
    endpoint: EndpointView,
    cid: Seq<u8>,
    session: u64,
)
    requires
        !endpoint.closed,
        endpoint.socket,
    ensures
        endpoint.with_route(cid, session).referenced,
        endpoint.without_route(cid).referenced == endpoint.without_route(cid).active(),
{
    let routes = endpoint.routes.insert(cid, session);
    assert(routes.contains_key(cid));
    assert(!Map::<Seq<u8>, u64>::empty().contains_key(cid));
}

/// A closed endpoint delivers nothing and accepts nothing.
pub proof fn law_closed_endpoint_routes_nothing(endpoint: EndpointView, cid: Seq<u8>, now: u64)
    ensures
        endpoint.with_closed(now).route(cid) is Drop,
{
}

/// Every route to a session is one of its connection IDs.
pub open spec fn routes_owned(
    routes: Map<Seq<u8>, u64>,
    session: u64,
    cids: Seq<Seq<u8>>,
) -> bool {
    forall|cid: Seq<u8>| #[trigger]
        routes.contains_key(cid) && routes[cid] == session ==> cids.contains(cid)
}

proof fn lemma_without_routes(endpoint: EndpointView, cids: Seq<Seq<u8>>, cid: Seq<u8>)
    ensures
        endpoint.without_routes(cids).routes.contains_key(cid) <==> endpoint.routes.contains_key(
            cid,
        ) && !cids.contains(cid),
        endpoint.without_routes(cids).routes.contains_key(cid) ==> endpoint.without_routes(
            cids,
        ).routes[cid] == endpoint.routes[cid],
    decreases cids.len(),
{
    if cids.len() > 0 {
        lemma_without_routes(endpoint, cids.drop_last(), cid);
        assert(cids =~= cids.drop_last().push(cids.last()));
        if cids.contains(cid) && cid != cids.last() {
            let i = choose|i: int| 0 <= i < cids.len() && cids[i] == cid;
            assert(cids.drop_last()[i] == cid);
        }
        if cids.drop_last().contains(cid) {
            let i = choose|i: int| 0 <= i < cids.drop_last().len() && cids.drop_last()[i] == cid;
            assert(cids[i] == cid);
        }
        if cid == cids.last() {
            assert(cids[cids.len() - 1] == cid);
        }
    }
}

/// A routed session is always live. Registering a connection ID with the
/// endpoint and the session, and dropping one from both, keep every route to
/// the session among its connection IDs; so once a torn down session's
/// connection IDs are unregistered, nothing leads to it, and other sessions'
/// routes under other connection IDs are as before.
pub proof fn law_routed_session_is_live(
    endpoint: EndpointView,
    session: SessionView,
    key: u64,
    cid: Seq<u8>,
)
    requires
        routes_owned(endpoint.routes, key, session.registered_cids),
    ensures
        routes_owned(
            endpoint.with_route(cid, key).routes,
            key,
            session.registered_cids.push(cid),
        ),
        routes_owned(
            endpoint.without_route(cid).routes,
            key,
            session.without_cid(cid).registered_cids,
        ),
        forall|other: Seq<u8>|
            #![trigger endpoint.without_routes(session.registered_cids).routes.contains_key(other)]
            endpoint.without_routes(session.registered_cids).routes.contains_key(other)
                ==> endpoint.without_routes(session.registered_cids).routes[other] != key,
        forall|other: Seq<u8>|
            !session.registered_cids.contains(other) && endpoint.routes.contains_key(other)
                ==> #[trigger] endpoint.without_routes(session.registered_cids).routes.contains_key(
                other,
            ),
{
    let cids = session.registered_cids;
    let routes = endpoint.routes;
    let grown = cids.push(cid);
    assert forall|other: Seq<u8>| #[trigger]
        routes.insert(cid, key).contains_key(other) && routes.insert(cid, key)[other]
            == key implies grown.contains(other) by {
        if other == cid {
            assert(grown[cids.len() as int] == cid);
        } else {
            assert(cids.contains(other));
            let i = choose|i: int| 0 <= i < cids.len() && cids[i] == other;
            assert(grown[i] == other);
        }
    }
    let keeps = other_than(cid);
    assert forall|other: Seq<u8>| #[trigger]
        routes.remove(cid).contains_key(other) && routes.remove(cid)[other]
            == key implies cids.filter(keeps).contains(other) by {
        assert(routes.contains_key(other));
        assert(cids.contains(other));
        let i = choose|i: int| 0 <= i < cids.len() && cids[i] == other;
        cids.lemma_filter_contains(keeps, i);
    }
    assert forall|other: Seq<u8>|
        #![trigger endpoint.without_routes(cids).routes.contains_key(other)]
        endpoint.without_routes(cids).routes.contains_key(other) implies endpoint.without_routes(
        cids,
    ).routes[other] != key by {
        lemma_without_routes(endpoint, cids, other);
    }
    assert forall|other: Seq<u8>|
        !cids.contains(other) && endpoint.routes.contains_key(
            other,
        ) implies #[trigger] endpoint.without_routes(cids).routes.contains_key(other) by {
        lemma_without_routes(endpoint, cids, other);
    }
}

proof fn lemma_with_routes(
    endpoint: EndpointView,
    cids: Seq<Seq<u8>>,
    key: u64,
    known: Seq<Seq<u8>>,
)
    requires
        routes_owned(endpoint.routes, key, known),
    ensures
        routes_owned(endpoint.with_routes(cids, key).routes, key, known + cids),
    decreases cids.len(),
{
    if cids.len() == 0 {
        assert(known + cids =~= known);
    } else {
        let fewer = cids.drop_last();
        lemma_with_routes(endpoint, fewer, key, known);
        let before = endpoint.with_routes(fewer, key).routes;
        let after = endpoint.with_routes(cids, key).routes;
        assert(after == before.insert(cids.last(), key));
        assert forall|cid: Seq<u8>| #[trigger] after.contains_key(cid) && after[cid]
            == key implies (known + cids).contains(cid) by {
            if cid == cids.last() {
                assert((known + cids)[known.len() + cids.len() - 1] == cid);
            } else {
                assert(before.contains_key(cid));
                assert((known + fewer).contains(cid));
                let at = choose|at: int|
                    0 <= at < (known + fewer).len() && (known + fewer)[at] == cid;
                assert((known + cids)[at] == cid);
            }
        }
    }
}

/// A session's routes stay among its connection IDs when its connection is
/// made, and whatever other sessions register or unregister.
pub proof fn law_routes_stay_owned(
    endpoint: EndpointView,
    session: SessionView,
    key: u64,
    cids: Seq<Seq<u8>>,
    cid: Seq<u8>,
    other: u64,
)
    requires
        routes_owned(endpoint.routes, key, session.registered_cids),
        other != key,
    ensures
        routes_owned(
            endpoint.with_routes(cids, key).routes,
            key,
            session.with_connection(cids).registered_cids,
        ),
        routes_owned(endpoint.with_route(cid, other).routes, key, session.registered_cids),
        routes_owned(endpoint.without_route(cid).routes, key, session.registered_cids),
{
    lemma_with_routes(endpoint, cids, key, session.registered_cids);
    assert forall|known: Seq<u8>| #[trigger]
        endpoint.with_route(cid, other).routes.contains_key(known) && endpoint.with_route(
            cid,
            other,
        ).routes[known] == key implies session.registered_cids.contains(known) by {
        assert(endpoint.routes.contains_key(known));
    }
    assert forall|known: Seq<u8>| #[trigger]
        endpoint.without_route(cid).routes.contains_key(known) && endpoint.without_route(
            cid,
        ).routes[known] == key implies session.registered_cids.contains(known) by {
        assert(endpoint.routes.contains_key(known));
    }
}

/// While an endpoint listens and has options, every packet with a destination
/// of one to twenty bytes that no session is registered under is accepted,
/// whatever else is true of the endpoint: how many sessions it has, what it
/// counted, whether it is busy. Nothing else is accepted.
pub proof fn law_listener_accepts_every_newcomer(endpoint: EndpointView, cid: Seq<u8>)
    ensures
        endpoint.route(cid) == Route::Accept <==> {
            &&& 1 <= cid.len() <= 20
            &&& !endpoint.routes.contains_key(cid)
            &&& endpoint.state.listening != 0
            &&& endpoint.listen_options
        },
{
}

/// A packet is delivered exactly where its destination is registered, and to
/// the session that it is registered for, whether or not the endpoint listens.
pub proof fn law_registered_destination_is_delivered(
    endpoint: EndpointView,
    cid: Seq<u8>,
    session: u64,
)
    ensures
        endpoint.route(cid) == Route::Deliver(session) <==> {
            &&& 1 <= cid.len() <= 20
            &&& endpoint.routes.contains_key(cid)
            &&& endpoint.routes[cid] == session
        },
        endpoint.route(cid) == Route::Drop ==> cid.len() == 0 || cid.len() > 20 || (
        !endpoint.routes.contains_key(cid) && (endpoint.state.listening == 0
            || !endpoint.listen_options)),
{
}

/// Where a packet goes depends on the routes and on listening alone: what an
/// endpoint counts, and what else its state says, does not matter.
pub proof fn law_routing_ignores_the_rest(
    endpoint: EndpointView,
    other: EndpointView,
    cid: Seq<u8>,
)
    requires
        endpoint.routes == other.routes,
        endpoint.state.listening == other.state.listening,
        endpoint.listen_options == other.listen_options,
    ensures
        endpoint.route(cid) == other.route(cid),
{
}

/// A new endpoint is neither bound nor listening, knows no session, and keeps
/// nothing alive.
pub proof fn law_new_endpoint_is_idle(host: Seq<u8>, port: u16, now: u64)
    ensures
        ({
            let endpoint = EndpointView::created(host, port, now);
            &&& endpoint.host == host && endpoint.port == port
            &&& !endpoint.closed && !endpoint.socket && !endpoint.referenced
            &&& !endpoint.listen_options
            &&& forall|cid: Seq<u8>| !#[trigger] endpoint.routes.contains_key(cid)
            &&& endpoint.state == (EndpointState {
                bound: 0,
                receiving: 0,
                listening: 0,
                closing: 0,
                busy: 0,
                max_connections_per_host: 0,
                max_connections_total: 0,
                pending_callbacks: 0,
            })
            &&& endpoint.stats.len() == 19
            &&& forall|slot: int|
                0 <= slot < 19 ==> #[trigger] endpoint.stats[slot] == if slot == 0 {
                    now
                } else {
                    0
                }
        }),
        loopback_host() == seq![49u8, 50u8, 55u8, 46u8, 48u8, 46u8, 48u8, 46u8, 49u8, 0u8],
{
}

/// Registering, unregistering and binding change what they are about, and
/// whether the event loop is kept alive; nothing else. An open endpoint keeps
/// it alive exactly while it listens or routes to a session; one that is closed
/// or has no socket leaves it as it was.
pub proof fn law_endpoint_changes_are_local(
    endpoint: EndpointView,
    cid: Seq<u8>,
    session: u64,
    slot: int,
    value: u64,
)
    requires
        0 <= slot < endpoint.stats.len(),
    ensures
        endpoint.with_route(cid, session).routes == endpoint.routes.insert(cid, session),
        endpoint.with_route(cid, session) == (EndpointView {
            routes: endpoint.with_route(cid, session).routes,
            referenced: endpoint.with_route(cid, session).referenced,
            ..endpoint
        }),
        endpoint.without_route(cid).routes == endpoint.routes.remove(cid),
        endpoint.without_route(cid) == (EndpointView {
            routes: endpoint.without_route(cid).routes,
            referenced: endpoint.without_route(cid).referenced,
            ..endpoint
        }),
        endpoint.with_keepalive() == (EndpointView {
            referenced: endpoint.with_keepalive().referenced,
            ..endpoint
        }),
        endpoint.closed || !endpoint.socket ==> endpoint.with_keepalive() == endpoint,
        !endpoint.closed && endpoint.socket ==> endpoint.with_keepalive().referenced == (
        endpoint.state.listening != 0 || exists|known: Seq<u8>| #[trigger]
            endpoint.routes.contains_key(known)),
        endpoint.with_socket() == (EndpointView {
            socket: true,
            state: EndpointState { bound: 1, receiving: 1, ..endpoint.state },
            ..endpoint
        }),
        endpoint.with_stat(slot, value) == (EndpointView {
            stats: endpoint.with_stat(slot, value).stats,
            ..endpoint
        }),
        endpoint.with_stat(slot, value).stats[slot] == value,
        endpoint.with_stat(slot, value).stats.len() == endpoint.stats.len(),
        forall|other: int|
            0 <= other < endpoint.stats.len() && other != slot ==> #[trigger] endpoint.with_stat(
                slot,
                value,
            ).stats[other] == endpoint.stats[other],
        endpoint.with_added(slot, value) == endpoint.with_stat(
            slot,
            endpoint.with_added(slot, value).stats[slot],
        ),
        endpoint.with_added(slot, value).stats[slot] == (endpoint.stats[slot] + value)
            % 0x1_0000_0000_0000_0000,
{
    if endpoint.routes != Map::<Seq<u8>, u64>::empty() {
        if forall|known: Seq<u8>| !#[trigger] endpoint.routes.contains_key(known) {
            assert(endpoint.routes =~= Map::<Seq<u8>, u64>::empty());
        }
    }
    assert(forall|known: Seq<u8>| !#[trigger] Map::<Seq<u8>, u64>::empty().contains_key(known));
}

/// A closed endpoint has no socket, no route and no options, does not listen,
/// and keeps nothing alive; what it counted stays.
pub proof fn law_closed_endpoint_lets_everything_go(endpoint: EndpointView, now: u64)
    requires
        endpoint.stats.len() == 19,
    ensures
        ({
            let after = endpoint.with_closed(now);
            &&& !after.socket && !after.referenced && !after.listen_options
            &&& forall|cid: Seq<u8>| !#[trigger] after.routes.contains_key(cid)
            &&& after.state == (EndpointState {
                closing: 1,
                bound: 0,
                receiving: 0,
                listening: 0,
                ..endpoint.state
            })
            &&& after.stats[1] == now
            &&& forall|slot: int|
                0 <= slot < 19 && slot != 1 ==> #[trigger] after.stats[slot]
                    == endpoint.stats[slot]
            &&& after.closed == endpoint.closed && after.host == endpoint.host && after.port
                == endpoint.port
        }),
{
}

/// Registering several connection IDs leads each of them to the session and no
/// other ID anywhere else; unregistering them leads none of them anywhere.
pub proof fn law_every_listed_id_is_routed(
    endpoint: EndpointView,
    cids: Seq<Seq<u8>>,
    session: u64,
    cid: Seq<u8>,
)
    ensures
        ({
            let with = endpoint.with_routes(cids, session);
            let without = endpoint.without_routes(cids);
            &&& cids.contains(cid) ==> with.routes.contains_key(cid) && with.routes[cid] == session
            &&& !cids.contains(cid) ==> with.routes.contains_key(cid)
                == endpoint.routes.contains_key(cid) && (endpoint.routes.contains_key(cid)
                ==> with.routes[cid] == endpoint.routes[cid])
            &&& cids.contains(cid) ==> !without.routes.contains_key(cid)
            &&& !cids.contains(cid) ==> without.routes.contains_key(cid)
                == endpoint.routes.contains_key(cid) && (endpoint.routes.contains_key(cid)
                ==> without.routes[cid] == endpoint.routes[cid])
            &&& with == (EndpointView {
                routes: with.routes,
                referenced: with.referenced,
                ..endpoint
            })
            &&& without == (EndpointView {
                routes: without.routes,
                referenced: without.referenced,
                ..endpoint
            })
        }),
    decreases cids.len(),
{
    lemma_without_routes(endpoint, cids, cid);
    if cids.len() > 0 {
        let fewer = cids.drop_last();
        law_every_listed_id_is_routed(endpoint, fewer, session, cid);
        if cids.contains(cid) && cid != cids.last() {
            let i = choose|i: int| 0 <= i < cids.len() && cids[i] == cid;
            assert(fewer[i] == cid);
        }
        if fewer.contains(cid) {
            let i = choose|i: int| 0 <= i < fewer.len() && fewer[i] == cid;
            assert(cids[i] == cid);
        }
        if cid == cids.last() {
            assert(cids[cids.len() - 1] == cid);
        }
    }
}

/// An endpoint stands for what its fields hold.
pub proof fn law_endpoint_is_seen_as_it_is(endpoint: QuicEndpoint)
    ensures
        endpoint@.state == endpoint.state,
        endpoint@.closed == endpoint.closed,
        endpoint@.socket == endpoint.socket,
        endpoint@.referenced == endpoint.referenced,
        endpoint@.listen_options == endpoint.listen_options,
        endpoint@.stats == endpoint.stats@,
        endpoint@.host == endpoint.bind_config.host@,
        endpoint@.port == endpoint.bind_config.port,
        endpoint@.routes == endpoint.sessions@,
{
}

/// The numbers that the script and the transport know the endpoint's constants
/// by.
pub proof fn law_endpoint_constants_have_their_numbers()
    ensures
        LOCAL_CID_LEN == 16,
        CLOSECONTEXT_CLOSE == 0 && CLOSECONTEXT_BIND_FAILURE == 1,
        CLOSECONTEXT_START_FAILURE == 2 && CLOSECONTEXT_RECEIVE_FAILURE == 3,
        CLOSECONTEXT_SEND_FAILURE == 4 && CLOSECONTEXT_LISTEN_FAILURE == 5,
        IDX_STATS_BYTES_RECEIVED == 2 && IDX_STATS_BYTES_SENT == 3,
        IDX_STATS_PACKETS_RECEIVED == 4 && IDX_STATS_PACKETS_SENT == 5,
        IDX_STATS_SERVER_SESSIONS == 6 && IDX_STATS_CLIENT_SESSIONS == 7,
{
}

} // verus!
