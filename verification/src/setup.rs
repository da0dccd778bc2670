//! How a session comes to be: as a client, or for a first packet that a server
//! accepts.

use vstd::prelude::*;
use vstd::slice::slice_to_vec;

use crate::address::StoredAddr;
use crate::bytes::smaller;
use crate::lifecycle::{all_torn_down, Teardown};
use crate::ngtcp2::{
    ngtcp2_cid, ngtcp2_pkt_hd, ngtcp2_settings, ngtcp2_transport_params, NGTCP2_MAX_CIDLEN, NGTCP2_PROTO_VER_V1,
};
use crate::session::{cid_views, QuicSession, SessionView};
use crate::settings::{
    build_settings, client_version, datagram_drop_policy, drop_newest_name, exposed_params, transport_params_to_js,
    validate_transport_params, SessionOptions, TRANSPORT_FIELDS,
};
use crate::tls::TlsConfig;
use crate::value::JsValue;

verus! {

/// Length of the destination that a client makes up for its first packets.
pub const CLIENT_DCID_LEN: usize = 18;

/// The transport callbacks that are installed.
#[derive(Copy, Clone, Debug, PartialEq, Eq, Structural)]
pub struct Callbacks {
    pub client_initial: bool,
    pub recv_client_initial: bool,
    pub recv_crypto_data: bool,
    pub encrypt: bool,
    pub decrypt: bool,
    pub hp_mask: bool,
    pub recv_retry: bool,
    pub update_key: bool,
    pub delete_crypto_aead_ctx: bool,
    pub delete_crypto_cipher_ctx: bool,
    pub get_path_challenge_data: bool,
    pub version_negotiation: bool,
    pub rand: bool,
    pub get_new_connection_id: bool,
    pub remove_connection_id: bool,
    pub stream_open: bool,
    pub recv_stream_data: bool,
    pub stream_close: bool,
    pub stream_reset: bool,
    pub extend_max_stream_data: bool,
    pub acked_stream_data_offset: bool,
    pub recv_datagram: bool,
    pub ack_datagram: bool,
    pub lost_datagram: bool,
    pub recv_new_token: bool,
}

impl Callbacks {
    /// All of them, but for those of the other side.
    pub open spec fn of(is_server: bool) -> Callbacks {
        Callbacks {
            client_initial: !is_server,
            recv_client_initial: is_server,
            recv_crypto_data: true,
            encrypt: true,
            decrypt: true,
            hp_mask: true,
            recv_retry: !is_server,
            update_key: true,
            delete_crypto_aead_ctx: true,
            delete_crypto_cipher_ctx: true,
            get_path_challenge_data: true,
            version_negotiation: true,
            rand: true,
            get_new_connection_id: true,
            remove_connection_id: true,
            stream_open: true,
            recv_stream_data: true,
            stream_close: true,
            stream_reset: true,
            extend_max_stream_data: true,
            acked_stream_data_offset: true,
            recv_datagram: true,
            ack_datagram: true,
            lost_datagram: true,
            recv_new_token: !is_server,
        }
    }
}

/// The transport callbacks of one side.
pub fn build_callbacks(is_server: bool) -> (callbacks: Callbacks)
    ensures
        callbacks == Callbacks::of(is_server),
{
    Callbacks {
        client_initial: !is_server,
        recv_client_initial: is_server,
        recv_crypto_data: true,
        encrypt: true,
        decrypt: true,
        hp_mask: true,
        recv_retry: !is_server,
        update_key: true,
        delete_crypto_aead_ctx: true,
        delete_crypto_cipher_ctx: true,
        get_path_challenge_data: true,
        version_negotiation: true,
        rand: true,
        get_new_connection_id: true,
        remove_connection_id: true,
        stream_open: true,
        recv_stream_data: true,
        stream_close: true,
        stream_reset: true,
        extend_max_stream_data: true,
        acked_stream_data_offset: true,
        recv_datagram: true,
        ack_datagram: true,
        lost_datagram: true,
        recv_new_token: !is_server,
    }
}

/// What a client's connection is made from.
pub struct ClientConnection {
    pub settings: ngtcp2_settings,
    pub params: ngtcp2_transport_params,
    pub callbacks: Callbacks,
    pub version: u32,
}

/// What a server's connection is made from.
pub struct ServerConnection {
    pub settings: ngtcp2_settings,
    pub params: ngtcp2_transport_params,
    pub callbacks: Callbacks,
    pub version: u32,
    /// The peer's connection ID.
    pub peer_scid: ngtcp2_cid,
}

impl SessionView {
    /// The datagram options applied: a policy that is not named stays.
    pub open spec fn with_datagram_options(self, options: SessionOptions) -> SessionView {
        SessionView {
            datagram_drop_newest: match options.datagram_drop_policy {
                JsValue::Text(name) => name@ == drop_newest_name(),
                _ => self.datagram_drop_newest,
            },
            ..self
        }
    }

    /// A connection made, reachable under these connection IDs.
    pub open spec fn with_connection(self, cids: Seq<Seq<u8>>) -> SessionView {
        SessionView {
            conn: true,
            tls: true,
            registered_cids: self.registered_cids + cids,
            ..self
        }
    }
}

/// The length of a connection ID that the transport asks for.
pub fn connection_id_len(asked: usize) -> (len: usize)
    ensures
        len == if asked <= NGTCP2_MAX_CIDLEN {
            asked
        } else {
            NGTCP2_MAX_CIDLEN
        },
{
    smaller(asked, NGTCP2_MAX_CIDLEN)
}

impl QuicSession {
    /// Begin a client session. Names a transport parameter that is not
    /// acceptable; otherwise the TLS session is to be set up from the
    /// configuration.
    pub fn new_client(
        local_addr: StoredAddr,
        remote_addr: StoredAddr,
        options: &SessionOptions,
        now: u64,
    ) -> (begun: Result<(QuicSession, TlsConfig), &'static str>)
        ensures
            match begun {
                Ok((session, config)) => {
                    &&& options.checked(Ok(()))
                    &&& session@ == SessionView::created(
                        local_addr,
                        remote_addr,
                        now,
                    ).with_datagram_options(*options)
                    &&& session@.well_formed()
                    &&& config.stands_for(options.tls, false)
                },
                Err(name) => options.checked(Err(name@)),
            },
    {
        if let Err(name) = validate_transport_params(options) {
            return Err(name);
        }
        let mut session = QuicSession::create_shell(local_addr, remote_addr, now);
        let config = TlsConfig::from_js(&options.tls, false);
        session.apply_datagram_options(options);
        Ok((session, config))
    }

    /// Begin a server session for an accepted first packet.
    pub fn new_server(
        local_addr: StoredAddr,
        remote_addr: StoredAddr,
        options: &SessionOptions,
        now: u64,
    ) -> (begun: (QuicSession, TlsConfig))
        ensures
            begun.0@ == (SessionView {
                is_server: true,
                ..SessionView::created(local_addr, remote_addr, now)
            }).with_datagram_options(*options),
            begun.0@.well_formed(),
            begun.1.stands_for(options.tls, true),
    {
        let mut session = QuicSession::create_shell(local_addr, remote_addr, now);
        session.is_server = true;
        assert(session@ =~= SessionView {
            is_server: true,
            ..SessionView::created(local_addr, remote_addr, now)
        });
        let config = TlsConfig::from_js(&options.tls, true);
        session.apply_datagram_options(options);
        (session, config)
    }

    /// Pick up the datagram options.
    fn apply_datagram_options(&mut self, options: &SessionOptions)
        requires
            old(self)@.well_formed(),
        ensures
            final(self)@ == old(self)@.with_datagram_options(*options),
            final(self)@.well_formed(),
    {
        if let Some(drop_newest) = datagram_drop_policy(options) {
            self.datagram_drop_newest = drop_newest;
        }
        assert(self@ =~= old(self)@.with_datagram_options(*options));
    }

    /// The transport made the connection with result `rv`; `created` tells
    /// whether there is one. The session is reachable under `cids`, which the
    /// endpoint is to route. A failure tears the session down.
    pub fn attach_connection(&mut self, rv: i32, created: bool, cids: Vec<Vec<u8>>, now: u64) -> (outcome:
        Result<(), Teardown>)
        requires
            old(self)@.well_formed(),
            !old(self)@.destroyed,
        ensures
            match outcome {
                Ok(()) => {
                    &&& rv == 0 && created
                    &&& final(self)@ == old(self)@.with_connection(cid_views(cids@))
                },
                Err(released) => {
                    &&& rv != 0 || !created
                    &&& final(self)@ == old(self)@.torn_down(now)
                    &&& released.cancel_timer == old(self)@.timer_active
                    &&& released.delete_conn == old(self)@.conn
                    &&& all_torn_down(released.streams@, old(self)@.streams, now)
                    &&& cid_views(released.cids@) == old(self)@.registered_cids
                },
            },
            final(self)@.well_formed(),
    {
        if rv != 0 || !created {
            match self.teardown(now) {
                Some(released) => {
                    return Err(released);
                },
                None => {
                    assert(false);
                },
            }
        }
        let mut cids = cids;
        let ghost added = cid_views(cids@);
        self.registered_cids.append(&mut cids);
        self.conn = true;
        self.tls = true;
        assert(cid_views(self.registered_cids@) =~= old(self)@.registered_cids + added);
        assert(self@ =~= old(self)@.with_connection(added));
        Ok(())
    }

    /// Transport parameters for the script, where there is a connection and it
    /// has them.
    pub fn shown_transport_params(&self, params: &Option<ngtcp2_transport_params>) -> (pairs: Option<
        Vec<(&'static str, u64)>,
    >)
        ensures
            match pairs {
                Some(pairs) => {
                    &&& self@.conn && params is Some
                    &&& pairs@.len() == TRANSPORT_FIELDS
                    &&& forall|i: int|
                        0 <= i < TRANSPORT_FIELDS ==> (#[trigger] pairs@[i]).0@ == exposed_params(
                            params->0,
                        )[i].0 && pairs@[i].1 == exposed_params(params->0)[i].1
                },
                None => !self@.conn || params is None,
            },
    {
        if !self.conn {
            return None;
        }
        match params {
            Some(params) => Some(transport_params_to_js(params)),
            None => None,
        }
    }
}

/// The connection IDs that lead to a client session: packets from the server
/// carry the client's own.
pub fn client_cids(scid: &ngtcp2_cid) -> (cids: Vec<Vec<u8>>)
    ensures
        cid_views(cids@) == seq![scid.content()],
{
    let mut cids: Vec<Vec<u8>> = Vec::new();
    cids.push(slice_to_vec(scid.bytes()));
    assert(cid_views(cids@) =~= seq![scid.content()]);
    cids
}

/// The connection IDs that lead to a server session: the one that the client
/// made up, used until it learns the server's own, and the server's own.
pub fn server_cids(header: &ngtcp2_pkt_hd, scid: &ngtcp2_cid) -> (cids: Vec<Vec<u8>>)
    ensures
        cid_views(cids@) == seq![header.dcid.content(), scid.content()],
{
    let mut cids: Vec<Vec<u8>> = Vec::new();
    cids.push(slice_to_vec(header.dcid.bytes()));
    cids.push(slice_to_vec(scid.bytes()));
    assert(cid_views(cids@) =~= seq![header.dcid.content(), scid.content()]);
    cids
}

/// What a client's connection is made from, given the transport's defaults.
pub fn client_connection(
    options: &SessionOptions,
    default_settings: ngtcp2_settings,
    default_params: ngtcp2_transport_params,
    now: u64,
) -> (connection: ClientConnection)
    requires
        options.durations_fit(),
    ensures
        connection.settings == options.applied_settings(default_settings, now),
        connection.params == options.applied_params(default_params),
        connection.callbacks == Callbacks::of(false),
        connection.version == match options.version.unsigned() {
            Some(version) => version as u32,
            None => NGTCP2_PROTO_VER_V1,
        },
{
    let (settings, params) = build_settings(options, default_settings, default_params, now);
    ClientConnection {
        settings,
        params,
        callbacks: build_callbacks(false),
        version: client_version(options),
    }
}

/// What a server's connection is made from, given the transport's defaults and
/// the header of the first packet. The destination that the client made up is
/// told back to it.
pub fn server_connection(
    options: &SessionOptions,
    default_settings: ngtcp2_settings,
    default_params: ngtcp2_transport_params,
    header: &ngtcp2_pkt_hd,
    now: u64,
) -> (connection: ServerConnection)
    requires
        options.durations_fit(),
    ensures
        connection.settings == (ngtcp2_settings {
            token: connection.settings.token,
            ..options.applied_settings(default_settings, now)
        }),
        connection.settings.token@.len() == 0,
        connection.params == (ngtcp2_transport_params {
            original_dcid: connection.params.original_dcid,
            original_dcid_present: 1,
            ..options.applied_params(default_params)
        }),
        connection.params.original_dcid.holds(header.dcid.content()),
        connection.peer_scid.holds(header.scid.content()),
        connection.callbacks == Callbacks::of(true),
        connection.version == header.version,
{
    let (mut settings, mut params) = build_settings(
        options,
        default_settings,
        default_params,
        now,
    );
    settings.token = Vec::new();
    params.original_dcid = ngtcp2_cid::from_bytes(header.dcid.bytes());
    params.original_dcid_present = 1;
    ServerConnection {
        settings,
        params,
        callbacks: build_callbacks(true),
        version: header.version,
        peer_scid: ngtcp2_cid::from_bytes(header.scid.bytes()),
    }
}

/// Each side has every callback but those of the other side.
pub proof fn law_sides_differ_in_four_callbacks()
    ensures
        ({
            let client = Callbacks::of(false);
            let server = Callbacks::of(true);
            &&& client.client_initial && client.recv_retry && client.recv_new_token
            &&& !client.recv_client_initial && server.recv_client_initial
            &&& !server.client_initial && !server.recv_retry && !server.recv_new_token
            &&& server == (Callbacks {
                client_initial: false,
                recv_retry: false,
                recv_new_token: false,
                recv_client_initial: true,
                ..client
            })
            &&& client.recv_crypto_data && client.encrypt && client.decrypt && client.hp_mask
            &&& client.update_key && client.delete_crypto_aead_ctx
            &&& client.delete_crypto_cipher_ctx && client.get_path_challenge_data
            &&& client.version_negotiation && client.rand && client.get_new_connection_id
            &&& client.remove_connection_id && client.stream_open && client.recv_stream_data
            &&& client.stream_close && client.stream_reset && client.extend_max_stream_data
            &&& client.acked_stream_data_offset && client.recv_datagram && client.ack_datagram
            &&& client.lost_datagram
        }),
{
}

/// The drop policy is the one named, the newest only under its own name, and
/// stays where none is; a connection makes the session live, under the
/// connection IDs it had and the new ones. Nothing else changes.
pub proof fn law_session_takes_its_options_and_connection(
    session: SessionView,
    options: SessionOptions,
    cids: Seq<Seq<u8>>,
)
    ensures
        session.with_datagram_options(options) == (SessionView {
            datagram_drop_newest: session.with_datagram_options(options).datagram_drop_newest,
            ..session
        }),
        match options.datagram_drop_policy {
            JsValue::Text(name) => session.with_datagram_options(options).datagram_drop_newest <==>
                name@ == seq![
                100u8, 114u8, 111u8, 112u8, 45u8, 110u8, 101u8, 119u8, 101u8, 115u8, 116u8,
            ],
            _ => session.with_datagram_options(options) == session,
        },
        session.with_connection(cids) == (SessionView {
            conn: true,
            tls: true,
            registered_cids: session.registered_cids + cids,
            ..session
        }),
        !session.destroyed ==> session.with_connection(cids).live(),
{
}

/// The connection IDs that are made up have their lengths.
pub proof fn law_made_up_ids_have_their_lengths()
    ensures
        CLIENT_DCID_LEN == 18,
        NGTCP2_MAX_CIDLEN == 20,
        NGTCP2_PROTO_VER_V1 == 1,
{
}

} // verus!
