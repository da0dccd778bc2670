//! TLS: the configuration taken from the options, the plan by which a TLS
//! session is set up from it, and the choice of an application protocol.

use vstd::prelude::*;
use vstd::slice::{slice_subrange, slice_to_vec};
use vstd::utf8::encode_utf8;

use crate::bytes::{bytes_equal, latin1_bytes, law_latin1_text_reads_back, utf8_to_latin1};
use crate::value::{value_to_bytes, JsValue};

verus! {

/// The processed `tls` options; a property that is not there is undefined.
pub struct TlsOptions {
    pub alpn: JsValue,
    pub servername: JsValue,
    pub certs: JsValue,
    pub keys: JsValue,
    pub ca: JsValue,
    pub verify_peer_strict: Option<bool>,
    pub verify_hostname: Option<bool>,
    pub verify_client: Option<bool>,
}

/// TLS configuration of a session.
pub struct TlsConfig {
    pub is_server: bool,
    /// Application protocols in wire format (`[len][name]...`); empty where
    /// none are given.
    pub alpn: Vec<u8>,
    /// Server name, closed by a zero byte.
    pub servername: Option<Vec<u8>>,
    /// Certificate chains; each may hold several certificates.
    pub certs_pem: Vec<Vec<u8>>,
    /// Private keys; only the first is used.
    pub keys_pem: Vec<Vec<u8>>,
    /// Additional trusted certificates.
    pub ca_pem: Vec<Vec<u8>>,
    /// Fail the handshake on certificate errors.
    pub verify_peer_strict: bool,
    /// Hold the peer's certificate against the server name.
    pub verify_hostname: bool,
    /// Server: ask for a client certificate and verify it.
    pub verify_client: bool,
}

pub open spec fn pem_views(list: Seq<Vec<u8>>) -> Seq<Seq<u8>> {
    list.map_values(|pem: Vec<u8>| pem@)
}

/// The bytes of the values that have any, in order.
pub open spec fn convertible(items: Seq<JsValue>) -> Seq<Seq<u8>>
    decreases items.len(),
{
    if items.len() == 0 {
        Seq::empty()
    } else {
        let rest = convertible(items.drop_last());
        match items.last().raw_bytes() {
            Some(bytes) => rest.push(bytes),
            None => rest,
        }
    }
}

/// An option that is a single value or a list of values.
pub open spec fn pem_list(value: JsValue) -> Seq<Seq<u8>> {
    match value {
        JsValue::Array(items) => convertible(items@),
        _ => match value.raw_bytes() {
            Some(bytes) => seq![bytes],
            None => Seq::empty(),
        },
    }
}

/// Collect an option that may be a single value or a list of values. What is
/// not bytes is passed over.
pub fn collect_pem_list(value: &JsValue) -> (list: Vec<Vec<u8>>)
    ensures
        pem_views(list@) == pem_list(*value),
{
    let mut list: Vec<Vec<u8>> = Vec::new();
    assert(pem_views(list@) =~= Seq::empty());
    match value {
        JsValue::Array(items) => {
            let mut at: usize = 0;
            assert(items@.take(0) =~= Seq::empty());
            while at < items.len()
                invariant
                    at <= items@.len(),
                    pem_views(list@) == convertible(items@.take(at as int)),
                decreases items@.len() - at,
            {
                assert(items@.take(at + 1).drop_last() =~= items@.take(at as int));
                let ghost before = pem_views(list@);
                if let Some(bytes) = value_to_bytes(&items[at]) {
                    list.push(bytes);
                    assert(pem_views(list@) =~= before.push(bytes@));
                }
                at = at + 1;
            }
            assert(items@.take(at as int) =~= items@);
        },
        _ => {
            if let Some(bytes) = value_to_bytes(value) {
                list.push(bytes);
                assert(pem_views(list@) =~= seq![bytes@]);
            }
        },
    }
    list
}

/// `localhost` and a zero byte.
pub open spec fn localhost_name() -> Seq<u8> {
    seq![0x6cu8, 0x6fu8, 0x63u8, 0x61u8, 0x6cu8, 0x68u8, 0x6fu8, 0x73u8, 0x74u8, 0u8]
}

impl TlsOptions {
    /// The server name: one that is not given, or that holds a zero byte
    /// itself, is `localhost`.
    pub open spec fn server_name(self) -> Seq<u8> {
        match self.servername {
            JsValue::Text(name) => if name@.contains(0) {
                localhost_name()
            } else {
                name@.push(0)
            },
            _ => localhost_name(),
        }
    }

    /// The protocol list: its text is Latin-1, so that every byte of the wire
    /// format is one code point.
    pub open spec fn alpn_wire(self) -> Seq<u8> {
        match self.alpn {
            JsValue::Text(wire) => latin1_bytes(wire@),
            _ => Seq::empty(),
        }
    }
}

fn holds_zero(bytes: &[u8]) -> (found: bool)
    ensures
        found == bytes@.contains(0),
{
    let mut at: usize = 0;
    while at < bytes.len()
        invariant
            at <= bytes@.len(),
            forall|i: int| 0 <= i < at ==> bytes@[i] != 0,
        decreases bytes@.len() - at,
    {
        if bytes[at] == 0 {
            return true;
        }
        at = at + 1;
    }
    false
}

fn localhost() -> (name: Vec<u8>)
    ensures
        name@ == localhost_name(),
{
    let name = [0x6cu8, 0x6fu8, 0x63u8, 0x61u8, 0x6cu8, 0x68u8, 0x6fu8, 0x73u8, 0x74u8, 0u8];
    assert(name@ =~= localhost_name());
    slice_to_vec(name.as_slice())
}

impl TlsConfig {
    /// The configuration is that of the `tls` options.
    pub open spec fn stands_for(self, tls: Option<TlsOptions>, is_server: bool) -> bool {
        &&& self.is_server == is_server
        &&& match tls {
            Some(tls) => {
                &&& self.alpn@ == tls.alpn_wire()
                &&& self.servername matches Some(name) && name@ == tls.server_name()
                &&& pem_views(self.certs_pem@) == pem_list(tls.certs)
                &&& pem_views(self.keys_pem@) == pem_list(tls.keys)
                &&& pem_views(self.ca_pem@) == pem_list(tls.ca)
                &&& self.verify_peer_strict == (tls.verify_peer_strict == Some(true))
                &&& self.verify_hostname == (tls.verify_hostname == Some(true))
                &&& self.verify_client == (tls.verify_client == Some(true))
            },
            None => {
                &&& self.alpn@.len() == 0
                &&& self.servername is None
                &&& self.certs_pem@.len() == 0
                &&& self.keys_pem@.len() == 0
                &&& self.ca_pem@.len() == 0
                &&& !self.verify_peer_strict && !self.verify_hostname && !self.verify_client
            },
        }
    }

    /// The configuration that the `tls` options stand for; `None` where the
    /// property is not an object.
    pub fn from_js(tls: &Option<TlsOptions>, is_server: bool) -> (config: TlsConfig)
        ensures
            config.stands_for(*tls, is_server),
    {
        let tls = match tls {
            Some(tls) => tls,
            None => {
                return TlsConfig {
                    is_server,
                    alpn: Vec::new(),
                    servername: None,
                    certs_pem: Vec::new(),
                    keys_pem: Vec::new(),
                    ca_pem: Vec::new(),
                    verify_peer_strict: false,
                    verify_hostname: false,
                    verify_client: false,
                };
            },
        };
        // Already encoded to wire format, as Latin-1 text.
        let alpn = match &tls.alpn {
            JsValue::Text(wire) => utf8_to_latin1(wire.as_slice()),
            _ => Vec::new(),
        };
        assert(alpn@ =~= tls.alpn_wire());
        let servername = match &tls.servername {
            JsValue::Text(name) => {
                if holds_zero(name.as_slice()) {
                    localhost()
                } else {
                    let mut name = slice_to_vec(name.as_slice());
                    name.push(0);
                    name
                }
            },
            _ => localhost(),
        };
        TlsConfig {
            is_server,
            alpn,
            servername: Some(servername),
            certs_pem: collect_pem_list(&tls.certs),
            keys_pem: collect_pem_list(&tls.keys),
            ca_pem: collect_pem_list(&tls.ca),
            verify_peer_strict: is_set(&tls.verify_peer_strict),
            verify_hostname: is_set(&tls.verify_hostname),
            verify_client: is_set(&tls.verify_client),
        }
    }
}

fn is_set(flag: &Option<bool>) -> (set: bool)
    ensures
        set == (*flag == Some(true)),
{
    match flag {
        Some(set) => *set,
        None => false,
    }
}

/// The names of a protocol list in wire format, as far as it is well-formed.
pub open spec fn protocol_names(wire: Seq<u8>) -> Seq<Seq<u8>>
    decreases wire.len(),
{
    if wire.len() == 0 || wire[0] == 0 || wire.len() - 1 < wire[0] {
        Seq::empty()
    } else {
        seq![wire.subrange(1, 1 + wire[0])] + protocol_names(wire.skip(1 + wire[0]))
    }
}

/// The first of the server's names that the client has too.
pub open spec fn first_common(server: Seq<Seq<u8>>, client: Seq<Seq<u8>>) -> Option<Seq<u8>>
    decreases server.len(),
{
    if server.len() == 0 {
        None
    } else if client.contains(server[0]) {
        Some(server[0])
    } else {
        first_common(server.skip(1), client)
    }
}

/// Where a name first stands in a protocol list.
pub open spec fn name_start(wire: Seq<u8>, name: Seq<u8>) -> Option<int>
    decreases wire.len(),
{
    if wire.len() == 0 || wire[0] == 0 || wire.len() - 1 < wire[0] {
        None
    } else if wire.subrange(1, 1 + wire[0]) == name {
        Some(1)
    } else {
        match name_start(wire.skip(1 + wire[0]), name) {
            Some(start) => Some(1 + wire[0] + start),
            None => None,
        }
    }
}

/// Find a name in a protocol list.
fn find_protocol(wire: &[u8], name: &[u8]) -> (start: Option<usize>)
    ensures
        match start {
            Some(start) => {
                &&& name_start(wire@, name@) == Some(start as int)
                &&& protocol_names(wire@).contains(name@)
                &&& start + name@.len() <= wire@.len()
                &&& wire@.subrange(start as int, start + name@.len()) == name@
            },
            None => !protocol_names(wire@).contains(name@),
        },
{
    let ghost all = protocol_names(wire@);
    let ghost mut seen: int = 0;
    let mut at: usize = 0;
    assert(wire@.skip(0) =~= wire@);
    assert(all.skip(0) =~= all);
    while at < wire.len()
        invariant
            at <= wire@.len(),
            0 <= seen <= all.len(),
            all == protocol_names(wire@),
            all.skip(seen) == protocol_names(wire@.skip(at as int)),
            forall|i: int| 0 <= i < seen ==> all[i] != name@,
            name_start(wire@, name@) == match name_start(wire@.skip(at as int), name@) {
                Some(start) => Some(at + start),
                None => None,
            },
        decreases wire@.len() - at,
    {
        let len: usize = wire[at] as usize;
        let ghost rest = wire@.skip(at as int);
        assert(rest[0] == wire@[at as int]);
        if len == 0 || wire.len() - at - 1 < len {
            assert(protocol_names(rest).len() == 0);
            assert(seen == all.len());
            return None;
        }
        let entry = slice_subrange(wire, at + 1, at + 1 + len);
        assert(entry@ =~= rest.subrange(1, 1 + rest[0]));
        assert(all.skip(seen)[0] == entry@);
        assert(all[seen] == entry@);
        if bytes_equal(entry, name) {
            return Some(at + 1);
        }
        at = at + 1 + len;
        proof {
            let tail = protocol_names(rest.skip(1 + rest[0]));
            assert(rest.skip(1 + rest[0]) =~= wire@.skip(at as int));
            assert(all.skip(seen) == seq![entry@] + tail);
            assert(all.skip(seen + 1) =~= all.skip(seen).skip(1));
            assert(all.skip(seen).skip(1) =~= tail);
            seen = seen + 1;
        }
    }
    assert(all.skip(seen).len() == 0);
    None
}

/// Choose an application protocol for a server: the first of its own that the
/// client offers too. Returns the place and the length of the name in the
/// client's list; none is an alert that fails the handshake.
pub fn alpn_select(server: &[u8], client: &[u8]) -> (selected: Option<(usize, u8)>)
    ensures
        match selected {
            Some((start, len)) => {
                let name = client@.subrange(start as int, start + len);
                &&& start + len <= client@.len()
                &&& first_common(protocol_names(server@), protocol_names(client@)) == Some(name)
                &&& name_start(client@, name) == Some(start as int)
            },
            None => first_common(protocol_names(server@), protocol_names(client@)) is None,
        },
{
    let ghost offered = protocol_names(client@);
    let ghost wanted = first_common(protocol_names(server@), offered);
    let mut at: usize = 0;
    assert(server@.skip(0) =~= server@);
    while at < server.len()
        invariant
            at <= server@.len(),
            offered == protocol_names(client@),
            wanted == first_common(protocol_names(server@), offered),
            wanted == first_common(protocol_names(server@.skip(at as int)), offered),
        decreases server@.len() - at,
    {
        let len: usize = server[at] as usize;
        let ghost rest = server@.skip(at as int);
        assert(rest[0] == server@[at as int]);
        if len == 0 || server.len() - at - 1 < len {
            assert(protocol_names(rest).len() == 0);
            return None;
        }
        let entry = slice_subrange(server, at + 1, at + 1 + len);
        let ghost tail = protocol_names(rest.skip(1 + rest[0]));
        assert(entry@ =~= rest.subrange(1, 1 + rest[0]));
        assert(protocol_names(rest) == seq![entry@] + tail);
        assert(protocol_names(rest)[0] == entry@);
        assert(protocol_names(rest).skip(1) =~= tail);
        if let Some(start) = find_protocol(client, entry) {
            return Some((start, server[at]));
        }
        at = at + 1 + len;
        assert(rest.skip(1 + rest[0]) =~= server@.skip(at as int));
    }
    assert(protocol_names(server@.skip(at as int)).len() == 0);
    None
}

/// One step of setting up a TLS session.
#[derive(Copy, Clone, Debug, PartialEq, Eq, Structural)]
pub enum TlsStep {
    AllocateContext,
    /// Pin TLS 1.3.
    PinVersion,
    ConfigureServer,
    ConfigureClient,
    /// Load the certificate chain at this place of the list.
    LoadCertChain(usize),
    /// Load the first private key.
    LoadPrivateKey,
    CheckPrivateKey,
    /// Install the choice of an application protocol.
    SelectAlpn,
    AllocateSession,
    /// Let the session find its connection.
    AttachConnection,
    AcceptState,
    /// Ask for a client certificate and fail without one.
    RequireClientCertificate,
    ConnectState,
    /// Offer the application protocols.
    OfferAlpn,
    /// Send the server name.
    SetHostName,
    /// Hold the certificate against the server name.
    SetVerifiedHost,
    /// Verify the peer; in strict mode a failure fails the handshake.
    VerifyPeer { strict: bool },
    /// Trust the additional certificates.
    SetCaStore,
}

/// A step that is part of the plan only under a condition.
pub open spec fn when(condition: bool, step: TlsStep) -> Seq<TlsStep> {
    if condition {
        seq![step]
    } else {
        Seq::empty()
    }
}

/// The context, and the identity that it presents: a server always has one, a
/// client only where certificates are given.
pub open spec fn context_steps(config: TlsConfig) -> Seq<TlsStep> {
    seq![
        TlsStep::AllocateContext,
        TlsStep::PinVersion,
        if config.is_server {
            TlsStep::ConfigureServer
        } else {
            TlsStep::ConfigureClient
        },
    ] + Seq::new(config.certs_pem@.len(), |i: int| TlsStep::LoadCertChain(i as usize)) + when(
        config.keys_pem@.len() > 0,
        TlsStep::LoadPrivateKey,
    ) + when(config.is_server && config.keys_pem@.len() > 0, TlsStep::CheckPrivateKey) + when(
        config.is_server && config.alpn@.len() > 0,
        TlsStep::SelectAlpn,
    )
}

/// The session of a server.
pub open spec fn accept_steps(config: TlsConfig) -> Seq<TlsStep> {
    seq![TlsStep::AllocateSession, TlsStep::AttachConnection, TlsStep::AcceptState] + when(
        config.verify_client,
        TlsStep::RequireClientCertificate,
    )
}

/// The session of a client.
pub open spec fn connect_steps(config: TlsConfig) -> Seq<TlsStep> {
    seq![TlsStep::AllocateSession, TlsStep::AttachConnection, TlsStep::ConnectState] + when(
        config.alpn@.len() > 0,
        TlsStep::OfferAlpn,
    ) + when(config.servername is Some, TlsStep::SetHostName) + when(
        config.servername is Some && config.verify_hostname,
        TlsStep::SetVerifiedHost,
    ) + seq![TlsStep::VerifyPeer { strict: config.verify_peer_strict }] + when(
        config.ca_pem@.len() > 0,
        TlsStep::SetCaStore,
    )
}

/// The steps by which a TLS session is set up.
pub open spec fn tls_plan(config: TlsConfig) -> Seq<TlsStep> {
    context_steps(config) + if config.is_server {
        accept_steps(config)
    } else {
        connect_steps(config)
    }
}

fn push_when(plan: &mut Vec<TlsStep>, condition: bool, step: TlsStep)
    ensures
        final(plan)@ == old(plan)@ + when(condition, step),
{
    if condition {
        plan.push(step);
    }
    assert(plan@ =~= old(plan)@ + when(condition, step));
}

fn plan_context(config: &TlsConfig) -> (plan: Vec<TlsStep>)
    ensures
        plan@ == context_steps(*config),
{
    let mut plan: Vec<TlsStep> = Vec::new();
    plan.push(TlsStep::AllocateContext);
    plan.push(TlsStep::PinVersion);
    if config.is_server {
        plan.push(TlsStep::ConfigureServer);
    } else {
        plan.push(TlsStep::ConfigureClient);
    }
    let ghost head = seq![
        TlsStep::AllocateContext,
        TlsStep::PinVersion,
        if config.is_server {
            TlsStep::ConfigureServer
        } else {
            TlsStep::ConfigureClient
        },
    ];
    let ghost chains = Seq::new(
        config.certs_pem@.len(),
        |i: int| TlsStep::LoadCertChain(i as usize),
    );
    let mut at: usize = 0;
    assert(plan@ =~= head + chains.take(0));
    while at < config.certs_pem.len()
        invariant
            at <= config.certs_pem@.len(),
            chains == Seq::new(
                config.certs_pem@.len(),
                |i: int| TlsStep::LoadCertChain(i as usize),
            ),
            plan@ == head + chains.take(at as int),
        decreases config.certs_pem@.len() - at,
    {
        plan.push(TlsStep::LoadCertChain(at));
        at = at + 1;
        assert(plan@ =~= head + chains.take(at as int));
    }
    assert(chains.take(at as int) =~= chains);
    push_when(&mut plan, config.keys_pem.len() > 0, TlsStep::LoadPrivateKey);
    push_when(&mut plan, config.is_server && config.keys_pem.len() > 0, TlsStep::CheckPrivateKey);
    push_when(&mut plan, config.is_server && config.alpn.len() > 0, TlsStep::SelectAlpn);
    plan
}

fn plan_accept(config: &TlsConfig) -> (plan: Vec<TlsStep>)
    ensures
        plan@ == accept_steps(*config),
{
    let mut plan: Vec<TlsStep> = Vec::new();
    plan.push(TlsStep::AllocateSession);
    plan.push(TlsStep::AttachConnection);
    plan.push(TlsStep::AcceptState);
    assert(plan@ =~= seq![
        TlsStep::AllocateSession,
        TlsStep::AttachConnection,
        TlsStep::AcceptState,
    ]);
    push_when(&mut plan, config.verify_client, TlsStep::RequireClientCertificate);
    plan
}

fn plan_connect(config: &TlsConfig) -> (plan: Vec<TlsStep>)
    ensures
        plan@ == connect_steps(*config),
{
    let mut plan: Vec<TlsStep> = Vec::new();
    plan.push(TlsStep::AllocateSession);
    plan.push(TlsStep::AttachConnection);
    plan.push(TlsStep::ConnectState);
    assert(plan@ =~= seq![
        TlsStep::AllocateSession,
        TlsStep::AttachConnection,
        TlsStep::ConnectState,
    ]);
    push_when(&mut plan, config.alpn.len() > 0, TlsStep::OfferAlpn);
    push_when(&mut plan, config.servername.is_some(), TlsStep::SetHostName);
    push_when(
        &mut plan,
        config.servername.is_some() && config.verify_hostname,
        TlsStep::SetVerifiedHost,
    );
    push_when(&mut plan, true, TlsStep::VerifyPeer { strict: config.verify_peer_strict });
    push_when(&mut plan, config.ca_pem.len() > 0, TlsStep::SetCaStore);
    plan
}

/// Plan the setup of a TLS session. The steps are performed in order; one that
/// fails ends the setup as `tls_step_failed` says.
pub fn plan_tls_session(config: &TlsConfig) -> (plan: Vec<TlsStep>)
    ensures
        plan@ == tls_plan(*config),
{
    let mut plan = plan_context(config);
    let mut side = if config.is_server {
        plan_accept(config)
    } else {
        plan_connect(config)
    };
    plan.append(&mut side);
    plan
}

/// The message of a step that failed; none for a step that cannot fail, or
/// whose failure is passed over.
pub open spec fn step_message(step: TlsStep) -> Option<Seq<char>> {
    match step {
        TlsStep::AllocateContext => Some("failed to allocate SSL_CTX"@),
        TlsStep::PinVersion => Some("failed to pin TLS 1.3"@),
        TlsStep::ConfigureServer => Some("failed to configure QUIC TLS context"@),
        TlsStep::ConfigureClient => Some("failed to configure QUIC TLS context"@),
        TlsStep::LoadCertChain(_) => Some("failed to allocate certificate BIO"@),
        TlsStep::LoadPrivateKey => Some("failed to allocate key BIO"@),
        TlsStep::CheckPrivateKey => Some("private key does not match certificate"@),
        TlsStep::AllocateSession => Some("failed to allocate SSL"@),
        TlsStep::AttachConnection => Some("failed to attach QUIC connection reference"@),
        TlsStep::OfferAlpn => Some("failed to set ALPN protocols"@),
        TlsStep::SetCaStore => Some("failed to set CA store"@),
        _ => None,
    }
}

/// The message of a step that failed. A server name that cannot be sent is
/// simply not sent, so that those steps have none.
pub fn tls_step_error(step: TlsStep) -> (message: Option<&'static str>)
    ensures
        match message {
            Some(message) => step_message(step) == Some(message@),
            None => step_message(step) is None,
        },
{
    match step {
        TlsStep::AllocateContext => Some("failed to allocate SSL_CTX"),
        TlsStep::PinVersion => Some("failed to pin TLS 1.3"),
        TlsStep::ConfigureServer => Some("failed to configure QUIC TLS context"),
        TlsStep::ConfigureClient => Some("failed to configure QUIC TLS context"),
        TlsStep::LoadCertChain(_) => Some("failed to allocate certificate BIO"),
        TlsStep::LoadPrivateKey => Some("failed to allocate key BIO"),
        TlsStep::CheckPrivateKey => Some("private key does not match certificate"),
        TlsStep::AllocateSession => Some("failed to allocate SSL"),
        TlsStep::AttachConnection => Some("failed to attach QUIC connection reference"),
        TlsStep::OfferAlpn => Some("failed to set ALPN protocols"),
        TlsStep::SetCaStore => Some("failed to set CA store"),
        _ => None,
    }
}

/// What the failure of a step comes to: the message that ends the setup, or
/// nothing where the setup goes on without the step. A failure may bring a
/// message of its own, which then takes the place of the step's.
pub fn tls_step_failed(step: TlsStep, message: Option<&'static str>) -> (ends: Option<&'static str>)
    ensures
        match ends {
            Some(ends) => match message {
                Some(message) => step_message(step) is Some && ends == message,
                None => step_message(step) == Some(ends@),
            },
            None => step_message(step) is None,
        },
{
    match tls_step_error(step) {
        Some(known) => match message {
            Some(message) => Some(message),
            None => Some(known),
        },
        None => None,
    }
}

/// What a certificate of a chain is used as.
#[derive(Copy, Clone, Debug, PartialEq, Eq, Structural)]
pub enum CertUse {
    /// The certificate presented.
    Leaf,
    /// One more of the chain.
    Chain,
}

/// Progress of loading the certificates of one chain.
#[derive(Copy, Clone, Debug, PartialEq, Eq, Structural)]
pub struct ChainLoad {
    /// How many certificates were taken.
    pub loaded: usize,
}

impl ChainLoad {
    pub fn new() -> (load: ChainLoad)
        ensures
            load.loaded == 0,
    {
        ChainLoad { loaded: 0 }
    }

    /// What the next certificate is used as: the first is the leaf.
    pub fn next_use(&self) -> (used: CertUse)
        ensures
            used == if self.loaded == 0 {
                CertUse::Leaf
            } else {
                CertUse::Chain
            },
    {
        if self.loaded == 0 {
            CertUse::Leaf
        } else {
            CertUse::Chain
        }
    }

    /// A certificate was used, with success or not.
    pub fn settle(&mut self, ok: bool) -> (outcome: Result<(), &'static str>)
        requires
            old(self).loaded < usize::MAX,
        ensures
            match outcome {
                Ok(()) => ok && final(self).loaded == old(self).loaded + 1,
                Err(message) => !ok && message@ == "failed to use certificate"@
                    && final(self).loaded == old(self).loaded,
            },
    {
        if !ok {
            return Err("failed to use certificate");
        }
        self.loaded = self.loaded + 1;
        Ok(())
    }

    /// No certificate is left: there must have been one.
    pub fn finish(&self) -> (outcome: Result<(), &'static str>)
        ensures
            match outcome {
                Ok(()) => self.loaded > 0,
                Err(message) => self.loaded == 0 && message@ == "no certificate found in PEM"@,
            },
    {
        if self.loaded > 0 {
            Ok(())
        } else {
            Err("no certificate found in PEM")
        }
    }
}

/// Where making the store of additional certificates fails.
#[derive(Copy, Clone, Debug, PartialEq, Eq, Structural)]
pub enum CaFailure {
    Store,
    Buffer,
    Certificate,
}

/// The message of a failure to make the store of additional certificates.
pub fn ca_store_error(failure: CaFailure) -> (message: &'static str)
    ensures
        message@ == match failure {
            CaFailure::Store => "failed to allocate certificate store"@,
            CaFailure::Buffer => "failed to allocate CA BIO"@,
            CaFailure::Certificate => "failed to add CA certificate"@,
        },
{
    match failure {
        CaFailure::Store => "failed to allocate certificate store",
        CaFailure::Buffer => "failed to allocate CA BIO",
        CaFailure::Certificate => "failed to add CA certificate",
    }
}

/// How loading a private key ends, from whether it could be parsed and whether
/// it could be used.
pub fn private_key_outcome(parsed: bool, used: bool) -> (outcome: Result<(), &'static str>)
    ensures
        match outcome {
            Ok(()) => parsed && used,
            Err(message) => message@ == if parsed {
                "failed to use private key"@
            } else {
                "failed to parse private key"@
            } && !(parsed && used),
        },
{
    if !parsed {
        return Err("failed to parse private key");
    }
    if !used {
        return Err("failed to use private key");
    }
    Ok(())
}

/// How a validation of the peer's certificate failed: a reason where the
/// library knows none itself, and a code. None where it succeeded.
pub fn validation_error(result: i64, reason_known: bool) -> (error: Option<
    (Option<&'static str>, &'static str),
>)
    ensures
        match error {
            None => result == 0,
            Some((reason, code)) => {
                &&& result != 0
                &&& match reason {
                    Some(reason) => !reason_known && reason@
                        == "unknown certificate verification error"@,
                    None => reason_known,
                }
                &&& code@ == if result == 2 {
                    "UNABLE_TO_GET_ISSUER_CERT"@
                } else if result == 10 {
                    "CERT_HAS_EXPIRED"@
                } else if result == 18 {
                    "DEPTH_ZERO_SELF_SIGNED_CERT"@
                } else if result == 19 {
                    "SELF_SIGNED_CERT_IN_CHAIN"@
                } else if result == 20 {
                    "UNABLE_TO_GET_ISSUER_CERT_LOCALLY"@
                } else if result == 62 {
                    "HOSTNAME_MISMATCH"@
                } else {
                    "UNABLE_TO_VERIFY_LEAF_SIGNATURE"@
                }
            },
        },
{
    if result == 0 {
        return None;
    }
    let reason = if reason_known {
        None
    } else {
        Some("unknown certificate verification error")
    };
    let code = if result == 2 {
        "UNABLE_TO_GET_ISSUER_CERT"
    } else if result == 10 {
        "CERT_HAS_EXPIRED"
    } else if result == 18 {
        "DEPTH_ZERO_SELF_SIGNED_CERT"
    } else if result == 19 {
        "SELF_SIGNED_CERT_IN_CHAIN"
    } else if result == 20 {
        "UNABLE_TO_GET_ISSUER_CERT_LOCALLY"
    } else if result == 62 {
        "HOSTNAME_MISMATCH"
    } else {
        "UNABLE_TO_VERIFY_LEAF_SIGNATURE"
    };
    Some((reason, code))
}

/// The server's preference decides: the protocol chosen is offered by both,
/// and none that the server prefers to it is offered by the client.
pub proof fn law_server_preference_decides(server: Seq<Seq<u8>>, client: Seq<Seq<u8>>)
    ensures
        match first_common(server, client) {
            Some(name) => exists|i: int|
                {
                    &&& 0 <= i < server.len()
                    &&& #[trigger] server[i] == name
                    &&& client.contains(name)
                    &&& forall|j: int| 0 <= j < i ==> !client.contains(#[trigger] server[j])
                },
            None => forall|i: int|
                0 <= i < server.len() ==> !client.contains(#[trigger] server[i]),
        },
    decreases server.len(),
{
    if server.len() > 0 && !client.contains(server[0]) {
        let rest = server.skip(1);
        law_server_preference_decides(rest, client);
        match first_common(rest, client) {
            Some(name) => {
                let i = choose|i: int|
                    {
                        &&& 0 <= i < rest.len()
                        &&& #[trigger] rest[i] == name
                        &&& client.contains(name)
                        &&& forall|j: int| 0 <= j < i ==> !client.contains(#[trigger] rest[j])
                    };
                assert(server[i + 1] == name);
                assert forall|j: int| 0 <= j < i + 1 implies !client.contains(
                    #[trigger] server[j],
                ) by {
                    if j > 0 {
                        assert(server[j] == rest[j - 1]);
                    }
                }
            },
            None => {
                assert forall|i: int| 0 <= i < server.len() implies !client.contains(
                    #[trigger] server[i],
                ) by {
                    if i > 0 {
                        assert(server[i] == rest[i - 1]);
                    }
                }
            },
        }
    }
}

/// A protocol list that the script wrote as Latin-1 text arrives in its wire
/// format, byte for byte, whatever the lengths of its names are.
pub proof fn law_protocol_list_keeps_its_wire_format(options: TlsOptions, wire: Seq<u8>)
    requires
        options.alpn matches JsValue::Text(text) && text@ == encode_utf8(
            wire.map_values(|byte: u8| byte as char),
        ),
    ensures
        options.alpn_wire() == wire,
{
    law_latin1_text_reads_back(wire);
}

/// Every setup allocates a context, pins the version and configures its own
/// side, in this order, before anything else.
pub proof fn law_plan_starts_with_the_version(config: TlsConfig)
    ensures
        tls_plan(config).len() >= 3,
        tls_plan(config)[0] == TlsStep::AllocateContext,
        tls_plan(config)[1] == TlsStep::PinVersion,
        tls_plan(config)[2] == if config.is_server {
            TlsStep::ConfigureServer
        } else {
            TlsStep::ConfigureClient
        },
{
    let head = seq![
        TlsStep::AllocateContext,
        TlsStep::PinVersion,
        if config.is_server {
            TlsStep::ConfigureServer
        } else {
            TlsStep::ConfigureClient
        },
    ];
    let chains = Seq::new(config.certs_pem@.len(), |i: int| TlsStep::LoadCertChain(i as usize));
    let key = when(config.keys_pem@.len() > 0, TlsStep::LoadPrivateKey);
    let check = when(config.is_server && config.keys_pem@.len() > 0, TlsStep::CheckPrivateKey);
    let alpn = when(config.is_server && config.alpn@.len() > 0, TlsStep::SelectAlpn);
    let side = if config.is_server {
        accept_steps(config)
    } else {
        connect_steps(config)
    };
    lemma_starts_with(head, chains);
    lemma_starts_with(head + chains, key);
    lemma_starts_with(head + chains + key, check);
    lemma_starts_with(head + chains + key + check, alpn);
    lemma_starts_with(head + chains + key + check + alpn, side);
}

proof fn lemma_starts_with(front: Seq<TlsStep>, back: Seq<TlsStep>)
    requires
        front.len() >= 3,
    ensures
        (front + back).len() >= 3,
        (front + back)[0] == front[0],
        (front + back)[1] == front[1],
        (front + back)[2] == front[2],
{
}

/// A server name holds exactly one zero byte, at its end.
pub proof fn law_server_name_is_closed_once(options: TlsOptions)
    ensures
        ({
            let name = options.server_name();
            &&& name.len() > 0
            &&& name.last() == 0
            &&& !name.drop_last().contains(0)
        }),
{
    if let JsValue::Text(name) = options.servername {
        if !name@.contains(0) {
            assert(name@.push(0).drop_last() =~= name@);
        }
    }
}

/// A list of values gives the bytes of each that has any, in order; a single
/// value gives its own.
pub proof fn law_pem_lists_are_collected_in_order(
    items: Seq<JsValue>,
    item: JsValue,
    list: Vec<JsValue>,
)
    ensures
        convertible(Seq::empty()).len() == 0,
        convertible(items.push(item)) == match item {
            JsValue::Buffer(bytes) => convertible(items).push(bytes@),
            JsValue::Text(text) => convertible(items).push(text@),
            _ => convertible(items),
        },
        pem_list(JsValue::Array(list)) == convertible(list@),
        match item {
            JsValue::Array(_) => true,
            JsValue::Buffer(bytes) => pem_list(item) == seq![bytes@],
            JsValue::Text(text) => pem_list(item) == seq![text@],
            _ => pem_list(item).len() == 0,
        },
{
    assert(items.push(item).drop_last() =~= items);
}

/// The server name is the one given with a zero byte behind it; one that is not
/// given, or holds a zero byte itself, is `localhost`.
pub proof fn law_server_name_is_the_one_given(options: TlsOptions)
    ensures
        localhost_name() == seq![108u8, 111u8, 99u8, 97u8, 108u8, 104u8, 111u8, 115u8, 116u8, 0u8],
        match options.servername {
            JsValue::Text(name) => {
                &&& (forall|i: int| 0 <= i < name@.len() ==> #[trigger] name@[i] != 0)
                    ==> options.server_name() == name@.push(0)
                &&& (exists|i: int| 0 <= i < name@.len() && #[trigger] name@[i] == 0)
                    ==> options.server_name() == localhost_name()
            },
            _ => options.server_name() == localhost_name(),
        },
        !(options.alpn is Text) ==> options.alpn_wire().len() == 0,
{
    if let JsValue::Text(name) = options.servername {
        if exists|i: int| 0 <= i < name@.len() && #[trigger] name@[i] == 0 {
            let i = choose|i: int| 0 <= i < name@.len() && #[trigger] name@[i] == 0;
            assert(name@.contains(name@[i]));
        }
    }
}

/// Every option has its own place in the configuration, and a flag is set only
/// where the option is.
pub proof fn law_configuration_follows_each_option(config: TlsConfig, tls: TlsOptions, server: bool)
    requires
        config.stands_for(Some(tls), server),
    ensures
        config.is_server == server,
        config.alpn@ == tls.alpn_wire(),
        config.servername is Some && config.servername->0@ == tls.server_name(),
        config.certs_pem@.len() == pem_list(tls.certs).len(),
        config.keys_pem@.len() == pem_list(tls.keys).len(),
        config.ca_pem@.len() == pem_list(tls.ca).len(),
        forall|i: int|
            0 <= i < config.certs_pem@.len() ==> (#[trigger] config.certs_pem@[i])@ == pem_list(
                tls.certs,
            )[i],
        forall|i: int|
            0 <= i < config.keys_pem@.len() ==> (#[trigger] config.keys_pem@[i])@ == pem_list(
                tls.keys,
            )[i],
        forall|i: int|
            0 <= i < config.ca_pem@.len() ==> (#[trigger] config.ca_pem@[i])@ == pem_list(
                tls.ca,
            )[i],
        config.verify_peer_strict <==> tls.verify_peer_strict == Some(true),
        config.verify_hostname <==> tls.verify_hostname == Some(true),
        config.verify_client <==> tls.verify_client == Some(true),
{
    assert forall|i: int| 0 <= i < config.certs_pem@.len() implies (
    #[trigger] config.certs_pem@[i])@ == pem_list(tls.certs)[i] by {
        assert(pem_views(config.certs_pem@)[i] == config.certs_pem@[i]@);
    }
    assert forall|i: int| 0 <= i < config.keys_pem@.len() implies (#[trigger] config.keys_pem@[i])@
        == pem_list(tls.keys)[i] by {
        assert(pem_views(config.keys_pem@)[i] == config.keys_pem@[i]@);
    }
    assert forall|i: int| 0 <= i < config.ca_pem@.len() implies (#[trigger] config.ca_pem@[i])@
        == pem_list(tls.ca)[i] by {
        assert(pem_views(config.ca_pem@)[i] == config.ca_pem@[i]@);
    }
}

/// Without the options nothing is configured.
pub proof fn law_no_options_configure_nothing(config: TlsConfig, server: bool)
    requires
        config.stands_for(None, server),
    ensures
        config.is_server == server,
        config.alpn@.len() == 0 && config.servername is None,
        config.certs_pem@.len() == 0 && config.keys_pem@.len() == 0 && config.ca_pem@.len() == 0,
        !config.verify_peer_strict && !config.verify_hostname && !config.verify_client,
{
}

/// The wire format of a list of names: each behind its length.
pub open spec fn wire_of(names: Seq<Seq<u8>>) -> Seq<u8>
    decreases names.len(),
{
    if names.len() == 0 {
        Seq::empty()
    } else {
        seq![names[0].len() as u8] + names[0] + wire_of(names.skip(1))
    }
}

/// Names written in wire format are read back, all of them and in order, and
/// whatever does not parse behind them adds none.
pub proof fn law_protocol_names_read_back(names: Seq<Seq<u8>>, rest: Seq<u8>)
    requires
        forall|i: int| 0 <= i < names.len() ==> 1 <= (#[trigger] names[i]).len() <= 255,
        rest.len() == 0 || rest[0] == 0 || rest.len() - 1 < rest[0],
    ensures
        protocol_names(wire_of(names) + rest) == names,
    decreases names.len(),
{
    let wire = wire_of(names) + rest;
    if names.len() == 0 {
        assert(wire =~= rest);
        assert(protocol_names(wire) =~= names);
    } else {
        let first = names[0];
        let more = names.skip(1);
        assert forall|i: int| 0 <= i < more.len() implies 1 <= (#[trigger] more[i]).len()
            <= 255 by {
            assert(more[i] == names[i + 1]);
        }
        law_protocol_names_read_back(more, rest);
        assert(wire[0] == first.len());
        assert(wire.subrange(1, 1 + wire[0]) =~= first);
        assert(wire.skip(1 + wire[0]) =~= wire_of(more) + rest);
        assert(seq![first] + more =~= names);
    }
}

/// The place of a name in a list: the name stands there, behind its length, and
/// a name has a place exactly where it is one of the list's.
pub proof fn law_name_stands_at_its_place(wire: Seq<u8>, name: Seq<u8>)
    ensures
        name_start(wire, name) is Some <==> protocol_names(wire).contains(name),
        name_start(wire, name) matches Some(start) ==> {
            &&& 1 <= start && start + name.len() <= wire.len()
            &&& wire[start - 1] == name.len()
            &&& wire.subrange(start, start + name.len()) == name
        },
    decreases wire.len(),
{
    if wire.len() == 0 || wire[0] == 0 || wire.len() - 1 < wire[0] {
        assert(!protocol_names(wire).contains(name));
    } else {
        let first = wire.subrange(1, 1 + wire[0]);
        let rest = wire.skip(1 + wire[0]);
        let names = protocol_names(wire);
        let more = protocol_names(rest);
        law_name_stands_at_its_place(rest, name);
        assert(names == seq![first] + more);
        assert(names[0] == first);
        if more.contains(name) {
            let i = choose|i: int| 0 <= i < more.len() && more[i] == name;
            assert(names[i + 1] == name);
        }
        if names.contains(name) && first != name {
            let i = choose|i: int| 0 <= i < names.len() && names[i] == name;
            assert(more[i - 1] == name);
        }
        if first != name {
            if let Some(start) = name_start(rest, name) {
                let at = 1 + wire[0] + start;
                assert(rest[start - 1] == wire[at - 1]);
                assert(wire.subrange(at, at + name.len()) =~= rest.subrange(
                    start,
                    start + name.len(),
                ));
            }
        }
    }
}

/// Where in a setup a step belongs, with `chains` certificate chains to load.
pub open spec fn step_rank(step: TlsStep, chains: int) -> int {
    match step {
        TlsStep::AllocateContext => 0,
        TlsStep::PinVersion => 1,
        TlsStep::ConfigureServer => 2,
        TlsStep::ConfigureClient => 2,
        TlsStep::LoadCertChain(at) => 3 + at,
        TlsStep::LoadPrivateKey => 3 + chains,
        TlsStep::CheckPrivateKey => 4 + chains,
        TlsStep::SelectAlpn => 5 + chains,
        TlsStep::AllocateSession => 6 + chains,
        TlsStep::AttachConnection => 7 + chains,
        TlsStep::AcceptState => 8 + chains,
        TlsStep::ConnectState => 8 + chains,
        TlsStep::RequireClientCertificate => 9 + chains,
        TlsStep::OfferAlpn => 10 + chains,
        TlsStep::SetHostName => 11 + chains,
        TlsStep::SetVerifiedHost => 12 + chains,
        TlsStep::VerifyPeer { .. } => 13 + chains,
        TlsStep::SetCaStore => 14 + chains,
    }
}

/// The steps stand in their order, none twice, from one rank up to another.
#[verifier::opaque]
spec fn ranked(plan: Seq<TlsStep>, chains: int, low: int, high: int) -> bool {
    &&& forall|i: int|
        0 <= i < plan.len() ==> low <= step_rank(#[trigger] plan[i], chains) < high
    &&& forall|i: int, j: int|
        0 <= i < j < plan.len() ==> step_rank(#[trigger] plan[i], chains) < step_rank(
            #[trigger] plan[j],
            chains,
        )
}

proof fn lemma_ranks_join(
    front: Seq<TlsStep>,
    back: Seq<TlsStep>,
    chains: int,
    low: int,
    middle: int,
    high: int,
)
    requires
        low <= middle <= high,
        ranked(front, chains, low, middle),
        ranked(back, chains, middle, high),
    ensures
        ranked(front + back, chains, low, high),
{
    reveal(ranked);
    let plan = front + back;
    assert forall|i: int| 0 <= i < plan.len() implies low <= step_rank(
        #[trigger] plan[i],
        chains,
    ) < high by {
        if i < front.len() {
            assert(plan[i] == front[i]);
        } else {
            assert(plan[i] == back[i - front.len()]);
        }
    }
    assert forall|i: int, j: int| 0 <= i < j < plan.len() implies step_rank(
        #[trigger] plan[i],
        chains,
    ) < step_rank(#[trigger] plan[j], chains) by {
        if j < front.len() {
            assert(plan[i] == front[i] && plan[j] == front[j]);
        } else if i < front.len() {
            assert(plan[i] == front[i] && plan[j] == back[j - front.len()]);
        } else {
            assert(plan[i] == back[i - front.len()] && plan[j] == back[j - front.len()]);
        }
    }
}

proof fn lemma_joined_plan_holds(front: Seq<TlsStep>, back: Seq<TlsStep>, step: TlsStep)
    ensures
        (front + back).contains(step) <==> front.contains(step) || back.contains(step),
{
    let plan = front + back;
    if front.contains(step) {
        let i = choose|i: int| 0 <= i < front.len() && front[i] == step;
        assert(plan[i] == step);
    }
    if back.contains(step) {
        let i = choose|i: int| 0 <= i < back.len() && back[i] == step;
        assert(plan[front.len() + i] == step);
    }
    if plan.contains(step) {
        let i = choose|i: int| 0 <= i < plan.len() && plan[i] == step;
        if i < front.len() {
            assert(front[i] == step);
        } else {
            assert(back[i - front.len()] == step);
        }
    }
}

/// A plan with one more step, where a condition asks for it.
proof fn lemma_conditional_step(
    front: Seq<TlsStep>,
    condition: bool,
    step: TlsStep,
    chains: int,
    low: int,
    middle: int,
    other: TlsStep,
)
    requires
        ranked(front, chains, low, middle),
        low <= middle <= step_rank(step, chains),
    ensures
        ({
            let plan = front + (when(condition, step));
            &&& plan.contains(other) <==> front.contains(other) || (condition && other == step)
            &&& ranked(plan, chains, low, step_rank(step, chains) + 1)
        }),
{
    let back = (when(condition, step));
    assert(ranked(back, chains, middle, step_rank(step, chains) + 1)) by {
        reveal(ranked);
    }
    if condition {
        assert(back[0] == step);
    }
    lemma_joined_plan_holds(front, back, other);
    lemma_ranks_join(front, back, chains, low, middle, step_rank(step, chains) + 1);
}

/// Three steps that follow each other.
proof fn lemma_three_steps(
    first: TlsStep,
    second: TlsStep,
    third: TlsStep,
    chains: int,
    other: TlsStep,
)
    requires
        step_rank(second, chains) == step_rank(first, chains) + 1,
        step_rank(third, chains) == step_rank(first, chains) + 2,
    ensures
        ({
            let plan = seq![first, second, third];
            &&& plan.contains(other) <==> other == first || other == second || other == third
            &&& ranked(plan, chains, step_rank(first, chains), step_rank(first, chains) + 3)
        }),
{
    reveal(ranked);
    let plan = seq![first, second, third];
    assert(plan[0] == first && plan[1] == second && plan[2] == third);
}

/// A step is part of a setup exactly where the configuration calls for it.
pub open spec fn calls_for(config: TlsConfig, step: TlsStep) -> bool {
    let server = config.is_server;
    match step {
        TlsStep::AllocateContext => true,
        TlsStep::PinVersion => true,
        TlsStep::AllocateSession => true,
        TlsStep::AttachConnection => true,
        TlsStep::ConfigureServer => server,
        TlsStep::AcceptState => server,
        TlsStep::ConfigureClient => !server,
        TlsStep::ConnectState => !server,
        TlsStep::LoadCertChain(at) => at < config.certs_pem@.len(),
        TlsStep::LoadPrivateKey => config.keys_pem@.len() > 0,
        TlsStep::CheckPrivateKey => server && config.keys_pem@.len() > 0,
        TlsStep::SelectAlpn => server && config.alpn@.len() > 0,
        TlsStep::RequireClientCertificate => server && config.verify_client,
        TlsStep::OfferAlpn => !server && config.alpn@.len() > 0,
        TlsStep::SetHostName => !server && config.servername is Some,
        TlsStep::SetVerifiedHost => !server && config.servername is Some && config.verify_hostname,
        TlsStep::VerifyPeer { strict } => !server && strict == config.verify_peer_strict,
        TlsStep::SetCaStore => !server && config.ca_pem@.len() > 0,
    }
}

proof fn lemma_chain_steps(count: nat, step: TlsStep)
    requires
        count <= usize::MAX,
    ensures
        ({
            let chains = Seq::new(count, |i: int| TlsStep::LoadCertChain(i as usize));
            &&& chains.contains(step) <==> (step matches TlsStep::LoadCertChain(at) && at < count)
            &&& ranked(chains, count as int, 3, 3 + count as int)
        }),
{
    reveal(ranked);
    let chains = Seq::new(count, |i: int| TlsStep::LoadCertChain(i as usize));
    if let TlsStep::LoadCertChain(at) = step {
        if at < count {
            assert(chains[at as int] == step);
        }
    }
}

proof fn lemma_context_plan(config: TlsConfig, step: TlsStep)
    ensures
        context_steps(config).contains(step) <==> calls_for(config, step) && step_rank(
            step,
            config.certs_pem@.len() as int,
        ) < 6 + config.certs_pem@.len(),
        ranked(
            context_steps(config),
            config.certs_pem@.len() as int,
            0,
            6 + config.certs_pem@.len() as int,
        ),
{
    let n = config.certs_pem@.len() as int;
    assert(config.certs_pem.len() <= usize::MAX);
    let side = if config.is_server {
        TlsStep::ConfigureServer
    } else {
        TlsStep::ConfigureClient
    };
    let has_key = config.keys_pem@.len() > 0;
    let head = seq![TlsStep::AllocateContext, TlsStep::PinVersion, side];
    let chains = Seq::new(config.certs_pem@.len(), |i: int| TlsStep::LoadCertChain(i as usize));
    lemma_three_steps(TlsStep::AllocateContext, TlsStep::PinVersion, side, n, step);
    lemma_chain_steps(config.certs_pem@.len(), step);
    lemma_joined_plan_holds(head, chains, step);
    lemma_ranks_join(head, chains, n, 0, 3, 3 + n);
    let loaded = head + chains;
    lemma_conditional_step(loaded, has_key, TlsStep::LoadPrivateKey, n, 0, 3 + n, step);
    let keyed = loaded + (when(has_key, TlsStep::LoadPrivateKey));
    let checks = config.is_server && has_key;
    lemma_conditional_step(keyed, checks, TlsStep::CheckPrivateKey, n, 0, 4 + n, step);
    let checked = keyed + (when(checks, TlsStep::CheckPrivateKey));
    let selects = config.is_server && config.alpn@.len() > 0;
    lemma_conditional_step(checked, selects, TlsStep::SelectAlpn, n, 0, 5 + n, step);
    assert(context_steps(config) == checked + (when(selects, TlsStep::SelectAlpn)));
}

proof fn lemma_accept_plan(config: TlsConfig, step: TlsStep)
    requires
        config.is_server,
    ensures
        accept_steps(config).contains(step) <==> calls_for(config, step) && step_rank(
            step,
            config.certs_pem@.len() as int,
        ) >= 6 + config.certs_pem@.len(),
        ranked(
            accept_steps(config),
            config.certs_pem@.len() as int,
            6 + config.certs_pem@.len() as int,
            15 + config.certs_pem@.len() as int,
        ),
{
    let n = config.certs_pem@.len() as int;
    let core = seq![TlsStep::AllocateSession, TlsStep::AttachConnection, TlsStep::AcceptState];
    lemma_three_steps(
        TlsStep::AllocateSession,
        TlsStep::AttachConnection,
        TlsStep::AcceptState,
        n,
        step,
    );
    let asks = TlsStep::RequireClientCertificate;
    lemma_conditional_step(core, config.verify_client, asks, n, 6 + n, 9 + n, step);
    assert(ranked(accept_steps(config), n, 6 + n, 15 + n)) by {
        reveal(ranked);
    }
}

proof fn lemma_connect_plan(config: TlsConfig, step: TlsStep)
    requires
        !config.is_server,
    ensures
        connect_steps(config).contains(step) <==> calls_for(config, step) && step_rank(
            step,
            config.certs_pem@.len() as int,
        ) >= 6 + config.certs_pem@.len(),
        ranked(
            connect_steps(config),
            config.certs_pem@.len() as int,
            6 + config.certs_pem@.len() as int,
            15 + config.certs_pem@.len() as int,
        ),
{
    let n = config.certs_pem@.len() as int;
    let core = seq![TlsStep::AllocateSession, TlsStep::AttachConnection, TlsStep::ConnectState];
    lemma_three_steps(
        TlsStep::AllocateSession,
        TlsStep::AttachConnection,
        TlsStep::ConnectState,
        n,
        step,
    );
    let offers = config.alpn@.len() > 0;
    let named = config.servername is Some;
    let held = named && config.verify_hostname;
    let verify = TlsStep::VerifyPeer { strict: config.verify_peer_strict };
    let trusts = config.ca_pem@.len() > 0;
    lemma_conditional_step(core, offers, TlsStep::OfferAlpn, n, 6 + n, 9 + n, step);
    let one = core + (when(offers, TlsStep::OfferAlpn));
    lemma_conditional_step(one, named, TlsStep::SetHostName, n, 6 + n, 11 + n, step);
    let two = one + (when(named, TlsStep::SetHostName));
    lemma_conditional_step(two, held, TlsStep::SetVerifiedHost, n, 6 + n, 12 + n, step);
    let three = two + (when(held, TlsStep::SetVerifiedHost));
    lemma_conditional_step(three, true, verify, n, 6 + n, 13 + n, step);
    let four = three + (when(true, verify));
    lemma_conditional_step(four, trusts, TlsStep::SetCaStore, n, 6 + n, 14 + n, step);
    assert(connect_steps(config) == four + (when(trusts, TlsStep::SetCaStore)));
}

/// A setup holds every step that the configuration calls for and no other, each
/// once and in its order: the context, its version and its side first, then the
/// certificates one after the other, the key and its check, and the choice of a
/// protocol; then the session, its connection and its side, and what that side
/// verifies and offers.
pub proof fn law_setup_is_what_the_configuration_calls_for(config: TlsConfig, step: TlsStep)
    ensures
        tls_plan(config).contains(step) <==> calls_for(config, step),
        forall|i: int, j: int|
            0 <= i < j < tls_plan(config).len() ==> step_rank(
                #[trigger] tls_plan(config)[i],
                config.certs_pem@.len() as int,
            ) < step_rank(#[trigger] tls_plan(config)[j], config.certs_pem@.len() as int),
{
    let n = config.certs_pem@.len() as int;
    let front = context_steps(config);
    let back = if config.is_server {
        accept_steps(config)
    } else {
        connect_steps(config)
    };
    lemma_context_plan(config, step);
    if config.is_server {
        lemma_accept_plan(config, step);
    } else {
        lemma_connect_plan(config, step);
    }
    lemma_joined_plan_holds(front, back, step);
    lemma_ranks_join(front, back, n, 0, 6 + n, 15 + n);
    assert(tls_plan(config) == front + back);
    reveal(ranked);
}

/// A failure is passed over only in the steps that cannot fail the setup: those
/// that install a choice or a state, and those that tell a server name.
pub proof fn law_only_best_effort_steps_are_passed_over(step: TlsStep)
    ensures
        step_message(step) is None <==> {
            ||| step is SelectAlpn
            ||| step is AcceptState
            ||| step is RequireClientCertificate
            ||| step is ConnectState
            ||| step is SetHostName
            ||| step is SetVerifiedHost
            ||| step is VerifyPeer
        },
{
}

/// Certificates and keys stand for their bytes, one for one.
pub proof fn law_pem_entries_are_their_bytes(list: Seq<Vec<u8>>, at: int)
    requires
        0 <= at < list.len(),
    ensures
        pem_views(list).len() == list.len(),
        pem_views(list)[at] == list[at]@,
{
}

} // verus!
