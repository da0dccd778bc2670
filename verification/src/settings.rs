//! Session options: validation, the settings and transport parameters made
//! from them, and the parameters as the script reads them.

use vstd::prelude::*;

use crate::bytes::bytes_equal;
use crate::ngtcp2::{
    ngtcp2_settings, ngtcp2_transport_params, NGTCP2_CC_ALGO_BBR, NGTCP2_CC_ALGO_CUBIC, NGTCP2_CC_ALGO_RENO,
    NGTCP2_MAX_UDP_PAYLOAD_SIZE, NGTCP2_MILLISECONDS, NGTCP2_PROTO_VER_V1, NGTCP2_SECONDS,
};
use crate::number::JsNumber;
use crate::tls::TlsOptions;
use crate::value::{read_u64_option, JsValue};

verus! {

/// `options.transportParams`.
pub struct TransportOptions {
    pub initial_max_stream_data_bidi_local: JsValue,
    pub initial_max_stream_data_bidi_remote: JsValue,
    pub initial_max_stream_data_uni: JsValue,
    pub initial_max_data: JsValue,
    pub initial_max_streams_bidi: JsValue,
    pub initial_max_streams_uni: JsValue,
    pub max_idle_timeout: JsValue,
    pub active_connection_id_limit: JsValue,
    pub ack_delay_exponent: JsValue,
    pub max_ack_delay: JsValue,
    pub max_datagram_frame_size: JsValue,
}

/// The processed session options; a property that is not there is undefined.
pub struct SessionOptions {
    pub handshake_timeout: JsValue,
    pub initial_rtt: JsValue,
    pub max_payload_size: JsValue,
    pub max_window: JsValue,
    pub max_stream_window: JsValue,
    pub cc: JsValue,
    pub version: JsValue,
    pub keep_alive: JsValue,
    pub datagram_drop_policy: JsValue,
    /// Present where the property is an object.
    pub transport_params: Option<TransportOptions>,
    /// Present where the property is an object.
    pub tls: Option<TlsOptions>,
}

/// Number of transport parameters that can be given.
pub const TRANSPORT_FIELDS: usize = 11;

impl TransportOptions {
    /// The parameters in the order in which they are checked: the property's
    /// name, its value, and its bound.
    pub open spec fn fields(self) -> Seq<(Seq<char>, JsValue, u64)> {
        seq![
            ("initialMaxStreamDataBidiLocal"@, self.initial_max_stream_data_bidi_local, u64::MAX),
            ("initialMaxStreamDataBidiRemote"@, self.initial_max_stream_data_bidi_remote, u64::MAX),
            ("initialMaxStreamDataUni"@, self.initial_max_stream_data_uni, u64::MAX),
            ("initialMaxData"@, self.initial_max_data, u64::MAX),
            ("initialMaxStreamsBidi"@, self.initial_max_streams_bidi, u64::MAX),
            ("initialMaxStreamsUni"@, self.initial_max_streams_uni, u64::MAX),
            ("maxIdleTimeout"@, self.max_idle_timeout, u64::MAX),
            ("activeConnectionIDLimit"@, self.active_connection_id_limit, 8u64),
            ("ackDelayExponent"@, self.ack_delay_exponent, 20u64),
            ("maxAckDelay"@, self.max_ack_delay, u64::MAX),
            ("maxDatagramFrameSize"@, self.max_datagram_frame_size, 65535u64),
        ]
    }

    /// A parameter is left out, or a non-negative integer within its bound.
    pub open spec fn acceptable(value: JsValue, max: u64) -> bool {
        match value {
            JsValue::Undefined => true,
            JsValue::Number(n) => n.finite() && !n.negative() && n.integral() && n.whole()
                <= JsNumber::bound(max),
            _ => false,
        }
    }

    pub open spec fn field_acceptable(self, index: int) -> bool {
        TransportOptions::acceptable(self.fields()[index].1, self.fields()[index].2)
    }

    fn field(&self, index: usize) -> (field: (&'static str, &JsValue, u64))
        requires
            index < TRANSPORT_FIELDS,
        ensures
            self.fields()[index as int] == (field.0@, *field.1, field.2),
            field.2 < 0x10_0000 || field.2 == u64::MAX,
    {
        if index == 0 {
            ("initialMaxStreamDataBidiLocal", &self.initial_max_stream_data_bidi_local, u64::MAX)
        } else if index == 1 {
            ("initialMaxStreamDataBidiRemote", &self.initial_max_stream_data_bidi_remote, u64::MAX)
        } else if index == 2 {
            ("initialMaxStreamDataUni", &self.initial_max_stream_data_uni, u64::MAX)
        } else if index == 3 {
            ("initialMaxData", &self.initial_max_data, u64::MAX)
        } else if index == 4 {
            ("initialMaxStreamsBidi", &self.initial_max_streams_bidi, u64::MAX)
        } else if index == 5 {
            ("initialMaxStreamsUni", &self.initial_max_streams_uni, u64::MAX)
        } else if index == 6 {
            ("maxIdleTimeout", &self.max_idle_timeout, u64::MAX)
        } else if index == 7 {
            ("activeConnectionIDLimit", &self.active_connection_id_limit, 8)
        } else if index == 8 {
            ("ackDelayExponent", &self.ack_delay_exponent, 20)
        } else if index == 9 {
            ("maxAckDelay", &self.max_ack_delay, u64::MAX)
        } else {
            ("maxDatagramFrameSize", &self.max_datagram_frame_size, 65535)
        }
    }
}

impl SessionOptions {
    /// What checking `transportParams` comes to: nothing, or the name of the
    /// first parameter that is not acceptable.
    pub open spec fn checked(self, outcome: Result<(), Seq<char>>) -> bool {
        match self.transport_params {
            Some(params) => match outcome {
                Ok(()) => forall|i: int|
                    0 <= i < TRANSPORT_FIELDS ==> #[trigger] params.field_acceptable(i),
                Err(name) => exists|i: int|
                    {
                        &&& 0 <= i < TRANSPORT_FIELDS
                        &&& !#[trigger] params.field_acceptable(i)
                        &&& forall|j: int| 0 <= j < i ==> #[trigger] params.field_acceptable(j)
                        &&& name == params.fields()[i].0
                    },
            },
            None => outcome is Ok,
        }
    }
}

/// Check `options.transportParams`: every parameter that is there must be a
/// non-negative integer within its range. Names the first one that is not.
pub fn validate_transport_params(options: &SessionOptions) -> (outcome: Result<(), &'static str>)
    ensures
        options.checked(
            match outcome {
                Ok(()) => Ok(()),
                Err(name) => Err(name@),
            },
        ),
{
    let params = match &options.transport_params {
        Some(params) => params,
        None => {
            return Ok(());
        },
    };
    let mut at: usize = 0;
    while at < TRANSPORT_FIELDS
        invariant
            at <= TRANSPORT_FIELDS,
            options.transport_params == Some(*params),
            forall|j: int| 0 <= j < at ==> #[trigger] params.field_acceptable(j),
        decreases TRANSPORT_FIELDS - at,
    {
        let (name, value, max) = params.field(at);
        let valid: bool = match value {
            JsValue::Undefined => true,
            JsValue::Number(n) => n.is_integer_up_to(max),
            _ => false,
        };
        assert(valid == params.field_acceptable(at as int));
        if !valid {
            return Err(name);
        }
        at = at + 1;
    }
    Ok(())
}

/// A given value, or the default.
pub open spec fn or_default(value: Option<u64>, default: u64) -> u64 {
    match value {
        Some(value) => value,
        None => default,
    }
}

/// A duration given in milliseconds, in nanoseconds, or the default.
pub open spec fn nanos_or(value: Option<u64>, default: u64) -> u64 {
    match value {
        Some(ms) => (ms * NGTCP2_MILLISECONDS) as u64,
        None => default,
    }
}

/// A duration in milliseconds that fits when it is turned into nanoseconds.
pub open spec fn duration_fits(value: JsValue) -> bool {
    value.unsigned() matches Some(ms) ==> ms * NGTCP2_MILLISECONDS <= u64::MAX
}

/// The name of the congestion control algorithm `reno`.
pub open spec fn reno_name() -> Seq<u8> {
    seq![0x72u8, 0x65u8, 0x6eu8, 0x6fu8]
}

/// The name of the congestion control algorithm `bbr`.
pub open spec fn bbr_name() -> Seq<u8> {
    seq![0x62u8, 0x62u8, 0x72u8]
}

/// The policy name `drop-newest`.
pub open spec fn drop_newest_name() -> Seq<u8> {
    seq![
        0x64u8,
        0x72u8,
        0x6fu8,
        0x70u8,
        0x2du8,
        0x6eu8,
        0x65u8,
        0x77u8,
        0x65u8,
        0x73u8,
        0x74u8,
    ]
}

impl SessionOptions {
    /// Every duration among the settings and the transport parameters fits
    /// when turned into nanoseconds.
    pub open spec fn durations_fit(self) -> bool {
        &&& duration_fits(self.handshake_timeout)
        &&& duration_fits(self.initial_rtt)
        &&& match self.transport_params {
            Some(params) => duration_fits(params.max_idle_timeout) && duration_fits(
                params.max_ack_delay,
            ),
            None => true,
        }
    }

    /// The congestion control algorithm: a name that is not known means cubic.
    pub open spec fn cc_algo_or(self, default: i32) -> i32 {
        match self.cc {
            JsValue::Text(name) => if name@ == reno_name() {
                NGTCP2_CC_ALGO_RENO
            } else if name@ == bbr_name() {
                NGTCP2_CC_ALGO_BBR
            } else {
                NGTCP2_CC_ALGO_CUBIC
            },
            _ => default,
        }
    }

    /// The settings that these options make of the library's defaults.
    pub open spec fn applied_settings(self, defaults: ngtcp2_settings, now: u64) -> ngtcp2_settings {
        ngtcp2_settings {
            initial_ts: now,
            handshake_timeout: nanos_or(
                self.handshake_timeout.unsigned(),
                (10_000 * NGTCP2_MILLISECONDS) as u64,
            ),
            initial_rtt: nanos_or(self.initial_rtt.unsigned(), defaults.initial_rtt),
            max_tx_udp_payload_size: match self.max_payload_size.unsigned() {
                Some(size) => size as usize,
                None => defaults.max_tx_udp_payload_size,
            },
            max_window: or_default(self.max_window.unsigned(), defaults.max_window),
            max_stream_window: or_default(
                self.max_stream_window.unsigned(),
                defaults.max_stream_window,
            ),
            cc_algo: self.cc_algo_or(defaults.cc_algo),
            ..defaults
        }
    }

    /// The transport parameters without any given.
    pub open spec fn base_params(defaults: ngtcp2_transport_params) -> ngtcp2_transport_params {
        ngtcp2_transport_params {
            initial_max_stream_data_bidi_local: 262_144,
            initial_max_stream_data_bidi_remote: 262_144,
            initial_max_stream_data_uni: 262_144,
            initial_max_data: 1_048_576,
            initial_max_streams_bidi: 100,
            initial_max_streams_uni: 3,
            max_idle_timeout: 10_000_000_000,
            active_connection_id_limit: 2,
            max_datagram_frame_size: NGTCP2_MAX_UDP_PAYLOAD_SIZE,
            ..defaults
        }
    }

    /// The transport parameters that these options make of the defaults.
    pub open spec fn applied_params(
        self,
        defaults: ngtcp2_transport_params,
    ) -> ngtcp2_transport_params {
        let base = SessionOptions::base_params(defaults);
        match self.transport_params {
            Some(given) => ngtcp2_transport_params {
                initial_max_stream_data_bidi_local: or_default(
                    given.initial_max_stream_data_bidi_local.unsigned(),
                    base.initial_max_stream_data_bidi_local,
                ),
                initial_max_stream_data_bidi_remote: or_default(
                    given.initial_max_stream_data_bidi_remote.unsigned(),
                    base.initial_max_stream_data_bidi_remote,
                ),
                initial_max_stream_data_uni: or_default(
                    given.initial_max_stream_data_uni.unsigned(),
                    base.initial_max_stream_data_uni,
                ),
                initial_max_data: or_default(
                    given.initial_max_data.unsigned(),
                    base.initial_max_data,
                ),
                initial_max_streams_bidi: or_default(
                    given.initial_max_streams_bidi.unsigned(),
                    base.initial_max_streams_bidi,
                ),
                initial_max_streams_uni: or_default(
                    given.initial_max_streams_uni.unsigned(),
                    base.initial_max_streams_uni,
                ),
                max_idle_timeout: nanos_or(
                    given.max_idle_timeout.unsigned(),
                    base.max_idle_timeout,
                ),
                active_connection_id_limit: or_default(
                    given.active_connection_id_limit.unsigned(),
                    base.active_connection_id_limit,
                ),
                ack_delay_exponent: or_default(
                    given.ack_delay_exponent.unsigned(),
                    base.ack_delay_exponent,
                ),
                max_ack_delay: nanos_or(given.max_ack_delay.unsigned(), base.max_ack_delay),
                max_datagram_frame_size: or_default(
                    given.max_datagram_frame_size.unsigned(),
                    base.max_datagram_frame_size,
                ),
                ..base
            },
            None => base,
        }
    }

    /// The options of a call that passed no options object.
    pub fn absent() -> (options: SessionOptions)
        ensures
            options.handshake_timeout is Undefined,
            options.initial_rtt is Undefined,
            options.max_payload_size is Undefined,
            options.max_window is Undefined,
            options.max_stream_window is Undefined,
            options.cc is Undefined,
            options.version is Undefined,
            options.keep_alive is Undefined,
            options.datagram_drop_policy is Undefined,
            options.transport_params is None,
            options.tls is None,
    {
        SessionOptions {
            handshake_timeout: JsValue::Undefined,
            initial_rtt: JsValue::Undefined,
            max_payload_size: JsValue::Undefined,
            max_window: JsValue::Undefined,
            max_stream_window: JsValue::Undefined,
            cc: JsValue::Undefined,
            version: JsValue::Undefined,
            keep_alive: JsValue::Undefined,
            datagram_drop_policy: JsValue::Undefined,
            transport_params: None,
            tls: None,
        }
    }

    /// Whether every duration, the keep-alive interval too, fits when turned
    /// into nanoseconds.
    pub fn check_durations(&self) -> (fit: bool)
        ensures
            fit == (self.durations_fit() && duration_fits(self.keep_alive)),
    {
        let params_fit: bool = match &self.transport_params {
            Some(params) => check_duration(&params.max_idle_timeout) && check_duration(
                &params.max_ack_delay,
            ),
            None => true,
        };
        check_duration(&self.handshake_timeout) && check_duration(&self.initial_rtt)
            && check_duration(&self.keep_alive) && params_fit
    }
}

fn check_duration(value: &JsValue) -> (fits: bool)
    ensures
        fits == duration_fits(*value),
{
    match read_u64_option(value) {
        Some(ms) => ms <= u64::MAX / NGTCP2_MILLISECONDS,
        None => true,
    }
}

fn read_or(value: &JsValue, default: u64) -> (number: u64)
    ensures
        number == or_default(value.unsigned(), default),
{
    match read_u64_option(value) {
        Some(number) => number,
        None => default,
    }
}

fn read_nanos_or(value: &JsValue, default: u64) -> (nanos: u64)
    requires
        duration_fits(*value),
    ensures
        nanos == nanos_or(value.unsigned(), default),
{
    match read_u64_option(value) {
        Some(ms) => ms * NGTCP2_MILLISECONDS,
        None => default,
    }
}

/// The settings and the transport parameters of a session, from the library's
/// defaults and the options.
pub fn build_settings(
    options: &SessionOptions,
    default_settings: ngtcp2_settings,
    default_params: ngtcp2_transport_params,
    now: u64,
) -> (built: (ngtcp2_settings, ngtcp2_transport_params))
    requires
        options.durations_fit(),
    ensures
        built.0 == options.applied_settings(default_settings, now),
        built.1 == options.applied_params(default_params),
{
    let mut settings = default_settings;
    settings.initial_ts = now;
    settings.handshake_timeout =
    read_nanos_or(&options.handshake_timeout, 10_000 * NGTCP2_MILLISECONDS);
    settings.initial_rtt = read_nanos_or(&options.initial_rtt, settings.initial_rtt);
    if let Some(size) = read_u64_option(&options.max_payload_size) {
        settings.max_tx_udp_payload_size = size as usize;
    }
    settings.max_window = read_or(&options.max_window, settings.max_window);
    settings.max_stream_window = read_or(&options.max_stream_window, settings.max_stream_window);
    if let JsValue::Text(name) = &options.cc {
        let reno = [0x72u8, 0x65u8, 0x6eu8, 0x6fu8];
        let bbr = [0x62u8, 0x62u8, 0x72u8];
        assert(reno@ =~= reno_name());
        assert(bbr@ =~= bbr_name());
        settings.cc_algo =
        if bytes_equal(name.as_slice(), reno.as_slice()) {
            NGTCP2_CC_ALGO_RENO
        } else if bytes_equal(name.as_slice(), bbr.as_slice()) {
            NGTCP2_CC_ALGO_BBR
        } else {
            NGTCP2_CC_ALGO_CUBIC
        };
    }
    let mut params = default_params;
    params.initial_max_stream_data_bidi_local = 256 * 1024;
    params.initial_max_stream_data_bidi_remote = 256 * 1024;
    params.initial_max_stream_data_uni = 256 * 1024;
    params.initial_max_data = 1024 * 1024;
    params.initial_max_streams_bidi = 100;
    params.initial_max_streams_uni = 3;
    params.max_idle_timeout = 10 * NGTCP2_SECONDS;
    params.active_connection_id_limit = 2;
    // DATAGRAM frames are accepted up to a full packet by default.
    params.max_datagram_frame_size = NGTCP2_MAX_UDP_PAYLOAD_SIZE;
    if let Some(given) = &options.transport_params {
        params.initial_max_stream_data_bidi_local =
        read_or(
            &given.initial_max_stream_data_bidi_local,
            params.initial_max_stream_data_bidi_local,
        );
        params.initial_max_stream_data_bidi_remote =
        read_or(
            &given.initial_max_stream_data_bidi_remote,
            params.initial_max_stream_data_bidi_remote,
        );
        params.initial_max_stream_data_uni =
        read_or(&given.initial_max_stream_data_uni, params.initial_max_stream_data_uni);
        params.initial_max_data = read_or(&given.initial_max_data, params.initial_max_data);
        params.initial_max_streams_bidi =
        read_or(&given.initial_max_streams_bidi, params.initial_max_streams_bidi);
        params.initial_max_streams_uni =
        read_or(&given.initial_max_streams_uni, params.initial_max_streams_uni);
        params.max_idle_timeout = read_nanos_or(&given.max_idle_timeout, params.max_idle_timeout);
        params.active_connection_id_limit =
        read_or(&given.active_connection_id_limit, params.active_connection_id_limit);
        params.ack_delay_exponent = read_or(&given.ack_delay_exponent, params.ack_delay_exponent);
        params.max_ack_delay = read_nanos_or(&given.max_ack_delay, params.max_ack_delay);
        params.max_datagram_frame_size =
        read_or(&given.max_datagram_frame_size, params.max_datagram_frame_size);
    }
    (settings, params)
}

/// The protocol version a client asks for: version 1 unless the options name
/// another.
pub fn client_version(options: &SessionOptions) -> (version: u32)
    ensures
        version == match options.version.unsigned() {
            Some(version) => version as u32,
            None => NGTCP2_PROTO_VER_V1,
        },
{
    match read_u64_option(&options.version) {
        Some(version) => version as u32,
        None => NGTCP2_PROTO_VER_V1,
    }
}

/// The keep-alive interval in nanoseconds: `keepAlive` is given in
/// milliseconds and counts when it is a finite number above zero.
pub fn keep_alive_timeout(options: &SessionOptions) -> (timeout: Option<u64>)
    requires
        duration_fits(options.keep_alive),
    ensures
        timeout == match options.keep_alive {
            JsValue::Number(ms) => if ms.finite() && !ms.negative() && ms.significand() != 0 {
                Some((ms.clamped() * NGTCP2_MILLISECONDS) as u64)
            } else {
                None
            },
            _ => None,
        },
{
    match &options.keep_alive {
        JsValue::Number(ms) => {
            if ms.is_finite() && !ms.is_negative() && !ms.is_zero() {
                Some(ms.to_u64() * NGTCP2_MILLISECONDS)
            } else {
                None
            }
        },
        _ => None,
    }
}

/// Whether a full datagram queue drops the newest datagram; `None` leaves the
/// policy as it is.
pub fn datagram_drop_policy(options: &SessionOptions) -> (drop_newest: Option<bool>)
    ensures
        drop_newest == match options.datagram_drop_policy {
            JsValue::Text(name) => Some(name@ == drop_newest_name()),
            _ => None,
        },
{
    match &options.datagram_drop_policy {
        JsValue::Text(name) => {
            let newest = [
                0x64u8,
                0x72u8,
                0x6fu8,
                0x70u8,
                0x2du8,
                0x6eu8,
                0x65u8,
                0x77u8,
                0x65u8,
                0x73u8,
                0x74u8,
            ];
            assert(newest@ =~= drop_newest_name());
            Some(bytes_equal(name.as_slice(), newest.as_slice()))
        },
        _ => None,
    }
}

/// Transport parameters by the names the script reads them under, durations in
/// milliseconds.
pub open spec fn exposed_params(params: ngtcp2_transport_params) -> Seq<(Seq<char>, u64)> {
    seq![
        ("initialMaxStreamDataBidiLocal"@, params.initial_max_stream_data_bidi_local),
        ("initialMaxStreamDataBidiRemote"@, params.initial_max_stream_data_bidi_remote),
        ("initialMaxStreamDataUni"@, params.initial_max_stream_data_uni),
        ("initialMaxData"@, params.initial_max_data),
        ("initialMaxStreamsBidi"@, params.initial_max_streams_bidi),
        ("initialMaxStreamsUni"@, params.initial_max_streams_uni),
        ("maxIdleTimeout"@, (params.max_idle_timeout / NGTCP2_MILLISECONDS)),
        ("activeConnectionIDLimit"@, params.active_connection_id_limit),
        ("ackDelayExponent"@, params.ack_delay_exponent),
        ("maxAckDelay"@, (params.max_ack_delay / NGTCP2_MILLISECONDS)),
        ("maxDatagramFrameSize"@, params.max_datagram_frame_size),
    ]
}

/// Transport parameters as name and value pairs for the script.
pub fn transport_params_to_js(params: &ngtcp2_transport_params) -> (pairs: Vec<
    (&'static str, u64),
>)
    ensures
        pairs@.len() == TRANSPORT_FIELDS,
        forall|i: int|
            0 <= i < TRANSPORT_FIELDS ==> (#[trigger] pairs@[i]).0@ == exposed_params(*params)[i].0
                && pairs@[i].1 == exposed_params(*params)[i].1,
{
    let mut pairs: Vec<(&'static str, u64)> = Vec::new();
    pairs.push(("initialMaxStreamDataBidiLocal", params.initial_max_stream_data_bidi_local));
    pairs.push(("initialMaxStreamDataBidiRemote", params.initial_max_stream_data_bidi_remote));
    pairs.push(("initialMaxStreamDataUni", params.initial_max_stream_data_uni));
    pairs.push(("initialMaxData", params.initial_max_data));
    pairs.push(("initialMaxStreamsBidi", params.initial_max_streams_bidi));
    pairs.push(("initialMaxStreamsUni", params.initial_max_streams_uni));
    pairs.push(("maxIdleTimeout", params.max_idle_timeout / NGTCP2_MILLISECONDS));
    pairs.push(("activeConnectionIDLimit", params.active_connection_id_limit));
    pairs.push(("ackDelayExponent", params.ack_delay_exponent));
    pairs.push(("maxAckDelay", params.max_ack_delay / NGTCP2_MILLISECONDS));
    pairs.push(("maxDatagramFrameSize", params.max_datagram_frame_size));
    pairs
}

/// Checking `transportParams` has one outcome: a call passes, or it is refused
/// for the first parameter that is not acceptable.
pub proof fn law_check_has_one_outcome(
    options: SessionOptions,
    first: Result<(), Seq<char>>,
    second: Result<(), Seq<char>>,
)
    requires
        options.checked(first),
        options.checked(second),
    ensures
        first is Ok <==> second is Ok,
        first matches Err(name) ==> second == Err::<(), Seq<char>>(name),
{
    if let Some(params) = options.transport_params {
        if first is Err && second is Err {
            let i = choose|i: int|
                {
                    &&& 0 <= i < TRANSPORT_FIELDS
                    &&& !#[trigger] params.field_acceptable(i)
                    &&& forall|j: int| 0 <= j < i ==> #[trigger] params.field_acceptable(j)
                    &&& first->Err_0 == params.fields()[i].0
                };
            let k = choose|k: int|
                {
                    &&& 0 <= k < TRANSPORT_FIELDS
                    &&& !#[trigger] params.field_acceptable(k)
                    &&& forall|j: int| 0 <= j < k ==> #[trigger] params.field_acceptable(j)
                    &&& second->Err_0 == params.fields()[k].0
                };
            assert(i == k);
        }
    }
}

/// Every transport parameter that the options give as a number reads back
/// under its own name with the value given.
pub proof fn law_given_params_read_back(
    options: SessionOptions,
    given: TransportOptions,
    defaults: ngtcp2_transport_params,
    index: int,
)
    requires
        options.durations_fit(),
        options.transport_params == Some(given),
        0 <= index < TRANSPORT_FIELDS,
        given.fields()[index].1.unsigned() is Some,
    ensures
        exposed_params(options.applied_params(defaults))[index].0 == given.fields()[index].0,
        Some(exposed_params(options.applied_params(defaults))[index].1)
            == given.fields()[index].1.unsigned(),
{
}

/// A parameter that is given passes exactly where it is an integer from zero to
/// its bound; one that is left out passes.
pub proof fn law_parameters_are_integers_in_range(value: JsValue, max: u64)
    requires
        max < u64::MAX,
    ensures
        match value {
            JsValue::Undefined => TransportOptions::acceptable(value, max),
            JsValue::Number(n) => {
                &&& TransportOptions::acceptable(value, max) <==> n.finite() && !n.negative()
                    && n.integral() && n.whole() <= max
                &&& TransportOptions::acceptable(value, u64::MAX) <==> n.finite() && !n.negative()
                    && n.integral() && n.whole() <= 0x1_0000_0000_0000_0000
            },
            _ => !TransportOptions::acceptable(value, max) && !TransportOptions::acceptable(
                value,
                u64::MAX,
            ),
        },
{
}

/// The check covers every parameter: a call passes exactly where all eleven are
/// acceptable, each within its own bound, or none are given.
pub proof fn law_check_covers_every_parameter(options: SessionOptions)
    ensures
        options.transport_params is None ==> options.checked(Ok(())),
        options.transport_params matches Some(given) ==> (options.checked(Ok(())) <==> {
            &&& TransportOptions::acceptable(given.initial_max_stream_data_bidi_local, u64::MAX)
            &&& TransportOptions::acceptable(given.initial_max_stream_data_bidi_remote, u64::MAX)
            &&& TransportOptions::acceptable(given.initial_max_stream_data_uni, u64::MAX)
            &&& TransportOptions::acceptable(given.initial_max_data, u64::MAX)
            &&& TransportOptions::acceptable(given.initial_max_streams_bidi, u64::MAX)
            &&& TransportOptions::acceptable(given.initial_max_streams_uni, u64::MAX)
            &&& TransportOptions::acceptable(given.max_idle_timeout, u64::MAX)
            &&& TransportOptions::acceptable(given.active_connection_id_limit, 8)
            &&& TransportOptions::acceptable(given.ack_delay_exponent, 20)
            &&& TransportOptions::acceptable(given.max_ack_delay, u64::MAX)
            &&& TransportOptions::acceptable(given.max_datagram_frame_size, 65535)
        }),
{
    if let Some(given) = options.transport_params {
        if options.checked(Ok(())) {
            assert(forall|i: int| 0 <= i < 11 ==> #[trigger] given.field_acceptable(i));
            assert(given.field_acceptable(0));
            assert(given.field_acceptable(1));
            assert(given.field_acceptable(2));
            assert(given.field_acceptable(3));
            assert(given.field_acceptable(4));
            assert(given.field_acceptable(5));
            assert(given.field_acceptable(6));
            assert(given.field_acceptable(7));
            assert(given.field_acceptable(8));
            assert(given.field_acceptable(9));
            assert(given.field_acceptable(10));
        }
    }
}

/// A refusal names the first parameter that is not acceptable, and comes only
/// where there is one.
pub proof fn law_refusal_names_the_first_fault(options: SessionOptions, name: Seq<char>)
    requires
        options.checked(Err(name)),
    ensures
        options.transport_params is Some,
        !options.checked(Ok(())),
        options.transport_params matches Some(given) ==> name == if !TransportOptions::acceptable(
            given.initial_max_stream_data_bidi_local,
            u64::MAX,
        ) {
            "initialMaxStreamDataBidiLocal"@
        } else if !TransportOptions::acceptable(
            given.initial_max_stream_data_bidi_remote,
            u64::MAX,
        ) {
            "initialMaxStreamDataBidiRemote"@
        } else if !TransportOptions::acceptable(
            given.initial_max_stream_data_uni,
            u64::MAX,
        ) {
            "initialMaxStreamDataUni"@
        } else if !TransportOptions::acceptable(
            given.initial_max_data,
            u64::MAX,
        ) {
            "initialMaxData"@
        } else if !TransportOptions::acceptable(
            given.initial_max_streams_bidi,
            u64::MAX,
        ) {
            "initialMaxStreamsBidi"@
        } else if !TransportOptions::acceptable(
            given.initial_max_streams_uni,
            u64::MAX,
        ) {
            "initialMaxStreamsUni"@
        } else if !TransportOptions::acceptable(
            given.max_idle_timeout,
            u64::MAX,
        ) {
            "maxIdleTimeout"@
        } else if !TransportOptions::acceptable(
            given.active_connection_id_limit,
            8,
        ) {
            "activeConnectionIDLimit"@
        } else if !TransportOptions::acceptable(
            given.ack_delay_exponent,
            20,
        ) {
            "ackDelayExponent"@
        } else if !TransportOptions::acceptable(
            given.max_ack_delay,
            u64::MAX,
        ) {
            "maxAckDelay"@
        } else {
            "maxDatagramFrameSize"@
        },
{
    let given = options.transport_params->0;
    let i = choose|i: int|
        {
            &&& 0 <= i < TRANSPORT_FIELDS
            &&& !#[trigger] given.field_acceptable(i)
            &&& forall|j: int| 0 <= j < i ==> #[trigger] given.field_acceptable(j)
            &&& name == given.fields()[i].0
        };
    assert(given.field_acceptable(0) == TransportOptions::acceptable(
        given.initial_max_stream_data_bidi_local,
        u64::MAX,
    ));
    assert(given.field_acceptable(1) == TransportOptions::acceptable(
        given.initial_max_stream_data_bidi_remote,
        u64::MAX,
    ));
    assert(given.field_acceptable(2) == TransportOptions::acceptable(
        given.initial_max_stream_data_uni,
        u64::MAX,
    ));
    assert(given.field_acceptable(3) == TransportOptions::acceptable(
        given.initial_max_data,
        u64::MAX,
    ));
    assert(given.field_acceptable(4) == TransportOptions::acceptable(
        given.initial_max_streams_bidi,
        u64::MAX,
    ));
    assert(given.field_acceptable(5) == TransportOptions::acceptable(
        given.initial_max_streams_uni,
        u64::MAX,
    ));
    assert(given.field_acceptable(6) == TransportOptions::acceptable(
        given.max_idle_timeout,
        u64::MAX,
    ));
    assert(given.field_acceptable(7) == TransportOptions::acceptable(
        given.active_connection_id_limit,
        8,
    ));
    assert(given.field_acceptable(8) == TransportOptions::acceptable(
        given.ack_delay_exponent,
        20,
    ));
    assert(given.field_acceptable(9) == TransportOptions::acceptable(
        given.max_ack_delay,
        u64::MAX,
    ));
    assert(given.field_acceptable(10) == TransportOptions::acceptable(
        given.max_datagram_frame_size,
        65535,
    ));
}

/// The transport parameters of a session: each one that is given as a number is
/// used, a duration turned from milliseconds into nanoseconds, and each one
/// that is not has its own default. No other parameter is touched.
pub proof fn law_each_parameter_has_its_own_value(
    options: SessionOptions,
    defaults: ngtcp2_transport_params,
)
    requires
        options.durations_fit(),
    ensures
        options.transport_params is None ==> {
            let base = options.applied_params(defaults);
            &&& base.initial_max_stream_data_bidi_local == 262144
            &&& base.initial_max_stream_data_bidi_remote == 262144
            &&& base.initial_max_stream_data_uni == 262144
            &&& base.initial_max_data == 1048576
            &&& base.initial_max_streams_bidi == 100
            &&& base.initial_max_streams_uni == 3
            &&& base.max_idle_timeout == 10000000000
            &&& base.active_connection_id_limit == 2
            &&& base.ack_delay_exponent == defaults.ack_delay_exponent
            &&& base.max_ack_delay == defaults.max_ack_delay
            &&& base.max_datagram_frame_size == 1200
            &&& base == SessionOptions::base_params(defaults)
        },
        options.transport_params matches Some(given) ==> {
            let after = options.applied_params(defaults);
            &&& after.initial_max_stream_data_bidi_local == match given.initial_max_stream_data_bidi_local.unsigned() {
                Some(value) => value as int,
                None => 262144 as int,
            }
            &&& after.initial_max_stream_data_bidi_remote == match given.initial_max_stream_data_bidi_remote.unsigned() {
                Some(value) => value as int,
                None => 262144 as int,
            }
            &&& after.initial_max_stream_data_uni == match given.initial_max_stream_data_uni.unsigned() {
                Some(value) => value as int,
                None => 262144 as int,
            }
            &&& after.initial_max_data == match given.initial_max_data.unsigned() {
                Some(value) => value as int,
                None => 1048576 as int,
            }
            &&& after.initial_max_streams_bidi == match given.initial_max_streams_bidi.unsigned() {
                Some(value) => value as int,
                None => 100 as int,
            }
            &&& after.initial_max_streams_uni == match given.initial_max_streams_uni.unsigned() {
                Some(value) => value as int,
                None => 3 as int,
            }
            &&& after.max_idle_timeout == match given.max_idle_timeout.unsigned() {
                Some(ms) => ms * 1_000_000 as int,
                None => 10000000000 as int,
            }
            &&& after.active_connection_id_limit == match given.active_connection_id_limit.unsigned() {
                Some(value) => value as int,
                None => 2 as int,
            }
            &&& after.ack_delay_exponent == match given.ack_delay_exponent.unsigned() {
                Some(value) => value as int,
                None => defaults.ack_delay_exponent as int,
            }
            &&& after.max_ack_delay == match given.max_ack_delay.unsigned() {
                Some(ms) => ms * 1_000_000 as int,
                None => defaults.max_ack_delay as int,
            }
            &&& after.max_datagram_frame_size == match given.max_datagram_frame_size.unsigned() {
                Some(value) => value as int,
                None => 1200 as int,
            }
        },
        ({
            let after = options.applied_params(defaults);
            after == (ngtcp2_transport_params {
                initial_max_stream_data_bidi_local: after.initial_max_stream_data_bidi_local,
                initial_max_stream_data_bidi_remote: after.initial_max_stream_data_bidi_remote,
                initial_max_stream_data_uni: after.initial_max_stream_data_uni,
                initial_max_data: after.initial_max_data,
                initial_max_streams_bidi: after.initial_max_streams_bidi,
                initial_max_streams_uni: after.initial_max_streams_uni,
                max_idle_timeout: after.max_idle_timeout,
                active_connection_id_limit: after.active_connection_id_limit,
                ack_delay_exponent: after.ack_delay_exponent,
                max_ack_delay: after.max_ack_delay,
                max_datagram_frame_size: after.max_datagram_frame_size,
                ..defaults
            })
        }),
{
}

/// The script reads each parameter under its own name, durations in
/// milliseconds.
pub proof fn law_parameters_have_their_names(params: ngtcp2_transport_params)
    ensures
        exposed_params(params).len() == 11,
        exposed_params(params)[0] == ("initialMaxStreamDataBidiLocal"@, params.initial_max_stream_data_bidi_local),
        exposed_params(params)[1] == ("initialMaxStreamDataBidiRemote"@, params.initial_max_stream_data_bidi_remote),
        exposed_params(params)[2] == ("initialMaxStreamDataUni"@, params.initial_max_stream_data_uni),
        exposed_params(params)[3] == ("initialMaxData"@, params.initial_max_data),
        exposed_params(params)[4] == ("initialMaxStreamsBidi"@, params.initial_max_streams_bidi),
        exposed_params(params)[5] == ("initialMaxStreamsUni"@, params.initial_max_streams_uni),
        exposed_params(params)[6] == ("maxIdleTimeout"@, (params.max_idle_timeout / 1_000_000)),
        exposed_params(params)[7] == ("activeConnectionIDLimit"@, params.active_connection_id_limit),
        exposed_params(params)[8] == ("ackDelayExponent"@, params.ack_delay_exponent),
        exposed_params(params)[9] == ("maxAckDelay"@, (params.max_ack_delay / 1_000_000)),
        exposed_params(params)[10] == ("maxDatagramFrameSize"@, params.max_datagram_frame_size),
{
}

/// The settings of a session: each option that is given as a number is used,
/// durations turned from milliseconds into nanoseconds, and each one that is
/// not leaves the library's default, but for the handshake timeout, which is
/// ten seconds. No other setting is touched.
pub proof fn law_each_setting_has_its_own_value(
    options: SessionOptions,
    defaults: ngtcp2_settings,
    now: u64,
)
    requires
        options.durations_fit(),
    ensures
        ({
            let after = options.applied_settings(defaults, now);
            &&& after.initial_ts == now
            &&& after.handshake_timeout == match options.handshake_timeout.unsigned() {
                Some(ms) => ms * 1_000_000,
                None => 10_000_000_000,
            }
            &&& after.initial_rtt == match options.initial_rtt.unsigned() {
                Some(ms) => ms * 1_000_000,
                None => defaults.initial_rtt as int,
            }
            &&& match options.max_payload_size.unsigned() {
                Some(size) => size <= usize::MAX ==> after.max_tx_udp_payload_size == size,
                None => after.max_tx_udp_payload_size == defaults.max_tx_udp_payload_size,
            }
            &&& after.max_window == match options.max_window.unsigned() {
                Some(window) => window,
                None => defaults.max_window,
            }
            &&& after.max_stream_window == match options.max_stream_window.unsigned() {
                Some(window) => window,
                None => defaults.max_stream_window,
            }
            &&& after.cc_algo == match options.cc {
                JsValue::Text(name) => if name@ == seq![114u8, 101u8, 110u8, 111u8] {
                    0
                } else if name@ == seq![98u8, 98u8, 114u8] {
                    2
                } else {
                    1
                },
                _ => defaults.cc_algo,
            }
            &&& after == (ngtcp2_settings {
                initial_ts: after.initial_ts,
                handshake_timeout: after.handshake_timeout,
                initial_rtt: after.initial_rtt,
                max_tx_udp_payload_size: after.max_tx_udp_payload_size,
                max_window: after.max_window,
                max_stream_window: after.max_stream_window,
                cc_algo: after.cc_algo,
                ..defaults
            })
        }),
{
}

/// A duration fits exactly where its nanoseconds fit in 64 bits, and all
/// durations of the options must.
pub proof fn law_durations_fit_in_nanoseconds(options: SessionOptions, value: JsValue)
    ensures
        duration_fits(value) <==> (value.unsigned() is None || value.unsigned()->0 * 1_000_000
            <= u64::MAX),
        options.durations_fit() <==> {
            &&& duration_fits(options.handshake_timeout) && duration_fits(options.initial_rtt)
            &&& options.transport_params matches Some(given) ==> duration_fits(
                given.max_idle_timeout,
            ) && duration_fits(given.max_ack_delay)
        },
        drop_newest_name() == seq![
            100u8, 114u8, 111u8, 112u8, 45u8, 110u8, 101u8, 119u8, 101u8, 115u8, 116u8,
        ],
{
}

} // verus!
