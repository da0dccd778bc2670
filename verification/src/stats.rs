//! The names of the statistics slots, in slot order.

use vstd::prelude::*;

use crate::endpoint::ENDPOINT_STATS;
use crate::session::SESSION_STATS;
use crate::stream::STREAM_STATS;

verus! {

/// The list has the names of a sequence, in order.
pub open spec fn names_are(list: Seq<&'static str>, names: Seq<Seq<char>>) -> bool {
    &&& list.len() == names.len()
    &&& forall|i: int| 0 <= i < list.len() ==> (#[trigger] list[i])@ == names[i]
}

pub open spec fn endpoint_stat_names() -> Seq<Seq<char>> {
    seq![
        "CREATED_AT"@,
        "DESTROYED_AT"@,
        "BYTES_RECEIVED"@,
        "BYTES_SENT"@,
        "PACKETS_RECEIVED"@,
        "PACKETS_SENT"@,
        "SERVER_SESSIONS"@,
        "CLIENT_SESSIONS"@,
        "SERVER_BUSY_COUNT"@,
        "RETRY_COUNT"@,
        "RETRY_RATE_LIMITED"@,
        "VERSION_NEGOTIATION_COUNT"@,
        "VERSION_NEGOTIATION_RATE_LIMITED"@,
        "STATELESS_RESET_COUNT"@,
        "STATELESS_RESET_RATE_LIMITED"@,
        "IMMEDIATE_CLOSE_COUNT"@,
        "IMMEDIATE_CLOSE_RATE_LIMITED"@,
        "SESSION_CREATION_RATE_LIMITED"@,
        "PACKETS_BLOCKED"@,
    ]
}

/// The names of an endpoint's statistics: a name's place in the list is its slot.
pub fn endpoint_stats_fields() -> (list: Vec<&'static str>)
    ensures
        names_are(list@, endpoint_stat_names()),
        list@.len() == ENDPOINT_STATS,
{
    let mut list: Vec<&'static str> = Vec::new();
    list.push("CREATED_AT");
    list.push("DESTROYED_AT");
    list.push("BYTES_RECEIVED");
    list.push("BYTES_SENT");
    list.push("PACKETS_RECEIVED");
    list.push("PACKETS_SENT");
    list.push("SERVER_SESSIONS");
    list.push("CLIENT_SESSIONS");
    list.push("SERVER_BUSY_COUNT");
    list.push("RETRY_COUNT");
    list.push("RETRY_RATE_LIMITED");
    list.push("VERSION_NEGOTIATION_COUNT");
    list.push("VERSION_NEGOTIATION_RATE_LIMITED");
    list.push("STATELESS_RESET_COUNT");
    list.push("STATELESS_RESET_RATE_LIMITED");
    list.push("IMMEDIATE_CLOSE_COUNT");
    list.push("IMMEDIATE_CLOSE_RATE_LIMITED");
    list.push("SESSION_CREATION_RATE_LIMITED");
    list.push("PACKETS_BLOCKED");
    list
}

pub open spec fn session_stat_names() -> Seq<Seq<char>> {
    seq![
        "CREATED_AT"@,
        "DESTROYED_AT"@,
        "CLOSING_AT"@,
        "HANDSHAKE_COMPLETED_AT"@,
        "HANDSHAKE_CONFIRMED_AT"@,
        "BYTES_RECEIVED"@,
        "BIDI_IN_STREAM_COUNT"@,
        "BIDI_OUT_STREAM_COUNT"@,
        "UNI_IN_STREAM_COUNT"@,
        "UNI_OUT_STREAM_COUNT"@,
        "MAX_BYTES_IN_FLIGHT"@,
        "BYTES_IN_FLIGHT"@,
        "BLOCK_COUNT"@,
        "CWND"@,
        "LATEST_RTT"@,
        "MIN_RTT"@,
        "RTTVAR"@,
        "SMOOTHED_RTT"@,
        "SSTHRESH"@,
        "PKT_SENT"@,
        "BYTES_SENT"@,
        "PKT_RECV"@,
        "BYTES_RECV"@,
        "PKT_LOST"@,
        "BYTES_LOST"@,
        "PING_RECV"@,
        "PKT_DISCARDED"@,
        "DATAGRAMS_RECEIVED"@,
        "DATAGRAMS_SENT"@,
        "DATAGRAMS_ACKNOWLEDGED"@,
        "DATAGRAMS_LOST"@,
        "STREAMS_IDLE_TIMED_OUT"@,
    ]
}

/// The names of a session's statistics: a name's place in the list is its slot.
pub fn session_stats_fields() -> (list: Vec<&'static str>)
    ensures
        names_are(list@, session_stat_names()),
        list@.len() == SESSION_STATS,
{
    let mut list: Vec<&'static str> = Vec::new();
    list.push("CREATED_AT");
    list.push("DESTROYED_AT");
    list.push("CLOSING_AT");
    list.push("HANDSHAKE_COMPLETED_AT");
    list.push("HANDSHAKE_CONFIRMED_AT");
    list.push("BYTES_RECEIVED");
    list.push("BIDI_IN_STREAM_COUNT");
    list.push("BIDI_OUT_STREAM_COUNT");
    list.push("UNI_IN_STREAM_COUNT");
    list.push("UNI_OUT_STREAM_COUNT");
    list.push("MAX_BYTES_IN_FLIGHT");
    list.push("BYTES_IN_FLIGHT");
    list.push("BLOCK_COUNT");
    list.push("CWND");
    list.push("LATEST_RTT");
    list.push("MIN_RTT");
    list.push("RTTVAR");
    list.push("SMOOTHED_RTT");
    list.push("SSTHRESH");
    list.push("PKT_SENT");
    list.push("BYTES_SENT");
    list.push("PKT_RECV");
    list.push("BYTES_RECV");
    list.push("PKT_LOST");
    list.push("BYTES_LOST");
    list.push("PING_RECV");
    list.push("PKT_DISCARDED");
    list.push("DATAGRAMS_RECEIVED");
    list.push("DATAGRAMS_SENT");
    list.push("DATAGRAMS_ACKNOWLEDGED");
    list.push("DATAGRAMS_LOST");
    list.push("STREAMS_IDLE_TIMED_OUT");
    list
}

pub open spec fn stream_stat_names() -> Seq<Seq<char>> {
    seq![
        "CREATED_AT"@,
        "OPENED_AT"@,
        "RECEIVED_AT"@,
        "ACKED_AT"@,
        "DESTROYED_AT"@,
        "BYTES_RECEIVED"@,
        "BYTES_SENT"@,
        "MAX_OFFSET"@,
        "MAX_OFFSET_ACK"@,
        "MAX_OFFSET_RECV"@,
        "FINAL_SIZE"@,
        "BYTES_ACCUMULATED"@,
        "MAX_BYTES_ACCUMULATED"@,
    ]
}

/// The names of a stream's statistics: a name's place in the list is its slot.
pub fn stream_stats_fields() -> (list: Vec<&'static str>)
    ensures
        names_are(list@, stream_stat_names()),
        list@.len() == STREAM_STATS,
{
    let mut list: Vec<&'static str> = Vec::new();
    list.push("CREATED_AT");
    list.push("OPENED_AT");
    list.push("RECEIVED_AT");
    list.push("ACKED_AT");
    list.push("DESTROYED_AT");
    list.push("BYTES_RECEIVED");
    list.push("BYTES_SENT");
    list.push("MAX_OFFSET");
    list.push("MAX_OFFSET_ACK");
    list.push("MAX_OFFSET_RECV");
    list.push("FINAL_SIZE");
    list.push("BYTES_ACCUMULATED");
    list.push("MAX_BYTES_ACCUMULATED");
    list
}

/// Every slot that is written has the place of its name.
pub proof fn law_slots_have_their_names()
    ensures
        endpoint_stat_names()[crate::endpoint::IDX_STATS_CREATED_AT as int] == "CREATED_AT"@,
        endpoint_stat_names()[crate::endpoint::IDX_STATS_DESTROYED_AT as int] == "DESTROYED_AT"@,
        endpoint_stat_names()[crate::endpoint::IDX_STATS_BYTES_RECEIVED as int] == "BYTES_RECEIVED"@,
        endpoint_stat_names()[crate::endpoint::IDX_STATS_BYTES_SENT as int] == "BYTES_SENT"@,
        endpoint_stat_names()[crate::endpoint::IDX_STATS_PACKETS_RECEIVED as int] == "PACKETS_RECEIVED"@,
        endpoint_stat_names()[crate::endpoint::IDX_STATS_PACKETS_SENT as int] == "PACKETS_SENT"@,
        endpoint_stat_names()[crate::endpoint::IDX_STATS_SERVER_SESSIONS as int] == "SERVER_SESSIONS"@,
        endpoint_stat_names()[crate::endpoint::IDX_STATS_CLIENT_SESSIONS as int] == "CLIENT_SESSIONS"@,
        session_stat_names()[crate::session::IDX_STATS_CREATED_AT as int] == "CREATED_AT"@,
        session_stat_names()[crate::session::IDX_STATS_DESTROYED_AT as int] == "DESTROYED_AT"@,
        session_stat_names()[crate::session::IDX_STATS_CLOSING_AT as int] == "CLOSING_AT"@,
        session_stat_names()[crate::session::IDX_STATS_HANDSHAKE_COMPLETED_AT as int] == "HANDSHAKE_COMPLETED_AT"@,
        session_stat_names()[crate::session::IDX_STATS_BYTES_RECEIVED as int] == "BYTES_RECEIVED"@,
        session_stat_names()[crate::session::IDX_STATS_MAX_BYTES_IN_FLIGHT as int] == "MAX_BYTES_IN_FLIGHT"@,
        session_stat_names()[crate::session::IDX_STATS_BYTES_IN_FLIGHT as int] == "BYTES_IN_FLIGHT"@,
        session_stat_names()[crate::session::IDX_STATS_CWND as int] == "CWND"@,
        session_stat_names()[crate::session::IDX_STATS_LATEST_RTT as int] == "LATEST_RTT"@,
        session_stat_names()[crate::session::IDX_STATS_MIN_RTT as int] == "MIN_RTT"@,
        session_stat_names()[crate::session::IDX_STATS_RTTVAR as int] == "RTTVAR"@,
        session_stat_names()[crate::session::IDX_STATS_SMOOTHED_RTT as int] == "SMOOTHED_RTT"@,
        session_stat_names()[crate::session::IDX_STATS_SSTHRESH as int] == "SSTHRESH"@,
        session_stat_names()[crate::session::IDX_STATS_PKT_SENT as int] == "PKT_SENT"@,
        session_stat_names()[crate::session::IDX_STATS_BYTES_SENT as int] == "BYTES_SENT"@,
        session_stat_names()[crate::session::IDX_STATS_PKT_RECV as int] == "PKT_RECV"@,
        stream_stat_names()[crate::stream::IDX_STATS_CREATED_AT as int] == "CREATED_AT"@,
        stream_stat_names()[crate::stream::IDX_STATS_OPENED_AT as int] == "OPENED_AT"@,
        stream_stat_names()[crate::stream::IDX_STATS_RECEIVED_AT as int] == "RECEIVED_AT"@,
        stream_stat_names()[crate::stream::IDX_STATS_DESTROYED_AT as int] == "DESTROYED_AT"@,
        stream_stat_names()[crate::stream::IDX_STATS_BYTES_RECEIVED as int] == "BYTES_RECEIVED"@,
{
}

/// Every slot has its name, whether or not it is written.
pub proof fn law_every_slot_has_its_name()
    ensures
        endpoint_stat_names().len() == 19,
        endpoint_stat_names()[0] == "CREATED_AT"@,
        endpoint_stat_names()[1] == "DESTROYED_AT"@,
        endpoint_stat_names()[2] == "BYTES_RECEIVED"@,
        endpoint_stat_names()[3] == "BYTES_SENT"@,
        endpoint_stat_names()[4] == "PACKETS_RECEIVED"@,
        endpoint_stat_names()[5] == "PACKETS_SENT"@,
        endpoint_stat_names()[6] == "SERVER_SESSIONS"@,
        endpoint_stat_names()[7] == "CLIENT_SESSIONS"@,
        endpoint_stat_names()[8] == "SERVER_BUSY_COUNT"@,
        endpoint_stat_names()[9] == "RETRY_COUNT"@,
        endpoint_stat_names()[10] == "RETRY_RATE_LIMITED"@,
        endpoint_stat_names()[11] == "VERSION_NEGOTIATION_COUNT"@,
        endpoint_stat_names()[12] == "VERSION_NEGOTIATION_RATE_LIMITED"@,
        endpoint_stat_names()[13] == "STATELESS_RESET_COUNT"@,
        endpoint_stat_names()[14] == "STATELESS_RESET_RATE_LIMITED"@,
        endpoint_stat_names()[15] == "IMMEDIATE_CLOSE_COUNT"@,
        endpoint_stat_names()[16] == "IMMEDIATE_CLOSE_RATE_LIMITED"@,
        endpoint_stat_names()[17] == "SESSION_CREATION_RATE_LIMITED"@,
        endpoint_stat_names()[18] == "PACKETS_BLOCKED"@,
        session_stat_names().len() == 32,
        session_stat_names()[0] == "CREATED_AT"@,
        session_stat_names()[1] == "DESTROYED_AT"@,
        session_stat_names()[2] == "CLOSING_AT"@,
        session_stat_names()[3] == "HANDSHAKE_COMPLETED_AT"@,
        session_stat_names()[4] == "HANDSHAKE_CONFIRMED_AT"@,
        session_stat_names()[5] == "BYTES_RECEIVED"@,
        session_stat_names()[6] == "BIDI_IN_STREAM_COUNT"@,
        session_stat_names()[7] == "BIDI_OUT_STREAM_COUNT"@,
        session_stat_names()[8] == "UNI_IN_STREAM_COUNT"@,
        session_stat_names()[9] == "UNI_OUT_STREAM_COUNT"@,
        session_stat_names()[10] == "MAX_BYTES_IN_FLIGHT"@,
        session_stat_names()[11] == "BYTES_IN_FLIGHT"@,
        session_stat_names()[12] == "BLOCK_COUNT"@,
        session_stat_names()[13] == "CWND"@,
        session_stat_names()[14] == "LATEST_RTT"@,
        session_stat_names()[15] == "MIN_RTT"@,
        session_stat_names()[16] == "RTTVAR"@,
        session_stat_names()[17] == "SMOOTHED_RTT"@,
        session_stat_names()[18] == "SSTHRESH"@,
        session_stat_names()[19] == "PKT_SENT"@,
        session_stat_names()[20] == "BYTES_SENT"@,
        session_stat_names()[21] == "PKT_RECV"@,
        session_stat_names()[22] == "BYTES_RECV"@,
        session_stat_names()[23] == "PKT_LOST"@,
        session_stat_names()[24] == "BYTES_LOST"@,
        session_stat_names()[25] == "PING_RECV"@,
        session_stat_names()[26] == "PKT_DISCARDED"@,
        session_stat_names()[27] == "DATAGRAMS_RECEIVED"@,
        session_stat_names()[28] == "DATAGRAMS_SENT"@,
        session_stat_names()[29] == "DATAGRAMS_ACKNOWLEDGED"@,
        session_stat_names()[30] == "DATAGRAMS_LOST"@,
        session_stat_names()[31] == "STREAMS_IDLE_TIMED_OUT"@,
        stream_stat_names().len() == 13,
        stream_stat_names()[0] == "CREATED_AT"@,
        stream_stat_names()[1] == "OPENED_AT"@,
        stream_stat_names()[2] == "RECEIVED_AT"@,
        stream_stat_names()[3] == "ACKED_AT"@,
        stream_stat_names()[4] == "DESTROYED_AT"@,
        stream_stat_names()[5] == "BYTES_RECEIVED"@,
        stream_stat_names()[6] == "BYTES_SENT"@,
        stream_stat_names()[7] == "MAX_OFFSET"@,
        stream_stat_names()[8] == "MAX_OFFSET_ACK"@,
        stream_stat_names()[9] == "MAX_OFFSET_RECV"@,
        stream_stat_names()[10] == "FINAL_SIZE"@,
        stream_stat_names()[11] == "BYTES_ACCUMULATED"@,
        stream_stat_names()[12] == "MAX_BYTES_ACCUMULATED"@,
{
}

} // verus!
