//! The course of a session: packets, the expiry timer, the handshake, and the
//! ways in which it closes.

use std::collections::VecDeque;

use vstd::arithmetic::power2::pow2;
use vstd::prelude::*;

use crate::address::StoredAddr;
use crate::bytes::bytes_equal;
use crate::datagrams::{datagram_limit, max_datagram_payload};
use crate::events::{stepped, PassView, StreamEvent};
use crate::flush::StreamWrite;
use crate::ngtcp2::{
    ngtcp2_ccerr, ngtcp2_conn_info, NGTCP2_CCERR_TYPE_APPLICATION, NGTCP2_CCERR_TYPE_TRANSPORT, NGTCP2_ERR_CRYPTO,
    NGTCP2_ERR_DRAINING, NGTCP2_MILLISECONDS,
};
use crate::number::JsNumber;
use crate::session::{
    cid_views, CloseError, QuicSession, SessionState, SessionView, IDX_STATS_BYTES_RECEIVED, IDX_STATS_CLOSING_AT,
    IDX_STATS_DESTROYED_AT, IDX_STATS_HANDSHAKE_COMPLETED_AT, IDX_STATS_PKT_RECV, LISTENER_FLAG_DATAGRAM_STATUS,
};
use crate::stream::{QuicStream, StreamView};
use crate::table::{lists_ids, StreamTable};
use crate::value::{read_u64_option, JsValue};

verus! {

/// What a received packet leads to.
#[derive(Copy, Clone, Debug, PartialEq, Eq, Structural)]
pub enum PacketNext {
    /// The peer closed the connection: report it, and stop.
    RemoteClose,
    /// Close the connection because of this error.
    Fail(i32),
    /// Drive the session.
    Drive,
}

/// Where a drive of the session comes from.
#[derive(Copy, Clone, Debug, PartialEq, Eq, Structural)]
pub enum Origin {
    Packet,
    Timer,
    /// A call of the script.
    Call,
}

/// The stages of a drive, in their order.
#[derive(Copy, Clone, Debug, PartialEq, Eq, Structural)]
pub enum DriveStage {
    /// Run the write loop.
    Flush,
    /// Report the handshake if it just completed.
    Handshake,
    /// Dispatch events.
    Events,
    /// Copy the connection's counters.
    Stats,
    /// Re-arm the expiry timer.
    Rearm,
    /// Re-arm the expiry timer, or have it fire on the next turn where events
    /// wait to be dispatched.
    Defer,
    Done,
}

/// The stage after `stage`. Events are not dispatched underneath a call of the
/// script.
pub open spec fn stage_after(origin: Origin, stage: DriveStage, destroyed: bool) -> DriveStage {
    match origin {
        Origin::Call => match stage {
            DriveStage::Flush => DriveStage::Defer,
            _ => DriveStage::Done,
        },
        _ => match stage {
            DriveStage::Flush => if destroyed {
                DriveStage::Done
            } else if origin == Origin::Packet {
                DriveStage::Handshake
            } else {
                DriveStage::Events
            },
            DriveStage::Handshake => if destroyed {
                DriveStage::Done
            } else {
                DriveStage::Events
            },
            DriveStage::Events => if origin == Origin::Packet {
                DriveStage::Stats
            } else {
                DriveStage::Rearm
            },
            DriveStage::Stats => DriveStage::Rearm,
            DriveStage::Rearm => DriveStage::Done,
            DriveStage::Defer => DriveStage::Done,
            DriveStage::Done => DriveStage::Done,
        },
    }
}

/// What the expiry timer is to do.
#[derive(Copy, Clone, Debug, PartialEq, Eq, Structural)]
pub enum TimerChange {
    Keep,
    Cancel,
    /// Fire after this many milliseconds.
    Arm(i64),
}

/// The CONNECTION_CLOSE frame of a close.
#[derive(Copy, Clone, Debug, PartialEq, Eq, Structural)]
pub enum CloseFrame {
    /// None is sent.
    Silent,
    /// The default frame: no error.
    Default,
    /// A frame of this type and code, with the reason of the close.
    Error { type_: i32, code: u64 },
}

/// A close to report: its type, its code, its reason and the error's name.
#[derive(Debug, PartialEq, Eq)]
pub struct CloseReport {
    pub error_type: i32,
    pub code: u64,
    pub reason: Option<Vec<u8>>,
    pub error_name: Option<&'static str>,
}

impl CloseReport {
    /// The report of a close without an error.
    pub open spec fn clean(self) -> bool {
        self.error_type == 0 && self.code == 0 && self.reason is None && self.error_name is None
    }

    fn without_error() -> (report: CloseReport)
        ensures
            report.clean(),
    {
        CloseReport { error_type: 0, code: 0, reason: None, error_name: None }
    }
}

/// What a timer fire leads to.
#[derive(Debug, PartialEq, Eq)]
pub enum TimerNext {
    Ignore,
    /// Complete the close that the script asked for: send the frame, then
    /// report the close.
    Close { frame: CloseFrame, report: CloseReport },
    /// Let the transport handle its expired deadlines.
    Expire,
}

/// What the transport's handling of its expired deadlines leads to.
#[derive(Copy, Clone, Debug, PartialEq, Eq, Structural)]
pub enum ExpiryNext {
    /// An idle timeout, a handshake timeout or another fatal condition: close
    /// the connection because of it.
    Fail(i32),
    /// Drive the session.
    Drive,
}

/// How a connection is closed because of a local error.
#[derive(Copy, Clone, Debug, PartialEq, Eq, Structural)]
pub enum LocalClose {
    Ignore,
    /// With the TLS alert that was raised.
    TlsAlert,
    /// With the error itself.
    Library(i32),
}

/// What destroying a session leads to.
#[derive(Copy, Clone, Debug, PartialEq, Eq, Structural)]
pub enum DestroyNext {
    Ignore,
    /// Tear the session down.
    TearDown,
    /// Send a CONNECTION_CLOSE frame first.
    CloseFirst(CloseFrame),
}

/// What a teardown leaves to be released.
pub struct Teardown {
    /// The expiry timer is to be cancelled.
    pub cancel_timer: bool,
    /// The connection is to be deleted.
    pub delete_conn: bool,
    /// The session's streams, torn down.
    pub streams: Vec<QuicStream>,
    /// Connection IDs that the endpoint is to stop routing.
    pub cids: Vec<Vec<u8>>,
}

/// The options of a graceful close.
pub struct CloseOptions {
    pub code: JsValue,
    pub type_: JsValue,
    pub reason: JsValue,
}

/// The type name `application`.
pub open spec fn application_name() -> Seq<u8> {
    seq![
        0x61u8,
        0x70u8,
        0x70u8,
        0x6cu8,
        0x69u8,
        0x63u8,
        0x61u8,
        0x74u8,
        0x69u8,
        0x6fu8,
        0x6eu8,
    ]
}

impl CloseOptions {
    pub open spec fn code_value(self) -> u64 {
        match self.code {
            JsValue::Number(n) => n.clamped(),
            JsValue::BigInt(code) => code,
            _ => 0,
        }
    }

    pub open spec fn is_application(self) -> bool {
        self.type_ matches JsValue::Text(name) && name@ == application_name()
    }

    pub open spec fn reason_bytes(self) -> Seq<u8> {
        match self.reason {
            JsValue::Text(text) => text@,
            _ => Seq::empty(),
        }
    }

    /// The options carry anything at all.
    pub open spec fn says_something(self) -> bool {
        self.code_value() != 0 || self.is_application() || self.reason_bytes().len() > 0
    }
}

/// The delay, in milliseconds, after which a timer meets a deadline: rounded
/// up, and at least one.
pub open spec fn delay_ms(expiry: u64, now: u64) -> int {
    let ns = if expiry > now {
        expiry - now
    } else {
        0
    };
    let ms = (ns + NGTCP2_MILLISECONDS - 1) / NGTCP2_MILLISECONDS as int;
    if ms < 1 {
        1
    } else {
        ms
    }
}

impl SessionView {
    /// The address that packets are sent to: once set it stays.
    pub open spec fn with_remote(self, remote: StoredAddr) -> SessionView {
        if self.live() && remote.len != 0 && self.remote_addr.len == 0 {
            SessionView { remote_addr: remote, ..self }
        } else {
            self
        }
    }

    /// The handshake reported: at most once, and only when it completed.
    pub open spec fn reports_handshake(self, completed: bool) -> bool {
        !self.handshake_reported && self.live() && completed
    }

    pub open spec fn with_handshake(self, limit: u16, now: u64) -> SessionView {
        SessionView {
            handshake_reported: true,
            state: SessionState {
                handshake_completed: 1,
                stream_open_allowed: 1,
                max_datagram_size: limit,
                ..self.state
            },
            ..self.with_stat(IDX_STATS_HANDSHAKE_COMPLETED_AT as int, now)
        }
    }

    /// The transport has a deadline to meet; the largest value stands for none.
    pub open spec fn has_deadline(self, expiry: u64) -> bool {
        self.live() && expiry != u64::MAX
    }

    /// A close that the script asked for waits for the next turn.
    pub open spec fn close_due(self) -> bool {
        self.live() && self.pending_close
    }

    /// What the timer is to do for the transport's next deadline. A close that
    /// waits comes before any deadline.
    pub open spec fn timer_change(self, expiry: u64, now: u64) -> TimerChange {
        if self.close_due() {
            TimerChange::Arm(1)
        } else if self.has_deadline(expiry) {
            TimerChange::Arm(delay_ms(expiry, now) as i64)
        } else if self.timer_active {
            TimerChange::Cancel
        } else {
            TimerChange::Keep
        }
    }

    pub open spec fn with_rearmed(self, expiry: u64) -> SessionView {
        SessionView { timer_active: self.close_due() || self.has_deadline(expiry), ..self }
    }

    /// Events wait to be dispatched.
    pub open spec fn owes_events(self) -> bool {
        !self.destroyed && self.stream_events.len() > 0
    }

    /// What the timer is to do after a call of the script.
    pub open spec fn call_change(self, expiry: u64, now: u64) -> TimerChange {
        if self.owes_events() {
            TimerChange::Arm(1)
        } else {
            self.timer_change(expiry, now)
        }
    }

    pub open spec fn with_call_finished(self, expiry: u64) -> SessionView {
        SessionView {
            timer_active: self.owes_events() || self.close_due() || self.has_deadline(expiry),
            ..self
        }
    }

    /// The close that waits begun: its error is taken, and the timer fired.
    pub open spec fn with_close_begun(self) -> SessionView {
        SessionView {
            timer_active: false,
            pending_close: false,
            pending_close_error: None,
            ..self
        }
    }

    /// The first report of a close of a live session.
    pub open spec fn reports_close(self) -> bool {
        !self.close_reported && !self.destroyed
    }

    pub open spec fn queued_ids(self) -> Seq<u64> {
        self.datagram_queue.map_values(|entry: (u64, Vec<u8>)| entry.0)
    }

    pub open spec fn with_close_reported(self) -> SessionView {
        if self.reports_close() {
            SessionView { close_reported: true, datagram_queue: Seq::empty(), ..self }
        } else {
            SessionView { close_reported: true, ..self }
        }
    }

    /// Everything native let go.
    pub open spec fn torn_down(self, now: u64) -> SessionView {
        SessionView {
            destroyed: true,
            timer_active: false,
            streams: Map::empty(),
            stream_events: Seq::empty(),
            registered_cids: Seq::empty(),
            conn: false,
            tls: false,
            endpoint: false,
            ..self.with_stat(IDX_STATS_DESTROYED_AT as int, now)
        }
    }

    /// A close that the script asked for can be scheduled.
    pub open spec fn schedules_close(self) -> bool {
        !self.destroyed && !self.close_reported && !self.pending_close
    }

    pub open spec fn with_scheduled_close(self) -> SessionView {
        if self.schedules_close() {
            SessionView { pending_close: true, timer_active: true, ..self }
        } else {
            self
        }
    }

    /// A graceful close asked for, with the error to close with.
    pub open spec fn with_graceful(self, error: Option<CloseError>) -> SessionView {
        SessionView {
            state: SessionState { graceful_close: 1, ..self.state },
            pending_close_error: error,
            ..self
        }
    }

    /// The error of the close that waits, spelled out.
    pub open spec fn close_application(self) -> bool {
        self.pending_close_error matches Some(error) && error.application
    }

    pub open spec fn close_code(self) -> u64 {
        match self.pending_close_error {
            Some(error) => error.code,
            None => 0,
        }
    }

    pub open spec fn close_reason(self) -> Seq<u8> {
        match self.pending_close_error {
            Some(error) => error.reason@,
            None => Seq::empty(),
        }
    }

    /// The frame of the close that waits.
    pub open spec fn close_frame(self) -> CloseFrame {
        if self.state.silent_close != 0 {
            CloseFrame::Silent
        } else if self.close_application() || self.close_code() != 0 || self.close_reason().len()
            > 0 {
            CloseFrame::Error {
                type_: if self.close_application() {
                    NGTCP2_CCERR_TYPE_APPLICATION
                } else {
                    NGTCP2_CCERR_TYPE_TRANSPORT
                },
                code: self.close_code(),
            }
        } else {
            CloseFrame::Default
        }
    }
}

/// The bytes of an optional reason, where an empty one is none.
pub open spec fn reads_as(reason: Option<Vec<u8>>, bytes: Seq<u8>) -> bool {
    match reason {
        Some(reason) => reason@ == bytes && bytes.len() > 0,
        None => bytes.len() == 0,
    }
}

fn non_empty(bytes: Vec<u8>) -> (present: Option<Vec<u8>>)
    ensures
        reads_as(present, bytes@),
        present matches Some(present) ==> present == bytes,
{
    if bytes.len() == 0 {
        None
    } else {
        Some(bytes)
    }
}

impl QuicSession {
    /// A packet arrived from `remote`. Returns the local and the remote
    /// address to read it under, unless the session is not live. The remote
    /// address of the connection is kept: a differing source does not redirect
    /// what is sent.
    pub fn begin_packet(&mut self, remote: StoredAddr) -> (path: Option<(StoredAddr, StoredAddr)>)
        requires
            old(self)@.well_formed(),
        ensures
            final(self)@ == old(self)@.with_remote(remote),
            path == if old(self)@.live() {
                Some((final(self)@.local_addr, final(self)@.remote_addr))
            } else {
                None
            },
            final(self)@.well_formed(),
    {
        if self.destroyed || !self.conn {
            return None;
        }
        if remote.is_set() && !self.remote_addr.is_set() {
            self.remote_addr = remote;
        }
        assert(self@ =~= old(self)@.with_remote(remote));
        Some((self.local_addr, self.remote_addr))
    }

    /// The transport read a packet of `len` bytes with result `rv`; `fatal`
    /// tells whether that is a fatal error.
    pub fn finish_packet(&mut self, len: usize, rv: i32, fatal: bool) -> (next: PacketNext)
        requires
            old(self)@.well_formed(),
        ensures
            final(self)@ == old(self)@.with_added(
                IDX_STATS_BYTES_RECEIVED as int,
                len as u64,
            ).with_added(IDX_STATS_PKT_RECV as int, 1),
            next == if rv == NGTCP2_ERR_DRAINING {
                PacketNext::RemoteClose
            } else if rv == NGTCP2_ERR_CRYPTO || (rv != 0 && fatal) {
                PacketNext::Fail(rv)
            } else {
                PacketNext::Drive
            },
            final(self)@.well_formed(),
    {
        self.add_stat(IDX_STATS_BYTES_RECEIVED, len as u64);
        self.add_stat(IDX_STATS_PKT_RECV, 1);
        if rv != 0 {
            if rv == NGTCP2_ERR_DRAINING {
                return PacketNext::RemoteClose;
            }
            if rv == NGTCP2_ERR_CRYPTO || fatal {
                return PacketNext::Fail(rv);
            }
            // Not fatal: the packet is ignored.
        }
        PacketNext::Drive
    }

    /// The stage after `stage`. Everything that a packet produced is sent
    /// before the handshake is reported, because the report runs code that
    /// must meet a peer that has our handshake data. A session destroyed
    /// meanwhile is driven no further. A call of the script writes and leaves
    /// the events to the next turn.
    pub fn next_stage(&self, origin: Origin, stage: DriveStage) -> (next: DriveStage)
        ensures
            next == stage_after(origin, stage, self@.destroyed),
    {
        if origin == Origin::Call {
            return match stage {
                DriveStage::Flush => DriveStage::Defer,
                _ => DriveStage::Done,
            };
        }
        match stage {
            DriveStage::Flush => {
                if self.destroyed {
                    DriveStage::Done
                } else if origin == Origin::Packet {
                    DriveStage::Handshake
                } else {
                    DriveStage::Events
                }
            },
            DriveStage::Handshake => {
                if self.destroyed {
                    DriveStage::Done
                } else {
                    DriveStage::Events
                }
            },
            DriveStage::Events => {
                if origin == Origin::Packet {
                    DriveStage::Stats
                } else {
                    DriveStage::Rearm
                }
            },
            DriveStage::Stats => DriveStage::Rearm,
            DriveStage::Rearm => DriveStage::Done,
            DriveStage::Defer => DriveStage::Done,
            DriveStage::Done => DriveStage::Done,
        }
    }

    /// Re-arm or cancel the expiry timer for the transport's next deadline;
    /// the largest value stands for none. A close that the script asked for
    /// stays due on the next turn.
    pub fn rearm_timer(&mut self, expiry: u64, now: u64) -> (change: TimerChange)
        requires
            old(self)@.well_formed(),
        ensures
            change == old(self)@.timer_change(expiry, now),
            old(self)@.live() && old(self)@.pending_close ==> change == TimerChange::Arm(1)
                && final(self)@.timer_active,
            final(self)@ == old(self)@.with_rearmed(expiry),
            final(self)@.well_formed(),
    {
        if !self.destroyed && self.conn && self.pending_close {
            self.timer_active = true;
            assert(self@ =~= old(self)@.with_rearmed(expiry));
            return TimerChange::Arm(1);
        }
        if self.destroyed || !self.conn || expiry == u64::MAX {
            let change = if self.timer_active {
                TimerChange::Cancel
            } else {
                TimerChange::Keep
            };
            self.timer_active = false;
            assert(self@ =~= SessionView { timer_active: false, ..old(self)@ });
            return change;
        }
        let ns: u64 = expiry.saturating_sub(now);
        let whole: u64 = ns / NGTCP2_MILLISECONDS;
        let ms: u64 = if ns % NGTCP2_MILLISECONDS != 0 {
            whole + 1
        } else {
            whole
        };
        let ms: u64 = if ms < 1 {
            1
        } else {
            ms
        };
        assert(ms == delay_ms(expiry, now));
        self.timer_active = true;
        assert(self@ =~= SessionView { timer_active: true, ..old(self)@ });
        TimerChange::Arm(ms as i64)
    }

    /// A call of the script was served, and the write loop has run: re-arm the
    /// expiry timer for the transport's next deadline, and last of all have
    /// the events that wait dispatched on the next turn.
    pub fn finish_call(&mut self, expiry: u64, now: u64) -> (change: TimerChange)
        requires
            old(self)@.well_formed(),
        ensures
            change == old(self)@.call_change(expiry, now),
            old(self)@.owes_events() ==> change == TimerChange::Arm(1),
            old(self)@.live() && old(self)@.pending_close ==> change == TimerChange::Arm(1)
                && final(self)@.timer_active,
            final(self)@ == old(self)@.with_call_finished(expiry),
            final(self)@.well_formed(),
    {
        let change = self.rearm_timer(expiry, now);
        let arm: bool = self.schedule_event_dispatch();
        assert(self@ =~= old(self)@.with_call_finished(expiry));
        if arm {
            TimerChange::Arm(1)
        } else {
            change
        }
    }

    /// The expiry timer fired. A close that the script asked for completes
    /// here, one turn later, after the peer got our last packets.
    pub fn on_timer_fire(&mut self) -> (next: TimerNext)
        requires
            old(self)@.well_formed(),
        ensures
            match next {
                TimerNext::Ignore => {
                    &&& !old(self)@.live()
                    &&& final(self)@ == (SessionView { timer_active: false, ..old(self)@ })
                },
                TimerNext::Close { frame, report } => {
                    &&& old(self)@.live() && old(self)@.pending_close
                    &&& final(self)@ == old(self)@.with_close_begun()
                    &&& frame == old(self)@.close_frame()
                    &&& report.error_type == if old(self)@.close_application() {
                        1int
                    } else {
                        0
                    }
                    &&& report.code == old(self)@.close_code()
                    &&& reads_as(report.reason, old(self)@.close_reason())
                    &&& report.error_name is None
                },
                TimerNext::Expire => {
                    &&& old(self)@.live() && !old(self)@.pending_close
                    &&& final(self)@ == (SessionView { timer_active: false, ..old(self)@ })
                },
            },
            final(self)@.well_formed(),
    {
        self.timer_active = false;
        assert(self@ =~= SessionView { timer_active: false, ..old(self)@ });
        if self.destroyed || !self.conn {
            return TimerNext::Ignore;
        }
        if !self.pending_close {
            return TimerNext::Expire;
        }
        self.pending_close = false;
        let error = match self.pending_close_error.take() {
            Some(error) => error,
            None => CloseError { application: false, code: 0, reason: Vec::new() },
        };
        assert(error.reason@ =~= old(self)@.close_reason());
        let frame = if self.state.silent_close != 0 {
            CloseFrame::Silent
        } else if error.application || error.code != 0 || error.reason.len() != 0 {
            let type_: i32 = if error.application {
                NGTCP2_CCERR_TYPE_APPLICATION
            } else {
                NGTCP2_CCERR_TYPE_TRANSPORT
            };
            CloseFrame::Error { type_, code: error.code }
        } else {
            CloseFrame::Default
        };
        let error_type: i32 = if error.application {
            1
        } else {
            0
        };
        assert(self@ =~= old(self)@.with_close_begun());
        let report = CloseReport {
            error_type,
            code: error.code,
            reason: non_empty(error.reason),
            error_name: None,
        };
        TimerNext::Close { frame, report }
    }

    /// The transport handled its expired deadlines with result `rv`.
    pub fn finish_expiry(&self, rv: i32) -> (next: ExpiryNext)
        ensures
            next == if rv != 0 {
                ExpiryNext::Fail(rv)
            } else {
                ExpiryNext::Drive
            },
    {
        if rv != 0 {
            ExpiryNext::Fail(rv)
        } else {
            ExpiryNext::Drive
        }
    }

    /// Report the handshake if it just completed: `completed` is what the
    /// transport says, and `max_datagram_frame_size` the peer's limit, zero
    /// where its parameters are not known. Returns whether there is anything
    /// to report, and then the address that a server makes an
    /// address-validation token for.
    pub fn maybe_report_handshake(
        &mut self,
        completed: bool,
        max_datagram_frame_size: u64,
        now: u64,
    ) -> (report: Option<Option<StoredAddr>>)
        requires
            old(self)@.well_formed(),
        ensures
            match report {
                Some(token_for) => {
                    &&& old(self)@.reports_handshake(completed)
                    &&& token_for == if old(self)@.is_server && old(self)@.endpoint && old(
                        self,
                    )@.remote_addr.len != 0 {
                        Some(old(self)@.remote_addr)
                    } else {
                        None
                    }
                    &&& exists|limit: u16|
                        {
                            &&& final(self)@ == #[trigger] old(self)@.with_handshake(limit, now)
                            &&& datagram_limit(
                                max_datagram_frame_size as int,
                                limit as int,
                            )
                        }
                },
                None => {
                    &&& !old(self)@.reports_handshake(completed)
                    &&& final(self)@ == old(self)@
                },
            },
            final(self)@.well_formed(),
    {
        if self.handshake_reported || self.destroyed || !self.conn || !completed {
            return None;
        }
        self.handshake_reported = true;
        self.write_stat(IDX_STATS_HANDSHAKE_COMPLETED_AT, now);
        self.state.handshake_completed = 1;
        self.state.stream_open_allowed = 1;
        let token_for = if self.is_server && self.endpoint && self.remote_addr.is_set() {
            Some(self.remote_addr)
        } else {
            None
        };
        let payload: u64 = max_datagram_payload(max_datagram_frame_size);
        let limit: u16 = if payload > 0xffff {
            0xffff
        } else {
            payload as u16
        };
        self.state.max_datagram_size = limit;
        assert(self@ =~= old(self)@.with_handshake(limit, now));
        Some(token_for)
    }

    /// A close that the peer initiated, as the transport recorded it.
    pub fn report_remote_close(&self, ccerr: Option<ngtcp2_ccerr>) -> (report: CloseReport)
        ensures
            match ccerr {
                Some(ccerr) if self@.conn => {
                    &&& report.error_type == ccerr.type_
                    &&& report.code == ccerr.error_code
                    &&& reads_as(report.reason, ccerr.reason@)
                    &&& report.error_name is None
                },
                _ => report.clean(),
            },
    {
        match ccerr {
            Some(ccerr) => {
                if !self.conn {
                    return CloseReport::without_error();
                }
                CloseReport {
                    error_type: ccerr.type_,
                    code: ccerr.error_code,
                    reason: non_empty(ccerr.reason),
                    error_name: None,
                }
            },
            None => CloseReport::without_error(),
        }
    }

    /// How a local error closes the connection: a TLS failure is told by its
    /// alert, which is what the peer must see.
    pub fn close_with_local_error(&self, liberr: i32) -> (close: LocalClose)
        ensures
            close == if !self@.live() {
                LocalClose::Ignore
            } else if liberr == NGTCP2_ERR_CRYPTO {
                LocalClose::TlsAlert
            } else {
                LocalClose::Library(liberr)
            },
    {
        if self.destroyed || !self.conn {
            LocalClose::Ignore
        } else if liberr == NGTCP2_ERR_CRYPTO {
            LocalClose::TlsAlert
        } else {
            LocalClose::Library(liberr)
        }
    }

    /// The path to write a CONNECTION_CLOSE packet under, unless there is no
    /// connection or nowhere to send it.
    pub fn send_connection_close(&self) -> (path: Option<(StoredAddr, StoredAddr)>)
        ensures
            path == if self@.conn && self@.endpoint {
                Some((self@.local_addr, self@.remote_addr))
            } else {
                None
            },
    {
        if !self.conn || !self.endpoint {
            return None;
        }
        Some((self.local_addr, self.remote_addr))
    }

    /// How a close because of a local error is reported, from the type and
    /// the code that the transport gave the error.
    pub fn report_local_close(&self, error_type: i32, code: u64) -> (report: CloseReport)
        ensures
            report.error_type == error_type,
            report.code == code,
            report.reason is None,
            report.error_name is None,
    {
        CloseReport { error_type, code, reason: None, error_name: None }
    }

    /// The endpoint closes: the frame that tells the peer and the report that
    /// tells the script, unless the close was reported before.
    pub fn close_from_endpoint(&self) -> (close: Option<(CloseFrame, CloseReport)>)
        ensures
            match close {
                Some((frame, report)) => {
                    &&& self@.reports_close()
                    &&& frame == CloseFrame::Default
                    &&& report.clean()
                },
                None => !self@.reports_close(),
            },
    {
        if self.close_reported || self.destroyed {
            return None;
        }
        Some((CloseFrame::Default, CloseReport::without_error()))
    }

    /// Begin to report a close: at most once. Returns the datagrams to report
    /// as abandoned first; they are never sent.
    pub fn begin_report_close(&mut self) -> (abandoned: Option<VecDeque<u64>>)
        requires
            old(self)@.well_formed(),
        ensures
            final(self)@ == old(self)@.with_close_reported(),
            match abandoned {
                Some(abandoned) => {
                    &&& old(self)@.reports_close()
                    &&& abandoned@ == if old(self)@.wants(LISTENER_FLAG_DATAGRAM_STATUS) {
                        old(self)@.queued_ids()
                    } else {
                        Seq::empty()
                    }
                },
                None => !old(self)@.reports_close(),
            },
            final(self)@.well_formed(),
    {
        let first: bool = !self.close_reported && !self.destroyed;
        self.close_reported = true;
        if !first {
            assert(self@ =~= old(self)@.with_close_reported());
            return None;
        }
        let mut queue: VecDeque<(u64, Vec<u8>)> = VecDeque::new();
        core::mem::swap(&mut queue, &mut self.datagram_queue);
        assert(self@ =~= old(self)@.with_close_reported());
        let mut abandoned: VecDeque<u64> = VecDeque::new();
        if self.state.listener_flags & LISTENER_FLAG_DATAGRAM_STATUS != 0 {
            let ghost ids = old(self)@.queued_ids();
            let mut at: usize = 0;
            while at < queue.len()
                invariant
                    at <= queue@.len(),
                    ids == queue@.map_values(|entry: (u64, Vec<u8>)| entry.0),
                    abandoned@ == ids.take(at as int),
                decreases queue@.len() - at,
            {
                abandoned.push_back(queue[at].0);
                at = at + 1;
                assert(abandoned@ =~= ids.take(at as int));
            }
            assert(abandoned@ =~= ids);
        }
        Some(abandoned)
    }

    /// The next abandoned datagram to report; none once the session is
    /// destroyed.
    pub fn next_abandoned(&self, abandoned: &mut VecDeque<u64>) -> (id: Option<u64>)
        ensures
            if self@.destroyed || old(abandoned)@.len() == 0 {
                id is None && final(abandoned)@ == old(abandoned)@
            } else {
                id == Some(old(abandoned)@[0]) && final(abandoned)@ == old(abandoned)@.skip(1)
            },
    {
        if self.destroyed {
            return None;
        }
        let id = abandoned.pop_front();
        assert(old(abandoned)@.len() > 0 ==> abandoned@ =~= old(abandoned)@.skip(1));
        id
    }

    /// Note the close before `onSessionClose` is called. Returns what it is
    /// called with: an empty reason is none.
    pub fn finish_report_close(&mut self, report: CloseReport, now: u64) -> (shown: CloseReport)
        requires
            old(self)@.well_formed(),
        ensures
            final(self)@ == (SessionView {
                state: SessionState { closing: 1, ..old(self)@.state },
                ..old(self)@.with_stat(IDX_STATS_CLOSING_AT as int, now)
            }),
            final(self)@.well_formed(),
            shown.error_type == report.error_type,
            shown.code == report.code,
            shown.error_name == report.error_name,
            match report.reason {
                Some(reason) => reads_as(shown.reason, reason@),
                None => shown.reason is None,
            },
    {
        self.write_stat(IDX_STATS_CLOSING_AT, now);
        self.state.closing = 1;
        assert(self@ =~= SessionView {
            state: SessionState { closing: 1, ..old(self)@.state },
            ..old(self)@.with_stat(IDX_STATS_CLOSING_AT as int, now)
        });
        let reason = match report.reason {
            Some(reason) => non_empty(reason),
            None => None,
        };
        CloseReport {
            error_type: report.error_type,
            code: report.code,
            reason,
            error_name: report.error_name,
        }
    }
}

/// `list` holds every stream of the table once, torn down, in some order.
pub open spec fn all_torn_down(
    list: Seq<QuicStream>,
    streams: Map<i64, StreamView>,
    now: u64,
) -> bool {
    &&& forall|i: int, j: int|
        #![trigger list[i], list[j]]
        0 <= i < j < list.len() ==> list[i]@.id != list[j]@.id
    &&& forall|i: int|
        #![trigger list[i]]
        0 <= i < list.len() ==> streams.contains_key(list[i]@.id) && list[i]@
            == streams[list[i]@.id].torn_down(now)
    &&& forall|id: i64| #[trigger]
        streams.contains_key(id) ==> exists|i: int|
            0 <= i < list.len() && (#[trigger] list[i])@.id == id
}

/// What the TLS state tells about a completed handshake, as bytes of text.
pub struct HandshakeFacts {
    pub servername: Option<Vec<u8>>,
    pub protocol: Option<Vec<u8>>,
    pub cipher: Option<Vec<u8>>,
    pub cipher_version: Option<Vec<u8>>,
    /// Reason and code of a failed validation of the peer.
    pub validation: Option<(Vec<u8>, Vec<u8>)>,
}

/// What `onSessionHandshake` is called with: text that is empty is left out.
#[derive(Debug, PartialEq, Eq)]
pub struct HandshakeInfo {
    pub servername: Option<Vec<u8>>,
    pub protocol: Option<Vec<u8>>,
    pub cipher: Option<Vec<u8>>,
    pub cipher_version: Option<Vec<u8>>,
    pub validation_reason: Option<Vec<u8>>,
    pub validation_code: Option<Vec<u8>>,
    /// Early data is not sent.
    pub early_data_attempted: bool,
    pub early_data_accepted: bool,
}

/// `shown` is `text`, left out where it is empty or not there.
pub open spec fn shows_text(shown: Option<Vec<u8>>, text: Option<Vec<u8>>) -> bool {
    match text {
        Some(text) => if text@.len() == 0 {
            shown is None
        } else {
            shown == Some(text)
        },
        None => shown is None,
    }
}

fn shown_text(text: Option<Vec<u8>>) -> (shown: Option<Vec<u8>>)
    ensures
        shows_text(shown, text),
{
    match text {
        Some(text) => non_empty(text),
        None => None,
    }
}

/// Number one.
pub const JS_ONE: u64 = 0x3ff0_0000_0000_0000;

impl QuicSession {
    /// Release everything native. A second call does nothing.
    pub fn teardown(&mut self, now: u64) -> (released: Option<Teardown>)
        requires
            old(self)@.well_formed(),
        ensures
            match released {
                Some(released) => {
                    &&& !old(self)@.destroyed
                    &&& final(self)@ == old(self)@.torn_down(now)
                    &&& released.cancel_timer == old(self)@.timer_active
                    &&& released.delete_conn == old(self)@.conn
                    &&& all_torn_down(released.streams@, old(self)@.streams, now)
                    &&& cid_views(released.cids@) == old(self)@.registered_cids
                },
                None => old(self)@.destroyed && final(self)@ == old(self)@,
            },
            final(self)@.well_formed(),
    {
        if self.destroyed {
            return None;
        }
        self.destroyed = true;
        let cancel_timer: bool = self.timer_active;
        self.timer_active = false;
        // The streams go first, so that nothing refers to the connection when
        // it is deleted.
        let streams = self.take_streams(now);
        self.stream_events.clear();
        let mut cids: Vec<Vec<u8>> = Vec::new();
        core::mem::swap(&mut cids, &mut self.registered_cids);
        let delete_conn: bool = self.conn;
        self.conn = false;
        self.tls = false;
        self.write_stat(IDX_STATS_DESTROYED_AT, now);
        self.endpoint = false;
        assert(cid_views(self.registered_cids@) =~= Seq::empty());
        assert(self@ =~= old(self)@.torn_down(now));
        Some(Teardown { cancel_timer, delete_conn, streams, cids })
    }

    /// Take every stream out of the table and tear it down.
    fn take_streams(&mut self, now: u64) -> (list: Vec<QuicStream>)
        requires
            forall|id: i64|
                #![trigger old(self)@.streams[id]]
                old(self)@.streams.contains_key(id) ==> old(self)@.streams[id].well_formed()
                    && old(self)@.streams[id].id == id,
        ensures
            final(self)@ == (SessionView { streams: Map::empty(), ..old(self)@ }),
            all_torn_down(list@, old(self)@.streams, now),
    {
        let ghost streams = self@.streams;
        let mut table = StreamTable::new();
        core::mem::swap(&mut table, &mut self.streams);
        assert(self@ =~= SessionView { streams: Map::empty(), ..old(self)@ });
        let ids = table.ids();
        assert forall|i: int| 0 <= i < ids@.len() implies streams.contains_key(
            #[trigger] ids@[i],
        ) by {
            assert(ids@.contains(ids@[i]));
        }
        let mut list: Vec<QuicStream> = Vec::new();
        let mut at: usize = 0;
        while at < ids.len()
            invariant
                at <= ids@.len(),
                lists_ids(ids@, streams),
                forall|i: int| 0 <= i < ids@.len() ==> streams.contains_key(#[trigger] ids@[i]),
                forall|id: i64|
                    #![trigger streams[id]]
                    streams.contains_key(id) ==> streams[id].well_formed() && streams[id].id == id,
                forall|i: int|
                    at <= i < ids@.len() ==> table@.contains_key(#[trigger] ids@[i])
                        && table@[ids@[i]] == streams[ids@[i]],
                list@.len() == at,
                forall|i: int|
                    #![trigger list@[i]]
                    0 <= i < at ==> list@[i]@.id == ids@[i] && streams.contains_key(ids@[i])
                        && list@[i]@ == streams[ids@[i]].torn_down(now),
            decreases ids@.len() - at,
        {
            let id: i64 = ids[at];
            match table.take(id) {
                Some(mut stream) => {
                    let _unregister = stream.teardown(now);
                    list.push(stream);
                },
                None => {
                    assert(false);
                },
            }
            at = at + 1;
        }
        assert forall|id: i64| #[trigger] streams.contains_key(id) implies exists|i: int|
            0 <= i < list@.len() && (#[trigger] list@[i])@.id == id by {
            assert(ids@.contains(id));
            let i = choose|i: int| 0 <= i < ids@.len() && ids@[i] == id;
            assert(list@[i]@.id == id);
        }
        list
    }

    /// `destroy(options)`: a session that was not reported closed tells the
    /// peer first. `code` is the option of that name.
    pub fn destroy(&self, code: &JsValue) -> (next: DestroyNext)
        ensures
            next == if self@.destroyed {
                DestroyNext::Ignore
            } else if self@.close_reported || !self@.conn {
                DestroyNext::TearDown
            } else {
                DestroyNext::CloseFirst(
                    match code.unsigned() {
                        Some(code) if code != 0 => CloseFrame::Error {
                            type_: NGTCP2_CCERR_TYPE_APPLICATION,
                            code,
                        },
                        _ => CloseFrame::Default,
                    },
                )
            },
    {
        if self.destroyed {
            return DestroyNext::Ignore;
        }
        if self.close_reported || !self.conn {
            return DestroyNext::TearDown;
        }
        let code: u64 = match read_u64_option(code) {
            Some(code) => code,
            None => 0,
        };
        if code != 0 {
            DestroyNext::CloseFirst(CloseFrame::Error { type_: NGTCP2_CCERR_TYPE_APPLICATION, code })
        } else {
            DestroyNext::CloseFirst(CloseFrame::Default)
        }
    }

    /// Have the close complete on the next timer fire. Returns whether the
    /// timer is to be armed for the next turn.
    fn schedule_close(&mut self) -> (arm: bool)
        requires
            old(self)@.well_formed(),
        ensures
            arm == old(self)@.schedules_close(),
            final(self)@ == old(self)@.with_scheduled_close(),
            final(self)@.well_formed(),
    {
        if self.destroyed || self.close_reported || self.pending_close {
            return false;
        }
        self.pending_close = true;
        self.timer_active = true;
        assert(self@ =~= old(self)@.with_scheduled_close());
        true
    }

    /// `gracefulClose(options)`: the options, where they say anything, are
    /// carried by the CONNECTION_CLOSE frame once the close completes. Returns
    /// whether the timer is to be armed for the next turn.
    pub fn graceful_close(&mut self, options: Option<CloseOptions>) -> (arm: bool)
        requires
            old(self)@.well_formed(),
        ensures
            arm == old(self)@.schedules_close(),
            if old(self)@.destroyed {
                final(self)@ == old(self)@
            } else {
                exists|error: Option<CloseError>|
                    {
                        &&& final(self)@ == (#[trigger] old(self)@.with_graceful(
                            error,
                        )).with_scheduled_close()
                        &&& match options {
                            Some(options) if options.says_something() => error matches Some(error)
                                && error.application == options.is_application() && error.code
                                == options.code_value() && error.reason@ == options.reason_bytes(),
                            _ => error == old(self)@.pending_close_error,
                        }
                    }
            },
            final(self)@.well_formed(),
    {
        if self.destroyed {
            return false;
        }
        self.state.graceful_close = 1;
        if let Some(options) = options {
            let code: u64 = match &options.code {
                JsValue::Number(n) => n.to_u64(),
                JsValue::BigInt(code) => *code,
                _ => 0,
            };
            let application: bool = match &options.type_ {
                JsValue::Text(name) => {
                    let wanted = [
                        0x61u8,
                        0x70u8,
                        0x70u8,
                        0x6cu8,
                        0x69u8,
                        0x63u8,
                        0x61u8,
                        0x74u8,
                        0x69u8,
                        0x6fu8,
                        0x6eu8,
                    ];
                    assert(wanted@ =~= application_name());
                    bytes_equal(name.as_slice(), wanted.as_slice())
                },
                _ => false,
            };
            let ghost said = options.reason_bytes();
            let reason: Vec<u8> = match options.reason {
                JsValue::Text(text) => text,
                _ => Vec::new(),
            };
            assert(reason@ =~= said);
            if code != 0 || application || reason.len() != 0 {
                self.pending_close_error = Some(CloseError { application, code, reason });
            }
        }
        assert(self@ =~= old(self)@.with_graceful(self.pending_close_error));
        self.schedule_close()
    }

    /// `silentClose()`: nothing is sent. Returns whether the timer is to be
    /// armed for the next turn.
    pub fn silent_close(&mut self) -> (arm: bool)
        requires
            old(self)@.well_formed(),
        ensures
            arm == old(self)@.schedules_close(),
            final(self)@ == if old(self)@.destroyed {
                old(self)@
            } else {
                (SessionView {
                    state: SessionState { silent_close: 1, ..old(self)@.state },
                    ..old(self)@
                }).with_scheduled_close()
            },
            final(self)@.well_formed(),
    {
        if self.destroyed {
            return false;
        }
        self.state.silent_close = 1;
        assert(self@ =~= SessionView {
            state: SessionState { silent_close: 1, ..old(self)@.state },
            ..old(self)@
        });
        self.schedule_close()
    }

    /// What `onSessionHandshake` is called with, if the TLS state is there.
    pub fn handshake_info(&self, facts: HandshakeFacts) -> (info: Option<HandshakeInfo>)
        ensures
            match info {
                Some(info) => {
                    &&& self@.tls
                    &&& shows_text(info.servername, facts.servername)
                    &&& shows_text(info.protocol, facts.protocol)
                    &&& shows_text(info.cipher, facts.cipher)
                    &&& shows_text(info.cipher_version, facts.cipher_version)
                    &&& match facts.validation {
                        Some((reason, code)) => shows_text(info.validation_reason, Some(reason))
                            && shows_text(info.validation_code, Some(code)),
                        None => info.validation_reason is None && info.validation_code is None,
                    }
                    &&& !info.early_data_attempted && !info.early_data_accepted
                },
                None => !self@.tls,
            },
    {
        if !self.tls {
            return None;
        }
        let (validation_reason, validation_code) = match facts.validation {
            Some((reason, code)) => (shown_text(Some(reason)), shown_text(Some(code))),
            None => (None, None),
        };
        Some(
            HandshakeInfo {
                servername: shown_text(facts.servername),
                protocol: shown_text(facts.protocol),
                cipher: shown_text(facts.cipher),
                cipher_version: shown_text(facts.cipher_version),
                validation_reason,
                validation_code,
                early_data_attempted: false,
                early_data_accepted: false,
            },
        )
    }

    /// The certificate that this side presented, given what the TLS state
    /// holds.
    pub fn get_certificate(&self, der: Option<Vec<u8>>) -> (certificate: Option<Vec<u8>>)
        ensures
            certificate == if self@.destroyed || !self@.tls {
                None
            } else {
                der
            },
    {
        if self.destroyed || !self.tls {
            return None;
        }
        der
    }

    /// The certificate that the peer presented, given what the TLS state
    /// holds.
    pub fn get_peer_certificate(&self, der: Option<Vec<u8>>) -> (certificate: Option<Vec<u8>>)
        ensures
            certificate == if self@.destroyed || !self@.tls {
                None
            } else {
                der
            },
    {
        if self.destroyed || !self.tls {
            return None;
        }
        der
    }

    /// Whether a client session has an ephemeral key to show.
    pub fn get_ephemeral_key(&self) -> (present: bool)
        ensures
            present == (!self@.destroyed && !self@.is_server && self@.handshake_reported),
    {
        !self.destroyed && !self.is_server && self.handshake_reported
    }

    /// Keys are not updated on request.
    pub fn update_key(&self) -> (outcome: Result<(), &'static str>)
        ensures
            outcome matches Err(message) && message@
                == "QuicSession.updateKey is not implemented yet"@,
    {
        Err("QuicSession.updateKey is not implemented yet")
    }

    /// `openStream(direction, body)`: whether to open a unidirectional stream,
    /// unless the session is not live.
    pub fn open_stream(&self, direction: &JsValue) -> (unidirectional: Option<bool>)
        ensures
            unidirectional == if self@.live() {
                Some(direction matches JsValue::Number(n) && n.bits == JS_ONE)
            } else {
                None
            },
    {
        if self.destroyed || !self.conn {
            return None;
        }
        match direction {
            JsValue::Number(n) => Some(n.bits == JS_ONE),
            _ => Some(false),
        }
    }

    /// The transport opened a stream with result `rv`; enter it, with the body
    /// queued where the body is bytes. Returns whether there is a stream: no
    /// stream credit is an error too.
    pub fn stream_opened(&mut self, rv: i32, id: i64, body: &JsValue, now: u64) -> (opened: bool)
        requires
            old(self)@.well_formed(),
            old(self)@.live(),
        ensures
            opened == (rv == 0),
            final(self)@ == if !opened {
                old(self)@
            } else {
                old(self)@.with_stream(
                    id,
                    match *body {
                        JsValue::Buffer(bytes) => StreamView::created(id, now).with_source(bytes@),
                        _ => StreamView::created(id, now),
                    },
                )
            },
            final(self)@.well_formed(),
    {
        if rv != 0 {
            return false;
        }
        let mut stream = QuicStream::create(id, now);
        if let JsValue::Buffer(bytes) = body {
            assert(bytes.len() <= usize::MAX);
            let _kick = stream.attach_source(body);
        }
        let ghost entered = stream@;
        self.streams.put(id, stream);
        assert(self@ =~= old(self)@.with_stream(id, entered));
        true
    }

    /// Tear a stream down and forget it.
    pub fn teardown_stream(&mut self, id: i64, now: u64) -> (stream: Option<QuicStream>)
        requires
            old(self)@.well_formed(),
        ensures
            final(self)@ == (SessionView {
                streams: old(self)@.streams.remove(id),
                ..old(self)@
            }),
            match stream {
                Some(stream) => old(self)@.streams.contains_key(id) && stream@
                    == old(self)@.streams[id].torn_down(now),
                None => !old(self)@.streams.contains_key(id),
            },
            final(self)@.well_formed(),
    {
        let taken = self.streams.take(id);
        assert(self@ =~= SessionView { streams: old(self)@.streams.remove(id), ..old(self)@ });
        match taken {
            Some(mut stream) => {
                let _unregister = stream.teardown(now);
                Some(stream)
            },
            None => None,
        }
    }

    /// Whether stream-level credit for consumed bytes is to be granted.
    pub fn extend_stream_offset(&self, consumed: u64) -> (grant: bool)
        ensures
            grant == (self@.live() && consumed != 0),
    {
        !self.destroyed && self.conn && consumed != 0
    }
}

/// A timer set for a deadline never fires before it, and less than a
/// millisecond after it, or a millisecond from now where the deadline passed.
pub proof fn law_timer_meets_the_deadline(expiry: u64, now: u64)
    ensures
        now + delay_ms(expiry, now) * NGTCP2_MILLISECONDS >= expiry,
        expiry > now ==> now + delay_ms(expiry, now) * NGTCP2_MILLISECONDS < expiry
            + NGTCP2_MILLISECONDS,
        expiry <= now ==> delay_ms(expiry, now) == 1,
        1 <= delay_ms(expiry, now) <= i64::MAX,
{
}

/// No event is dispatched and no handshake reported while a call of the script
/// is served.
pub proof fn law_call_dispatches_nothing(stage: DriveStage, destroyed: bool)
    ensures
        stage_after(Origin::Call, stage, destroyed) != DriveStage::Events,
        stage_after(Origin::Call, stage, destroyed) != DriveStage::Handshake,
{
}

/// Events recorded while a call of the script is served, by the write loop or
/// by the transport, stay queued in their order, and the timer is due on the
/// next turn once the call was served: within a millisecond, and no later than
/// the transport's own deadline asks for.
pub proof fn law_events_of_a_call_are_due_next_turn(
    session: SessionView,
    write: StreamWrite,
    n: i64,
    taken: i64,
    datagram: (u64, Vec<u8>),
    accepted: bool,
    event: StreamEvent,
    expiry: u64,
    now: u64,
)
    requires
        !session.destroyed,
    ensures
        ({
            let written = session.with_write(write, n, taken);
            &&& session.stream_events.is_prefix_of(written.stream_events)
            &&& session.owes_events() ==> written.owes_events()
            &&& write.stream is Some && write.len > 0 && n >= 0 && taken > 0
                ==> written.owes_events()
        }),
        ({
            let settled = session.with_settled_datagram(datagram.0, datagram.1, n, accepted);
            &&& session.stream_events.is_prefix_of(settled.stream_events)
            &&& session.owes_events() ==> settled.owes_events()
            &&& n < 0 ==> settled.owes_events()
        }),
        session.with_event(event).owes_events(),
        session.with_call_finished(expiry).stream_events == session.stream_events,
        session.owes_events() ==> {
            &&& session.call_change(expiry, now) == TimerChange::Arm(1)
            &&& session.with_call_finished(expiry).timer_active
            &&& 1 <= delay_ms(expiry, now)
        },
{
}

/// A close that the script asked for is due on the next turn from the moment
/// it is scheduled, and stays so whatever happens until the timer fires: through
/// writes, datagrams, recorded events and their dispatch, packets, changes of a
/// stream, and every re-arming of the timer.
pub proof fn law_scheduled_close_stays_due(
    session: SessionView,
    write: StreamWrite,
    n: i64,
    taken: i64,
    datagram: (u64, Vec<u8>),
    accepted: bool,
    event: StreamEvent,
    pass: PassView,
    remote: StoredAddr,
    limit: u16,
    info: ngtcp2_conn_info,
    id: i64,
    stream: StreamView,
    expiry: u64,
    now: u64,
)
    requires
        session.live(),
    ensures
        session.schedules_close() ==> session.with_scheduled_close().close_due()
            && session.with_scheduled_close().timer_active,
        session.close_due() ==> {
            &&& session.timer_change(expiry, now) == TimerChange::Arm(1)
            &&& session.call_change(expiry, now) == TimerChange::Arm(1)
            &&& session.with_rearmed(expiry).close_due()
            &&& session.with_rearmed(expiry).timer_active
            &&& session.with_call_finished(expiry).close_due()
            &&& session.with_call_finished(expiry).timer_active
        },
        session.close_due() && session.timer_active ==> {
            let written = session.with_write(write, n, taken);
            let settled = session.with_settled_datagram(datagram.0, datagram.1, n, accepted);
            let queued = session.with_datagram(datagram.1);
            let recorded = session.with_event(event);
            let step = stepped(session, pass, now).session;
            let moved = session.with_remote(remote);
            let shaken = session.with_handshake(limit, now);
            let synced = session.with_conn_info(info);
            let changed = session.with_stream(id, stream);
            let again = session.with_scheduled_close();
            &&& written.close_due() && written.timer_active
            &&& settled.close_due() && settled.timer_active
            &&& queued.close_due() && queued.timer_active
            &&& recorded.close_due() && recorded.timer_active
            &&& step.close_due() && step.timer_active
            &&& moved.close_due() && moved.timer_active
            &&& shaken.close_due() && shaken.timer_active
            &&& synced.close_due() && synced.timer_active
            &&& changed.close_due() && changed.timer_active
            &&& again.close_due() && again.timer_active
        },
{
}

/// The timer that completes a close dispatches nothing: events that wait then
/// stay queued as they are, and go with the session when it is torn down. As
/// long as it is not, they are due again after the next call of the script.
pub proof fn law_close_leaves_waiting_events(session: SessionView, expiry: u64, now: u64)
    ensures
        session.with_close_begun().stream_events == session.stream_events,
        session.with_close_begun().with_close_reported().stream_events == session.stream_events,
        session.with_close_begun().with_close_reported().torn_down(now).stream_events.len() == 0,
        session.owes_events() ==> session.with_close_begun().with_close_reported().call_change(
            expiry,
            now,
        ) == TimerChange::Arm(1),
{
}

/// A handshake is reported at most once.
pub proof fn law_handshake_is_reported_once(
    session: SessionView,
    limit: u16,
    now: u64,
    completed: bool,
)
    ensures
        !session.with_handshake(limit, now).reports_handshake(completed),
{
}

/// A close is reported at most once: after the first report, and after a
/// teardown, there is none.
pub proof fn law_close_is_reported_once(session: SessionView, now: u64)
    ensures
        !session.with_close_reported().reports_close(),
        !session.torn_down(now).reports_close(),
        !session.with_close_reported().torn_down(now).reports_close(),
{
}

/// Once a close was reported no further close is scheduled, and a scheduled
/// one is not scheduled again.
pub proof fn law_close_is_scheduled_once(session: SessionView)
    ensures
        !session.with_scheduled_close().schedules_close(),
        !session.with_close_reported().schedules_close(),
{
}

/// The address that packets are sent to stays the one the connection was
/// established with, whatever address packets come from.
pub proof fn law_remote_address_is_not_redirected(session: SessionView, remote: StoredAddr)
    requires
        session.remote_addr.len != 0,
    ensures
        session.with_remote(remote).remote_addr == session.remote_addr,
{
}

/// A torn down session is not live, holds no stream, no event, no connection
/// ID and no timer, and stays so.
pub proof fn law_torn_down_session_is_bare(session: SessionView, now: u64)
    requires
        session.well_formed(),
    ensures
        ({
            let after = session.torn_down(now);
            &&& after.well_formed()
            &&& !after.live() && !after.can_write()
            &&& after.streams == Map::<i64, StreamView>::empty()
            &&& after.stream_events.len() == 0
            &&& after.registered_cids.len() == 0
            &&& !after.timer_active
        }),
{
}

/// A silent close sends nothing, and any other close that the script asked for
/// sends the error that it was asked with, or the default frame for none.
pub proof fn law_close_carries_its_error(session: SessionView, error: Option<CloseError>)
    ensures
        session.state.silent_close != 0 ==> session.with_graceful(error).close_frame()
            == CloseFrame::Silent,
        session.state.silent_close == 0 ==> session.with_graceful(error).close_frame()
            == match error {
            Some(error) => if error.application || error.code != 0 || error.reason@.len() > 0 {
                CloseFrame::Error {
                    type_: if error.application {
                        NGTCP2_CCERR_TYPE_APPLICATION
                    } else {
                        NGTCP2_CCERR_TYPE_TRANSPORT
                    },
                    code: error.code,
                }
            } else {
                CloseFrame::Default
            },
            None => CloseFrame::Default,
        },
        session.with_graceful(error).with_scheduled_close().close_frame()
            == session.with_graceful(error).close_frame(),
{
}

/// What close options say. The code depends on the option `code` alone: it is
/// the integer part of a number that is not negative, and a BigInt as it is,
/// whatever the type and the reason are. The type is that of an application
/// exactly where the option is that word, and the reason is the text given.
/// Options with a code that is not zero, the application's type or a reason say
/// something.
pub proof fn law_close_options_are_read_one_by_one(options: CloseOptions, other: CloseOptions)
    ensures
        options.code == other.code ==> options.code_value() == other.code_value(),
        options.type_ == other.type_ ==> options.is_application() == other.is_application(),
        options.reason == other.reason ==> options.reason_bytes() == other.reason_bytes(),
        match options.code {
            JsValue::Number(n) => {
                &&& n.finite() && !n.negative() && n.whole() <= u64::MAX ==> options.code_value()
                    == n.whole()
                &&& n.nan() || n.negative() ==> options.code_value() == 0
                &&& !n.nan() && !n.negative() && (!n.finite() || n.whole() > u64::MAX)
                    ==> options.code_value() == u64::MAX
            },
            JsValue::BigInt(code) => options.code_value() == code,
            _ => options.code_value() == 0,
        },
        options.is_application() <==> {
            &&& options.type_ matches JsValue::Text(name)
            &&& name@ == seq![97u8, 112u8, 112u8, 108u8, 105u8, 99u8, 97u8, 116u8, 105u8, 111u8, 110u8]
        },
        match options.reason {
            JsValue::Text(text) => options.reason_bytes() == text@,
            _ => options.reason_bytes().len() == 0,
        },
        options.says_something() <==> options.code_value() != 0 || options.is_application()
            || options.reason_bytes().len() > 0,
{
}

/// A close carries the error it was asked for with to its frame and to its
/// report: a code that is not zero always gives an error frame with that code,
/// whatever the type and the reason are, unless the close is silent. An error
/// of the application is of type one, any other of type zero.
pub proof fn law_close_code_reaches_the_peer(session: SessionView, error: CloseError, expiry: u64)
    ensures
        ({
            let asked = session.with_graceful(Some(error));
            let due = asked.with_scheduled_close().with_call_finished(expiry);
            &&& due.close_code() == error.code
            &&& due.close_application() == error.application
            &&& due.close_reason() == error.reason@
            &&& session.state.silent_close != 0 <==> due.close_frame() == CloseFrame::Silent
            &&& session.state.silent_close == 0 && (error.code != 0 || error.application
                || error.reason@.len() > 0) ==> due.close_frame() == (CloseFrame::Error {
                type_: if error.application {
                    1
                } else {
                    0
                },
                code: error.code,
            })
            &&& session.state.silent_close == 0 && error.code == 0 && !error.application
                && error.reason@.len() == 0 ==> due.close_frame() == CloseFrame::Default
        }),
        session.pending_close_error is None ==> session.close_code() == 0
            && !session.close_application() && session.close_reason().len() == 0,
{
}

/// Asking for a close notes it and its error; scheduling it has it wait and the
/// timer run, once, unless it was reported or the session is destroyed.
/// Nothing else changes.
pub proof fn law_asking_for_a_close_notes_it(session: SessionView, error: Option<CloseError>)
    ensures
        session.with_graceful(error) == (SessionView {
            state: SessionState { graceful_close: 1, ..session.state },
            pending_close_error: error,
            ..session
        }),
        session.schedules_close() <==> !session.destroyed && !session.close_reported
            && !session.pending_close,
        session.schedules_close() ==> session.with_scheduled_close() == (SessionView {
            pending_close: true,
            timer_active: true,
            ..session
        }),
        !session.schedules_close() ==> session.with_scheduled_close() == session,
        session.with_close_begun() == (SessionView {
            timer_active: false,
            pending_close: false,
            pending_close_error: None,
            ..session
        }),
        session.close_due() <==> !session.destroyed && session.conn && session.pending_close,
{
}

/// The first report of a close abandons every datagram that waits, by its id
/// and in order; a later one abandons nothing. Nothing else changes.
pub proof fn law_report_abandons_what_waits(session: SessionView)
    ensures
        session.reports_close() <==> !session.close_reported && !session.destroyed,
        session.with_close_reported().close_reported,
        session.reports_close() ==> session.with_close_reported().datagram_queue.len() == 0,
        !session.reports_close() ==> session.with_close_reported().datagram_queue
            == session.datagram_queue,
        session.with_close_reported() == (SessionView {
            close_reported: true,
            datagram_queue: session.with_close_reported().datagram_queue,
            ..session
        }),
        session.queued_ids().len() == session.datagram_queue.len(),
        forall|at: int|
            0 <= at < session.datagram_queue.len() ==> #[trigger] session.queued_ids()[at]
                == session.datagram_queue[at].0,
{
}

/// A teardown lets go of the connection, the TLS state, the endpoint, the
/// streams, the events, the connection IDs and the timer, notes the time, and
/// leaves the rest for the script to read.
pub proof fn law_teardown_leaves_the_rest(session: SessionView, now: u64)
    requires
        session.stats.len() == 32,
    ensures
        ({
            let after = session.torn_down(now);
            &&& after.destroyed && !after.conn && !after.tls && !after.endpoint
            &&& !after.timer_active
            &&& after.stream_events.len() == 0 && after.registered_cids.len() == 0
            &&& forall|id: i64| !#[trigger] after.streams.contains_key(id)
            &&& after.stats[1] == now
            &&& forall|slot: int|
                0 <= slot < 32 && slot != 1 ==> #[trigger] after.stats[slot] == session.stats[slot]
            &&& after.state == session.state
            &&& after.local_addr == session.local_addr && after.remote_addr == session.remote_addr
            &&& after.datagram_queue == session.datagram_queue && after.next_datagram_id
                == session.next_datagram_id
            &&& after.close_reported == session.close_reported && after.handshake_reported
                == session.handshake_reported
            &&& after.is_server == session.is_server
        }),
{
}

/// A session takes the address of the first packet where it has none, while it
/// lives, and keeps the one it has; nothing else changes.
pub proof fn law_first_address_is_taken(session: SessionView, remote: StoredAddr)
    ensures
        session.with_remote(remote) == (SessionView {
            remote_addr: session.with_remote(remote).remote_addr,
            ..session
        }),
        session.with_remote(remote).remote_addr == if !session.destroyed && session.conn
            && session.remote_addr.len == 0 && remote.len != 0 {
            remote
        } else {
            session.remote_addr
        },
{
}

/// A handshake that completed is reported while the session lives, unless it
/// was before. It allows streams to be opened, sets the peer's datagram limit
/// and notes the time; nothing else changes.
pub proof fn law_handshake_allows_streams(
    session: SessionView,
    completed: bool,
    limit: u16,
    now: u64,
)
    requires
        session.stats.len() == 32,
    ensures
        session.reports_handshake(completed) <==> completed && !session.handshake_reported
            && !session.destroyed && session.conn,
        ({
            let after = session.with_handshake(limit, now);
            &&& after.handshake_reported
            &&& after.state == (SessionState {
                handshake_completed: 1,
                stream_open_allowed: 1,
                max_datagram_size: limit,
                ..session.state
            })
            &&& after.stats[3] == now
            &&& forall|slot: int|
                0 <= slot < 32 && slot != 3 ==> #[trigger] after.stats[slot] == session.stats[slot]
            &&& after == (SessionView {
                handshake_reported: true,
                state: after.state,
                stats: after.stats,
                ..session
            })
        }),
{
}

/// A timer without a close to complete follows the transport: it is set for the
/// next deadline, to the millisecond and never early; without a deadline a
/// running timer is cancelled and one that does not run is left alone. Setting
/// the timer changes whether it runs, and nothing else.
pub proof fn law_timer_follows_the_transport(session: SessionView, expiry: u64, now: u64)
    ensures
        session.has_deadline(expiry) <==> !session.destroyed && session.conn && expiry != u64::MAX,
        session.owes_events() <==> !session.destroyed && session.stream_events.len() > 0,
        !session.close_due() && session.has_deadline(expiry) ==> {
            &&& session.timer_change(expiry, now) matches TimerChange::Arm(ms)
            &&& ms >= 1
            &&& now + ms * 1_000_000 >= expiry
            &&& ms > 1 ==> now + (ms - 1) * 1_000_000 < expiry
        },
        !session.close_due() && !session.has_deadline(expiry) ==> session.timer_change(expiry, now)
            == if session.timer_active {
            TimerChange::Cancel
        } else {
            TimerChange::Keep
        },
        !session.owes_events() ==> session.call_change(expiry, now) == session.timer_change(
            expiry,
            now,
        ),
        session.with_rearmed(expiry) == (SessionView {
            timer_active: session.timer_change(expiry, now) is Arm,
            ..session
        }),
        session.with_call_finished(expiry) == (SessionView {
            timer_active: session.call_change(expiry, now) is Arm,
            ..session
        }),
{
    law_timer_meets_the_deadline(expiry, now);
}

/// The stages of a drive, from the first to the last. What a packet produced is
/// sent before the handshake is reported, and that before events; a session
/// destroyed by one of these is driven no further. Every drive that goes to its
/// end sets the timer.
pub proof fn law_stages_come_in_order(destroyed: bool)
    ensures
        stage_after(Origin::Packet, DriveStage::Flush, false) == DriveStage::Handshake,
        stage_after(Origin::Packet, DriveStage::Handshake, false) == DriveStage::Events,
        stage_after(Origin::Packet, DriveStage::Events, destroyed) == DriveStage::Stats,
        stage_after(Origin::Packet, DriveStage::Stats, destroyed) == DriveStage::Rearm,
        stage_after(Origin::Packet, DriveStage::Rearm, destroyed) == DriveStage::Done,
        stage_after(Origin::Timer, DriveStage::Flush, false) == DriveStage::Events,
        stage_after(Origin::Timer, DriveStage::Events, destroyed) == DriveStage::Rearm,
        stage_after(Origin::Timer, DriveStage::Rearm, destroyed) == DriveStage::Done,
        stage_after(Origin::Call, DriveStage::Flush, destroyed) == DriveStage::Defer,
        stage_after(Origin::Call, DriveStage::Defer, destroyed) == DriveStage::Done,
        forall|origin: Origin|
            origin != Origin::Call ==> #[trigger] stage_after(origin, DriveStage::Flush, true)
                == DriveStage::Done,
        forall|origin: Origin| #[trigger]
            stage_after(origin, DriveStage::Handshake, true) == DriveStage::Done,
        forall|origin: Origin| #[trigger]
            stage_after(origin, DriveStage::Done, destroyed) == DriveStage::Done,
{
}

/// A reason or a text that is empty is left out, and any other is shown as it
/// is. A clean close has neither code nor reason nor name.
pub proof fn law_empty_texts_are_left_out(
    shown: Option<Vec<u8>>,
    text: Option<Vec<u8>>,
    bytes: Seq<u8>,
    report: CloseReport,
)
    ensures
        reads_as(shown, bytes) <==> {
            &&& shown is None <==> bytes.len() == 0
            &&& shown matches Some(reason) ==> reason@ == bytes
        },
        shows_text(shown, text) <==> {
            &&& shown is None <==> (text is None || text->0@.len() == 0)
            &&& shown is Some ==> shown == text
        },
        report.clean() <==> report.error_type == 0 && report.code == 0 && report.reason is None
            && report.error_name is None,
{
}

/// All streams of a torn down session are let go, each once.
pub proof fn law_every_stream_is_torn_down(
    list: Seq<QuicStream>,
    streams: Map<i64, StreamView>,
    now: u64,
    id: i64,
)
    requires
        all_torn_down(list, streams, now),
    ensures
        streams.contains_key(id) <==> exists|i: int|
            0 <= i < list.len() && (#[trigger] list[i])@.id == id,
        forall|i: int|
            0 <= i < list.len() && streams.contains_key(id) && (#[trigger] list[i])@.id == id
                ==> list[i]@ == streams[id].torn_down(now),
        forall|i: int, j: int|
            0 <= i < list.len() && 0 <= j < list.len() && (#[trigger] list[i])@.id == (
            #[trigger] list[j])@.id ==> i == j,
{
}

/// The direction that asks for a unidirectional stream is the number one.
pub proof fn law_number_one_is_one()
    ensures
        ({
            let one = JsNumber { bits: JS_ONE };
            one.finite() && !one.negative() && one.whole() == 1 && one.integral()
        }),
{
    let one = JsNumber { bits: JS_ONE };
    vstd::arithmetic::power2::lemma2_to64();
    vstd::arithmetic::power2::lemma_pow2_adds(32, 20);
    assert(one.biased_exponent() == 1023 && one.fraction() == 0);
    assert(one.exponent() == -52);
    let unit: nat = pow2(52);
    assert(unit == 0x10_0000_0000_0000 && one.significand() == unit);
    vstd::arithmetic::div_mod::lemma_div_by_self(unit as int);
    vstd::arithmetic::div_mod::lemma_mod_self_0(unit as int);
    assert((-one.exponent()) as nat == 52);
}

} // verus!
