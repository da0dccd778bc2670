//! One QUIC stream: its outbound queue, its inbound queue, and the state and
//! statistics that the script reads.
//!
//! A stream belongs to its session while it is attached. Outbound data waits
//! in a queue that the session's write loop drains; inbound data is appended
//! by packet processing and consumed through the reader protocol.

use vstd::prelude::*;

use crate::inbound::{law_received_data_is_readable_last, Inbound, InboundView, Pulled};
use crate::outbound::{least, Outbound, OutboundView};
use crate::value::JsValue;

verus! {

/// The state block of a stream that the script shares.
#[derive(Copy, Clone, Debug, PartialEq, Eq, Structural)]
pub struct StreamState {
    pub id: i64,
    pub pending: u8,
    pub fin_sent: u8,
    pub fin_received: u8,
    pub read_ended: u8,
    pub write_ended: u8,
    pub reset: u8,
    pub reset_code: u64,
    pub has_outbound: u8,
    pub has_reader: u8,
    pub wants_block: u8,
    pub wants_headers: u8,
    pub wants_reset: u8,
    pub wants_trailers: u8,
    pub received_early_data: u8,
    pub write_desired_size: u32,
    pub high_water_mark: u32,
}

/// Number of statistics slots of a stream.
pub const STREAM_STATS: usize = 13;

pub const IDX_STATS_CREATED_AT: usize = 0;

pub const IDX_STATS_OPENED_AT: usize = 1;

pub const IDX_STATS_RECEIVED_AT: usize = 2;

pub const IDX_STATS_DESTROYED_AT: usize = 4;

pub const IDX_STATS_BYTES_RECEIVED: usize = 5;

/// Default high-water mark for streaming outbound sources.
pub const DEFAULT_HIGH_WATER_MARK: u32 = 65536;

/// Packed `(urgency << 1) | incremental` of the default urgency.
pub const DEFAULT_PRIORITY: u32 = 6;

/// One stream.
pub struct QuicStream {
    pub id: i64,
    pub state: StreamState,
    pub stats: [u64; 13],
    pub outbound: Outbound,
    pub inbound: Inbound,
    /// The reader's wakeup callback, by the key it is registered under.
    pub wakeup: Option<u64>,
    /// Whether the owning session still knows the stream.
    pub attached: bool,
    pub destroyed: bool,
}

/// What a stream stands for.
#[verifier::ext_equal]
pub struct StreamView {
    pub id: i64,
    pub state: StreamState,
    pub stats: Seq<u64>,
    pub outbound: OutboundView,
    pub inbound: InboundView,
    pub wakeup: Option<u64>,
    pub attached: bool,
    pub destroyed: bool,
}

impl View for QuicStream {
    type V = StreamView;

    open spec fn view(&self) -> StreamView {
        StreamView {
            id: self.id,
            state: self.state,
            stats: self.stats@,
            outbound: self.outbound@,
            inbound: self.inbound@,
            wakeup: self.wakeup,
            attached: self.attached,
            destroyed: self.destroyed,
        }
    }
}

/// A request on the transport that a stream method turned into.
#[derive(Copy, Clone, Debug, PartialEq, Eq, Structural)]
pub enum StreamRequest {
    /// The stream is destroyed: the call does nothing.
    Ignored,
    /// The stream has no session left to ask.
    Detached,
    /// Ask the session to shut sides of this stream down with an error code.
    Ask { id: i64, code: u64, sides: Sides },
}

/// The sides of a stream that a request shuts down.
#[derive(Copy, Clone, Debug, PartialEq, Eq, Structural)]
pub enum Sides {
    /// Writing, then reading.
    Both,
    /// Only reading: the peer is asked to stop sending.
    Reading,
    /// Only writing: the stream is reset.
    Writing,
}

impl Sides {
    pub open spec fn writing(self) -> bool {
        self != Sides::Reading
    }

    pub open spec fn reading(self) -> bool {
        self != Sides::Writing
    }

    /// Whether the sending side is shut down.
    pub fn shuts_writing(self) -> (shuts: bool)
        ensures
            shuts == self.writing(),
    {
        self != Sides::Reading
    }

    /// Whether the receiving side is shut down.
    pub fn shuts_reading(self) -> (shuts: bool)
        ensures
            shuts == self.reading(),
    {
        self != Sides::Writing
    }
}

/// What queueing outbound data asks for.
#[derive(Copy, Clone, Debug, PartialEq, Eq, Structural)]
pub enum Kick {
    /// The stream is destroyed: the call did nothing.
    Ignored,
    /// No session is left to drive.
    Detached,
    /// Drive the session as after any call of the script.
    Session,
}

/// Flow-control credit to grant back to the peer.
#[derive(Copy, Clone, Debug, PartialEq, Eq, Structural)]
pub struct Credit {
    pub id: i64,
    pub bytes: u64,
}

pub open spec fn zero_state() -> StreamState {
    StreamState {
        id: 0,
        pending: 0,
        fin_sent: 0,
        fin_received: 0,
        read_ended: 0,
        write_ended: 0,
        reset: 0,
        reset_code: 0,
        has_outbound: 0,
        has_reader: 0,
        wants_block: 0,
        wants_headers: 0,
        wants_reset: 0,
        wants_trailers: 0,
        received_early_data: 0,
        write_desired_size: 0,
        high_water_mark: 0,
    }
}

/// A counter increased modulo two to the power of 64.
pub open spec fn wrapped_sum(value: u64, delta: u64) -> u64 {
    if value + delta > u64::MAX {
        (value + delta - 0x1_0000_0000_0000_0000) as u64
    } else {
        (value + delta) as u64
    }
}

/// The bytes that a batch argument contributes: those of its buffers, in
/// order.
pub open spec fn items_bytes(items: Seq<JsValue>) -> Seq<u8>
    decreases items.len(),
{
    if items.len() == 0 {
        Seq::empty()
    } else {
        let last = match items.last() {
            JsValue::Buffer(bytes) => bytes@,
            _ => Seq::empty(),
        };
        items_bytes(items.drop_last()) + last
    }
}

pub open spec fn batch_bytes(batch: JsValue) -> Seq<u8> {
    match batch {
        JsValue::Array(items) => items_bytes(items@),
        JsValue::Buffer(bytes) => bytes@,
        _ => Seq::empty(),
    }
}

impl StreamView {
    pub open spec fn well_formed(self) -> bool {
        &&& self.stats.len() == STREAM_STATS
        &&& self.outbound.well_formed()
        &&& self.outbound.data.len() <= usize::MAX
    }

    /// A stream that was just opened.
    pub open spec fn created(id: i64, now: u64) -> StreamView {
        StreamView {
            id,
            state: StreamState { id, high_water_mark: DEFAULT_HIGH_WATER_MARK, ..zero_state() },
            stats: Seq::new(STREAM_STATS as nat, |i: int| 0u64).update(
                IDX_STATS_CREATED_AT as int,
                now,
            ).update(IDX_STATS_OPENED_AT as int, now),
            outbound: OutboundView::empty(),
            inbound: InboundView::empty(),
            wakeup: None,
            attached: true,
            destroyed: false,
        }
    }

    pub open spec fn with_received(self, data: Seq<u8>, fin: bool, now: u64) -> StreamView {
        if self.destroyed {
            self
        } else {
            let received = self.stats[IDX_STATS_BYTES_RECEIVED as int];
            StreamView {
                inbound: self.inbound.with_received(data, fin),
                stats: if data.len() == 0 {
                    self.stats
                } else {
                    self.stats.update(
                        IDX_STATS_BYTES_RECEIVED as int,
                        wrapped_sum(received, data.len() as u64),
                    ).update(IDX_STATS_RECEIVED_AT as int, now)
                },
                state: if fin {
                    StreamState { fin_received: 1, ..self.state }
                } else {
                    self.state
                },
                ..self
            }
        }
    }

    pub open spec fn with_reset(self, code: u64) -> StreamView {
        if self.destroyed {
            self
        } else {
            StreamView {
                inbound: self.inbound.with_reset(),
                state: StreamState { reset: 1, reset_code: code, read_ended: 1, ..self.state },
                ..self
            }
        }
    }

    pub open spec fn with_fin_sent(self) -> StreamView {
        StreamView { state: StreamState { fin_sent: 1, write_ended: 1, ..self.state }, ..self }
    }

    /// Bytes wait to be sent, or the end of the stream does.
    pub open spec fn pending_outbound(self) -> bool {
        self.outbound.data.len() > 0 || (self.outbound.fin_pending && self.state.fin_sent == 0)
    }

    /// The room below the high-water mark: none where the queue reaches it.
    pub open spec fn capacity(self) -> u32 {
        if self.state.high_water_mark > self.outbound.data.len() {
            (self.state.high_water_mark - self.outbound.data.len()) as u32
        } else {
            0
        }
    }

    pub open spec fn with_capacity(self) -> StreamView {
        StreamView {
            state: StreamState { write_desired_size: self.capacity(), ..self.state },
            ..self
        }
    }

    /// The writer waits for room and there is room again.
    pub open spec fn drains(self) -> bool {
        self.state.write_desired_size == 0 && self.capacity() > 0
    }

    pub open spec fn torn_down(self, now: u64) -> StreamView {
        if self.destroyed {
            self
        } else {
            StreamView {
                destroyed: true,
                attached: false,
                stats: self.stats.update(IDX_STATS_DESTROYED_AT as int, now),
                outbound: self.outbound.discarded(),
                inbound: self.inbound.discarded(),
                wakeup: None,
                ..self
            }
        }
    }

    /// A whole body queued, with the end of the stream behind it.
    pub open spec fn with_source(self, bytes: Seq<u8>) -> StreamView {
        StreamView {
            outbound: OutboundView {
                started: true,
                fin_pending: true,
                ..self.outbound.with_queued(bytes)
            },
            state: StreamState { has_outbound: 1, ..self.state },
            ..self
        }
    }

    pub open spec fn with_streaming_source(self) -> StreamView {
        StreamView {
            outbound: OutboundView { started: true, ..self.outbound },
            state: StreamState {
                has_outbound: 1,
                write_desired_size: self.state.high_water_mark,
                ..self.state
            },
            ..self
        }
    }

    pub open spec fn with_batch(self, bytes: Seq<u8>) -> StreamView {
        StreamView { outbound: self.outbound.with_queued(bytes), ..self }.with_capacity()
    }

    pub open spec fn with_ended_write(self) -> StreamView {
        StreamView {
            outbound: OutboundView { started: true, fin_pending: true, ..self.outbound },
            ..self
        }
    }

    pub open spec fn kick(self) -> Kick {
        if self.destroyed {
            Kick::Ignored
        } else if self.attached {
            Kick::Session
        } else {
            Kick::Detached
        }
    }

    pub open spec fn request(self, code: u64, sides: Sides) -> StreamRequest {
        if self.destroyed {
            StreamRequest::Ignored
        } else if self.attached {
            StreamRequest::Ask { id: self.id, code, sides }
        } else {
            StreamRequest::Detached
        }
    }
}

impl QuicStream {
    fn write_stat(&mut self, index: usize, value: u64)
        requires
            index < STREAM_STATS,
        ensures
            final(self)@ == (StreamView { stats: old(self)@.stats.update(index as int, value), ..old(self)@ }),
    {
        let ghost before = self@;
        self.stats[index] = value;
        assert(self@ =~= StreamView { stats: before.stats.update(index as int, value), ..before });
    }

    fn add_stat(&mut self, index: usize, delta: u64)
        requires
            index < STREAM_STATS,
        ensures
            final(self)@ == (StreamView {
                stats: old(self)@.stats.update(
                    index as int,
                    wrapped_sum(old(self)@.stats[index as int], delta),
                ),
                ..old(self)@
            }),
    {
        let value: u64 = self.stats[index].wrapping_add(delta);
        self.write_stat(index, value);
    }

    pub fn is_destroyed(&self) -> (destroyed: bool)
        ensures
            destroyed == self@.destroyed,
    {
        self.destroyed
    }

    /// A stream with the given id, opened now.
    pub fn create(id: i64, now: u64) -> (stream: QuicStream)
        ensures
            stream@ == StreamView::created(id, now),
            stream@.well_formed(),
    {
        let mut stream = QuicStream {
            id,
            state: StreamState {
                id,
                pending: 0,
                fin_sent: 0,
                fin_received: 0,
                read_ended: 0,
                write_ended: 0,
                reset: 0,
                reset_code: 0,
                has_outbound: 0,
                has_reader: 0,
                wants_block: 0,
                wants_headers: 0,
                wants_reset: 0,
                wants_trailers: 0,
                received_early_data: 0,
                write_desired_size: 0,
                high_water_mark: DEFAULT_HIGH_WATER_MARK,
            },
            stats: [0; 13],
            outbound: Outbound::new(),
            inbound: Inbound::new(),
            wakeup: None,
            attached: true,
            destroyed: false,
        };
        assert(stream.stats@ =~= Seq::new(STREAM_STATS as nat, |i: int| 0u64));
        stream.write_stat(IDX_STATS_CREATED_AT, now);
        stream.write_stat(IDX_STATS_OPENED_AT, now);
        assert(stream@ =~= StreamView::created(id, now));
        stream
    }

    /// Append peer data, or the end flag, or both, for the reader.
    pub fn push_inbound(&mut self, data: &[u8], fin: bool, now: u64)
        requires
            old(self)@.well_formed(),
        ensures
            final(self)@ == old(self)@.with_received(data@, fin, now),
            final(self)@.well_formed(),
    {
        if self.destroyed {
            return;
        }
        let ghost before = self@;
        self.inbound.receive(data, fin);
        if data.len() != 0 {
            self.add_stat(IDX_STATS_BYTES_RECEIVED, data.len() as u64);
            self.write_stat(IDX_STATS_RECEIVED_AT, now);
        }
        if fin {
            self.state.fin_received = 1;
        }
        assert(self@ =~= before.with_received(data@, fin, now));
    }

    /// The peer reset the stream: waiting data is discarded and the reader
    /// gets the error.
    pub fn mark_reset(&mut self, code: u64)
        requires
            old(self)@.well_formed(),
        ensures
            final(self)@ == old(self)@.with_reset(code),
            final(self)@.well_formed(),
    {
        if self.destroyed {
            return;
        }
        let ghost before = self@;
        self.inbound.reset();
        self.state.reset = 1;
        self.state.reset_code = code;
        self.state.read_ended = 1;
        assert(self@ =~= before.with_reset(code));
    }

    /// Take the registered wakeup; it serves once per registration.
    pub fn take_wakeup(&mut self) -> (wakeup: Option<u64>)
        ensures
            wakeup == old(self)@.wakeup,
            final(self)@ == (StreamView { wakeup: None, ..old(self)@ }),
    {
        let ghost before = self@;
        let wakeup = self.wakeup;
        self.wakeup = None;
        assert(self@ =~= StreamView { wakeup: None, ..before });
        wakeup
    }

    pub fn mark_fin_sent(&mut self)
        ensures
            final(self)@ == old(self)@.with_fin_sent(),
    {
        let ghost before = self@;
        self.state.fin_sent = 1;
        self.state.write_ended = 1;
        assert(self@ =~= before.with_fin_sent());
    }

    pub fn has_pending_outbound(&self) -> (pending: bool)
        ensures
            pending == self@.pending_outbound(),
    {
        self.outbound.data.len() != 0 || (self.outbound.fin_pending && self.state.fin_sent == 0)
    }

    /// Move up to `max` queued bytes into an in-flight chunk and return their
    /// number.
    pub fn stage_chunk(&mut self, max: usize) -> (staged: usize)
        requires
            old(self)@.well_formed(),
            old(self)@.outbound.submitted + least(old(self)@.outbound.data.len(), max as nat)
                <= u64::MAX,
        ensures
            final(self)@ == (StreamView {
                outbound: old(self)@.outbound.with_staged(max as nat),
                ..old(self)@
            }),
            staged == least(old(self)@.outbound.data.len(), max as nat),
            final(self)@.well_formed(),
    {
        let ghost before = self@;
        let staged: usize = self.outbound.stage_chunk(max);
        assert(self@ =~= StreamView { outbound: before.outbound.with_staged(max as nat), ..before });
        staged
    }

    /// Record how much of the chunk staged last the transport accepted.
    pub fn commit_staged(&mut self, accepted: usize)
        requires
            old(self)@.well_formed(),
            old(self)@.outbound.inflight.len() > 0 ==> old(self)@.outbound.submitted + least(
                accepted as nat,
                old(self)@.outbound.inflight.last().bytes.len(),
            ) <= u64::MAX,
            old(self)@.outbound.with_committed(accepted as nat).data.len() <= usize::MAX,
        ensures
            final(self)@ == (StreamView {
                outbound: old(self)@.outbound.with_committed(accepted as nat),
                ..old(self)@
            }),
            final(self)@.well_formed(),
    {
        let ghost before = self@;
        self.outbound.commit_staged(accepted);
        assert(self@ =~= StreamView {
            outbound: before.outbound.with_committed(accepted as nat),
            ..before
        });
    }

    /// The peer acknowledged stream data up to `offset + datalen`.
    pub fn on_acked(&mut self, offset: u64, datalen: u64)
        requires
            old(self)@.well_formed(),
        ensures
            final(self)@ == (StreamView {
                outbound: old(self)@.outbound.with_acked(offset, datalen),
                ..old(self)@
            }),
            final(self)@.well_formed(),
    {
        let ghost before = self@;
        self.outbound.on_acked(offset, datalen);
        assert(self@ =~= StreamView {
            outbound: before.outbound.with_acked(offset, datalen),
            ..before
        });
    }

    /// Refresh the backpressure window after the write loop consumed queued
    /// data. True when the writer should be told that it can continue.
    pub fn refresh_write_capacity(&mut self) -> (drained: bool)
        ensures
            final(self)@ == old(self)@.with_capacity(),
            drained == old(self)@.drains(),
    {
        let ghost before = self@;
        let was_zero: bool = self.state.write_desired_size == 0;
        let mark: u32 = self.state.high_water_mark;
        let waiting: usize = self.outbound.data.len();
        self.state.write_desired_size =
        if waiting < mark as usize {
            mark - waiting as u32
        } else {
            0
        };
        assert(self@ =~= before.with_capacity());
        was_zero && self.state.write_desired_size > 0
    }

    /// Release the stream's data and detach it from the session. Returns the
    /// id to remove from the session's streams, if the session still knows
    /// the stream; a second call does nothing.
    pub fn teardown(&mut self, now: u64) -> (unregister: Option<i64>)
        requires
            old(self)@.well_formed(),
        ensures
            final(self)@ == old(self)@.torn_down(now),
            final(self)@.well_formed(),
            unregister == if !old(self)@.destroyed && old(self)@.attached {
                Some(old(self)@.id)
            } else {
                None
            },
    {
        if self.destroyed {
            return None;
        }
        let ghost before = self@;
        self.destroyed = true;
        self.write_stat(IDX_STATS_DESTROYED_AT, now);
        let unregister = if self.attached {
            Some(self.id)
        } else {
            None
        };
        self.attached = false;
        self.outbound.discard();
        self.inbound.discard();
        self.wakeup = None;
        assert(self@ =~= before.torn_down(now));
        unregister
    }

    fn kick_session(&self) -> (kick: Kick)
        requires
            !self@.destroyed,
        ensures
            kick == self@.kick(),
    {
        if self.attached {
            Kick::Session
        } else {
            Kick::Detached
        }
    }

    /// Attach a one-shot outbound body: nothing, or the bytes of a buffer.
    pub fn attach_source(&mut self, source: &JsValue) -> (kick: Result<Kick, &'static str>)
        requires
            old(self)@.well_formed(),
            source matches JsValue::Buffer(bytes) ==> old(self)@.outbound.data.len() + bytes@.len()
                <= usize::MAX,
        ensures
            final(self)@.well_formed(),
            match kick {
                Ok(kick) => {
                    &&& kick == old(self)@.kick()
                    &&& old(self)@.destroyed || source.missing() || source is Buffer
                    &&& final(self)@ == if old(self)@.destroyed {
                        old(self)@
                    } else {
                        match *source {
                            JsValue::Buffer(bytes) => old(self)@.with_source(bytes@),
                            _ => old(self)@.with_source(Seq::empty()),
                        }
                    }
                },
                Err(message) => {
                    &&& !old(self)@.destroyed && !source.missing() && !(source is Buffer)
                    &&& message@
                        == "Unsupported QUIC stream body source (Blob and FileHandle sources are not implemented yet)"@
                    &&& final(self)@ == old(self)@
                },
            },
    {
        if self.destroyed {
            return Ok(Kick::Ignored);
        }
        let ghost before = self@;
        match source {
            JsValue::Undefined | JsValue::Null => {
                assert(before.outbound.with_queued(Seq::empty()) =~= before.outbound);
            },
            JsValue::Buffer(bytes) => {
                self.outbound.queue(bytes.as_slice());
            },
            _ => {
                return Err(
                    "Unsupported QUIC stream body source (Blob and FileHandle sources are not implemented yet)",
                );
            },
        }
        self.outbound.started = true;
        self.outbound.fin_pending = true;
        self.state.has_outbound = 1;
        assert(self@ =~= match *source {
            JsValue::Buffer(bytes) => before.with_source(bytes@),
            _ => before.with_source(Seq::empty()),
        });
        Ok(self.kick_session())
    }

    /// Begin a streaming outbound source.
    pub fn init_streaming_source(&mut self)
        requires
            old(self)@.well_formed(),
        ensures
            final(self)@ == if old(self)@.destroyed {
                old(self)@
            } else {
                old(self)@.with_streaming_source()
            },
            final(self)@.well_formed(),
    {
        if self.destroyed {
            return;
        }
        let ghost before = self@;
        self.outbound.started = true;
        self.state.has_outbound = 1;
        self.state.write_desired_size = self.state.high_water_mark;
        assert(self@ =~= before.with_streaming_source());
    }

    /// Queue one batch of buffers from the streaming source. Returns how many
    /// bytes were queued, unless the stream is destroyed.
    pub fn write(&mut self, batch: &JsValue) -> (outcome: (Option<u64>, Kick))
        requires
            old(self)@.well_formed(),
            old(self)@.outbound.data.len() + batch_bytes(*batch).len() <= usize::MAX,
        ensures
            final(self)@.well_formed(),
            outcome.1 == old(self)@.kick(),
            match outcome.0 {
                Some(queued) => {
                    &&& !old(self)@.destroyed
                    &&& queued == batch_bytes(*batch).len()
                    &&& final(self)@ == old(self)@.with_batch(batch_bytes(*batch))
                },
                None => old(self)@.destroyed && final(self)@ == old(self)@,
            },
    {
        if self.destroyed {
            return (None, Kick::Ignored);
        }
        let ghost before = self@;
        let mut queued: u64 = 0;
        match batch {
            JsValue::Array(items) => {
                let mut at: usize = 0;
                assert(before.outbound.with_queued(items_bytes(items@.take(0))) =~= before.outbound);
                while at < items.len()
                    invariant
                        at <= items@.len(),
                        queued == items_bytes(items@.take(at as int)).len(),
                        before.outbound.data.len() + items_bytes(items@).len() <= usize::MAX,
                        self@ == (StreamView {
                            outbound: before.outbound.with_queued(items_bytes(items@.take(at as int))),
                            ..before
                        }),
                    decreases items@.len() - at,
                {
                    proof {
                        lemma_items_prefix(items@, at + 1);
                        assert(items@.take(at + 1).drop_last() =~= items@.take(at as int));
                    }
                    let ghost done = items_bytes(items@.take(at as int));
                    match &items[at] {
                        JsValue::Buffer(bytes) => {
                            self.outbound.queue(bytes.as_slice());
                            queued = queued + bytes.len() as u64;
                            assert(self@ =~= StreamView {
                                outbound: before.outbound.with_queued(done + bytes@),
                                ..before
                            });
                        },
                        _ => {
                            assert(done + Seq::<u8>::empty() =~= done);
                        },
                    }
                    at = at + 1;
                }
                assert(items@.take(at as int) =~= items@);
            },
            JsValue::Buffer(bytes) => {
                self.outbound.queue(bytes.as_slice());
                queued = bytes.len() as u64;
            },
            _ => {
                assert(before.outbound.with_queued(Seq::empty()) =~= before.outbound);
            },
        }
        assert(self@ =~= StreamView {
            outbound: before.outbound.with_queued(batch_bytes(*batch)),
            ..before
        });
        let _drained = self.refresh_write_capacity();
        (Some(queued), self.kick_session())
    }

    /// The streaming source is done; the end of the stream follows once the
    /// queue drains.
    pub fn end_write(&mut self) -> (kick: Kick)
        requires
            old(self)@.well_formed(),
        ensures
            final(self)@ == if old(self)@.destroyed {
                old(self)@
            } else {
                old(self)@.with_ended_write()
            },
            kick == old(self)@.kick(),
            final(self)@.well_formed(),
    {
        if self.destroyed {
            return Kick::Ignored;
        }
        let ghost before = self@;
        self.outbound.started = true;
        self.outbound.fin_pending = true;
        assert(self@ =~= before.with_ended_write());
        self.kick_session()
    }

    /// The stream itself is the reader.
    pub fn get_reader(&mut self)
        ensures
            final(self)@ == (StreamView {
                state: StreamState { has_reader: 1, ..old(self)@.state },
                ..old(self)@
            }),
    {
        let ghost before = self@;
        self.state.has_reader = 1;
        assert(self@ =~= StreamView { state: StreamState { has_reader: 1, ..before.state }, ..before });
    }

    /// Register the wakeup that a blocked reader awaits, or none.
    pub fn set_wakeup(&mut self, wakeup: Option<u64>)
        ensures
            final(self)@ == (StreamView { wakeup, ..old(self)@ }),
    {
        let ghost before = self@;
        self.wakeup = wakeup;
        assert(self@ =~= StreamView { wakeup, ..before });
    }

    /// Report the next chunk, the end of the stream, the error or that
    /// nothing is there. A chunk gives its size back to the peer as
    /// flow-control credit, through the session.
    pub fn pull(&mut self) -> (outcome: (Pulled, Option<Credit>))
        requires
            old(self)@.well_formed(),
        ensures
            old(self)@.inbound.pulls(outcome.0, final(self)@.inbound),
            final(self)@ == (StreamView { inbound: final(self)@.inbound, ..old(self)@ }),
            final(self)@.well_formed(),
            outcome.1 == match outcome.0 {
                Pulled::Data(bytes) => if old(self)@.attached {
                    Some(Credit { id: old(self)@.id, bytes: bytes@.len() as u64 })
                } else {
                    None
                },
                _ => None,
            },
    {
        let ghost before = self@;
        let pulled = self.inbound.pull();
        assert(self@ =~= StreamView { inbound: self@.inbound, ..before });
        let credit = match &pulled {
            Pulled::Data(bytes) => {
                if self.attached {
                    Some(Credit { id: self.id, bytes: bytes.len() as u64 })
                } else {
                    None
                }
            },
            _ => None,
        };
        (pulled, credit)
    }

    fn request_with(&self, code: &JsValue, sides: Sides) -> (request: StreamRequest)
        ensures
            request == self@.request(code.error_code(), sides),
    {
        if self.destroyed {
            StreamRequest::Ignored
        } else if self.attached {
            StreamRequest::Ask { id: self.id, code: code.to_error_code(), sides }
        } else {
            StreamRequest::Detached
        }
    }

    /// An explicit destroy first shuts both sides down with the code; the
    /// stream is then to be torn down, unless the call is ignored.
    pub fn destroy(&self, code: &JsValue) -> (request: StreamRequest)
        ensures
            request == self@.request(code.error_code(), Sides::Both),
    {
        self.request_with(code, Sides::Both)
    }

    /// Ask the peer to stop sending.
    pub fn stop_sending(&self, code: &JsValue) -> (request: StreamRequest)
        ensures
            request == self@.request(code.error_code(), Sides::Reading),
    {
        self.request_with(code, Sides::Reading)
    }

    /// Abruptly end the sending side.
    pub fn reset_stream(&mut self, code: &JsValue) -> (request: StreamRequest)
        requires
            old(self)@.well_formed(),
        ensures
            request == old(self)@.request(code.error_code(), Sides::Writing),
            final(self)@ == if old(self)@.destroyed {
                old(self)@
            } else {
                StreamView {
                    state: StreamState { write_ended: 1, ..old(self)@.state },
                    ..old(self)@
                }
            },
            final(self)@.well_formed(),
    {
        if self.destroyed {
            return StreamRequest::Ignored;
        }
        let ghost before = self@;
        self.state.write_ended = 1;
        assert(self@ =~= StreamView { state: StreamState { write_ended: 1, ..before.state }, ..before });
        self.request_with(code, Sides::Writing)
    }

    /// Headers need an application protocol that is not there.
    pub fn send_headers(&self) -> (outcome: Result<(), &'static str>)
        ensures
            outcome matches Err(message) && message@
                == "QuicStream.sendHeaders requires the HTTP/3 application, which is not implemented yet"@,
    {
        Err("QuicStream.sendHeaders requires the HTTP/3 application, which is not implemented yet")
    }

    pub fn get_priority(&self) -> (priority: u32)
        ensures
            priority == DEFAULT_PRIORITY,
    {
        DEFAULT_PRIORITY
    }
}

/// The bytes of a prefix of a batch are no more than those of the batch.
proof fn lemma_items_prefix(items: Seq<JsValue>, count: int)
    requires
        0 <= count <= items.len(),
    ensures
        items_bytes(items.take(count)).len() <= items_bytes(items).len(),
    decreases items.len() - count,
{
    if count < items.len() {
        lemma_items_prefix(items, count + 1);
        assert(items.take(count + 1).drop_last() =~= items.take(count));
    } else {
        assert(items.take(count) =~= items);
    }
}

/// A writer is offered no more than keeps the queue below the high-water mark,
/// and nothing once the queue reaches it.
pub proof fn law_capacity_keeps_below_the_mark(stream: StreamView)
    ensures
        stream.outbound.data.len() >= stream.state.high_water_mark <==> stream.capacity() == 0,
        stream.capacity() > 0 ==> stream.outbound.data.len() + stream.capacity()
            == stream.state.high_water_mark,
{
}

/// The writer is told of room at most once: after the window was refreshed
/// there is nothing more to tell until the queue fills up again.
pub proof fn law_drain_is_told_once(stream: StreamView)
    ensures
        !stream.with_capacity().drains(),
        stream.drains() ==> stream.with_capacity().state.write_desired_size > 0,
{
}

/// A stream is torn down once: a second teardown changes nothing, and nothing
/// that arrives afterwards does.
pub proof fn law_teardown_happens_once(
    stream: StreamView,
    first: u64,
    second: u64,
    data: Seq<u8>,
    fin: bool,
    code: u64,
)
    ensures
        stream.torn_down(first).torn_down(second) == stream.torn_down(first),
        stream.torn_down(first).with_received(data, fin, second) == stream.torn_down(first),
        stream.torn_down(first).with_reset(code) == stream.torn_down(first),
{
}

/// Batches are queued in the order in which they are written, behind what is
/// waiting.
pub proof fn law_batches_stay_in_order(stream: StreamView, first: Seq<u8>, second: Seq<u8>)
    ensures
        stream.with_batch(first).with_batch(second).outbound.data == stream.outbound.data + first
            + second,
{
}

/// A counter counts on, and from its largest value to zero.
pub proof fn law_counters_wrap_around(value: u64, delta: u64)
    ensures
        value + delta <= u64::MAX ==> wrapped_sum(value, delta) == value + delta,
        value + delta > u64::MAX ==> wrapped_sum(value, delta) + 0x1_0000_0000_0000_0000 == value
            + delta,
{
}

/// A batch is all of its buffers and nothing else: each item adds its bytes at
/// the end, and an item that is no buffer adds none.
pub proof fn law_batch_is_all_of_its_buffers(items: Seq<JsValue>, item: JsValue, list: Vec<JsValue>)
    ensures
        items_bytes(Seq::empty()).len() == 0,
        items_bytes(items.push(item)) == match item {
            JsValue::Buffer(bytes) => items_bytes(items) + bytes@,
            _ => items_bytes(items),
        },
        batch_bytes(JsValue::Array(list)) == items_bytes(list@),
        match item {
            JsValue::Array(_) => true,
            JsValue::Buffer(bytes) => batch_bytes(item) == bytes@,
            _ => batch_bytes(item).len() == 0,
        },
{
    assert(items.push(item).drop_last() =~= items);
    assert(items_bytes(items) + Seq::<u8>::empty() =~= items_bytes(items));
}

/// Writing two batches queues what writing both at once does.
pub proof fn law_batches_join(first: Seq<JsValue>, second: Seq<JsValue>)
    ensures
        items_bytes(first + second) == items_bytes(first) + items_bytes(second),
    decreases second.len(),
{
    if second.len() == 0 {
        assert(first + second =~= first);
        assert(items_bytes(first) + items_bytes(second) =~= items_bytes(first));
    } else {
        law_batches_join(first, second.drop_last());
        assert((first + second).drop_last() =~= first + second.drop_last());
        assert((first + second).last() == second.last());
        assert(items_bytes(first + second) =~= items_bytes(first) + items_bytes(second));
    }
}

/// A new stream has nothing queued, nothing in flight and nothing to read, and
/// is attached to its session, with a window of 65536 bytes for a writer.
pub proof fn law_new_stream_is_idle(id: i64, now: u64)
    ensures
        ({
            let stream = StreamView::created(id, now);
            &&& stream.id == id && stream.state.id == id
            &&& stream.outbound.data.len() == 0 && stream.outbound.inflight.len() == 0
            &&& stream.outbound.submitted == 0 && stream.outbound.acked == 0
            &&& !stream.outbound.fin_pending && !stream.outbound.started
            &&& stream.inbound.chunks.len() == 0
            &&& !stream.inbound.ended && !stream.inbound.errored
            &&& stream.wakeup is None && stream.attached && !stream.destroyed
            &&& !stream.pending_outbound()
            &&& stream.capacity() == 65536
            &&& stream.state == (StreamState {
                id,
                pending: 0,
                fin_sent: 0,
                fin_received: 0,
                read_ended: 0,
                write_ended: 0,
                reset: 0,
                reset_code: 0,
                has_outbound: 0,
                has_reader: 0,
                wants_block: 0,
                wants_headers: 0,
                wants_reset: 0,
                wants_trailers: 0,
                received_early_data: 0,
                write_desired_size: 0,
                high_water_mark: 65536,
            })
            &&& stream.stats.len() == 13
            &&& forall|slot: int|
                0 <= slot < 13 ==> #[trigger] stream.stats[slot] == if slot == 0 || slot == 1 {
                    now
                } else {
                    0
                }
        }),
{
}

/// What the peer sends reaches the reader whole and behind what is waiting, and
/// changes nothing on the sending side: neither the queue, nor what is in
/// flight, nor the reader's wakeup.
pub proof fn law_received_data_is_kept(stream: StreamView, data: Seq<u8>, fin: bool, now: u64)
    requires
        stream.well_formed(),
    ensures
        ({
            let after = stream.with_received(data, fin, now);
            &&& stream.destroyed ==> after == stream
            &&& after.outbound == stream.outbound && after.wakeup == stream.wakeup
            &&& after.id == stream.id && after.attached == stream.attached && after.destroyed
                == stream.destroyed
            &&& !stream.destroyed ==> {
                &&& after.inbound.readable() == stream.inbound.readable() + data
                &&& data.len() == 0 ==> after.inbound.chunks == stream.inbound.chunks
                &&& data.len() > 0 ==> after.inbound.chunks == stream.inbound.chunks.push(data)
                &&& after.inbound.ended == (stream.inbound.ended || fin)
                &&& after.inbound.errored == stream.inbound.errored
                &&& fin ==> after.state.fin_received == 1
                &&& !fin ==> after.state == stream.state
                &&& after.state == (StreamState {
                    fin_received: after.state.fin_received,
                    ..stream.state
                })
                &&& data.len() == 0 ==> after.stats == stream.stats
                &&& data.len() > 0 ==> {
                    &&& after.stats[5] == (stream.stats[5] + data.len() as u64)
                        % 0x1_0000_0000_0000_0000
                    &&& after.stats[2] == now
                    &&& forall|slot: int|
                        0 <= slot < 13 && slot != 5 && slot != 2 ==> #[trigger] after.stats[slot]
                            == stream.stats[slot]
                }
            }
        }),
{
    law_received_data_is_readable_last(stream.inbound, data, fin);
}

/// A reset takes away what was not read and tells the reader of an error, with
/// the peer's code; what is sent is not touched.
pub proof fn law_reset_ends_reading_only(stream: StreamView, code: u64)
    ensures
        ({
            let after = stream.with_reset(code);
            &&& stream.destroyed ==> after == stream
            &&& !stream.destroyed ==> {
                &&& after.inbound.chunks.len() == 0 && after.inbound.errored
                    && after.inbound.ended
                &&& after == (StreamView {
                    inbound: after.inbound,
                    state: StreamState {
                        reset: 1,
                        reset_code: code,
                        read_ended: 1,
                        ..stream.state
                    },
                    ..stream
                })
            }
        }),
{
}

/// A stream has something to send exactly while bytes are queued, or its end
/// is due and was not sent. Marking the end as sent changes the two flags that
/// say so, and nothing else; then only queued bytes are left to send.
pub proof fn law_pending_means_bytes_or_the_end(stream: StreamView)
    ensures
        stream.pending_outbound() <==> stream.outbound.data.len() > 0 || (
        stream.outbound.fin_pending && stream.state.fin_sent == 0),
        stream.with_fin_sent() == (StreamView {
            state: StreamState { fin_sent: 1, write_ended: 1, ..stream.state },
            ..stream
        }),
        stream.with_fin_sent().pending_outbound() <==> stream.outbound.data.len() > 0,
{
}

/// Refreshing the write window changes the window alone. A writer is told of
/// room exactly where it had none and the queue is below the mark.
pub proof fn law_window_is_refreshed_alone(stream: StreamView)
    ensures
        stream.with_capacity() == (StreamView {
            state: StreamState {
                write_desired_size: stream.with_capacity().state.write_desired_size,
                ..stream.state
            },
            ..stream
        }),
        stream.with_capacity().state.write_desired_size == if stream.outbound.data.len()
            >= stream.state.high_water_mark {
            0
        } else {
            stream.state.high_water_mark - stream.outbound.data.len()
        },
        stream.drains() <==> stream.state.write_desired_size == 0 && stream.outbound.data.len()
            < stream.state.high_water_mark,
{
}

/// Attaching a body queues exactly its bytes, whatever their number, behind
/// what is waiting, with the end of the stream behind them. What is in flight
/// or was received stays.
pub proof fn law_body_is_queued_whole(stream: StreamView, bytes: Seq<u8>)
    ensures
        ({
            let after = stream.with_source(bytes);
            &&& after.outbound.data == stream.outbound.data + bytes
            &&& after.outbound.fin_pending && after.outbound.started
            &&& after.outbound.inflight == stream.outbound.inflight
            &&& after.outbound.submitted == stream.outbound.submitted
            &&& after.outbound.acked == stream.outbound.acked
            &&& after.state == (StreamState { has_outbound: 1, ..stream.state })
            &&& after == (StreamView { outbound: after.outbound, state: after.state, ..stream })
            &&& stream.state.fin_sent == 0 ==> after.pending_outbound()
        }),
{
}

/// A batch is queued whole too, does not end the stream, and leaves the window
/// that the queue leaves below the mark.
pub proof fn law_batch_is_queued_whole(stream: StreamView, bytes: Seq<u8>)
    ensures
        ({
            let after = stream.with_batch(bytes);
            &&& after.outbound == (OutboundView {
                data: stream.outbound.data + bytes,
                ..stream.outbound
            })
            &&& after.state.write_desired_size == if stream.outbound.data.len() + bytes.len()
                >= stream.state.high_water_mark {
                0
            } else {
                stream.state.high_water_mark - (stream.outbound.data.len() + bytes.len())
            }
            &&& after == (StreamView {
                outbound: after.outbound,
                state: StreamState {
                    write_desired_size: after.state.write_desired_size,
                    ..stream.state
                },
                ..stream
            })
        }),
{
}

/// A streaming source opens the window and queues nothing; ending it makes the
/// end due and queues nothing.
pub proof fn law_streaming_source_opens_and_ends(stream: StreamView)
    ensures
        stream.with_streaming_source() == (StreamView {
            outbound: OutboundView { started: true, ..stream.outbound },
            state: StreamState {
                has_outbound: 1,
                write_desired_size: stream.state.high_water_mark,
                ..stream.state
            },
            ..stream
        }),
        stream.with_ended_write() == (StreamView {
            outbound: OutboundView { started: true, fin_pending: true, ..stream.outbound },
            ..stream
        }),
        stream.state.fin_sent == 0 ==> stream.with_ended_write().pending_outbound(),
{
}

/// A body sent in batches and then ended leaves the stream with the same bytes
/// and the same end to send as the body attached at once.
pub proof fn law_streaming_sends_what_a_body_does(stream: StreamView, first: Seq<u8>, second: Seq<u8>)
    ensures
        stream.with_streaming_source().with_batch(first).with_batch(
            second,
        ).with_ended_write().outbound == stream.with_source(first + second).outbound,
{
    assert(stream.outbound.data + first + second =~= stream.outbound.data + (first + second));
    assert(stream.with_streaming_source().with_batch(first).with_batch(
        second,
    ).with_ended_write().outbound =~= stream.with_source(first + second).outbound);
}

/// A stream that is torn down has let go of its queue, its readable data and
/// its wakeup and is detached. What is in flight stays held.
pub proof fn law_torn_down_stream_is_bare(stream: StreamView, now: u64)
    requires
        !stream.destroyed,
        stream.stats.len() == 13,
    ensures
        ({
            let after = stream.torn_down(now);
            &&& after.destroyed && !after.attached && after.wakeup is None
            &&& after.outbound.data.len() == 0 && !after.outbound.fin_pending
            &&& after.inbound.chunks.len() == 0
            &&& after.outbound == (OutboundView {
                data: after.outbound.data,
                fin_pending: false,
                ..stream.outbound
            })
            &&& after.inbound == (InboundView { chunks: after.inbound.chunks, ..stream.inbound })
            &&& after.id == stream.id && after.state == stream.state
            &&& after.stats[4] == now
            &&& forall|slot: int|
                0 <= slot < 13 && slot != 4 ==> #[trigger] after.stats[slot] == stream.stats[slot]
            &&& after.stats.len() == 13
        }),
{
}

/// A destroyed stream ignores requests; a detached one has no session to ask;
/// any other passes on its id, the code and the sides as they are.
pub proof fn law_requests_follow_the_stream(stream: StreamView, code: u64, sides: Sides)
    ensures
        stream.destroyed <==> stream.request(code, sides) == StreamRequest::Ignored,
        stream.destroyed <==> stream.kick() == Kick::Ignored,
        !stream.destroyed && !stream.attached <==> stream.request(code, sides)
            == StreamRequest::Detached,
        !stream.destroyed && !stream.attached <==> stream.kick() == Kick::Detached,
        !stream.destroyed && stream.attached ==> {
            &&& stream.kick() == Kick::Session
            &&& stream.request(code, sides) == (StreamRequest::Ask { id: stream.id, code, sides })
        },
        sides.writing() <==> sides == Sides::Both || sides == Sides::Writing,
        sides.reading() <==> sides == Sides::Both || sides == Sides::Reading,
{
}

/// A stream stands for what its fields hold.
pub proof fn law_stream_is_seen_as_it_is(stream: QuicStream)
    ensures
        stream@.id == stream.id,
        stream@.state == stream.state,
        stream@.wakeup == stream.wakeup,
        stream@.attached == stream.attached,
        stream@.destroyed == stream.destroyed,
        stream@.stats == stream.stats@,
        stream@.outbound == stream.outbound@,
        stream@.inbound == stream.inbound@,
{
}

/// The default window and priority have their numbers.
pub proof fn law_stream_constants_have_their_numbers()
    ensures
        DEFAULT_HIGH_WATER_MARK == 65536,
        DEFAULT_PRIORITY == 6,
{
}

} // verus!
