//! The write loop: which stream data and which datagrams go into the next
//! packet, and what becomes of them.

use vstd::prelude::*;

use crate::events::{dispatched, PassView, StreamEvent};
use crate::ngtcp2::{
    NGTCP2_ERR_DRAINING, NGTCP2_ERR_STREAM_DATA_BLOCKED, NGTCP2_ERR_STREAM_NOT_FOUND, NGTCP2_ERR_STREAM_SHUT_WR,
};
use crate::outbound::{law_ack_keeps_the_tiling, law_write_keeps_the_tiling, least};
use crate::session::{QuicSession, SessionView, IDX_STATS_BYTES_SENT, IDX_STATS_PKT_SENT};
use crate::stream::{StreamState, StreamView};

verus! {

/// Largest packet ever produced.
pub const MAX_SEND_PACKET: usize = 1500;

/// The stream data offered to the transport for one packet.
#[derive(Copy, Clone, Debug, PartialEq, Eq, Structural)]
pub struct StreamWrite {
    /// The stream, or none where no stream has anything to send.
    pub stream: Option<i64>,
    /// Number of bytes staged.
    pub len: usize,
    /// Whether the data ends the stream.
    pub fin: bool,
}

/// What follows a packet write.
#[derive(Copy, Clone, Debug, PartialEq, Eq, Structural)]
pub enum FlushNext {
    /// The pass is over.
    Stop,
    /// Offer the next data.
    Again,
    /// Send the packet, then offer the next data.
    Send,
    /// Close the connection because of this error.
    Fail(i32),
}

/// What follows a datagram write.
#[derive(Copy, Clone, Debug, PartialEq, Eq, Structural)]
pub struct DatagramNext {
    /// Whether a packet is to be sent.
    pub send: bool,
    /// Whether the next datagram is to be offered.
    pub again: bool,
}

/// A stream that the write loop visits.
pub open spec fn has_data(stream: StreamView) -> bool {
    !stream.destroyed && stream.pending_outbound()
}

/// The streams that a pass visits: those with something to send, each once, in
/// some order.
pub open spec fn pending_list(list: Seq<i64>, streams: Map<i64, StreamView>) -> bool {
    &&& list.no_duplicates()
    &&& forall|id: i64| #[trigger]
        list.contains(id) <==> streams.contains_key(id) && has_data(streams[id])
}

/// Every stream of the list is there.
pub open spec fn all_known(list: Seq<i64>, streams: Map<i64, StreamView>) -> bool {
    forall|i: int| 0 <= i < list.len() ==> streams.contains_key(#[trigger] list[i])
}

impl StreamWrite {
    /// The write offered for the last stream of a list.
    pub open spec fn offered(pending: Seq<i64>, streams: Map<i64, StreamView>) -> StreamWrite {
        if pending.len() == 0 {
            StreamWrite { stream: None, len: 0, fin: false }
        } else {
            let outbound = streams[pending.last()].outbound;
            let len = least(outbound.data.len(), MAX_SEND_PACKET as nat);
            StreamWrite {
                stream: Some(pending.last()),
                len: len as usize,
                fin: outbound.fin_pending && outbound.data.len() == len,
            }
        }
    }

    /// The write stands for the head of the last listed stream's queue, and
    /// its bytes are the stream's last in-flight chunk.
    pub open spec fn staged(self, pending: Seq<i64>, streams: Map<i64, StreamView>) -> bool {
        &&& all_known(pending, streams)
        &&& match self.stream {
            None => pending.len() == 0,
            Some(id) => {
                let outbound = streams[id].outbound;
                &&& pending.len() > 0
                &&& id == pending.last()
                &&& self.len <= outbound.data.len()
                &&& outbound.submitted + self.len <= u64::MAX
                &&& self.len > 0 ==> outbound.inflight.len() > 0
                    && outbound.inflight.last().bytes.len() == self.len
            },
        }
    }
}

/// The streams after a write is settled: staged bytes that the transport did
/// not take are queued again, and the end of the stream counts as sent once
/// the queue is empty.
pub open spec fn settled_stream(
    stream: StreamView,
    write: StreamWrite,
    n: i64,
    accepted: nat,
    finished: bool,
) -> StreamView {
    let committed = if write.len > 0 {
        StreamView {
            outbound: stream.outbound.with_committed(
                if n >= 0 {
                    accepted
                } else {
                    0
                },
            ),
            ..stream
        }
    } else {
        stream
    };
    if n > 0 && write.fin && finished && committed.outbound.data.len() == 0 {
        committed.with_fin_sent()
    } else {
        committed
    }
}

impl SessionView {
    /// The write loop has something to write to.
    pub open spec fn can_write(self) -> bool {
        self.live() && self.endpoint
    }

    /// The session with the write settled; `n` is the transport's result and
    /// `taken` the number of bytes it reports taken, or less than zero.
    pub open spec fn with_write(self, write: StreamWrite, n: i64, taken: i64) -> SessionView {
        let accepted = if taken > 0 {
            taken as nat
        } else {
            0
        };
        let written = match write.stream {
            Some(id) => {
                let settled = self.with_stream(
                    id,
                    settled_stream(self.streams[id], write, n, accepted, taken >= 0),
                );
                let drained = if write.len > 0 && accepted > 0 && n >= 0 {
                    settled.with_event(StreamEvent::Drain(id))
                } else {
                    settled
                };
                if n < 0 && n as i32 == NGTCP2_ERR_STREAM_DATA_BLOCKED {
                    drained.with_event(StreamEvent::Blocked(id))
                } else {
                    drained
                }
            },
            None => self,
        };
        if n > 0 {
            written.with_added(IDX_STATS_PKT_SENT as int, 1).with_added(
                IDX_STATS_BYTES_SENT as int,
                n as u64,
            )
        } else {
            written
        }
    }
}

/// An error that only says that this stream cannot make progress now.
pub open spec fn skips_stream(rv: i32) -> bool {
    rv == NGTCP2_ERR_STREAM_DATA_BLOCKED || rv == NGTCP2_ERR_STREAM_SHUT_WR || rv
        == NGTCP2_ERR_STREAM_NOT_FOUND
}

/// What follows a write whose result was `n`.
pub open spec fn flush_next(n: i64, fatal: bool) -> FlushNext {
    if n > 0 {
        FlushNext::Send
    } else if n == 0 {
        FlushNext::Stop
    } else if n as i32 == NGTCP2_ERR_DRAINING {
        FlushNext::Stop
    } else if skips_stream(n as i32) {
        FlushNext::Again
    } else if fatal {
        FlushNext::Fail(n as i32)
    } else {
        FlushNext::Stop
    }
}

/// The list after a write: a stream leaves it when it cannot make progress
/// now, or when it has nothing left to send. One that a packet leaves with more
/// to send moves behind the others, to the list's front, so that the streams
/// take turns.
pub open spec fn pending_after(
    pending: Seq<i64>,
    write: StreamWrite,
    n: i64,
    streams: Map<i64, StreamView>,
) -> Seq<i64> {
    let leaves = if n < 0 {
        skips_stream(n as i32)
    } else {
        n > 0 && write.stream is Some && !streams[write.stream->0].pending_outbound()
    };
    if pending.len() == 0 {
        pending
    } else if leaves {
        pending.drop_last()
    } else if n > 0 && write.stream is Some {
        seq![pending.last()] + pending.drop_last()
    } else {
        pending
    }
}

impl QuicSession {
    /// Begin a pass of the write loop: the streams with queued data, unless
    /// there is nothing to write to.
    pub fn begin_flush(&self) -> (pending: Option<Vec<i64>>)
        requires
            self@.well_formed(),
        ensures
            match pending {
                Some(pending) => self@.can_write() && pending_list(pending@, self@.streams)
                    && all_known(pending@, self@.streams),
                None => !self@.can_write(),
            },
    {
        if self.destroyed || !self.conn || !self.endpoint {
            return None;
        }
        let ids = self.streams.ids();
        let mut pending: Vec<i64> = Vec::new();
        let mut at: usize = 0;
        while at < ids.len()
            invariant
                at <= ids@.len(),
                ids@.no_duplicates(),
                pending@.no_duplicates(),
                forall|i: int|
                    0 <= i < pending@.len() ==> ids@.take(at as int).contains(#[trigger] pending@[i]),
                forall|i: int|
                    0 <= i < at ==> (pending@.contains(#[trigger] ids@[i])
                        <==> self@.streams.contains_key(ids@[i]) && has_data(self@.streams[ids@[i]])),
            decreases ids@.len() - at,
        {
            let id: i64 = ids[at];
            let ghost prefix = ids@.take(at as int);
            let ghost longer = ids@.take(at + 1);
            let ghost listed = pending@;
            assert(longer =~= prefix.push(id));
            assert(!prefix.contains(id));
            assert(!pending@.contains(id));
            let visits = match self.streams.get(id) {
                Some(stream) => !stream.is_destroyed() && stream.has_pending_outbound(),
                None => false,
            };
            if visits {
                pending.push(id);
                assert(pending@[pending@.len() - 1] == id);
                assert forall|i: int| 0 <= i < listed.len() implies pending@.contains(
                    #[trigger] listed[i],
                ) by {
                    assert(pending@[i] == listed[i]);
                }
            }
            assert forall|i: int| 0 <= i < pending@.len() implies longer.contains(
                #[trigger] pending@[i],
            ) by {
                if i < listed.len() {
                    assert(prefix.contains(listed[i]));
                    let j = choose|j: int| 0 <= j < prefix.len() && prefix[j] == listed[i];
                    assert(longer[j] == listed[i]);
                } else {
                    assert(longer[at as int] == id);
                }
            }
            assert forall|i: int| 0 <= i < at + 1 implies (pending@.contains(#[trigger] ids@[i])
                <==> self@.streams.contains_key(ids@[i]) && has_data(self@.streams[ids@[i]])) by {
                if i < at {
                    assert(ids@[i] != id);
                    if pending@.contains(ids@[i]) {
                        let j = choose|j: int| 0 <= j < pending@.len() && pending@[j] == ids@[i];
                        assert(j < listed.len());
                        assert(listed[j] == ids@[i]);
                    }
                }
            }
            at = at + 1;
        }
        assert(ids@.take(at as int) =~= ids@);
        assert forall|id: i64| #[trigger] pending@.contains(id) <==> self@.streams.contains_key(id)
            && has_data(self@.streams[id]) by {
            if pending@.contains(id) {
                let j = choose|j: int| 0 <= j < pending@.len() && pending@[j] == id;
                assert(ids@.contains(pending@[j]));
                let i = choose|i: int| 0 <= i < ids@.len() && ids@[i] == id;
                assert(pending@.contains(ids@[i]));
            }
            if self@.streams.contains_key(id) {
                assert(ids@.contains(id));
                let i = choose|i: int| 0 <= i < ids@.len() && ids@[i] == id;
                assert(pending@.contains(ids@[i]) <==> has_data(self@.streams[ids@[i]]));
            }
        }
        assert forall|i: int| 0 <= i < pending@.len() implies self@.streams.contains_key(
            #[trigger] pending@[i],
        ) by {
            assert(pending@.contains(pending@[i]));
        }
        Some(pending)
    }

    /// Stage the head of the last listed stream's queue for one packet.
    pub fn stage_write(&mut self, pending: &Vec<i64>) -> (write: StreamWrite)
        requires
            old(self)@.well_formed(),
            all_known(pending@, old(self)@.streams),
            pending@.len() > 0 ==> old(self)@.streams[pending@.last()].outbound.submitted + least(
                old(self)@.streams[pending@.last()].outbound.data.len(),
                MAX_SEND_PACKET as nat,
            ) <= u64::MAX,
        ensures
            write == StreamWrite::offered(pending@, old(self)@.streams),
            final(self)@ == match write.stream {
                Some(id) => old(self)@.with_stream(
                    id,
                    StreamView {
                        outbound: old(self)@.streams[id].outbound.with_staged(
                            MAX_SEND_PACKET as nat,
                        ),
                        ..old(self)@.streams[id]
                    },
                ),
                None => old(self)@,
            },
            final(self)@.well_formed(),
            write.staged(pending@, final(self)@.streams),
    {
        if pending.len() == 0 {
            return StreamWrite { stream: None, len: 0, fin: false };
        }
        let id: i64 = pending[pending.len() - 1];
        match self.streams.take(id) {
            Some(mut stream) => {
                let ghost outbound = stream@.outbound;
                let len: usize = stream.stage_chunk(MAX_SEND_PACKET);
                let fin: bool = stream.outbound.fin_pending && stream.outbound.data.len() == len;
                proof {
                    if len > 0 {
                        assert(outbound.with_staged(MAX_SEND_PACKET as nat).inflight.last()
                            == outbound.next_chunk(MAX_SEND_PACKET as nat));
                    }
                }
                self.return_stream(id, stream, Ghost(old(self)@));
                StreamWrite { stream: Some(id), len, fin }
            },
            None => StreamWrite { stream: None, len: 0, fin: false },
        }
    }

    /// The staged bytes of a stream.
    pub fn staged_bytes(&self, write: &StreamWrite) -> (bytes: Option<&[u8]>)
        ensures
            match bytes {
                Some(bytes) => write.len > 0 && write.stream is Some && self@.streams.contains_key(
                    write.stream->0,
                ) && self@.streams[write.stream->0].outbound.inflight.len() > 0 && bytes@
                    == self@.streams[write.stream->0].outbound.inflight.last().bytes,
                None => write.len == 0 || write.stream is None || !self@.streams.contains_key(
                    write.stream->0,
                ) || self@.streams[write.stream->0].outbound.inflight.len() == 0,
            },
    {
        if write.len == 0 {
            return None;
        }
        match write.stream {
            Some(id) => match self.streams.get(id) {
                Some(stream) => stream.outbound.staged_bytes(),
                None => None,
            },
            None => None,
        }
    }

    /// Settle the staged bytes of one stream.
    fn settle_stream(&mut self, id: i64, write: &StreamWrite, n: i64, taken: i64) -> (pending: bool)
        requires
            old(self)@.well_formed(),
            old(self)@.streams.contains_key(id),
            ({
                let outbound = old(self)@.streams[id].outbound;
                &&& write.len <= outbound.data.len()
                &&& outbound.submitted + write.len <= u64::MAX
                &&& write.len > 0 ==> outbound.inflight.len() > 0
                    && outbound.inflight.last().bytes.len() == write.len
            }),
        ensures
            final(self)@ == old(self)@.with_stream(
                id,
                settled_stream(
                    old(self)@.streams[id],
                    *write,
                    n,
                    if taken > 0 {
                        taken as nat
                    } else {
                        0
                    },
                    taken >= 0,
                ),
            ),
            final(self)@.well_formed(),
            pending == final(self)@.streams[id].pending_outbound(),
    {
        match self.streams.take(id) {
            Some(mut stream) => {
                if write.len > 0 {
                    // More than was offered counts as all of it.
                    let accepted: usize = if n < 0 || taken <= 0 {
                        0
                    } else if taken as u64 > write.len as u64 {
                        write.len
                    } else {
                        taken as usize
                    };
                    proof {
                        let outbound = stream@.outbound;
                        let all = if n >= 0 && taken > 0 {
                            taken as nat
                        } else {
                            0
                        };
                        assert(outbound.with_committed(all) == outbound.with_committed(
                            accepted as nat,
                        ));
                        assert(outbound.with_committed(accepted as nat).data.len()
                            <= outbound.data.len());
                    }
                    stream.commit_staged(accepted);
                }
                if n > 0 && write.fin && taken >= 0 && stream.outbound.data.len() == 0 {
                    stream.mark_fin_sent();
                }
                let pending: bool = stream.has_pending_outbound();
                self.return_stream(id, stream, Ghost(old(self)@));
                pending
            },
            None => {
                assert(false);
                false
            },
        }
    }

    /// Settle a write: `n` is the transport's result (the packet's length, or
    /// an error below zero, of which `fatal` tells whether it is fatal), and
    /// `taken` the number of bytes it reports taken, below zero if none were
    /// offered to the packet.
    pub fn settle_write(
        &mut self,
        pending: &mut Vec<i64>,
        write: &StreamWrite,
        n: i64,
        taken: i64,
        fatal: bool,
    ) -> (next: FlushNext)
        requires
            old(self)@.well_formed(),
            write.staged(old(pending)@, old(self)@.streams),
        ensures
            next == flush_next(n, fatal),
            final(self)@ == old(self)@.with_write(*write, n, taken),
            final(pending)@ == pending_after(
                old(pending)@,
                *write,
                n,
                final(self)@.streams,
            ),
            final(self)@.well_formed(),
            all_known(final(pending)@, final(self)@.streams),
    {
        let mut remains: bool = true;
        if let Some(id) = write.stream {
            remains = self.settle_stream(id, write, n, taken);
            if write.len > 0 && taken > 0 && n >= 0 {
                self.push_event(StreamEvent::Drain(id));
            }
        }
        if n < 0 {
            let rv: i32 = n as i32;
            if rv == NGTCP2_ERR_DRAINING {
                return FlushNext::Stop;
            }
            if rv == NGTCP2_ERR_STREAM_DATA_BLOCKED || rv == NGTCP2_ERR_STREAM_SHUT_WR || rv
                == NGTCP2_ERR_STREAM_NOT_FOUND {
                if rv == NGTCP2_ERR_STREAM_DATA_BLOCKED {
                    if let Some(id) = write.stream {
                        self.push_event(StreamEvent::Blocked(id));
                    }
                }
                // This stream cannot make progress right now.
                let _left = pending.pop();
                return FlushNext::Again;
            }
            if fatal {
                return FlushNext::Fail(rv);
            }
            return FlushNext::Stop;
        }
        if n > 0 {
            // The next packet is another stream's.
            let visited = pending.pop();
            if let Some(id) = visited {
                if remains {
                    pending.insert(0, id);
                }
            }
        }
        if n == 0 {
            // Flow control, congestion, or nothing left: the pass is over.
            return FlushNext::Stop;
        }
        self.add_stat(IDX_STATS_PKT_SENT, 1);
        self.add_stat(IDX_STATS_BYTES_SENT, n as u64);
        FlushNext::Send
    }
}

/// Staging a stream's data for a packet and settling it moves the outbound
/// queue as one write does: the bytes that the transport took leave the head
/// of the queue in order, and the rest stay.
pub proof fn law_write_loop_writes_in_order(stream: StreamView, id: i64, n: i64, taken: i64)
    requires
        n >= 0,
    ensures
        ({
            let streams = Map::empty().insert(id, stream);
            let write = StreamWrite::offered(seq![id], streams);
            let staged = StreamView {
                outbound: stream.outbound.with_staged(MAX_SEND_PACKET as nat),
                ..stream
            };
            let accepted = if taken > 0 {
                taken as nat
            } else {
                0
            };
            settled_stream(staged, write, n, accepted, taken >= 0).outbound
                == if stream.outbound.data.len() == 0 {
                stream.outbound
            } else {
                stream.outbound.written(MAX_SEND_PACKET as nat, accepted)
            }
        }),
{
}

/// The end of a stream is offered only together with its last queued byte.
pub proof fn law_end_is_offered_with_the_last_byte(
    pending: Seq<i64>,
    streams: Map<i64, StreamView>,
)
    ensures
        StreamWrite::offered(pending, streams).fin ==> pending.len() > 0 && ({
            let outbound = streams[pending.last()].outbound;
            &&& outbound.fin_pending
            &&& StreamWrite::offered(pending, streams).len == outbound.data.len()
        }),
{
}

/// The end of a stream counts as sent only once its queue is empty and a
/// packet that was to carry the end was produced.
pub proof fn law_end_is_sent_last(
    stream: StreamView,
    write: StreamWrite,
    n: i64,
    accepted: nat,
    finished: bool,
)
    requires
        stream.state.fin_sent == 0,
        settled_stream(stream, write, n, accepted, finished).state.fin_sent != 0,
    ensures
        settled_stream(stream, write, n, accepted, finished).outbound.data.len() == 0,
        write.fin,
        n > 0,
{
}

/// A write that fails leaves the stream's unsent bytes as they were queued.
pub proof fn law_failed_write_requeues(stream: StreamView, id: i64, n: i64, taken: i64)
    requires
        n < 0,
    ensures
        ({
            let streams = Map::empty().insert(id, stream);
            let write = StreamWrite::offered(seq![id], streams);
            let staged = StreamView {
                outbound: stream.outbound.with_staged(MAX_SEND_PACKET as nat),
                ..stream
            };
            let accepted = if taken > 0 {
                taken as nat
            } else {
                0
            };
            settled_stream(staged, write, n, accepted, taken >= 0) == stream
        }),
{
    let outbound = stream.outbound;
    let staged = outbound.with_staged(MAX_SEND_PACKET as nat);
    if outbound.data.len() > 0 {
        let chunk = outbound.next_chunk(MAX_SEND_PACKET as nat);
        assert(staged.inflight.last() == chunk);
        assert(staged.inflight.drop_last() =~= outbound.inflight);
        assert(chunk.bytes.skip(0) + outbound.data.skip(chunk.bytes.len() as int)
            =~= outbound.data);
        assert(staged.with_committed(0) =~= outbound);
    }
}

/// The streams take turns: whether a packet leaves the stream it was written
/// for with more to send or the stream leaves the list, every other listed
/// stream comes one packet nearer, and no stream is listed twice or anew.
pub proof fn law_pending_streams_take_turns(
    pending: Seq<i64>,
    write: StreamWrite,
    n: i64,
    streams: Map<i64, StreamView>,
    at: int,
)
    requires
        pending.no_duplicates(),
        0 <= at < pending.len() - 1,
        write.stream == Some(pending.last()),
        n > 0 || (n < 0 && skips_stream(n as i32)),
    ensures
        ({
            let after = pending_after(pending, write, n, streams);
            &&& after.len() == pending.len() || after.len() == pending.len() - 1
            // The distance from the list's end, where the next write looks.
            &&& after[after.len() - (pending.len() - 1 - at)] == pending[at]
            &&& after.no_duplicates()
            &&& forall|id: i64| #[trigger] after.contains(id) ==> pending.contains(id)
        }),
{
    let after = pending_after(pending, write, n, streams);
    assert forall|id: i64| #[trigger] after.contains(id) implies pending.contains(id) by {
        let i = choose|i: int| 0 <= i < after.len() && after[i] == id;
        if after.len() < pending.len() {
            assert(pending[i] == id);
        } else if i == 0 {
            assert(pending[pending.len() - 1] == id);
        } else {
            assert(pending[i - 1] == id);
        }
    }
}

impl SessionView {
    /// Every stream holds the bytes that the transport took and the peer has
    /// not acknowledged.
    pub open spec fn holds_unacked(self) -> bool {
        forall|id: i64|
            #![trigger self.streams[id]]
            self.streams.contains_key(id) ==> self.streams[id].outbound.tiled()
    }
}

/// The transport goes on referring to the bytes it took until they are
/// acknowledged, so they stay held: through a write, whatever its result,
/// through acknowledgements, and through the dispatch of events.
pub proof fn law_unacked_bytes_stay_held(
    session: SessionView,
    pending: Seq<i64>,
    n: i64,
    taken: i64,
    offset: u64,
    datalen: u64,
    pass: PassView,
    event: StreamEvent,
    now: u64,
)
    requires
        session.well_formed(),
        session.holds_unacked(),
        pending.len() > 0,
        session.streams.contains_key(pending.last()),
        session.streams[pending.last()].outbound.submitted + MAX_SEND_PACKET <= u64::MAX,
    ensures
        ({
            let id = pending.last();
            let write = StreamWrite::offered(pending, session.streams);
            let staged = session.with_stream(
                id,
                StreamView {
                    outbound: session.streams[id].outbound.with_staged(MAX_SEND_PACKET as nat),
                    ..session.streams[id]
                },
            );
            staged.with_write(write, n, taken).holds_unacked()
        }),
        ({
            let id = pending.last();
            session.with_stream(
                id,
                StreamView {
                    outbound: session.streams[id].outbound.with_acked(offset, datalen),
                    ..session.streams[id]
                },
            ).holds_unacked()
        }),
        dispatched(session, pass, event, now).session.holds_unacked(),
{
    let id = pending.last();
    let stream = session.streams[id];
    let outbound = stream.outbound;
    let write = StreamWrite::offered(pending, session.streams);
    let accepted = if taken > 0 {
        taken as nat
    } else {
        0
    };
    let staged_stream = StreamView {
        outbound: outbound.with_staged(MAX_SEND_PACKET as nat),
        ..stream
    };
    let settled = settled_stream(staged_stream, write, n, accepted, taken >= 0);
    assert(settled.outbound.tiled()) by {
        assert(StreamWrite::offered(seq![id], Map::empty().insert(id, stream)) == write);
        if n >= 0 {
            law_write_loop_writes_in_order(stream, id, n, taken);
            if outbound.data.len() > 0 {
                law_write_keeps_the_tiling(outbound, MAX_SEND_PACKET as nat, accepted);
            }
        } else {
            law_failed_write_requeues(stream, id, n, taken);
        }
    }
    law_ack_keeps_the_tiling(outbound, Seq::empty(), offset, datalen);
    let staged = session.with_stream(id, staged_stream);
    let written = staged.with_write(write, n, taken);
    assert(staged.streams[id] == staged_stream);
    assert(written.streams == staged.streams.insert(id, settled));
    assert forall|other: i64| #![trigger written.streams[other]]
        written.streams.contains_key(other) implies written.streams[other].outbound.tiled() by {
        if other != id {
            assert(written.streams[other] == session.streams[other]);
        }
    }
    let after = dispatched(session, pass, event, now).session;
    assert forall|other: i64| #![trigger after.streams[other]]
        after.streams.contains_key(other) implies after.streams[other].outbound.tiled() by {
        assert(session.streams.contains_key(other));
        assert(after.streams[other].outbound == session.streams[other].outbound);
    }
}

/// The end of a stream is offered whenever it is due, and no earlier: exactly
/// where the stream that is visited has its end pending and the write covers
/// all of its queued bytes, none included. A write takes the head of the
/// queue, all of it up to a packet's size, of the stream that is listed last;
/// without a stream, nothing is offered.
pub proof fn law_end_is_offered_whenever_it_is_due(
    pending: Seq<i64>,
    streams: Map<i64, StreamView>,
)
    ensures
        ({
            let write = StreamWrite::offered(pending, streams);
            let outbound = streams[pending.last()].outbound;
            &&& pending.len() == 0 ==> write.stream is None && write.len == 0 && !write.fin
            &&& pending.len() > 0 ==> {
                &&& write.stream == Some(pending.last())
                &&& write.len == if outbound.data.len() <= 1500 {
                    outbound.data.len()
                } else {
                    1500
                }
                &&& write.fin <==> outbound.fin_pending && write.len == outbound.data.len()
                &&& outbound.fin_pending && outbound.data.len() == 0 ==> write.fin && write.len
                    == 0
                &&& !outbound.fin_pending ==> !write.fin
            }
        }),
{
}

/// A packet that was produced with the end offered, and that takes all that is
/// queued, sends the end: the stream has nothing left to send. For a stream
/// with nothing queued any such packet does.
pub proof fn law_produced_packet_sends_the_end(stream: StreamView, id: i64, n: i64, taken: i64)
    requires
        n > 0,
        taken >= 0,
        stream.outbound.fin_pending,
        stream.outbound.data.len() <= MAX_SEND_PACKET,
        stream.outbound.data.len() <= taken,
    ensures
        ({
            let write = StreamWrite::offered(seq![id], Map::empty().insert(id, stream));
            let staged = StreamView {
                outbound: stream.outbound.with_staged(MAX_SEND_PACKET as nat),
                ..stream
            };
            let after = settled_stream(staged, write, n, taken as nat, true);
            &&& write.fin
            &&& after.state.fin_sent == 1 && after.state.write_ended == 1
            &&& after.outbound.data.len() == 0
            &&& !after.pending_outbound()
        }),
{
    let outbound = stream.outbound;
    if outbound.data.len() > 0 {
        let staged = outbound.with_staged(MAX_SEND_PACKET as nat);
        assert(staged.inflight.last() == outbound.next_chunk(MAX_SEND_PACKET as nat));
    }
}

/// Settling a write changes the outbound side of the stream that was written
/// and, where the end was sent, the two flags that say so; nothing else of the
/// stream. The end counts as sent exactly where it was offered, a packet was
/// produced that took it, and nothing is left in the queue.
pub proof fn law_settling_touches_the_outbound_side(
    stream: StreamView,
    write: StreamWrite,
    n: i64,
    accepted: nat,
    finished: bool,
)
    ensures
        ({
            let after = settled_stream(stream, write, n, accepted, finished);
            let ends = n > 0 && write.fin && finished && after.outbound.data.len() == 0;
            &&& after == (StreamView {
                outbound: after.outbound,
                state: after.state,
                ..stream
            })
            &&& after.outbound.fin_pending == stream.outbound.fin_pending
            &&& after.outbound.acked == stream.outbound.acked
            &&& write.len == 0 ==> after.outbound == stream.outbound
            &&& ends ==> after.state == (StreamState {
                fin_sent: 1,
                write_ended: 1,
                ..stream.state
            })
            &&& !ends ==> after.state == stream.state
        }),
{
}

/// What settling a write does to the session: the stream that was written is
/// settled, its writer is told of room where bytes were taken and of a block
/// where the transport reports one, and a packet that was produced is counted.
/// No other stream, and nothing else of the session, changes.
#[verifier::spinoff_prover]
pub proof fn law_write_touches_one_stream(
    session: SessionView,
    write: StreamWrite,
    n: i64,
    taken: i64,
    other: i64,
)
    requires
        session.stats.len() == 32,
        n >= i32::MIN,
    ensures
        ({
            let after = session.with_write(write, n, taken);
            let told = write.stream is Some && write.len > 0 && taken > 0 && n >= 0;
            let blocked = write.stream is Some && n == NGTCP2_ERR_STREAM_DATA_BLOCKED;
            &&& write.stream != Some(other) ==> after.streams.contains_key(other)
                == session.streams.contains_key(other) && (session.streams.contains_key(other)
                ==> after.streams[other] == session.streams[other])
            &&& write.stream matches Some(id) ==> after.streams[id] == settled_stream(
                session.streams[id],
                write,
                n,
                if taken > 0 {
                    taken as nat
                } else {
                    0
                },
                taken >= 0,
            )
            &&& told ==> after.stream_events == session.stream_events.push(
                StreamEvent::Drain(write.stream->0),
            )
            &&& blocked ==> after.stream_events == session.stream_events.push(
                StreamEvent::Blocked(write.stream->0),
            )
            &&& !told && !blocked ==> after.stream_events == session.stream_events
            &&& n > 0 ==> after.stats[19] == (session.stats[19] + 1) % 0x1_0000_0000_0000_0000
                && after.stats[20] == (session.stats[20] + n) % 0x1_0000_0000_0000_0000
            &&& n <= 0 ==> after.stats == session.stats
            &&& forall|slot: int|
                0 <= slot < 32 && slot != 19 && slot != 20 ==> #[trigger] after.stats[slot]
                    == session.stats[slot]
            &&& after == (SessionView {
                streams: after.streams,
                stream_events: after.stream_events,
                stats: after.stats,
                ..session
            })
        }),
{
    assert(NGTCP2_ERR_STREAM_DATA_BLOCKED < 0);
}

/// What follows a write: a packet is sent and the pass goes on; without one the
/// pass is over. Of the errors, those that concern the stream alone let the
/// pass go on, one that says that the peer is draining ends it, and of the
/// others a fatal one fails the connection.
pub proof fn law_result_decides_what_follows(n: i64, fatal: bool)
    requires
        n >= i32::MIN,
    ensures
        flush_next(n, fatal) == FlushNext::Send <==> n > 0,
        flush_next(n, fatal) == FlushNext::Again <==> n == -208 || n == -219 || n == -220,
        flush_next(n, fatal) is Fail <==> fatal && n < 0 && n != -208 && n != -219 && n != -220
            && n != -224,
        flush_next(n, fatal) matches FlushNext::Fail(rv) ==> rv == n,
        n == 0 || n == -224 ==> flush_next(n, fatal) == FlushNext::Stop,
{
}

/// The list after a write: without a packet, and without an error of the
/// stream alone, it stays as it is. A stream that cannot go on, or has nothing
/// left to send, leaves; one with more to send stays. The others stay in any
/// case.
pub proof fn law_list_keeps_who_can_go_on(
    pending: Seq<i64>,
    write: StreamWrite,
    n: i64,
    streams: Map<i64, StreamView>,
    other: i64,
)
    requires
        pending.no_duplicates(),
        pending.len() > 0,
        write.stream == Some(pending.last()),
    ensures
        ({
            let after = pending_after(pending, write, n, streams);
            let visited = pending.last();
            let stream = streams[visited];
            &&& other != visited ==> (after.contains(other) <==> pending.contains(other))
            &&& n == 0 ==> after == pending
            &&& n < 0 && flush_next(n, false) != FlushNext::Again ==> after == pending
            &&& n < 0 && flush_next(n, false) == FlushNext::Again ==> !after.contains(visited)
            &&& n > 0 ==> (after.contains(visited) <==> stream.outbound.data.len() > 0 || (
            stream.outbound.fin_pending && stream.state.fin_sent == 0))
        }),
{
    let after = pending_after(pending, write, n, streams);
    let visited = pending.last();
    let rest = pending.drop_last();
    assert(pending =~= rest.push(visited));
    assert(!rest.contains(visited)) by {
        if rest.contains(visited) {
            let i = choose|i: int| 0 <= i < rest.len() && rest[i] == visited;
            assert(pending[i] == pending[pending.len() - 1]);
        }
    }
    let turned = seq![visited] + rest;
    assert(turned[0] == visited);
    assert(pending[pending.len() - 1] == visited);
    if rest.contains(other) {
        let i = choose|i: int| 0 <= i < rest.len() && rest[i] == other;
        assert(turned[i + 1] == other);
        assert(pending[i] == other);
    }
    if turned.contains(other) && other != visited {
        let i = choose|i: int| 0 <= i < turned.len() && turned[i] == other;
        assert(rest[i - 1] == other);
    }
    if pending.contains(other) && other != visited {
        let i = choose|i: int| 0 <= i < pending.len() && pending[i] == other;
        assert(rest[i] == other);
    }
}

/// A pass visits exactly the streams that are alive and have bytes or their
/// end to send, each once; and there is a pass exactly while the session lives,
/// with a connection and an endpoint.
pub proof fn law_pass_visits_who_has_something_to_send(
    session: SessionView,
    list: Seq<i64>,
    id: i64,
)
    requires
        pending_list(list, session.streams),
    ensures
        list.no_duplicates(),
        list.contains(id) <==> session.streams.contains_key(id) && !session.streams[id].destroyed
            && (session.streams[id].outbound.data.len() > 0 || (
        session.streams[id].outbound.fin_pending && session.streams[id].state.fin_sent == 0)),
        session.can_write() <==> !session.destroyed && session.conn && session.endpoint,
{
}

} // verus!
