//! Unreliable datagrams: the queue, its drop policy, and the payload limit.

use vstd::prelude::*;

use crate::events::StreamEvent;
use crate::flush::DatagramNext;
use crate::session::{
    QuicSession, SessionState, SessionView, IDX_STATS_BYTES_SENT, IDX_STATS_PKT_SENT, LISTENER_FLAG_DATAGRAM_STATUS,
};

verus! {

/// Length of a variable-length integer.
pub open spec fn varint_len(n: int) -> int {
    if n < 64 {
        1
    } else if n < 16384 {
        2
    } else if n < 1_073_741_824 {
        4
    } else {
        8
    }
}

/// Length of a datagram frame: the type byte, the length and the payload.
pub open spec fn datagram_frame_len(payload: int) -> int {
    1 + varint_len(payload) + payload
}

/// `payload` is the largest that fits a frame of `max_frame_size` bytes; it is
/// zero where not even an empty one fits.
pub open spec fn largest_payload(max_frame_size: int, payload: int) -> bool {
    &&& if max_frame_size >= 2 {
        payload >= 0 && datagram_frame_len(payload) <= max_frame_size
    } else {
        payload == 0
    }
    &&& forall|larger: int|
        larger > payload ==> #[trigger] datagram_frame_len(larger) > max_frame_size
}

/// `limit` is the datagram size that a session offers where the peer takes
/// frames of `max_frame_size` bytes: the largest payload, as far as sixteen
/// bits tell it.
pub open spec fn datagram_limit(max_frame_size: int, limit: int) -> bool {
    exists|payload: int| #[trigger]
        largest_payload(max_frame_size, payload) && limit == if payload > 0xffff {
            0xffff
        } else {
            payload
        }
}

/// Largest payload that fits a datagram frame of `max_frame_size` bytes; zero
/// where not even an empty one fits.
pub fn max_datagram_payload(max_frame_size: u64) -> (payload: u64)
    ensures
        largest_payload(max_frame_size as int, payload as int),
{
    if max_frame_size < 2 {
        return 0;
    }
    if max_frame_size >= 1_073_741_824 + 9 {
        max_frame_size - 9
    } else if max_frame_size >= 1_073_741_823 + 5 {
        1_073_741_823
    } else if max_frame_size >= 16384 + 5 {
        max_frame_size - 5
    } else if max_frame_size >= 16383 + 3 {
        16383
    } else if max_frame_size >= 64 + 3 {
        max_frame_size - 3
    } else if max_frame_size >= 63 + 2 {
        63
    } else {
        max_frame_size - 2
    }
}

/// The outcome of queueing a datagram.
#[derive(Copy, Clone, Debug, PartialEq, Eq, Structural)]
pub struct DatagramSend {
    /// The datagram's id, or zero where it could not be queued.
    pub id: u64,
    /// A datagram to report as abandoned.
    pub abandoned: Option<u64>,
    /// Whether the timer is to fire on the next turn.
    pub arm: bool,
}

impl SessionView {
    /// The queue has no room.
    pub open spec fn queue_full(self) -> bool {
        0 < self.state.max_pending_datagrams <= self.datagram_queue.len()
    }

    /// The datagram that a further one pushes out: itself, or the oldest.
    pub open spec fn dropped(self) -> Option<u64> {
        if !self.queue_full() {
            None
        } else if self.datagram_drop_newest {
            Some(self.next_datagram_id)
        } else {
            Some(self.datagram_queue[0].0)
        }
    }

    /// A datagram queued, or dropped at once.
    pub open spec fn with_datagram(self, bytes: Vec<u8>) -> SessionView {
        let entry = (self.next_datagram_id, bytes);
        SessionView {
            datagram_queue: if !self.queue_full() {
                self.datagram_queue.push(entry)
            } else if self.datagram_drop_newest {
                self.datagram_queue
            } else {
                self.datagram_queue.skip(1).push(entry)
            },
            state: SessionState {
                last_datagram_id: self.next_datagram_id,
                ..self.state
            },
            next_datagram_id: (self.next_datagram_id + 1) as u64,
            timer_active: true,
            ..self
        }
    }

    /// Reports on the fate of datagrams are listened to.
    pub open spec fn reports_status(self) -> bool {
        !self.destroyed && self.wants(LISTENER_FLAG_DATAGRAM_STATUS)
    }

    /// A datagram offered to the transport, settled: one that cannot be sent
    /// is lost, and one that did not fit heads the queue again.
    pub open spec fn with_settled_datagram(
        self,
        id: u64,
        bytes: Vec<u8>,
        n: i64,
        accepted: bool,
    ) -> SessionView {
        if n < 0 {
            self.with_event(StreamEvent::DatagramStatus { id, lost: true })
        } else {
            let sent = if n > 0 {
                self.with_added(IDX_STATS_PKT_SENT as int, 1).with_added(
                    IDX_STATS_BYTES_SENT as int,
                    n as u64,
                )
            } else {
                self
            };
            if accepted {
                sent
            } else {
                SessionView { datagram_queue: seq![(id, bytes)] + sent.datagram_queue, ..sent }
            }
        }
    }
}

impl QuicSession {
    /// Whether reports on the fate of datagrams are to be made.
    pub fn reports_datagram_status(&self) -> (reports: bool)
        ensures
            reports == self@.reports_status(),
    {
        !self.destroyed && self.state.listener_flags & LISTENER_FLAG_DATAGRAM_STATUS != 0
    }

    /// Queue a datagram. It is sent on the next turn, so that rapid sends can
    /// overflow the queue, and the drop policy decides which one is abandoned.
    pub fn send_datagram(&mut self, bytes: Option<Vec<u8>>) -> (sent: DatagramSend)
        requires
            old(self)@.well_formed(),
            old(self)@.next_datagram_id < u64::MAX,
        ensures
            match bytes {
                Some(bytes) => if old(self)@.live() {
                    &&& final(self)@ == old(self)@.with_datagram(bytes)
                    &&& sent.id == old(self)@.next_datagram_id
                    &&& sent.arm
                    &&& sent.abandoned == if old(self)@.reports_status() {
                        old(self)@.dropped()
                    } else {
                        None
                    }
                } else {
                    &&& final(self)@ == old(self)@
                    &&& sent == (DatagramSend { id: 0, abandoned: None, arm: false })
                },
                None => {
                    &&& final(self)@ == old(self)@
                    &&& sent == (DatagramSend { id: 0, abandoned: None, arm: false })
                },
            },
            final(self)@.well_formed(),
    {
        let unsent = DatagramSend { id: 0, abandoned: None, arm: false };
        if self.destroyed || !self.conn {
            return unsent;
        }
        let bytes = match bytes {
            Some(bytes) => bytes,
            None => {
                return unsent;
            },
        };
        let reports: bool = self.reports_datagram_status();
        let id: u64 = self.next_datagram_id;
        self.next_datagram_id = id + 1;
        let max_pending: usize = self.state.max_pending_datagrams as usize;
        let mut abandoned: Option<u64> = None;
        if max_pending > 0 && self.datagram_queue.len() >= max_pending {
            if self.datagram_drop_newest {
                abandoned = Some(id);
            } else {
                if let Some((oldest, _dropped)) = self.datagram_queue.pop_front() {
                    abandoned = Some(oldest);
                }
                assert(self.datagram_queue@ =~= old(self)@.datagram_queue.skip(1));
                self.datagram_queue.push_back((id, bytes));
            }
        } else {
            self.datagram_queue.push_back((id, bytes));
        }
        self.state.last_datagram_id = id;
        self.timer_active = true;
        assert(self@ =~= old(self)@.with_datagram(bytes));
        if !reports {
            abandoned = None;
        }
        DatagramSend { id, abandoned, arm: true }
    }

    /// Take the datagram to offer next, unless there is nothing to write to.
    pub fn next_datagram(&mut self) -> (datagram: Option<(u64, Vec<u8>)>)
        requires
            old(self)@.well_formed(),
        ensures
            match datagram {
                Some(datagram) => {
                    &&& old(self)@.can_write()
                    &&& old(self)@.datagram_queue.len() > 0
                    &&& datagram == old(self)@.datagram_queue[0]
                    &&& final(self)@ == (SessionView {
                        datagram_queue: old(self)@.datagram_queue.skip(1),
                        ..old(self)@
                    })
                },
                None => {
                    &&& !old(self)@.can_write() || old(self)@.datagram_queue.len() == 0
                    &&& final(self)@ == old(self)@
                },
            },
            final(self)@.well_formed(),
    {
        if self.destroyed || !self.conn || !self.endpoint {
            return None;
        }
        let datagram = self.datagram_queue.pop_front();
        proof {
            if old(self)@.datagram_queue.len() > 0 {
                assert(self@ =~= SessionView {
                    datagram_queue: old(self)@.datagram_queue.skip(1),
                    ..old(self)@
                });
            } else {
                assert(self@ =~= old(self)@);
            }
        }
        datagram
    }

    /// Settle a datagram that was offered: `n` is the transport's result, and
    /// `accepted` whether the packet took the datagram.
    pub fn settle_datagram(&mut self, id: u64, bytes: Vec<u8>, n: i64, accepted: bool) -> (next:
        DatagramNext)
        requires
            old(self)@.well_formed(),
        ensures
            final(self)@ == old(self)@.with_settled_datagram(id, bytes, n, accepted),
            next == (DatagramNext { send: n > 0, again: n < 0 || accepted }),
            final(self)@.well_formed(),
    {
        if n < 0 {
            // It cannot be sent at all: it is lost, and the queue moves on.
            self.push_event(StreamEvent::DatagramStatus { id, lost: true });
            return DatagramNext { send: false, again: true };
        }
        if n > 0 {
            self.add_stat(IDX_STATS_PKT_SENT, 1);
            self.add_stat(IDX_STATS_BYTES_SENT, n as u64);
        }
        if !accepted {
            let ghost sent = self@;
            self.datagram_queue.push_front((id, bytes));
            assert(self@ =~= SessionView {
                datagram_queue: seq![(id, bytes)] + sent.datagram_queue,
                ..sent
            });
        }
        DatagramNext { send: n > 0, again: accepted }
    }
}

/// The datagram queue never grows past its limit, where there is one.
pub proof fn law_datagram_queue_is_bounded(session: SessionView, bytes: Vec<u8>)
    requires
        session.state.max_pending_datagrams > 0,
        session.datagram_queue.len() <= session.state.max_pending_datagrams,
    ensures
        session.with_datagram(bytes).datagram_queue.len()
            <= session.state.max_pending_datagrams,
{
}

/// The ids in the queue grow from front to back and are below the next one.
pub open spec fn ids_in_order(session: SessionView) -> bool {
    &&& forall|i: int, j: int|
        #![trigger session.datagram_queue[i], session.datagram_queue[j]]
        0 <= i < j < session.datagram_queue.len() ==> session.datagram_queue[i].0
            < session.datagram_queue[j].0
    &&& forall|i: int|
        0 <= i < session.datagram_queue.len() ==> (#[trigger] session.datagram_queue[i]).0
            < session.next_datagram_id
}

/// Datagrams leave in the order in which they were queued: queueing one keeps
/// the order of the ids, whichever one is dropped, and so does taking the
/// first one.
pub proof fn law_datagrams_stay_in_order(session: SessionView, bytes: Vec<u8>)
    requires
        ids_in_order(session),
        session.next_datagram_id < u64::MAX,
    ensures
        ids_in_order(session.with_datagram(bytes)),
        session.datagram_queue.len() > 0 ==> ids_in_order(
            SessionView { datagram_queue: session.datagram_queue.skip(1), ..session },
        ),
        session.with_datagram(bytes).next_datagram_id > session.next_datagram_id,
{
}

/// Every datagram is accounted for: one that is dropped is the one reported,
/// and the others stay queued.
pub proof fn law_only_the_dropped_datagram_leaves(session: SessionView, bytes: Vec<u8>, at: int)
    requires
        ids_in_order(session),
        session.next_datagram_id < u64::MAX,
        0 <= at < session.datagram_queue.len(),
        session.dropped() != Some(session.datagram_queue[at].0),
    ensures
        session.with_datagram(bytes).datagram_queue.contains(session.datagram_queue[at]),
{
    let after = session.with_datagram(bytes).datagram_queue;
    if session.queue_full() && !session.datagram_drop_newest {
        assert(after[at - 1] == session.datagram_queue[at]);
    } else {
        assert(after[at] == session.datagram_queue[at]);
    }
}

/// A datagram that did not fit is offered again first: taking it and putting
/// it back leaves the queue as it was.
pub proof fn law_refused_datagram_keeps_its_place(session: SessionView, n: i64)
    requires
        session.datagram_queue.len() > 0,
        n >= 0,
    ensures
        ({
            let (id, bytes) = session.datagram_queue[0];
            let taken = SessionView {
                datagram_queue: session.datagram_queue.skip(1),
                ..session
            };
            taken.with_settled_datagram(id, bytes, n, false).datagram_queue
                == session.datagram_queue
        }),
{
    let (id, bytes) = session.datagram_queue[0];
    assert(seq![(id, bytes)] + session.datagram_queue.skip(1) =~= session.datagram_queue);
}

/// Whatever is no larger than a payload that fits a frame fits it too.
pub proof fn law_smaller_payloads_fit(max_frame_size: u64, payload: u64)
    requires
        datagram_frame_len(payload as int) <= max_frame_size,
    ensures
        forall|smaller: int|
            0 <= smaller <= payload ==> #[trigger] datagram_frame_len(smaller) <= max_frame_size,
{
}

/// The lengths of variable-length integers, and of a frame around a payload.
pub proof fn law_frame_overhead(n: int)
    ensures
        n < 0x40 <==> varint_len(n) == 1,
        0x40 <= n < 0x4000 <==> varint_len(n) == 2,
        0x4000 <= n < 0x4000_0000 <==> varint_len(n) == 4,
        0x4000_0000 <= n <==> varint_len(n) == 8,
        datagram_frame_len(n) == n + 1 + varint_len(n),
{
}

/// The limit of a session is the one largest payload that fits the peer's
/// frames, or the most that sixteen bits tell; zero where the peer takes no
/// datagrams.
pub proof fn law_datagram_limit_is_exact(max_frame_size: int, limit: int)
    requires
        datagram_limit(max_frame_size, limit),
    ensures
        0 <= limit <= 65535,
        max_frame_size < 2 ==> limit == 0,
        max_frame_size >= 2 ==> datagram_frame_len(limit) <= max_frame_size,
        limit < 65535 ==> datagram_frame_len(limit + 1) > max_frame_size,
        forall|other: int| datagram_limit(max_frame_size, other) ==> other == limit,
{
    let payload = choose|payload: int| #[trigger]
        largest_payload(max_frame_size, payload) && limit == if payload > 0xffff {
            0xffff
        } else {
            payload
        };
    assert(datagram_frame_len(limit + 1) > max_frame_size || limit == 65535);
    assert(datagram_frame_len(payload) <= max_frame_size || max_frame_size < 2);
    assert forall|other: int| datagram_limit(max_frame_size, other) implies other == limit by {
        let another = choose|another: int| #[trigger]
            largest_payload(max_frame_size, another) && other == if another > 0xffff {
                0xffff
            } else {
                another
            };
        if another > payload {
            assert(datagram_frame_len(another) > max_frame_size);
        }
        if payload > another {
            assert(datagram_frame_len(payload) > max_frame_size);
        }
    }
}

/// A datagram that is sent gets the next id and, unless the queue is full, goes
/// behind the others. A full queue loses its oldest datagram, or the new one
/// where that is the policy. A limit of zero is none. Nothing else changes but
/// that the timer runs.
pub proof fn law_datagram_is_queued_last(session: SessionView, bytes: Vec<u8>)
    requires
        session.next_datagram_id < u64::MAX,
    ensures
        ({
            let after = session.with_datagram(bytes);
            let queue = session.datagram_queue;
            let id = session.next_datagram_id;
            let limit = session.state.max_pending_datagrams;
            let full = limit > 0 && queue.len() >= limit;
            &&& session.queue_full() <==> full
            &&& !full ==> after.datagram_queue == queue.push((id, bytes)) && session.dropped()
                is None
            &&& full && session.datagram_drop_newest ==> after.datagram_queue == queue
                && session.dropped() == Some(id)
            &&& full && !session.datagram_drop_newest ==> {
                &&& after.datagram_queue.len() == queue.len()
                &&& after.datagram_queue.last() == (id, bytes)
                &&& after.datagram_queue.drop_last() == queue.skip(1)
                &&& session.dropped() == Some(queue[0].0)
            }
            &&& after.next_datagram_id == id + 1
            &&& after.state == (SessionState { last_datagram_id: id, ..session.state })
            &&& after.timer_active
            &&& after == (SessionView {
                datagram_queue: after.datagram_queue,
                next_datagram_id: after.next_datagram_id,
                state: after.state,
                timer_active: true,
                ..session
            })
        }),
{
    let after = session.with_datagram(bytes);
    if session.queue_full() && !session.datagram_drop_newest {
        assert(after.datagram_queue.drop_last() =~= session.datagram_queue.skip(1));
    }
}

/// What becomes of a datagram that was offered: one that cannot be sent is
/// reported lost and not queued again; one that the packet took is gone without
/// a report; one that did not fit heads the queue again. A packet that was
/// produced is counted. Nothing else changes.
pub proof fn law_offered_datagram_is_settled(
    session: SessionView,
    id: u64,
    bytes: Vec<u8>,
    n: i64,
    accepted: bool,
)
    requires
        session.stats.len() == 32,
    ensures
        ({
            let after = session.with_settled_datagram(id, bytes, n, accepted);
            &&& n < 0 ==> after == (SessionView {
                stream_events: session.stream_events.push(
                    StreamEvent::DatagramStatus { id, lost: true },
                ),
                ..session
            })
            &&& n >= 0 ==> after.stream_events == session.stream_events
            &&& n >= 0 && accepted ==> after.datagram_queue == session.datagram_queue
            &&& n >= 0 && !accepted ==> {
                &&& after.datagram_queue.len() == session.datagram_queue.len() + 1
                &&& after.datagram_queue[0] == (id, bytes)
                &&& after.datagram_queue.skip(1) == session.datagram_queue
            }
            &&& n > 0 ==> after.stats[19] == (session.stats[19] + 1) % 0x1_0000_0000_0000_0000
                && after.stats[20] == (session.stats[20] + n) % 0x1_0000_0000_0000_0000
            &&& n <= 0 ==> after.stats == session.stats
            &&& forall|slot: int|
                0 <= slot < 32 && slot != 19 && slot != 20 ==> #[trigger] after.stats[slot]
                    == session.stats[slot]
            &&& after == (SessionView {
                stream_events: after.stream_events,
                datagram_queue: after.datagram_queue,
                stats: after.stats,
                ..session
            })
        }),
{
    let after = session.with_settled_datagram(id, bytes, n, accepted);
    if n >= 0 && !accepted {
        assert(after.datagram_queue.skip(1) =~= session.datagram_queue);
    }
}

/// The fate of datagrams is reported exactly while the session lives and the
/// script listens for it.
pub proof fn law_status_is_reported_to_listeners(session: SessionView)
    ensures
        session.reports_status() <==> !session.destroyed && session.state.listener_flags & 0x4
            != 0,
{
}

} // verus!
