//! Outbound stream data: what is queued, what the transport holds, and what
//! the peer has acknowledged.

use std::collections::VecDeque;

use vstd::prelude::*;

use crate::bytes::smaller;

verus! {

/// One chunk of stream data that has been handed to the transport, which
/// keeps referring to it until its bytes are acknowledged. The allocation
/// stays alive, unmoved, until the acknowledged prefix covers it.
pub struct InflightChunk {
    pub bytes: Vec<u8>,
    /// Stream offset of the first byte of `bytes`.
    pub start: u64,
    /// How many bytes of `bytes` the transport accepted.
    pub accepted: usize,
}

/// What an in-flight chunk stands for.
#[verifier::ext_equal]
pub struct ChunkView {
    pub bytes: Seq<u8>,
    pub start: u64,
    pub accepted: usize,
}

impl View for InflightChunk {
    type V = ChunkView;

    open spec fn view(&self) -> ChunkView {
        ChunkView { bytes: self.bytes@, start: self.start, accepted: self.accepted }
    }
}

impl ChunkView {
    /// Stream offset just past the accepted bytes.
    pub open spec fn end(self) -> int {
        self.start + self.accepted
    }
}

/// Outbound body data queued for transmission.
pub struct Outbound {
    /// Bytes not yet handed to the transport.
    pub data: VecDeque<u8>,
    /// Chunks handed to the transport that are not yet fully acknowledged.
    pub inflight: Vec<InflightChunk>,
    /// Total bytes accepted by the transport so far: the next chunk's offset.
    pub submitted: u64,
    /// Contiguously acknowledged prefix of the stream.
    pub acked: u64,
    /// The writable side ends once `data` drains.
    pub fin_pending: bool,
    /// Set once a source was attached or the streaming source started.
    pub started: bool,
}

/// What the outbound side of a stream stands for.
#[verifier::ext_equal]
pub struct OutboundView {
    pub data: Seq<u8>,
    pub inflight: Seq<ChunkView>,
    pub submitted: u64,
    pub acked: u64,
    pub fin_pending: bool,
    pub started: bool,
}

pub open spec fn chunk_views(chunks: Seq<InflightChunk>) -> Seq<ChunkView> {
    Seq::new(chunks.len(), |i: int| chunks[i]@)
}

impl View for Outbound {
    type V = OutboundView;

    open spec fn view(&self) -> OutboundView {
        OutboundView {
            data: self.data@,
            inflight: chunk_views(self.inflight@),
            submitted: self.submitted,
            acked: self.acked,
            fin_pending: self.fin_pending,
            started: self.started,
        }
    }
}

pub open spec fn least(left: nat, right: nat) -> nat {
    if left <= right {
        left
    } else {
        right
    }
}

impl OutboundView {
    pub open spec fn empty() -> OutboundView {
        OutboundView {
            data: Seq::empty(),
            inflight: Seq::empty(),
            submitted: 0,
            acked: 0,
            fin_pending: false,
            started: false,
        }
    }

    /// No chunk reaches past the largest stream offset.
    pub open spec fn well_formed(self) -> bool {
        forall|i: int|
            0 <= i < self.inflight.len() ==> {
                &&& (#[trigger] self.inflight[i]).accepted <= self.inflight[i].bytes.len()
                &&& self.inflight[i].start + self.inflight[i].bytes.len() <= u64::MAX
            }
    }

    /// More bytes queued behind the unsent ones.
    pub open spec fn with_queued(self, bytes: Seq<u8>) -> OutboundView {
        OutboundView { data: self.data + bytes, ..self }
    }

    /// The chunk that staging at most `max` bytes produces.
    pub open spec fn next_chunk(self, max: nat) -> ChunkView {
        ChunkView {
            bytes: self.data.take(least(self.data.len(), max) as int),
            start: self.submitted,
            accepted: 0,
        }
    }

    /// The head of the queue copied into a new last in-flight chunk.
    pub open spec fn with_staged(self, max: nat) -> OutboundView {
        if self.data.len() == 0 || max == 0 {
            self
        } else {
            OutboundView { inflight: self.inflight.push(self.next_chunk(max)), ..self }
        }
    }

    /// The last chunk settled with `accepted` bytes taken by the transport:
    /// its unaccepted tail heads the queue again.
    pub open spec fn with_committed(self, accepted: nat) -> OutboundView {
        if self.inflight.len() == 0 {
            self
        } else {
            let chunk = self.inflight.last();
            let others = self.inflight.drop_last();
            let taken = least(accepted, chunk.bytes.len());
            let data = chunk.bytes.skip(taken as int) + self.data.skip(
                least(chunk.bytes.len(), self.data.len()) as int,
            );
            if taken == 0 {
                OutboundView { data, inflight: others, ..self }
            } else {
                OutboundView {
                    data,
                    inflight: others.push(ChunkView { accepted: taken as usize, ..chunk }),
                    submitted: (self.submitted + taken) as u64,
                    ..self
                }
            }
        }
    }

    /// The acknowledged prefix after an acknowledgement of `datalen` bytes at
    /// `offset`.
    pub open spec fn acked_after(self, offset: u64, datalen: u64) -> u64 {
        let to = if offset + datalen > u64::MAX {
            u64::MAX
        } else {
            (offset + datalen) as u64
        };
        if to > self.acked {
            to
        } else {
            self.acked
        }
    }

    /// The chunks that reach past an acknowledged prefix, in order.
    pub open spec fn unacked_chunks(self, acked: u64) -> Seq<ChunkView> {
        self.inflight.filter(|chunk: ChunkView| chunk.end() > acked)
    }

    /// The prefix extended, and every chunk that it covers released.
    pub open spec fn with_acked(self, offset: u64, datalen: u64) -> OutboundView {
        let acked = self.acked_after(offset, datalen);
        OutboundView { acked, inflight: self.unacked_chunks(acked), ..self }
    }

    /// The unsent bytes dropped, as when the stream is torn down.
    pub open spec fn discarded(self) -> OutboundView {
        OutboundView { data: Seq::empty(), fin_pending: false, ..self }
    }
}

impl Outbound {
    pub fn new() -> (outbound: Outbound)
        ensures
            outbound@ == OutboundView::empty(),
            outbound@.well_formed(),
    {
        let outbound = Outbound {
            data: VecDeque::new(),
            inflight: Vec::new(),
            submitted: 0,
            acked: 0,
            fin_pending: false,
            started: false,
        };
        assert(outbound@ =~= OutboundView::empty());
        outbound
    }

    /// Queue `bytes` behind the unsent ones.
    pub fn queue(&mut self, bytes: &[u8])
        requires
            old(self)@.data.len() + bytes@.len() <= usize::MAX,
        ensures
            final(self)@ == old(self)@.with_queued(bytes@),
    {
        let mut at: usize = 0;
        while at < bytes.len()
            invariant
                at <= bytes@.len(),
                self@ == old(self)@.with_queued(bytes@.take(at as int)),
            decreases bytes@.len() - at,
        {
            self.data.push_back(bytes[at]);
            at = at + 1;
            assert(bytes@.take(at as int) =~= bytes@.take(at - 1).push(bytes@[at - 1]));
            assert(self@ =~= old(self)@.with_queued(bytes@.take(at as int)));
        }
        assert(bytes@.take(at as int) =~= bytes@);
    }

    /// Copy up to `max` queued bytes into a new in-flight chunk and return
    /// their number. The bytes stay queued until the chunk is settled.
    pub fn stage_chunk(&mut self, max: usize) -> (staged: usize)
        requires
            old(self)@.well_formed(),
            old(self)@.submitted + least(old(self)@.data.len(), max as nat) <= u64::MAX,
        ensures
            final(self)@ == old(self)@.with_staged(max as nat),
            staged == least(old(self)@.data.len(), max as nat),
            final(self)@.well_formed(),
    {
        let take: usize = smaller(self.data.len(), max);
        if take == 0 {
            return 0;
        }
        let mut bytes: Vec<u8> = Vec::new();
        let mut at: usize = 0;
        while at < take
            invariant
                at <= take <= self.data@.len(),
                bytes@ == self.data@.take(at as int),
            decreases take - at,
        {
            bytes.push(self.data[at]);
            at = at + 1;
            assert(bytes@ =~= self.data@.take(at as int));
        }
        let ghost before = self@;
        self.inflight.push(InflightChunk { bytes, start: self.submitted, accepted: 0 });
        assert(self@ =~= before.with_staged(max as nat));
        take
    }

    /// The bytes of the chunk staged last.
    pub fn staged_bytes(&self) -> (bytes: Option<&[u8]>)
        ensures
            match bytes {
                Some(bytes) => self@.inflight.len() > 0 && bytes@ == self@.inflight.last().bytes,
                None => self@.inflight.len() == 0,
            },
    {
        if self.inflight.len() == 0 {
            return None;
        }
        Some(self.inflight[self.inflight.len() - 1].bytes.as_slice())
    }

    /// Record how much of the most recently staged chunk the transport
    /// accepted. The unaccepted tail returns to the head of the unsent queue;
    /// a chunk that nothing was taken from is dropped.
    pub fn commit_staged(&mut self, accepted: usize)
        requires
            old(self)@.well_formed(),
            old(self)@.inflight.len() > 0 ==> old(self)@.submitted + least(
                accepted as nat,
                old(self)@.inflight.last().bytes.len(),
            ) <= u64::MAX,
            old(self)@.with_committed(accepted as nat).data.len() <= usize::MAX,
        ensures
            final(self)@ == old(self)@.with_committed(accepted as nat),
            final(self)@.well_formed(),
    {
        let ghost before = self@;
        let mut chunk = match self.inflight.pop() {
            Some(chunk) => chunk,
            None => {
                assert(self@ =~= before);
                return;
            },
        };
        assert(before.inflight.last() == chunk@);
        assert(chunk_views(self.inflight@) =~= before.inflight.drop_last());
        let staged: usize = chunk.bytes.len();
        let taken: usize = smaller(accepted, staged);
        // The staged bytes leave the unsent queue.
        let leaving: usize = smaller(staged, self.data.len());
        let rest: VecDeque<u8> = self.data.split_off(leaving);
        self.data = rest;
        let ghost remainder = self.data@;
        assert(remainder =~= before.data.skip(leaving as int));
        // What the transport did not take goes back to the front, in order.
        let mut at: usize = staged;
        while at > taken
            invariant
                taken <= at <= staged,
                staged == chunk.bytes@.len(),
                self.data@ == chunk.bytes@.skip(at as int) + remainder,
                chunk_views(self.inflight@) == before.inflight.drop_last(),
                self.submitted == before.submitted,
                self.acked == before.acked,
                self.fin_pending == before.fin_pending,
                self.started == before.started,
            decreases at,
        {
            at = at - 1;
            self.data.push_front(chunk.bytes[at]);
            assert(self.data@ =~= chunk.bytes@.skip(at as int) + remainder);
        }
        if taken == 0 {
            assert(self@ =~= before.with_committed(accepted as nat));
            return;
        }
        chunk.accepted = taken;
        self.submitted = self.submitted + taken as u64;
        self.inflight.push(chunk);
        assert(self@ =~= before.with_committed(accepted as nat));
    }

    /// The peer acknowledged stream data up to `offset + datalen`; in-flight
    /// chunks that the acknowledged prefix covers are released.
    pub fn on_acked(&mut self, offset: u64, datalen: u64)
        requires
            old(self)@.well_formed(),
        ensures
            final(self)@ == old(self)@.with_acked(offset, datalen),
            final(self)@.well_formed(),
    {
        let ghost before = self@;
        let acked_to: u64 = offset.saturating_add(datalen);
        if acked_to > self.acked {
            self.acked = acked_to;
        }
        let acked: u64 = self.acked;
        let ghost keeps = |chunk: ChunkView| chunk.end() > acked;
        let ghost mut seen: int = 0;
        let mut at: usize = 0;
        assert(before.inflight.take(0).filter(keeps) =~= Seq::empty()) by {
            reveal(Seq::filter);
        }
        while at < self.inflight.len()
            invariant
                at <= self.inflight@.len(),
                0 <= seen <= before.inflight.len(),
                self@.well_formed(),
                acked == before.acked_after(offset, datalen),
                keeps == (|chunk: ChunkView| chunk.end() > acked),
                chunk_views(self.inflight@).take(at as int) == before.inflight.take(seen).filter(keeps),
                chunk_views(self.inflight@).skip(at as int) == before.inflight.skip(seen),
                self.data@ == before.data,
                self.submitted == before.submitted,
                self.acked == acked,
                self.fin_pending == before.fin_pending,
                self.started == before.started,
            decreases self.inflight@.len() - at,
        {
            let ghost views = chunk_views(self.inflight@);
            assert(views.skip(at as int).len() == views.len() - at);
            assert(before.inflight.skip(seen).len() == before.inflight.len() - seen);
            assert(views.skip(at as int)[0] == before.inflight.skip(seen)[0]);
            assert(views[at as int] == before.inflight[seen]);
            assert(before.inflight.take(seen + 1).drop_last() =~= before.inflight.take(seen));
            reveal(Seq::filter);
            assert(self@.inflight == views);
            assert(views[at as int].accepted <= views[at as int].bytes.len());
            let end: u64 = self.inflight[at].start + self.inflight[at].accepted as u64;
            if end > acked {
                at = at + 1;
                assert(views.take(at as int) =~= views.take(at - 1).push(views[at - 1]));
            } else {
                self.inflight.remove(at);
                assert(chunk_views(self.inflight@) =~= views.remove(at as int));
                assert(chunk_views(self.inflight@).take(at as int) =~= views.take(at as int));
                assert(self@.well_formed()) by {
                    assert forall|i: int| 0 <= i < self@.inflight.len() implies {
                        &&& (#[trigger] self@.inflight[i]).accepted <= self@.inflight[i].bytes.len()
                        &&& self@.inflight[i].start + self@.inflight[i].bytes.len() <= u64::MAX
                    } by {
                        assert(self@.inflight[i] == views[if i < at { i } else { i + 1 }]);
                    }
                }
            }
            proof {
                seen = seen + 1;
            }
            assert(chunk_views(self.inflight@).skip(at as int) =~= before.inflight.skip(seen)) by {
                assert forall|i: int| 0 <= i < before.inflight.len() - seen implies before.inflight.skip(
                    seen,
                )[i] == views[views.len() - before.inflight.len() + seen + i] by {
                    assert(before.inflight.skip(seen)[i] == before.inflight.skip(seen - 1)[i + 1]);
                }
            }
        }
        assert(chunk_views(self.inflight@).take(at as int) =~= chunk_views(self.inflight@));
        assert(before.inflight.take(seen) =~= before.inflight);
        assert(self@ =~= before.with_acked(offset, datalen));
    }

    /// Drop the unsent bytes.
    pub fn discard(&mut self)
        ensures
            final(self)@ == old(self)@.discarded(),
    {
        let ghost before = self@;
        self.data.clear();
        self.fin_pending = false;
        assert(self@ =~= before.discarded());
    }
}

impl OutboundView {
    /// The chunks tile the stream from the acknowledged prefix up to what the
    /// transport accepted.
    pub open spec fn tiled(self) -> bool {
        &&& forall|i: int|
            0 <= i < self.inflight.len() ==> 0 < (#[trigger] self.inflight[i]).accepted
                <= self.inflight[i].bytes.len()
        &&& forall|i: int, j: int|
            0 <= i && j == i + 1 && j < self.inflight.len() ==> (#[trigger] self.inflight[j]).start
                == (#[trigger] self.inflight[i]).end()
        &&& if self.inflight.len() == 0 {
            self.submitted <= self.acked
        } else {
            self.inflight[0].start <= self.acked && self.inflight.last().end() == self.submitted
        }
    }

    /// `sent` is the data that the transport accepted so far, and every chunk
    /// holds its part of it.
    pub open spec fn carries(self, sent: Seq<u8>) -> bool {
        &&& sent.len() == self.submitted
        &&& forall|i: int|
            0 <= i < self.inflight.len() ==> {
                &&& (#[trigger] self.inflight[i]).accepted <= self.inflight[i].bytes.len()
                &&& self.inflight[i].end() <= sent.len()
                &&& self.inflight[i].bytes.take(self.inflight[i].accepted as int) == sent.subrange(
                    self.inflight[i].start as int,
                    self.inflight[i].end(),
                )
            }
    }

    /// Staging at most `max` bytes and settling the chunk with `accepted`.
    pub open spec fn written(self, max: nat, accepted: nat) -> OutboundView {
        self.with_staged(max).with_committed(accepted)
    }

    /// How many queued bytes such a write moves.
    pub open spec fn moved(self, max: nat, accepted: nat) -> nat {
        least(accepted, least(self.data.len(), max))
    }
}

/// A new stream carries nothing, and its (empty) tiling is in order.
pub proof fn law_fresh_outbound()
    ensures
        OutboundView::empty().tiled(),
        OutboundView::empty().carries(Seq::empty()),
{
}

/// Writing takes bytes off the head of the queue only: what was accepted
/// followed by what is left is what was accepted followed by what was queued,
/// with nothing lost, doubled or out of order.
pub proof fn law_write_keeps_the_byte_order(
    outbound: OutboundView,
    sent: Seq<u8>,
    max: nat,
    accepted: nat,
)
    requires
        outbound.carries(sent),
        outbound.data.len() > 0,
        max > 0,
        outbound.submitted + outbound.moved(max, accepted) <= u64::MAX,
        outbound.data.len() <= usize::MAX,
    ensures
        ({
            let moved = outbound.moved(max, accepted) as int;
            let after = outbound.written(max, accepted);
            &&& after.data == outbound.data.skip(moved)
            &&& after.submitted == outbound.submitted + moved
            &&& after.carries(sent + outbound.data.take(moved))
            &&& (sent + outbound.data.take(moved)) + after.data == sent + outbound.data
        }),
{
    let staged = outbound.with_staged(max);
    let chunk = outbound.next_chunk(max);
    let moved = outbound.moved(max, accepted) as int;
    let after = outbound.written(max, accepted);
    let now = sent + outbound.data.take(moved);
    assert(staged.inflight.last() == chunk);
    assert(staged.inflight.drop_last() =~= outbound.inflight);
    assert(after.data =~= outbound.data.skip(moved));
    assert(now + after.data =~= sent + outbound.data);
    assert forall|i: int| 0 <= i < after.inflight.len() implies {
        &&& (#[trigger] after.inflight[i]).accepted <= after.inflight[i].bytes.len()
        &&& after.inflight[i].end() <= now.len()
        &&& after.inflight[i].bytes.take(after.inflight[i].accepted as int) == now.subrange(
            after.inflight[i].start as int,
            after.inflight[i].end(),
        )
    } by {
        if i < outbound.inflight.len() {
            assert(after.inflight[i] == outbound.inflight[i]);
            let c = outbound.inflight[i];
            assert(now.subrange(c.start as int, c.end()) =~= sent.subrange(c.start as int, c.end()));
        } else {
            let c = after.inflight[i];
            assert(c.bytes.take(moved) =~= outbound.data.take(moved));
            assert(now.subrange(c.start as int, c.end()) =~= outbound.data.take(moved));
        }
    }
}

/// Writing keeps the chunks tiling the unacknowledged data.
pub proof fn law_write_keeps_the_tiling(outbound: OutboundView, max: nat, accepted: nat)
    requires
        outbound.tiled(),
        outbound.data.len() > 0,
        max > 0,
        outbound.submitted + outbound.moved(max, accepted) <= u64::MAX,
        outbound.data.len() <= usize::MAX,
    ensures
        outbound.written(max, accepted).tiled(),
{
    let staged = outbound.with_staged(max);
    let after = outbound.written(max, accepted);
    assert(staged.inflight.last() == outbound.next_chunk(max));
    assert(staged.inflight.drop_last() =~= outbound.inflight);
    let n = outbound.inflight.len() as int;
    assert(forall|i: int| 0 <= i < n ==> after.inflight[i] == outbound.inflight[i]);
    if n > 0 {
        assert(after.inflight[0] == outbound.inflight[0]);
        assert(outbound.inflight.last() == outbound.inflight[n - 1]);
    }
}

/// Every accepted byte that is not acknowledged yet is still held by some
/// in-flight chunk.
pub proof fn law_unacked_bytes_are_held(outbound: OutboundView, offset: int)
    requires
        outbound.tiled(),
        outbound.acked <= offset < outbound.submitted,
    ensures
        exists|i: int|
            0 <= i < outbound.inflight.len() && (#[trigger] outbound.inflight[i]).start <= offset
                < outbound.inflight[i].end(),
{
    lemma_tile_found(outbound, offset, outbound.inflight.len() as int);
}

proof fn lemma_tile_found(outbound: OutboundView, offset: int, count: int)
    requires
        outbound.tiled(),
        outbound.acked <= offset,
        0 < count <= outbound.inflight.len(),
        offset < outbound.inflight[count - 1].end(),
    ensures
        exists|i: int|
            0 <= i < outbound.inflight.len() && (#[trigger] outbound.inflight[i]).start <= offset
                < outbound.inflight[i].end(),
    decreases count,
{
    let chunk = outbound.inflight[count - 1];
    if chunk.start > offset {
        assert(count > 1);
        assert(outbound.inflight[count - 1].start == outbound.inflight[count - 2].end());
        lemma_tile_found(outbound, offset, count - 1);
    }
}

/// The ends of tiling chunks strictly increase.
proof fn lemma_ends_increase(outbound: OutboundView, i: int, j: int)
    requires
        outbound.tiled(),
        0 <= i < j < outbound.inflight.len(),
    ensures
        outbound.inflight[i].end() < outbound.inflight[j].end(),
        outbound.inflight[i].end() <= outbound.inflight[j].start,
    decreases j - i,
{
    assert(outbound.inflight[j].start == outbound.inflight[j - 1].end());
    if i < j - 1 {
        lemma_ends_increase(outbound, i, j - 1);
    }
}

/// How many leading chunks an acknowledged prefix covers.
spec fn covered(chunks: Seq<ChunkView>, acked: u64) -> nat
    decreases chunks.len(),
{
    if chunks.len() == 0 || chunks[0].end() > acked {
        0
    } else {
        1 + covered(chunks.skip(1), acked)
    }
}

proof fn lemma_released_prefix(chunks: Seq<ChunkView>, acked: u64)
    requires
        forall|i: int, j: int|
            0 <= i < j < chunks.len() ==> (#[trigger] chunks[i]).end() < (#[trigger] chunks[j]).end(),
    ensures
        covered(chunks, acked) <= chunks.len(),
        chunks.filter(|chunk: ChunkView| chunk.end() > acked) == chunks.skip(
            covered(chunks, acked) as int,
        ),
        forall|i: int| 0 <= i < covered(chunks, acked) ==> (#[trigger] chunks[i]).end() <= acked,
        covered(chunks, acked) < chunks.len() ==> chunks[covered(chunks, acked) as int].end()
            > acked,
    decreases chunks.len(),
{
    let keeps = |chunk: ChunkView| chunk.end() > acked;
    reveal(Seq::filter);
    if chunks.len() > 0 {
        let head = seq![chunks[0]];
        let rest = chunks.skip(1);
        assert(chunks =~= head + rest);
        Seq::filter_distributes_over_add(head, rest, keeps);
        assert(head.drop_last() =~= Seq::<ChunkView>::empty());
        assert(head.drop_last().filter(keeps) =~= Seq::<ChunkView>::empty());
        assert(head.filter(keeps) =~= if keeps(chunks[0]) {
            head
        } else {
            Seq::empty()
        });
        assert forall|i: int, j: int| 0 <= i < j < rest.len() implies (#[trigger] rest[i]).end()
            < (#[trigger] rest[j]).end() by {
            assert(rest[i] == chunks[i + 1] && rest[j] == chunks[j + 1]);
        }
        lemma_released_prefix(rest, acked);
        if chunks[0].end() > acked {
            if rest.len() > 0 {
                assert(rest[0] == chunks[1]);
            }
            assert(covered(rest, acked) == 0);
            assert(rest.skip(0) =~= rest);
            assert(chunks.skip(0) =~= chunks);
        } else {
            let n = covered(rest, acked) as int;
            assert(rest.skip(n) =~= chunks.skip(n + 1));
            assert forall|i: int| 0 <= i < n + 1 implies (#[trigger] chunks[i]).end() <= acked by {
                if i > 0 {
                    assert(chunks[i] == rest[i - 1]);
                }
            }
            if n < rest.len() {
                assert(rest[n] == chunks[n + 1]);
            }
        }
    } else {
        assert(chunks.skip(0) =~= chunks);
    }
}

/// An acknowledgement never shortens the acknowledged prefix, keeps the
/// chunks tiling what is not acknowledged, and leaves the data as it is, both
/// what was sent and what is queued.
pub proof fn law_ack_keeps_the_tiling(
    outbound: OutboundView,
    sent: Seq<u8>,
    offset: u64,
    datalen: u64,
)
    requires
        outbound.tiled(),
    ensures
        outbound.with_acked(offset, datalen).acked >= outbound.acked,
        outbound.with_acked(offset, datalen).tiled(),
        outbound.carries(sent) ==> outbound.with_acked(offset, datalen).carries(sent),
        outbound.with_acked(offset, datalen).data == outbound.data,
{
    let after = outbound.with_acked(offset, datalen);
    let chunks = outbound.inflight;
    assert forall|i: int, j: int| 0 <= i < j < chunks.len() implies (#[trigger] chunks[i]).end() < (
    #[trigger] chunks[j]).end() by {
        lemma_ends_increase(outbound, i, j);
    }
    lemma_released_prefix(chunks, after.acked);
    let n = covered(chunks, after.acked) as int;
    assert(after.inflight == chunks.skip(n));
    assert forall|i: int| 0 <= i < after.inflight.len() implies after.inflight[i] == #[trigger] chunks[i
        + n] by {}
    assert forall|i: int, j: int| 0 <= i && j == i + 1 && j < after.inflight.len() implies (
    #[trigger] after.inflight[j]).start == (#[trigger] after.inflight[i]).end() by {
        assert(after.inflight[i] == chunks[i + n]);
        assert(after.inflight[j] == chunks[j + n]);
    }
    assert forall|i: int| 0 <= i < after.inflight.len() implies {
        &&& 0 < (#[trigger] after.inflight[i]).accepted <= after.inflight[i].bytes.len()
        &&& outbound.carries(sent) ==> after.inflight[i].end() <= sent.len()
            && after.inflight[i].bytes.take(after.inflight[i].accepted as int) == sent.subrange(
            after.inflight[i].start as int,
            after.inflight[i].end(),
        )
    } by {
        assert(after.inflight[i] == chunks[i + n]);
    }
    if after.inflight.len() > 0 {
        assert(after.inflight[0] == chunks[n]);
        assert(after.inflight.last() == chunks.last());
        if n > 0 {
            assert(chunks[n].start == chunks[n - 1].end());
        }
    } else if chunks.len() > 0 {
        assert(chunks.last() == chunks[chunks.len() - 1]);
    }
}

/// A write moves the bytes that the transport took from the head of the queue
/// into one new chunk, and changes nothing else. One that nothing was taken
/// from undoes the staging altogether.
pub proof fn law_write_moves_what_was_taken(outbound: OutboundView, max: nat, accepted: nat)
    requires
        outbound.data.len() > 0,
        max > 0,
        outbound.submitted + outbound.moved(max, accepted) <= u64::MAX,
        outbound.data.len() <= usize::MAX,
    ensures
        ({
            let moved = outbound.moved(max, accepted);
            outbound.written(max, accepted) == (OutboundView {
                data: outbound.data.skip(moved as int),
                inflight: if moved == 0 {
                    outbound.inflight
                } else {
                    outbound.inflight.push(
                        ChunkView { accepted: moved as usize, ..outbound.next_chunk(max) },
                    )
                },
                submitted: (outbound.submitted + moved) as u64,
                ..outbound
            })
        }),
        accepted == 0 ==> outbound.written(max, accepted) == outbound,
{
    let staged = outbound.with_staged(max);
    let chunk = outbound.next_chunk(max);
    let moved = outbound.moved(max, accepted) as int;
    assert(staged.inflight.last() == chunk);
    assert(staged.inflight.drop_last() =~= outbound.inflight);
    assert(chunk.bytes.skip(moved) + outbound.data.skip(chunk.bytes.len() as int)
        =~= outbound.data.skip(moved));
    assert(outbound.data.skip(0) =~= outbound.data);
}

/// One step in the life of a stream's outbound side.
pub enum OutboundStep {
    /// Bytes are queued.
    Queue { bytes: Seq<u8> },
    /// At most `max` bytes are staged, and settled with `accepted` taken.
    Write { max: nat, accepted: nat },
    /// The peer acknowledges `datalen` bytes at `offset`.
    Ack { offset: u64, datalen: u64 },
}

impl OutboundView {
    /// One step taken. Nothing is staged, and nothing settled, where nothing is
    /// queued.
    pub open spec fn stepped(self, step: OutboundStep) -> OutboundView {
        match step {
            OutboundStep::Queue { bytes } => self.with_queued(bytes),
            OutboundStep::Write { max, accepted } => if self.data.len() == 0 || max == 0 {
                self
            } else {
                self.written(max, accepted)
            },
            OutboundStep::Ack { offset, datalen } => self.with_acked(offset, datalen),
        }
    }

    /// A new stream after these steps.
    pub open spec fn after_steps(steps: Seq<OutboundStep>) -> OutboundView
        decreases steps.len(),
    {
        if steps.len() == 0 {
            OutboundView::empty()
        } else {
            OutboundView::after_steps(steps.drop_last()).stepped(steps.last())
        }
    }

    /// Offset up to which the stream's bytes are released.
    pub open spec fn released(self) -> int {
        if self.inflight.len() == 0 {
            self.submitted as int
        } else {
            self.inflight[0].start as int
        }
    }
}

/// All bytes that the steps queue, in order.
pub open spec fn queued_bytes(steps: Seq<OutboundStep>) -> Seq<u8>
    decreases steps.len(),
{
    if steps.len() == 0 {
        Seq::empty()
    } else {
        let before = queued_bytes(steps.drop_last());
        match steps.last() {
            OutboundStep::Queue { bytes } => before + bytes,
            _ => before,
        }
    }
}

/// At no time more bytes wait than can be counted, and no acknowledgement goes
/// past what was sent.
pub open spec fn possible_steps(steps: Seq<OutboundStep>) -> bool
    decreases steps.len(),
{
    steps.len() > 0 ==> {
        let before = OutboundView::after_steps(steps.drop_last());
        &&& possible_steps(steps.drop_last())
        &&& match steps.last() {
            OutboundStep::Queue { bytes } => before.data.len() + bytes.len() <= usize::MAX,
            OutboundStep::Write { max, accepted } => true,
            OutboundStep::Ack { offset, datalen } => offset + datalen <= before.submitted,
        }
    }
}

/// The bytes that chunks hold for the transport, in order.
pub open spec fn held_bytes(chunks: Seq<ChunkView>) -> Seq<u8>
    decreases chunks.len(),
{
    if chunks.len() == 0 {
        Seq::empty()
    } else {
        held_bytes(chunks.drop_last()) + chunks.last().bytes.take(chunks.last().accepted as int)
    }
}

proof fn lemma_held_bytes(outbound: OutboundView, sent: Seq<u8>, count: int)
    requires
        outbound.tiled(),
        outbound.carries(sent),
        0 < count <= outbound.inflight.len(),
    ensures
        outbound.inflight[0].start <= outbound.inflight[count - 1].end() <= sent.len(),
        held_bytes(outbound.inflight.take(count)) == sent.subrange(
            outbound.inflight[0].start as int,
            outbound.inflight[count - 1].end(),
        ),
    decreases count,
{
    let chunks = outbound.inflight;
    let last = chunks[count - 1];
    assert(chunks.take(count).drop_last() =~= chunks.take(count - 1));
    assert(chunks.take(count).last() == last);
    if count == 1 {
        assert(held_bytes(chunks.take(0)) =~= Seq::<u8>::empty());
        assert(held_bytes(chunks.take(1)) =~= last.bytes.take(last.accepted as int));
    } else {
        lemma_held_bytes(outbound, sent, count - 1);
        assert(chunks[count - 1].start == chunks[count - 2].end());
        assert(sent.subrange(chunks[0].start as int, last.start as int) + sent.subrange(
            last.start as int,
            last.end(),
        ) =~= sent.subrange(chunks[0].start as int, last.end()));
    }
}

proof fn lemma_steps(steps: Seq<OutboundStep>)
    requires
        possible_steps(steps),
        queued_bytes(steps).len() <= u64::MAX,
    ensures
        ({
            let outbound = OutboundView::after_steps(steps);
            let all = queued_bytes(steps);
            &&& outbound.tiled()
            &&& outbound.acked <= outbound.submitted <= all.len()
            &&& outbound.data.len() <= usize::MAX
            &&& outbound.data == all.skip(outbound.submitted as int)
            &&& outbound.carries(all.take(outbound.submitted as int))
        }),
    decreases steps.len(),
{
    let outbound = OutboundView::after_steps(steps);
    let all = queued_bytes(steps);
    if steps.len() == 0 {
        law_fresh_outbound();
        assert(all.take(0) =~= Seq::<u8>::empty());
        assert(all.skip(0) =~= Seq::<u8>::empty());
    } else {
        let fewer = steps.drop_last();
        let before = OutboundView::after_steps(fewer);
        let known = queued_bytes(fewer);
        lemma_steps(fewer);
        let sent = known.take(before.submitted as int);
        match steps.last() {
            OutboundStep::Queue { bytes } => {
                assert(all.take(before.submitted as int) =~= sent);
                assert(all.skip(before.submitted as int) =~= before.data + bytes);
            },
            OutboundStep::Write { max, accepted } => {
                if before.data.len() > 0 && max > 0 {
                    let moved = before.moved(max, accepted) as int;
                    law_write_keeps_the_byte_order(before, sent, max, accepted);
                    law_write_keeps_the_tiling(before, max, accepted);
                    law_write_moves_what_was_taken(before, max, accepted);
                    assert(sent + before.data.take(moved) =~= all.take(before.submitted + moved));
                    assert(before.data.skip(moved) =~= all.skip(before.submitted + moved));
                }
            },
            OutboundStep::Ack { offset, datalen } => {
                law_ack_keeps_the_tiling(before, sent, offset, datalen);
            },
        }
    }
}

/// Whatever is queued, written and acknowledged on a stream, and in whatever
/// order: the bytes that the chunks hold for the transport, followed by the
/// unsent ones, are all that was ever queued but for what acknowledgements
/// released. Nothing is lost, doubled or out of order.
pub proof fn law_every_byte_is_accounted_for(steps: Seq<OutboundStep>)
    requires
        possible_steps(steps),
        queued_bytes(steps).len() <= u64::MAX,
    ensures
        ({
            let outbound = OutboundView::after_steps(steps);
            let all = queued_bytes(steps);
            &&& outbound.tiled()
            &&& outbound.released() <= outbound.acked <= outbound.submitted <= all.len()
            &&& held_bytes(outbound.inflight) + outbound.data == all.skip(outbound.released())
            &&& outbound.data == all.skip(outbound.submitted as int)
        }),
{
    let outbound = OutboundView::after_steps(steps);
    let all = queued_bytes(steps);
    let chunks = outbound.inflight;
    let sent = all.take(outbound.submitted as int);
    lemma_steps(steps);
    if chunks.len() > 0 {
        lemma_held_bytes(outbound, sent, chunks.len() as int);
        assert(chunks.take(chunks.len() as int) =~= chunks);
        assert(held_bytes(chunks) == sent.subrange(outbound.released(), outbound.submitted as int));
        assert(held_bytes(chunks) + outbound.data =~= all.skip(outbound.released()));
    } else {
        assert(held_bytes(chunks) + outbound.data =~= outbound.data);
    }
}

/// The smaller of two numbers is one of them, and no larger than either.
pub proof fn law_least_is_the_smaller(left: nat, right: nat)
    ensures
        least(left, right) <= left && least(left, right) <= right,
        least(left, right) == left || least(left, right) == right,
{
}

/// Queueing puts every byte behind those that wait, and touches nothing else.
pub proof fn law_queueing_appends(outbound: OutboundView, bytes: Seq<u8>)
    ensures
        outbound.with_queued(bytes) == (OutboundView {
            data: outbound.data + bytes,
            ..outbound
        }),
{
}

/// Staging copies the head of the queue, as much of it as fits, into one new
/// chunk at the offset that comes next, and leaves the queue as it is.
pub proof fn law_staging_copies_the_head(outbound: OutboundView, max: nat)
    ensures
        ({
            let after = outbound.with_staged(max);
            let chunk = after.inflight.last();
            &&& after == (OutboundView { inflight: after.inflight, ..outbound })
            &&& outbound.data.len() == 0 || max == 0 ==> after == outbound
            &&& outbound.data.len() > 0 && max > 0 ==> {
                &&& after.inflight == outbound.inflight.push(chunk)
                &&& chunk.start == outbound.submitted && chunk.accepted == 0
                &&& chunk.bytes.len() == if outbound.data.len() <= max {
                    outbound.data.len()
                } else {
                    max
                }
                &&& chunk.bytes == outbound.data.take(chunk.bytes.len() as int)
            }
        }),
{
}

/// Settling a chunk puts what the transport did not take of it back at the head
/// of what comes behind it, and counts what it took. What was neither staged
/// nor queued is not touched.
pub proof fn law_settling_splits_the_chunk(outbound: OutboundView, accepted: nat)
    requires
        outbound.inflight.len() > 0,
        outbound.inflight.last().bytes.len() <= outbound.data.len() <= usize::MAX,
        outbound.submitted + outbound.inflight.last().bytes.len() <= u64::MAX,
    ensures
        ({
            let chunk = outbound.inflight.last();
            let others = outbound.inflight.drop_last();
            let len = chunk.bytes.len();
            let taken = if accepted <= len {
                accepted
            } else {
                len
            };
            let after = outbound.with_committed(accepted);
            &&& after.data == chunk.bytes.skip(taken as int) + outbound.data.skip(len as int)
            &&& after.submitted == outbound.submitted + taken
            &&& taken == 0 ==> after.inflight == others
            &&& taken > 0 ==> after.inflight == others.push(
                ChunkView { accepted: taken as usize, ..chunk },
            )
            &&& after == (OutboundView {
                data: after.data,
                inflight: after.inflight,
                submitted: after.submitted,
                ..outbound
            })
        }),
{
}

/// An acknowledgement releases exactly the chunks whose accepted bytes it
/// covers, keeps the others in their order, and touches neither the queue nor
/// what counts as sent.
pub proof fn law_ack_releases_what_it_covers(
    outbound: OutboundView,
    offset: u64,
    datalen: u64,
    chunk: ChunkView,
)
    ensures
        ({
            let after = outbound.with_acked(offset, datalen);
            &&& after.acked >= outbound.acked
            &&& after.acked == outbound.acked || after.acked == offset + datalen || (after.acked
                == u64::MAX && offset + datalen > u64::MAX)
            &&& offset + datalen <= u64::MAX ==> after.acked >= offset + datalen
            &&& offset + datalen > u64::MAX ==> after.acked == u64::MAX
            &&& after.inflight.contains(chunk) <==> outbound.inflight.contains(chunk)
                && chunk.start + chunk.accepted > after.acked
            &&& after.inflight == outbound.inflight.filter(
                |held: ChunkView| held.start + held.accepted > after.acked,
            )
            &&& after == (OutboundView { acked: after.acked, inflight: after.inflight, ..outbound })
        }),
{
    let after = outbound.with_acked(offset, datalen);
    let keeps = |held: ChunkView| held.end() > after.acked;
    assert(keeps =~= (|held: ChunkView| held.start + held.accepted > after.acked));
    if outbound.inflight.contains(chunk) && chunk.end() > after.acked {
        let i = choose|i: int| 0 <= i < outbound.inflight.len() && outbound.inflight[i] == chunk;
        outbound.inflight.lemma_filter_contains(keeps, i);
    }
    if after.inflight.contains(chunk) {
        let i = choose|i: int| 0 <= i < after.inflight.len() && after.inflight[i] == chunk;
        outbound.inflight.lemma_filter_pred(keeps, i);
        outbound.inflight.lemma_filter_contains_rev(keeps, chunk);
    }
}

/// Discarding drops the unsent bytes and the end, and keeps what is in flight.
pub proof fn law_discard_keeps_what_is_in_flight(outbound: OutboundView)
    ensures
        outbound.discarded().data.len() == 0,
        outbound.discarded() == (OutboundView {
            data: outbound.discarded().data,
            fin_pending: false,
            ..outbound
        }),
        OutboundView::empty().data.len() == 0 && OutboundView::empty().inflight.len() == 0,
        OutboundView::empty().submitted == 0 && OutboundView::empty().acked == 0,
        !OutboundView::empty().fin_pending && !OutboundView::empty().started,
{
}

/// The outbound side stands for what its fields hold.
pub proof fn law_outbound_is_seen_as_it_is(outbound: Outbound)
    ensures
        outbound@.submitted == outbound.submitted,
        outbound@.acked == outbound.acked,
        outbound@.fin_pending == outbound.fin_pending,
        outbound@.started == outbound.started,
        outbound@.data == outbound.data@,
        outbound@.inflight.len() == outbound.inflight@.len(),
{
}

/// In-flight chunks stand for what their fields hold, one for one.
pub proof fn law_chunks_are_seen_as_they_are(chunks: Seq<InflightChunk>, at: int)
    requires
        0 <= at < chunks.len(),
    ensures
        chunk_views(chunks).len() == chunks.len(),
        chunk_views(chunks)[at].bytes == chunks[at].bytes@,
        chunk_views(chunks)[at].start == chunks[at].start,
        chunk_views(chunks)[at].accepted == chunks[at].accepted,
        chunk_views(chunks)[at].end() == chunks[at].start + chunks[at].accepted,
{
}

} // verus!
