//! Inbound stream data, waiting for the script's reader.

use std::collections::VecDeque;

use vstd::prelude::*;
use vstd::slice::slice_to_vec;

verus! {

/// Data received from the peer.
pub struct Inbound {
    pub chunks: VecDeque<Vec<u8>>,
    pub ended: bool,
    pub errored: bool,
}

/// What the inbound side of a stream stands for.
#[verifier::ext_equal]
pub struct InboundView {
    pub chunks: Seq<Seq<u8>>,
    pub ended: bool,
    pub errored: bool,
}

pub open spec fn byte_views(chunks: Seq<Vec<u8>>) -> Seq<Seq<u8>> {
    Seq::new(chunks.len(), |i: int| chunks[i]@)
}

impl View for Inbound {
    type V = InboundView;

    open spec fn view(&self) -> InboundView {
        InboundView {
            chunks: byte_views(self.chunks@),
            ended: self.ended,
            errored: self.errored,
        }
    }
}

/// What one pull of the reader gets.
#[derive(Debug, PartialEq, Eq)]
pub enum Pulled {
    /// Everything was read and the peer ended the stream.
    Eos,
    /// The next chunk.
    Data(Vec<u8>),
    /// Nothing yet.
    Blocked,
    /// The peer reset the stream.
    Error,
}

/// The bytes of chunks, one after the other.
pub open spec fn joined(chunks: Seq<Seq<u8>>) -> Seq<u8>
    decreases chunks.len(),
{
    if chunks.len() == 0 {
        Seq::empty()
    } else {
        chunks[0] + joined(chunks.skip(1))
    }
}

impl Pulled {
    /// The status number of the reader protocol.
    pub open spec fn code(self) -> int {
        match self {
            Pulled::Eos => 0,
            Pulled::Data(_) => 1,
            Pulled::Blocked => 2,
            Pulled::Error => -1,
        }
    }

    pub fn status(&self) -> (status: i32)
        ensures
            status == self.code(),
    {
        match self {
            Pulled::Eos => 0,
            Pulled::Data(_) => 1,
            Pulled::Blocked => 2,
            Pulled::Error => -1,
        }
    }
}

impl InboundView {
    pub open spec fn empty() -> InboundView {
        InboundView { chunks: Seq::empty(), ended: false, errored: false }
    }

    /// The bytes that the reader has not pulled yet.
    pub open spec fn readable(self) -> Seq<u8> {
        joined(self.chunks)
    }

    /// Peer data, if any, behind what is waiting, and the end flag.
    pub open spec fn with_received(self, data: Seq<u8>, fin: bool) -> InboundView {
        InboundView {
            chunks: if data.len() == 0 {
                self.chunks
            } else {
                self.chunks.push(data)
            },
            ended: self.ended || fin,
            ..self
        }
    }

    /// The peer reset the stream: waiting data is gone.
    pub open spec fn with_reset(self) -> InboundView {
        InboundView { chunks: Seq::empty(), ended: true, errored: true }
    }

    pub open spec fn discarded(self) -> InboundView {
        InboundView { chunks: Seq::empty(), ..self }
    }

    /// `pulled` is what a pull gives, leaving `after`.
    pub open spec fn pulls(self, pulled: Pulled, after: InboundView) -> bool {
        if self.errored {
            pulled is Error && after == self
        } else if self.chunks.len() > 0 {
            &&& pulled matches Pulled::Data(chunk) && chunk@ == self.chunks[0]
            &&& after == InboundView { chunks: self.chunks.skip(1), ..self }
        } else if self.ended {
            pulled is Eos && after == self
        } else {
            pulled is Blocked && after == self
        }
    }
}

impl Inbound {
    pub fn new() -> (inbound: Inbound)
        ensures
            inbound@ == InboundView::empty(),
    {
        let inbound = Inbound { chunks: VecDeque::new(), ended: false, errored: false };
        assert(inbound@ =~= InboundView::empty());
        inbound
    }

    pub fn receive(&mut self, data: &[u8], fin: bool)
        ensures
            final(self)@ == old(self)@.with_received(data@, fin),
    {
        let ghost before = self@;
        if data.len() != 0 {
            self.chunks.push_back(slice_to_vec(data));
        }
        if fin {
            self.ended = true;
        }
        assert(self@ =~= before.with_received(data@, fin));
    }

    pub fn reset(&mut self)
        ensures
            final(self)@ == old(self)@.with_reset(),
    {
        let ghost before = self@;
        self.chunks.clear();
        self.errored = true;
        self.ended = true;
        assert(self@ =~= before.with_reset());
    }

    pub fn discard(&mut self)
        ensures
            final(self)@ == old(self)@.discarded(),
    {
        let ghost before = self@;
        self.chunks.clear();
        assert(self@ =~= before.discarded());
    }

    /// The next chunk, the end of the stream, the error, or nothing yet.
    pub fn pull(&mut self) -> (pulled: Pulled)
        ensures
            old(self)@.pulls(pulled, final(self)@),
    {
        let ghost before = self@;
        if self.errored {
            return Pulled::Error;
        }
        match self.chunks.pop_front() {
            Some(chunk) => {
                assert(self@ =~= InboundView { chunks: before.chunks.skip(1), ..before });
                Pulled::Data(chunk)
            },
            None => {
                assert(self@ =~= before);
                if self.ended {
                    Pulled::Eos
                } else {
                    Pulled::Blocked
                }
            },
        }
    }
}

proof fn lemma_joined_push(chunks: Seq<Seq<u8>>, chunk: Seq<u8>)
    ensures
        joined(chunks.push(chunk)) == joined(chunks) + chunk,
    decreases chunks.len(),
{
    if chunks.len() == 0 {
        reveal_with_fuel(joined, 2);
        assert(chunks.push(chunk).skip(1) =~= Seq::empty());
        assert(joined(chunks.push(chunk)) =~= joined(chunks) + chunk);
    } else {
        assert(chunks.push(chunk).skip(1) =~= chunks.skip(1).push(chunk));
        lemma_joined_push(chunks.skip(1), chunk);
        assert(joined(chunks.push(chunk)) =~= joined(chunks) + chunk);
    }
}

/// What arrives is read in the order of arrival: receiving extends the
/// readable bytes at their end.
pub proof fn law_received_data_is_readable_last(inbound: InboundView, data: Seq<u8>, fin: bool)
    ensures
        inbound.with_received(data, fin).readable() == inbound.readable() + data,
{
    if data.len() == 0 {
        assert(inbound.readable() + data =~= inbound.readable());
    } else {
        lemma_joined_push(inbound.chunks, data);
    }
}

/// A pull takes its bytes off the front of the readable ones, and the end of
/// the stream is reported only once all of them were read.
pub proof fn law_pull_takes_from_the_front(
    inbound: InboundView,
    pulled: Pulled,
    after: InboundView,
)
    requires
        inbound.pulls(pulled, after),
    ensures
        pulled matches Pulled::Data(chunk) ==> inbound.readable() == chunk@ + after.readable(),
        !(pulled is Data) ==> after.readable() == inbound.readable(),
        pulled is Eos ==> inbound.ended && inbound.readable() == Seq::<u8>::empty(),
{
}

/// The readable bytes are those of the waiting chunks, one after the other.
pub proof fn law_readable_bytes_are_the_chunks(chunks: Seq<Seq<u8>>, chunk: Seq<u8>)
    ensures
        joined(Seq::empty()).len() == 0,
        joined(chunks.push(chunk)) == joined(chunks) + chunk,
        joined(seq![chunk] + chunks) == chunk + joined(chunks),
{
    lemma_joined_push(chunks, chunk);
    assert((seq![chunk] + chunks).skip(1) =~= chunks);
}

/// What a pull reports: an error once the peer reset the stream, else the chunk
/// that arrived first, else the end where the peer ended the stream, else that
/// nothing is there. Only a chunk that was handed out leaves.
pub proof fn law_pull_reports_what_is_there(
    inbound: InboundView,
    pulled: Pulled,
    after: InboundView,
)
    requires
        inbound.pulls(pulled, after),
    ensures
        pulled is Error <==> inbound.errored,
        pulled is Data <==> !inbound.errored && inbound.chunks.len() > 0,
        pulled is Eos <==> !inbound.errored && inbound.chunks.len() == 0 && inbound.ended,
        pulled is Blocked <==> !inbound.errored && inbound.chunks.len() == 0 && !inbound.ended,
        pulled matches Pulled::Data(chunk) ==> chunk@ == inbound.chunks[0] && after.chunks
            == inbound.chunks.skip(1),
        !(pulled is Data) ==> after == inbound,
        after.ended == inbound.ended && after.errored == inbound.errored,
        pulled.code() == if inbound.errored {
            -1int
        } else if inbound.chunks.len() > 0 {
            1
        } else if inbound.ended {
            0
        } else {
            2
        },
{
}

/// Receiving, a reset and a discard: data and the end flag add up, a reset
/// leaves an error and no data, and a discard leaves no data and the flags as
/// they were.
pub proof fn law_inbound_changes(inbound: InboundView, data: Seq<u8>, fin: bool)
    ensures
        InboundView::empty().chunks.len() == 0,
        !InboundView::empty().ended && !InboundView::empty().errored,
        inbound.with_received(data, fin).ended == (inbound.ended || fin),
        inbound.with_received(data, fin).errored == inbound.errored,
        data.len() == 0 ==> inbound.with_received(data, fin).chunks == inbound.chunks,
        data.len() > 0 ==> inbound.with_received(data, fin).chunks == inbound.chunks.push(data),
        inbound.with_reset().chunks.len() == 0,
        inbound.with_reset().ended && inbound.with_reset().errored,
        inbound.discarded().chunks.len() == 0,
        inbound.discarded().ended == inbound.ended,
        inbound.discarded().errored == inbound.errored,
{
}

/// The inbound side stands for what its fields hold.
pub proof fn law_inbound_is_seen_as_it_is(inbound: Inbound)
    ensures
        inbound@.ended == inbound.ended,
        inbound@.errored == inbound.errored,
        inbound@.chunks.len() == inbound.chunks@.len(),
{
}

/// Waiting chunks stand for their bytes, one for one.
pub proof fn law_waiting_chunks_are_their_bytes(chunks: Seq<Vec<u8>>, at: int)
    requires
        0 <= at < chunks.len(),
    ensures
        byte_views(chunks).len() == chunks.len(),
        byte_views(chunks)[at] == chunks[at]@,
{
}

} // verus!
