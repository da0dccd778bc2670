//! Session events: recorded while the transport processes packets, when no
//! callback may run, and dispatched afterwards.

use std::collections::VecDeque;

use vstd::prelude::*;

use crate::address::StoredAddr;
use crate::inbound::law_received_data_is_readable_last;
use crate::ngtcp2::{
    NGTCP2_DATAGRAM_FLAG_0RTT, NGTCP2_STREAM_CLOSE_FLAG_APP_ERROR_CODE_SET, NGTCP2_STREAM_DATA_FLAG_FIN,
};
use crate::session::{
    QuicSession, SessionView, LISTENER_FLAG_DATAGRAM, LISTENER_FLAG_DATAGRAM_STATUS, LISTENER_FLAG_NEW_TOKEN,
    LISTENER_FLAG_SESSION_TICKET,
};
use crate::stream::{QuicStream, StreamView};

verus! {

/// Activity recorded during packet processing.
#[derive(Debug, PartialEq, Eq)]
pub enum StreamEvent {
    /// The peer opened a new stream.
    Opened(i64),
    /// Stream data (possibly none) or the end flag arrived, or both.
    Data { id: i64, bytes: Vec<u8>, fin: bool },
    /// The stream closed (all data exchanged or an application error).
    Closed { id: i64, code: u64, errored: bool },
    /// The peer abruptly reset its sending side.
    Reset { id: i64, code: u64 },
    /// More stream-level flow-control credit became available.
    Drain(i64),
    /// The stream is blocked on stream-level flow control.
    Blocked(i64),
    /// A datagram arrived from the peer.
    Datagram { bytes: Vec<u8>, early: bool },
    /// A previously sent datagram was acknowledged or declared lost.
    DatagramStatus { id: u64, lost: bool },
    /// The TLS stack issued a session ticket usable for resumption.
    SessionTicket(Vec<u8>),
    /// The peer sent a token for future address validation.
    NewToken(Vec<u8>),
}

/// What a dispatch step asks to have done.
#[derive(Debug, PartialEq, Eq)]
pub enum EventAction {
    /// The pass is over.
    Done,
    /// Nothing: the next step follows.
    Nothing,
    /// Make a handle for a stream that the peer opened, then enter the stream
    /// with `adopt_stream`.
    OpenStream { id: i64 },
    /// Call `onStreamClose`, with an application error if there is one.
    StreamClose { id: i64, error: Option<u64> },
    /// Call `onStreamReset`.
    StreamReset { id: i64, code: u64 },
    /// Call `onStreamDrain`.
    StreamDrain { id: i64 },
    /// Call `onStreamBlocked`.
    StreamBlocked { id: i64 },
    /// Call `onSessionDatagram`.
    Datagram { bytes: Vec<u8>, early: bool },
    /// Call `onSessionDatagramStatus` with `lost` or `acknowledged`.
    DatagramStatus { id: u64, lost: bool },
    /// Call `onSessionTicket`.
    SessionTicket(Vec<u8>),
    /// Call `onSessionNewToken` with the token and the peer's address.
    NewToken { token: Vec<u8>, remote: StoredAddr },
    /// Call the reader's wakeup.
    Wake { wakeup: u64, fin: bool },
}

/// One dispatch pass: the events taken from the queue that are still to be
/// dispatched, and the streams whose readers are woken once they are.
pub struct EventPass {
    pub batch: VecDeque<StreamEvent>,
    /// Stream id, and whether the end of its data was seen.
    pub to_wake: VecDeque<(i64, bool)>,
}

/// What a dispatch pass stands for.
#[verifier::ext_equal]
pub struct PassView {
    pub batch: Seq<StreamEvent>,
    pub to_wake: Seq<(i64, bool)>,
}

impl View for EventPass {
    type V = PassView;

    open spec fn view(&self) -> PassView {
        PassView { batch: self.batch@, to_wake: self.to_wake@ }
    }
}

/// The position of a stream in the wake list.
pub open spec fn wakes(list: Seq<(i64, bool)>, id: i64, at: int) -> bool {
    0 <= at < list.len() && list[at].0 == id
}

impl PassView {
    pub open spec fn empty() -> PassView {
        PassView { batch: Seq::empty(), to_wake: Seq::empty() }
    }

    /// Every stream is on the wake list at most once.
    pub open spec fn well_formed(self) -> bool {
        forall|i: int, j: int|
            #![trigger self.to_wake[i], self.to_wake[j]]
            0 <= i < j < self.to_wake.len() ==> self.to_wake[i].0 != self.to_wake[j].0
    }

    pub open spec fn listed(self, id: i64) -> bool {
        exists|at: int| wakes(self.to_wake, id, at)
    }

    /// A stream to wake: one that is listed stays in its place and remembers
    /// whether any of its data was the last.
    pub open spec fn with_wake(self, id: i64, fin: bool) -> PassView {
        if self.listed(id) {
            let at = choose|at: int| wakes(self.to_wake, id, at);
            PassView {
                to_wake: self.to_wake.update(at, (id, self.to_wake[at].1 || fin)),
                ..self
            }
        } else {
            PassView { to_wake: self.to_wake.push((id, fin)), ..self }
        }
    }
}

/// A session and a pass over its events, with what a step asked for.
#[verifier::ext_equal]
pub struct Step {
    pub session: SessionView,
    pub pass: PassView,
    pub action: EventAction,
}

/// What dispatching one event does.
pub open spec fn dispatched(
    session: SessionView,
    pass: PassView,
    event: StreamEvent,
    now: u64,
) -> Step {
    let nothing = Step { session, pass, action: EventAction::Nothing };
    match event {
        StreamEvent::Opened(id) => if session.streams.contains_key(id) {
            nothing
        } else {
            Step { action: EventAction::OpenStream { id }, ..nothing }
        },
        StreamEvent::Data { id, bytes, fin } => if !session.streams.contains_key(id) {
            nothing
        } else {
            Step {
                session: session.with_stream(
                    id,
                    session.streams[id].with_received(bytes@, fin, now),
                ),
                pass: pass.with_wake(id, fin),
                ..nothing
            }
        },
        StreamEvent::Closed { id, code, errored } => if !session.streams.contains_key(id) {
            nothing
        } else {
            Step {
                session: session.with_stream(
                    id,
                    session.streams[id].with_received(Seq::empty(), true, now),
                ),
                pass: pass.with_wake(id, true),
                action: EventAction::StreamClose {
                    id,
                    error: if errored {
                        Some(code)
                    } else {
                        None
                    },
                },
            }
        },
        StreamEvent::Reset { id, code } => if !session.streams.contains_key(id) {
            nothing
        } else {
            Step {
                session: session.with_stream(id, session.streams[id].with_reset(code)),
                pass: pass.with_wake(id, true),
                action: if session.streams[id].state.wants_reset != 0 {
                    EventAction::StreamReset { id, code }
                } else {
                    EventAction::Nothing
                },
            }
        },
        StreamEvent::Drain(id) => if !session.streams.contains_key(id) {
            nothing
        } else {
            Step {
                session: session.with_stream(id, session.streams[id].with_capacity()),
                action: if session.streams[id].drains() {
                    EventAction::StreamDrain { id }
                } else {
                    EventAction::Nothing
                },
                ..nothing
            }
        },
        StreamEvent::Blocked(id) => if session.streams.contains_key(id)
            && session.streams[id].state.wants_block != 0 {
            Step { action: EventAction::StreamBlocked { id }, ..nothing }
        } else {
            nothing
        },
        StreamEvent::Datagram { bytes, early } => if session.wants(LISTENER_FLAG_DATAGRAM) {
            Step { action: EventAction::Datagram { bytes, early }, ..nothing }
        } else {
            nothing
        },
        StreamEvent::DatagramStatus { id, lost } => if session.wants(
            LISTENER_FLAG_DATAGRAM_STATUS,
        ) {
            Step { action: EventAction::DatagramStatus { id, lost }, ..nothing }
        } else {
            nothing
        },
        StreamEvent::SessionTicket(der) => if session.wants(LISTENER_FLAG_SESSION_TICKET) {
            Step { action: EventAction::SessionTicket(der), ..nothing }
        } else {
            nothing
        },
        StreamEvent::NewToken(token) => if session.wants(LISTENER_FLAG_NEW_TOKEN) {
            Step {
                action: EventAction::NewToken { token, remote: session.remote_addr },
                ..nothing
            }
        } else {
            nothing
        },
    }
}

/// What waking one listed stream does: a stream that is gone or destroyed is
/// passed over, and a wakeup serves once per registration.
pub open spec fn woken(session: SessionView, pass: PassView, id: i64, fin: bool) -> Step {
    let nothing = Step { session, pass, action: EventAction::Nothing };
    if !session.streams.contains_key(id) || session.streams[id].destroyed {
        nothing
    } else {
        Step {
            session: session.with_stream(
                id,
                StreamView { wakeup: None, ..session.streams[id] },
            ),
            action: match session.streams[id].wakeup {
                Some(wakeup) => EventAction::Wake { wakeup, fin },
                None => EventAction::Nothing,
            },
            ..nothing
        }
    }
}

/// One step of a pass. The batch comes first, in order; then the wake list;
/// then whatever was queued meanwhile is the next batch. A destroyed session
/// drops what is left.
pub open spec fn stepped(session: SessionView, pass: PassView, now: u64) -> Step {
    if pass.batch.len() > 0 || pass.to_wake.len() > 0 {
        if session.destroyed {
            Step { session, pass: PassView::empty(), action: EventAction::Done }
        } else if pass.batch.len() > 0 {
            dispatched(
                session,
                PassView { batch: pass.batch.skip(1), ..pass },
                pass.batch[0],
                now,
            )
        } else {
            woken(
                session,
                PassView { to_wake: pass.to_wake.skip(1), ..pass },
                pass.to_wake[0].0,
                pass.to_wake[0].1,
            )
        }
    } else if session.stream_events.len() == 0 {
        Step { session, pass, action: EventAction::Done }
    } else {
        Step {
            session: SessionView { stream_events: Seq::empty(), ..session },
            pass: PassView { batch: session.stream_events, ..pass },
            action: EventAction::Nothing,
        }
    }
}

/// Steps of a pass until one asks for something.
pub open spec fn run(session: SessionView, pass: PassView, now: u64) -> Step
    decreases session.stream_events.len(), 2 * pass.batch.len() + pass.to_wake.len(),
{
    let step = stepped(session, pass, now);
    if step.action is Nothing {
        run(step.session, step.pass, now)
    } else {
        step
    }
}

impl EventPass {
    pub fn new() -> (pass: EventPass)
        ensures
            pass@ == PassView::empty(),
            pass@.well_formed(),
    {
        let pass = EventPass { batch: VecDeque::new(), to_wake: VecDeque::new() };
        assert(pass@ =~= PassView::empty());
        pass
    }

    fn wake(&mut self, id: i64, fin: bool)
        requires
            old(self)@.well_formed(),
        ensures
            final(self)@ == old(self)@.with_wake(id, fin),
            final(self)@.well_formed(),
    {
        let mut at: usize = 0;
        while at < self.to_wake.len()
            invariant
                at <= self.to_wake@.len(),
                self@ == old(self)@,
                old(self)@.well_formed(),
                forall|i: int| 0 <= i < at ==> (#[trigger] self.to_wake@[i]).0 != id,
            decreases self.to_wake@.len() - at,
        {
            let (listed, seen) = self.to_wake[at];
            if listed == id {
                assert(wakes(self@.to_wake, id, at as int));
                let mut rest = self.to_wake.split_off(at);
                let _entry = rest.pop_front();
                self.to_wake.push_back((id, seen || fin));
                self.to_wake.append(&mut rest);
                proof {
                    let chosen = choose|i: int| wakes(old(self)@.to_wake, id, i);
                    assert(chosen == at) by {
                        let list = old(self)@.to_wake;
                        assert(list[chosen].0 == list[at as int].0);
                    }
                    assert(self@ =~= old(self)@.with_wake(id, fin));
                }
                return;
            }
            at = at + 1;
        }
        assert(!old(self)@.listed(id));
        self.to_wake.push_back((id, fin));
        assert(self@ =~= old(self)@.with_wake(id, fin));
    }
}

impl QuicSession {
    /// The peer opened a stream.
    pub fn on_stream_open(&mut self, id: i64)
        requires
            old(self)@.well_formed(),
        ensures
            final(self)@ == old(self)@.with_event(StreamEvent::Opened(id)),
            final(self)@.well_formed(),
    {
        self.push_event(StreamEvent::Opened(id));
    }

    /// Stream data arrived. Returns the connection-level flow-control credit
    /// to give back at once; stream-level credit waits for the reader.
    pub fn on_stream_data(&mut self, flags: u32, id: i64, bytes: Vec<u8>) -> (credit: u64)
        requires
            old(self)@.well_formed(),
        ensures
            final(self)@ == old(self)@.with_event(
                StreamEvent::Data { id, bytes, fin: flags & NGTCP2_STREAM_DATA_FLAG_FIN != 0 },
            ),
            final(self)@.well_formed(),
            credit == bytes@.len(),
    {
        let credit: u64 = bytes.len() as u64;
        let fin: bool = flags & NGTCP2_STREAM_DATA_FLAG_FIN != 0;
        self.push_event(StreamEvent::Data { id, bytes, fin });
        credit
    }

    /// A stream closed: with an error where the transport says that an
    /// application error code is set and the code is not zero.
    pub fn on_stream_close(&mut self, flags: u32, id: i64, code: u64)
        requires
            old(self)@.well_formed(),
        ensures
            final(self)@ == old(self)@.with_event(
                StreamEvent::Closed {
                    id,
                    code,
                    errored: flags & NGTCP2_STREAM_CLOSE_FLAG_APP_ERROR_CODE_SET != 0 && code != 0,
                },
            ),
            final(self)@.well_formed(),
    {
        let errored: bool = flags & NGTCP2_STREAM_CLOSE_FLAG_APP_ERROR_CODE_SET != 0 && code != 0;
        self.push_event(StreamEvent::Closed { id, code, errored });
    }

    /// The peer reset a stream.
    pub fn on_stream_reset(&mut self, id: i64, code: u64)
        requires
            old(self)@.well_formed(),
        ensures
            final(self)@ == old(self)@.with_event(StreamEvent::Reset { id, code }),
            final(self)@.well_formed(),
    {
        self.push_event(StreamEvent::Reset { id, code });
    }

    /// The peer extended a stream's flow-control window.
    pub fn on_max_stream_data(&mut self, id: i64)
        requires
            old(self)@.well_formed(),
        ensures
            final(self)@ == old(self)@.with_event(StreamEvent::Drain(id)),
            final(self)@.well_formed(),
    {
        self.push_event(StreamEvent::Drain(id));
    }

    /// The TLS stack issued a session ticket. Returns whether the timer is to
    /// fire on the next turn, to dispatch it.
    pub fn on_session_ticket(&mut self, ticket: Vec<u8>) -> (arm: bool)
        requires
            old(self)@.well_formed(),
        ensures
            arm == !old(self)@.destroyed,
            final(self)@ == (SessionView {
                timer_active: old(self)@.timer_active || arm,
                ..old(self)@.with_event(StreamEvent::SessionTicket(ticket))
            }),
            final(self)@.well_formed(),
    {
        self.push_event(StreamEvent::SessionTicket(ticket));
        self.schedule_event_dispatch()
    }

    /// The peer sent an address-validation token; an empty one is ignored.
    pub fn on_new_token(&mut self, token: Vec<u8>)
        requires
            old(self)@.well_formed(),
        ensures
            final(self)@ == if token@.len() == 0 {
                old(self)@
            } else {
                old(self)@.with_event(StreamEvent::NewToken(token))
            },
            final(self)@.well_formed(),
    {
        if token.len() == 0 {
            return;
        }
        self.push_event(StreamEvent::NewToken(token));
    }

    /// A datagram arrived.
    pub fn on_datagram(&mut self, flags: u32, bytes: Vec<u8>)
        requires
            old(self)@.well_formed(),
        ensures
            final(self)@ == old(self)@.with_event(
                StreamEvent::Datagram { bytes, early: flags & NGTCP2_DATAGRAM_FLAG_0RTT != 0 },
            ),
            final(self)@.well_formed(),
    {
        let early: bool = flags & NGTCP2_DATAGRAM_FLAG_0RTT != 0;
        self.push_event(StreamEvent::Datagram { bytes, early });
    }

    /// A sent datagram was acknowledged, or declared lost.
    pub fn on_datagram_status(&mut self, id: u64, lost: bool)
        requires
            old(self)@.well_formed(),
        ensures
            final(self)@ == old(self)@.with_event(StreamEvent::DatagramStatus { id, lost }),
            final(self)@.well_formed(),
    {
        self.push_event(StreamEvent::DatagramStatus { id, lost });
    }

    /// The peer acknowledged stream data.
    pub fn on_stream_data_acked(&mut self, id: i64, offset: u64, datalen: u64)
        requires
            old(self)@.well_formed(),
        ensures
            final(self)@ == if old(self)@.streams.contains_key(id) {
                old(self)@.with_stream(
                    id,
                    StreamView {
                        outbound: old(self)@.streams[id].outbound.with_acked(offset, datalen),
                        ..old(self)@.streams[id]
                    },
                )
            } else {
                old(self)@
            },
            final(self)@.well_formed(),
    {
        if let Some(mut stream) = self.streams.take(id) {
            stream.on_acked(offset, datalen);
            self.return_stream(id, stream, Ghost(old(self)@));
        } else {
            assert(self@ =~= old(self)@);
        }
    }

    /// Put back a stream that was taken out of the table.
    pub(crate) fn return_stream(&mut self, id: i64, stream: QuicStream, before: Ghost<SessionView>)
        requires
            before@.well_formed(),
            before@.streams.contains_key(id),
            stream@.well_formed(),
            stream@.id == id,
            old(self)@ == (SessionView { streams: before@.streams.remove(id), ..before@ }),
        ensures
            final(self)@ == before@.with_stream(id, stream@),
            final(self)@.well_formed(),
    {
        self.streams.put(id, stream);
        assert(before@.streams.remove(id).insert(id, stream@) =~= before@.streams.insert(
            id,
            stream@,
        ));
        assert(self@ =~= before@.with_stream(id, stream@));
    }

    /// Events recorded while a call of the script is served are not
    /// dispatched underneath the caller: the timer fires on the next turn and
    /// delivers them. Returns whether it is to be armed.
    pub fn schedule_event_dispatch(&mut self) -> (arm: bool)
        requires
            old(self)@.well_formed(),
        ensures
            arm == (!old(self)@.destroyed && old(self)@.stream_events.len() > 0),
            final(self)@ == (SessionView {
                timer_active: old(self)@.timer_active || arm,
                ..old(self)@
            }),
            final(self)@.well_formed(),
    {
        if self.destroyed || self.stream_events.len() == 0 {
            assert(self@ =~= SessionView { timer_active: old(self)@.timer_active, ..old(self)@ });
            return false;
        }
        self.timer_active = true;
        assert(self@ =~= SessionView { timer_active: true, ..old(self)@ });
        true
    }

    /// Enter a stream that the peer opened, once its handle exists. Returns
    /// whether it is unidirectional: bit 1 of the id tells.
    pub fn adopt_stream(&mut self, id: i64, now: u64) -> (unidirectional: bool)
        requires
            old(self)@.well_formed(),
            !old(self)@.destroyed,
        ensures
            final(self)@ == old(self)@.with_stream(id, StreamView::created(id, now)),
            final(self)@.well_formed(),
            unidirectional == (id & 0x2 != 0),
    {
        let stream = QuicStream::create(id, now);
        self.streams.put(id, stream);
        assert(self@ =~= old(self)@.with_stream(id, StreamView::created(id, now)));
        id & 0x2 != 0
    }

    /// Hand peer data to a stream. Returns whether the stream is known.
    fn deliver(&mut self, id: i64, data: &[u8], fin: bool, now: u64) -> (known: bool)
        requires
            old(self)@.well_formed(),
        ensures
            known == old(self)@.streams.contains_key(id),
            final(self)@ == if known {
                old(self)@.with_stream(
                    id,
                    old(self)@.streams[id].with_received(data@, fin, now),
                )
            } else {
                old(self)@
            },
            final(self)@.well_formed(),
    {
        if let Some(mut stream) = self.streams.take(id) {
            stream.push_inbound(data, fin, now);
            self.return_stream(id, stream, Ghost(old(self)@));
            true
        } else {
            assert(self@ =~= old(self)@);
            false
        }
    }

    /// Reset a stream. Returns whether the script listens, if the stream is
    /// known.
    fn reset(&mut self, id: i64, code: u64) -> (wants_reset: Option<bool>)
        requires
            old(self)@.well_formed(),
        ensures
            match wants_reset {
                Some(wants_reset) => {
                    &&& old(self)@.streams.contains_key(id)
                    &&& wants_reset == (old(self)@.streams[id].state.wants_reset != 0)
                    &&& final(self)@ == old(self)@.with_stream(
                        id,
                        old(self)@.streams[id].with_reset(code),
                    )
                },
                None => !old(self)@.streams.contains_key(id) && final(self)@ == old(self)@,
            },
            final(self)@.well_formed(),
    {
        if let Some(mut stream) = self.streams.take(id) {
            let wants_reset: bool = stream.state.wants_reset != 0;
            stream.mark_reset(code);
            self.return_stream(id, stream, Ghost(old(self)@));
            Some(wants_reset)
        } else {
            assert(self@ =~= old(self)@);
            None
        }
    }

    /// Refresh a stream's write window. Returns whether the writer is to be
    /// told.
    fn drain(&mut self, id: i64) -> (drained: bool)
        requires
            old(self)@.well_formed(),
        ensures
            if old(self)@.streams.contains_key(id) {
                &&& drained == old(self)@.streams[id].drains()
                &&& final(self)@ == old(self)@.with_stream(
                    id,
                    old(self)@.streams[id].with_capacity(),
                )
            } else {
                &&& !drained
                &&& final(self)@ == old(self)@
            },
            final(self)@.well_formed(),
    {
        if let Some(mut stream) = self.streams.take(id) {
            let drained: bool = stream.refresh_write_capacity();
            self.return_stream(id, stream, Ghost(old(self)@));
            drained
        } else {
            assert(self@ =~= old(self)@);
            false
        }
    }

    /// Dispatch one event.
    fn dispatch(&mut self, pass: &mut EventPass, event: StreamEvent, now: u64) -> (action:
        EventAction)
        requires
            old(self)@.well_formed(),
            old(pass)@.well_formed(),
        ensures
            (Step { session: final(self)@, pass: final(pass)@, action }) == dispatched(
                old(self)@,
                old(pass)@,
                event,
                now,
            ),
            final(self)@.well_formed(),
            final(pass)@.well_formed(),
    {
        match event {
            StreamEvent::Opened(id) => {
                if self.streams.contains(id) {
                    EventAction::Nothing
                } else {
                    EventAction::OpenStream { id }
                }
            },
            StreamEvent::Data { id, bytes, fin } => {
                if self.deliver(id, bytes.as_slice(), fin, now) {
                    pass.wake(id, fin);
                }
                EventAction::Nothing
            },
            StreamEvent::Closed { id, code, errored } => {
                // A clean close also ends the readable side.
                let none: Vec<u8> = Vec::new();
                if self.deliver(id, none.as_slice(), true, now) {
                    pass.wake(id, true);
                    let error = if errored {
                        Some(code)
                    } else {
                        None
                    };
                    EventAction::StreamClose { id, error }
                } else {
                    EventAction::Nothing
                }
            },
            StreamEvent::Reset { id, code } => {
                match self.reset(id, code) {
                    Some(wants_reset) => {
                        pass.wake(id, true);
                        if wants_reset {
                            EventAction::StreamReset { id, code }
                        } else {
                            EventAction::Nothing
                        }
                    },
                    None => EventAction::Nothing,
                }
            },
            StreamEvent::Drain(id) => {
                if self.drain(id) {
                    EventAction::StreamDrain { id }
                } else {
                    EventAction::Nothing
                }
            },
            StreamEvent::Blocked(id) => {
                match self.streams.get(id) {
                    Some(stream) => {
                        if stream.state.wants_block != 0 {
                            EventAction::StreamBlocked { id }
                        } else {
                            EventAction::Nothing
                        }
                    },
                    None => EventAction::Nothing,
                }
            },
            StreamEvent::Datagram { bytes, early } => {
                if self.state.listener_flags & LISTENER_FLAG_DATAGRAM != 0 {
                    EventAction::Datagram { bytes, early }
                } else {
                    EventAction::Nothing
                }
            },
            StreamEvent::DatagramStatus { id, lost } => {
                if self.state.listener_flags & LISTENER_FLAG_DATAGRAM_STATUS != 0 {
                    EventAction::DatagramStatus { id, lost }
                } else {
                    EventAction::Nothing
                }
            },
            StreamEvent::SessionTicket(der) => {
                if self.state.listener_flags & LISTENER_FLAG_SESSION_TICKET != 0 {
                    EventAction::SessionTicket(der)
                } else {
                    EventAction::Nothing
                }
            },
            StreamEvent::NewToken(token) => {
                if self.state.listener_flags & LISTENER_FLAG_NEW_TOKEN != 0 {
                    EventAction::NewToken { token, remote: self.remote_addr }
                } else {
                    EventAction::Nothing
                }
            },
        }
    }

    /// Wake one listed stream's reader.
    fn wake_reader(&mut self, id: i64, fin: bool, pass: Ghost<PassView>) -> (action: EventAction)
        requires
            old(self)@.well_formed(),
        ensures
            (Step { session: final(self)@, pass: pass@, action }) == woken(
                old(self)@,
                pass@,
                id,
                fin,
            ),
            final(self)@.well_formed(),
    {
        let known = match self.streams.get(id) {
            Some(stream) => !stream.is_destroyed(),
            None => false,
        };
        if !known {
            return EventAction::Nothing;
        }
        if let Some(mut stream) = self.streams.take(id) {
            let wakeup = stream.take_wakeup();
            self.return_stream(id, stream, Ghost(old(self)@));
            if let Some(wakeup) = wakeup {
                return EventAction::Wake { wakeup, fin };
            }
        }
        EventAction::Nothing
    }

    /// One step of a pass.
    fn step_events(&mut self, pass: &mut EventPass, now: u64) -> (action: EventAction)
        requires
            old(self)@.well_formed(),
            old(pass)@.well_formed(),
        ensures
            (Step { session: final(self)@, pass: final(pass)@, action }) == stepped(
                old(self)@,
                old(pass)@,
                now,
            ),
            final(self)@.well_formed(),
            final(pass)@.well_formed(),
    {
        if pass.batch.len() == 0 && pass.to_wake.len() == 0 {
            if self.stream_events.len() == 0 {
                return EventAction::Done;
            }
            core::mem::swap(&mut pass.batch, &mut self.stream_events);
            assert(pass@ =~= PassView { batch: old(self)@.stream_events, ..old(pass)@ });
            assert(self@ =~= SessionView { stream_events: Seq::empty(), ..old(self)@ });
            return EventAction::Nothing;
        }
        if self.destroyed {
            pass.batch.clear();
            pass.to_wake.clear();
            assert(pass@ =~= PassView::empty());
            return EventAction::Done;
        }
        if let Some(event) = pass.batch.pop_front() {
            assert(pass@ =~= PassView { batch: old(pass)@.batch.skip(1), ..old(pass)@ });
            return self.dispatch(pass, event, now);
        }
        match pass.to_wake.pop_front() {
            Some((id, fin)) => {
                assert(pass@ =~= PassView { to_wake: old(pass)@.to_wake.skip(1), ..old(pass)@ });
                self.wake_reader(id, fin, Ghost(pass@))
            },
            None => EventAction::Nothing,
        }
    }

    /// Carry a pass on until it asks for something to be done, or is over.
    /// What is asked for may change the session; the pass then goes on from
    /// there.
    pub fn process_stream_events(&mut self, pass: &mut EventPass, now: u64) -> (action: EventAction)
        requires
            old(self)@.well_formed(),
            old(pass)@.well_formed(),
        ensures
            (Step { session: final(self)@, pass: final(pass)@, action }) == run(
                old(self)@,
                old(pass)@,
                now,
            ),
            final(self)@.well_formed(),
            final(pass)@.well_formed(),
    {
        loop
            invariant
                self@.well_formed(),
                pass@.well_formed(),
                run(self@, pass@, now) == run(old(self)@, old(pass)@, now),
            decreases self@.stream_events.len(), 2 * pass@.batch.len() + pass@.to_wake.len(),
        {
            let action = self.step_events(pass, now);
            match action {
                EventAction::Nothing => {},
                action => {
                    return action;
                },
            }
        }
    }
}

/// Any step keeps every stream on the wake list at most once.
pub proof fn law_wake_list_has_no_duplicates(session: SessionView, pass: PassView, now: u64)
    requires
        pass.well_formed(),
    ensures
        stepped(session, pass, now).pass.well_formed(),
{
    let rest = PassView { batch: pass.batch.skip(1), ..pass };
    assert forall|id: i64, fin: bool| #[trigger] rest.with_wake(id, fin).well_formed() by {
        lemma_wake_keeps_well_formed(rest, id, fin);
    }
}

proof fn lemma_wake_keeps_well_formed(pass: PassView, id: i64, fin: bool)
    requires
        pass.well_formed(),
    ensures
        pass.with_wake(id, fin).well_formed(),
{
    let after = pass.with_wake(id, fin).to_wake;
    if pass.listed(id) {
        let at = choose|at: int| wakes(pass.to_wake, id, at);
        assert forall|i: int, j: int| 0 <= i < j < after.len() implies after[i].0 != after[j].0 by {
            assert(after[i].0 == pass.to_wake[i].0);
            assert(after[j].0 == pass.to_wake[j].0);
        }
    } else {
        assert forall|i: int, j: int| 0 <= i < j < after.len() implies after[i].0 != after[j].0 by {
            assert(!wakes(pass.to_wake, id, i));
        }
    }
}

/// Two pieces of data for one stream wake its reader like one piece, which is
/// the last where either was.
pub proof fn law_wakes_of_one_stream_merge(pass: PassView, id: i64, first: bool, second: bool)
    requires
        pass.well_formed(),
    ensures
        pass.with_wake(id, first).with_wake(id, second) == pass.with_wake(id, first || second),
{
    lemma_wake_keeps_well_formed(pass, id, first);
    let once = pass.with_wake(id, first);
    if pass.listed(id) {
        let at = choose|at: int| wakes(pass.to_wake, id, at);
        assert(wakes(once.to_wake, id, at));
        let again = choose|at: int| wakes(once.to_wake, id, at);
        assert(once.to_wake[again].0 == once.to_wake[at].0);
        assert(again == at);
    } else {
        let at = pass.to_wake.len() as int;
        assert(wakes(once.to_wake, id, at));
        let again = choose|at: int| wakes(once.to_wake, id, at);
        assert(once.to_wake[again].0 == once.to_wake[at].0);
        assert(again == at);
    }
    assert(once.with_wake(id, second) =~= pass.with_wake(id, first || second));
}

/// The events of a batch are dispatched in the order in which they were
/// recorded, and no reader is woken before all of them are.
pub proof fn law_batch_comes_first_and_in_order(session: SessionView, pass: PassView, now: u64)
    requires
        !session.destroyed,
        pass.batch.len() > 0,
    ensures
        stepped(session, pass, now).pass.batch == pass.batch.skip(1),
        !(stepped(session, pass, now).action is Wake),
        !(stepped(session, pass, now).action is Done),
        forall|other: PassView|
            other.batch[0] == pass.batch[0] && other.batch.len() > 0 ==> (#[trigger] stepped(
                session,
                other,
                now,
            )).action == stepped(session, pass, now).action,
{
}

/// A pass over a destroyed session asks for nothing and drops what is left.
pub proof fn law_destroyed_session_dispatches_nothing(
    session: SessionView,
    pass: PassView,
    now: u64,
)
    requires
        session.destroyed,
    ensures
        run(session, pass, now).action is Done,
        run(session, pass, now).pass == PassView::empty(),
        run(session, pass, now).session.streams == session.streams,
{
    reveal_with_fuel(run, 2);
    if pass.batch.len() == 0 && pass.to_wake.len() == 0 {
        assert(pass =~= PassView::empty());
    }
}

/// A pass is over only when the queue stays empty: where a live session's
/// pass ends, nothing is left to dispatch and no reader is left to wake.
pub proof fn law_pass_ends_with_an_empty_queue(session: SessionView, pass: PassView, now: u64)
    requires
        !session.destroyed,
        run(session, pass, now).action is Done,
    ensures
        run(session, pass, now).session.stream_events.len() == 0,
        run(session, pass, now).pass.batch.len() == 0,
        run(session, pass, now).pass.to_wake.len() == 0,
    decreases session.stream_events.len(), 2 * pass.batch.len() + pass.to_wake.len(),
{
    let step = stepped(session, pass, now);
    if step.action is Nothing {
        law_pass_ends_with_an_empty_queue(step.session, step.pass, now);
    }
}

/// What the peer sends on a stream is what its reader has to read, in order:
/// each piece of data goes behind what is waiting.
pub proof fn law_data_reaches_the_reader(
    session: SessionView,
    pass: PassView,
    id: i64,
    bytes: Vec<u8>,
    fin: bool,
    now: u64,
)
    requires
        session.streams.contains_key(id),
        !session.streams[id].destroyed,
    ensures
        ({
            let after = dispatched(session, pass, StreamEvent::Data { id, bytes, fin }, now);
            &&& after.session.streams[id].inbound.readable()
                == session.streams[id].inbound.readable() + bytes@
            &&& after.session.streams[id].inbound.ended == (session.streams[id].inbound.ended
                || fin)
            &&& after.pass.listed(id)
        }),
{
    law_received_data_is_readable_last(session.streams[id].inbound, bytes@, fin);
    let after = pass.with_wake(id, fin);
    if pass.listed(id) {
        let at = choose|at: int| wakes(pass.to_wake, id, at);
        assert(wakes(after.to_wake, id, at));
    } else {
        assert(wakes(after.to_wake, id, pass.to_wake.len() as int));
    }
}

/// Dispatching an event changes at most the stream that it is about, and never
/// which streams there are.
pub proof fn law_event_touches_only_its_stream(
    session: SessionView,
    pass: PassView,
    event: StreamEvent,
    other: i64,
    now: u64,
)
    requires
        session.streams.contains_key(other),
        match event {
            StreamEvent::Data { id, .. } => id != other,
            StreamEvent::Closed { id, .. } => id != other,
            StreamEvent::Reset { id, .. } => id != other,
            StreamEvent::Drain(id) => id != other,
            _ => true,
        },
    ensures
        ({
            let after = dispatched(session, pass, event, now).session;
            &&& after.streams.dom() == session.streams.dom()
            &&& after.streams[other] == session.streams[other]
            &&& after == (SessionView { streams: after.streams, ..session })
        }),
{
    let after = dispatched(session, pass, event, now).session;
    assert(after.streams.dom() =~= session.streams.dom());
}

/// What an event has to tell a stream's reader: nothing, or whether its data
/// ends with it. A close and a reset end it.
pub open spec fn tells_reader(event: StreamEvent, id: i64) -> Option<bool> {
    match event {
        StreamEvent::Data { id: about, fin, .. } if about == id => Some(fin),
        StreamEvent::Closed { id: about, .. } if about == id => Some(true),
        StreamEvent::Reset { id: about, .. } if about == id => Some(true),
        _ => None,
    }
}

/// What each step of a pass finds: the session as whatever was asked for before
/// left it, and the time.
pub type Moments = Seq<(SessionView, u64)>;

/// The pass after a step at each of the moments.
pub open spec fn pass_after(moments: Moments, pass: PassView) -> PassView
    decreases moments.len(),
{
    if moments.len() == 0 {
        pass
    } else {
        stepped(
            moments.last().0,
            pass_after(moments.drop_last(), pass),
            moments.last().1,
        ).pass
    }
}

/// What the step at a moment does.
pub open spec fn step_at(moments: Moments, pass: PassView, at: int) -> Step {
    stepped(moments[at].0, pass_after(moments.take(at), pass), moments[at].1)
}

/// One of the first `count` events of a batch has something to tell the reader
/// of a stream that is there when the event is dispatched.
pub open spec fn told_by(moments: Moments, batch: Seq<StreamEvent>, count: int, id: i64) -> bool {
    exists|k: int|
        0 <= k < count && #[trigger] tells_reader(batch[k], id) is Some
            && moments[k].0.streams.contains_key(id)
}

/// One of them tells it that its data ends.
pub open spec fn ended_by(moments: Moments, batch: Seq<StreamEvent>, count: int, id: i64) -> bool {
    exists|k: int|
        0 <= k < count && #[trigger] tells_reader(batch[k], id) == Some(true)
            && moments[k].0.streams.contains_key(id)
}

/// The step at a moment is the one that wakes the reader of a stream.
pub open spec fn wakes_at(moments: Moments, pass: PassView, at: int, id: i64) -> bool {
    let before = pass_after(moments.take(at), pass);
    before.batch.len() == 0 && before.to_wake.len() > 0 && before.to_wake[0].0 == id
}

/// No moment finds the session destroyed.
pub open spec fn all_live(moments: Moments) -> bool {
    forall|k: int| 0 <= k < moments.len() ==> !(#[trigger] moments[k]).0.destroyed
}

impl PassView {
    /// The stream is on the wake list with the end of its data seen.
    pub open spec fn listed_ended(self, id: i64) -> bool {
        exists|at: int| wakes(self.to_wake, id, at) && self.to_wake[at].1
    }
}

proof fn lemma_wake_lists(pass: PassView, id: i64, fin: bool, other: i64)
    requires
        pass.well_formed(),
    ensures
        pass.with_wake(id, fin).listed(other) == (pass.listed(other) || other == id),
        pass.with_wake(id, fin).listed_ended(other) == (pass.listed_ended(other) || (other == id
            && fin)),
{
    let after = pass.with_wake(id, fin);
    let list = pass.to_wake;
    let at = if pass.listed(id) {
        choose|at: int| wakes(list, id, at)
    } else {
        list.len() as int
    };
    assert(wakes(after.to_wake, id, at));
    assert(fin ==> after.to_wake[at].1);
    if pass.listed(other) {
        let i = choose|i: int| wakes(list, other, i);
        assert(wakes(after.to_wake, other, i));
    }
    if pass.listed_ended(other) {
        let i = choose|i: int| wakes(list, other, i) && list[i].1;
        assert(wakes(after.to_wake, other, i) && after.to_wake[i].1);
    }
    if after.listed(other) && other != id {
        let i = choose|i: int| wakes(after.to_wake, other, i);
        assert(i != at);
        assert(wakes(list, other, i));
    }
    if after.listed_ended(other) {
        let i = choose|i: int| wakes(after.to_wake, other, i) && after.to_wake[i].1;
        if i != at {
            assert(wakes(list, other, i) && list[i].1);
        } else if !fin {
            assert(wakes(list, other, i) && list[i].1);
        }
    }
}

/// The wake list while a batch is dispatched.
proof fn lemma_batch_lists(moments: Moments, batch: Seq<StreamEvent>, count: int, id: i64)
    requires
        0 <= count <= batch.len(),
        count <= moments.len(),
        all_live(moments),
    ensures
        ({
            let start = PassView { batch, to_wake: Seq::empty() };
            let after = pass_after(moments.take(count), start);
            &&& after.batch == batch.skip(count)
            &&& after.well_formed()
            &&& after.listed(id) == told_by(moments, batch, count, id)
            &&& after.listed_ended(id) == ended_by(moments, batch, count, id)
        }),
    decreases count,
{
    let start = PassView { batch, to_wake: Seq::empty() };
    let after = pass_after(moments.take(count), start);
    if count == 0 {
        assert(batch.skip(0) =~= batch);
    } else {
        let last = count - 1;
        let before = pass_after(moments.take(last), start);
        lemma_batch_lists(moments, batch, last, id);
        assert(moments.take(count).drop_last() =~= moments.take(last));
        assert(moments.take(count).last() == moments[last]);
        let event = batch[last];
        assert(before.batch[0] == event);
        assert(before.batch.skip(1) =~= batch.skip(count));
        let rest = PassView { batch: before.batch.skip(1), ..before };
        let (session, now) = moments[last];
        assert(!moments[last].0.destroyed);
        assert(after == dispatched(session, rest, event, now).pass);
        law_wake_list_has_no_duplicates(session, before, now);
        assert(rest.listed(id) == before.listed(id));
        assert(rest.listed_ended(id) == before.listed_ended(id));
        match event {
            StreamEvent::Data { id: about, fin, .. } => {
                lemma_wake_lists(rest, about, fin, id);
            },
            StreamEvent::Closed { id: about, .. } => {
                lemma_wake_lists(rest, about, true, id);
            },
            StreamEvent::Reset { id: about, .. } => {
                lemma_wake_lists(rest, about, true, id);
            },
            _ => {},
        }
        let tells = tells_reader(event, id) is Some && session.streams.contains_key(id);
        let ends = tells_reader(event, id) == Some(true) && session.streams.contains_key(id);
        assert(after.listed(id) == (before.listed(id) || tells));
        assert(after.listed_ended(id) == (before.listed_ended(id) || ends));
        assert(told_by(moments, batch, count, id) == (told_by(moments, batch, last, id) || tells)) by {
            if told_by(moments, batch, last, id) {
                let k = choose|k: int|
                    0 <= k < last && #[trigger] tells_reader(batch[k], id) is Some
                        && moments[k].0.streams.contains_key(id);
                assert(tells_reader(batch[k], id) is Some);
            }
            if tells {
                assert(tells_reader(batch[last], id) is Some);
            }
        }
        assert(ended_by(moments, batch, count, id) == (ended_by(moments, batch, last, id) || ends)) by {
            if ended_by(moments, batch, last, id) {
                let k = choose|k: int|
                    0 <= k < last && #[trigger] tells_reader(batch[k], id) == Some(true)
                        && moments[k].0.streams.contains_key(id);
                assert(tells_reader(batch[k], id) == Some(true));
            }
            if ends {
                assert(tells_reader(batch[last], id) == Some(true));
            }
        }
    }
}

/// The wake list shortens from its head, by one entry with each step.
proof fn lemma_wake_turns(moments: Moments, start: PassView, from: int, turns: int)
    requires
        0 <= from,
        0 <= turns,
        from + turns <= moments.len(),
        all_live(moments),
        pass_after(moments.take(from), start).batch.len() == 0,
        turns <= pass_after(moments.take(from), start).to_wake.len(),
    ensures
        ({
            let list = pass_after(moments.take(from), start).to_wake;
            let after = pass_after(moments.take(from + turns), start);
            after.batch.len() == 0 && after.to_wake == list.skip(turns)
        }),
    decreases turns,
{
    let list = pass_after(moments.take(from), start).to_wake;
    if turns == 0 {
        assert(list.skip(0) =~= list);
    } else {
        let last = from + turns - 1;
        lemma_wake_turns(moments, start, from, turns - 1);
        assert(moments.take(from + turns).drop_last() =~= moments.take(last));
        assert(moments.take(from + turns).last() == moments[last]);
        assert(list.skip(turns - 1).skip(1) =~= list.skip(turns));
    }
}

/// The step of an entry of the wake list.
proof fn lemma_wake_step(moments: Moments, batch: Seq<StreamEvent>, at: int, id: i64)
    requires
        all_live(moments),
        batch.len() <= at < moments.len(),
        moments.len() == batch.len() + pass_after(
            moments.take(batch.len() as int),
            PassView { batch, to_wake: Seq::empty() },
        ).to_wake.len(),
    ensures
        ({
            let start = PassView { batch, to_wake: Seq::empty() };
            let count = batch.len() as int;
            let list = pass_after(moments.take(count), start).to_wake;
            let session = moments[at].0;
            &&& wakes_at(moments, start, at, id) == wakes(list, id, at - count)
            &&& wakes(list, id, at - count) ==> list[at - count].1 == ended_by(
                moments,
                batch,
                count,
                id,
            ) && step_at(moments, start, at).action == if session.streams.contains_key(id)
                && !session.streams[id].destroyed && session.streams[id].wakeup is Some {
                EventAction::Wake {
                    wakeup: session.streams[id].wakeup->0,
                    fin: list[at - count].1,
                }
            } else {
                EventAction::Nothing
            }
        }),
{
    let start = PassView { batch, to_wake: Seq::empty() };
    let count = batch.len() as int;
    let turn = at - count;
    let full = pass_after(moments.take(count), start);
    let list = full.to_wake;
    lemma_batch_lists(moments, batch, count, id);
    lemma_wake_turns(moments, start, count, turn);
    assert(count + turn == at);
    let before = pass_after(moments.take(at), start);
    assert(before.to_wake == list.skip(turn));
    assert(before.to_wake[0] == list[turn]);
    assert(!moments[at].0.destroyed);
    if wakes(list, id, turn) && full.listed_ended(id) {
        let i = choose|i: int| wakes(list, id, i) && list[i].1;
        assert(list[i].0 == list[turn].0);
        assert(i == turn);
    }
}

/// A step of the batch wakes no one.
proof fn lemma_batch_step(moments: Moments, batch: Seq<StreamEvent>, at: int, id: i64)
    requires
        all_live(moments),
        0 <= at < batch.len() <= moments.len(),
    ensures
        ({
            let start = PassView { batch, to_wake: Seq::empty() };
            &&& step_at(moments, start, at).action !is Wake
            &&& !wakes_at(moments, start, at, id)
        }),
{
    lemma_batch_lists(moments, batch, at, id);
    assert(!moments[at].0.destroyed);
}

/// Readers are woken once, after the batch. Whatever the script does to the
/// session between the steps, as long as it does not destroy it: no step of the
/// batch wakes anyone. Behind the batch, a stream gets exactly one step of its
/// own where some event of the batch had data, a close or a reset for it, and
/// none where none had. That step calls the wakeup of a stream that is alive
/// and has one registered, and says that the data ends exactly where some piece
/// was the last, or the stream was closed or reset.
pub proof fn law_batch_wakes_each_reader_once(moments: Moments, batch: Seq<StreamEvent>, id: i64)
    requires
        all_live(moments),
        batch.len() <= moments.len(),
        moments.len() == batch.len() + pass_after(
            moments.take(batch.len() as int),
            PassView { batch, to_wake: Seq::empty() },
        ).to_wake.len(),
    ensures
        ({
            let start = PassView { batch, to_wake: Seq::empty() };
            let count = batch.len() as int;
            &&& pass_after(moments, start) == PassView::empty()
            &&& forall|k: int|
                0 <= k < count ==> (#[trigger] step_at(moments, start, k)).action !is Wake
            &&& told_by(moments, batch, count, id) <==> exists|at: int|
                count <= at < moments.len() && #[trigger] wakes_at(moments, start, at, id)
            &&& forall|at: int, other: int|
                #![trigger wakes_at(moments, start, at, id), wakes_at(moments, start, other, id)]
                0 <= at < moments.len() && 0 <= other < moments.len() && wakes_at(
                    moments,
                    start,
                    at,
                    id,
                ) && wakes_at(moments, start, other, id) ==> at == other
            &&& forall|at: int|
                count <= at < moments.len() && #[trigger] wakes_at(moments, start, at, id) ==> {
                    let session = moments[at].0;
                    step_at(moments, start, at).action == if session.streams.contains_key(id)
                        && !session.streams[id].destroyed && session.streams[id].wakeup is Some {
                        EventAction::Wake {
                            wakeup: session.streams[id].wakeup->0,
                            fin: ended_by(moments, batch, count, id),
                        }
                    } else {
                        EventAction::Nothing
                    }
                }
        }),
{
    let start = PassView { batch, to_wake: Seq::empty() };
    let count = batch.len() as int;
    let full = pass_after(moments.take(count), start);
    let list = full.to_wake;
    assert(pass_after(moments, start) == PassView::empty()) by {
        lemma_batch_lists(moments, batch, count, id);
        lemma_wake_turns(moments, start, count, list.len() as int);
        assert(moments.take(count + list.len()) =~= moments);
        assert(list.skip(list.len() as int) =~= Seq::empty());
        assert(pass_after(moments, start) =~= PassView::empty());
    }
    assert forall|k: int| 0 <= k < count implies (#[trigger] step_at(moments, start, k)).action
        !is Wake by {
        lemma_batch_step(moments, batch, k, id);
    }
    assert(full.well_formed() && full.listed(id) == told_by(moments, batch, count, id)) by {
        lemma_batch_lists(moments, batch, count, id);
    }
    if told_by(moments, batch, count, id) {
        let turn = choose|turn: int| wakes(list, id, turn);
        lemma_wake_step(moments, batch, count + turn, id);
        assert(wakes_at(moments, start, count + turn, id));
    }
    assert forall|at: int| count <= at < moments.len() && #[trigger] wakes_at(
        moments,
        start,
        at,
        id,
    ) implies told_by(moments, batch, count, id) by {
        lemma_wake_step(moments, batch, at, id);
        assert(wakes(list, id, at - count));
    }
    assert forall|at: int, other: int|
        #![trigger wakes_at(moments, start, at, id), wakes_at(moments, start, other, id)]
        0 <= at < moments.len() && 0 <= other < moments.len() && wakes_at(
            moments,
            start,
            at,
            id,
        ) && wakes_at(moments, start, other, id) implies at == other by {
        if at < count {
            lemma_batch_step(moments, batch, at, id);
        } else {
            lemma_wake_step(moments, batch, at, id);
        }
        if other < count {
            lemma_batch_step(moments, batch, other, id);
        } else {
            lemma_wake_step(moments, batch, other, id);
        }
        assert(list[at - count].0 == list[other - count].0);
    }
    assert forall|at: int|
        count <= at < moments.len() && #[trigger] wakes_at(moments, start, at, id) implies {
        let session = moments[at].0;
        step_at(moments, start, at).action == if session.streams.contains_key(id)
            && !session.streams[id].destroyed && session.streams[id].wakeup is Some {
            EventAction::Wake {
                wakeup: session.streams[id].wakeup->0,
                fin: ended_by(moments, batch, count, id),
            }
        } else {
            EventAction::Nothing
        }
    } by {
        lemma_wake_step(moments, batch, at, id);
    }
}

/// Nothing but the steps themselves changes the session.
pub open spec fn undisturbed(moments: Moments, pass: PassView) -> bool {
    forall|k: int|
        0 <= k < moments.len() - 1 ==> (#[trigger] step_at(moments, pass, k)).session == moments[k
            + 1].0
}

proof fn lemma_undisturbed_lives(moments: Moments, pass: PassView, at: int)
    requires
        undisturbed(moments, pass),
        0 <= at < moments.len(),
        !moments[0].0.destroyed,
    ensures
        !moments[at].0.destroyed,
    decreases at,
{
    if at > 0 {
        lemma_undisturbed_lives(moments, pass, at - 1);
        assert(step_at(moments, pass, at - 1).session == moments[at].0);
    }
}

/// A registered reader stays registered up to its own step.
proof fn lemma_undisturbed_reader(
    moments: Moments,
    batch: Seq<StreamEvent>,
    id: i64,
    wakeup: u64,
    at: int,
)
    requires
        undisturbed(moments, PassView { batch, to_wake: Seq::empty() }),
        all_live(moments),
        0 <= at < moments.len(),
        batch.len() <= moments.len(),
        moments.len() == batch.len() + pass_after(
            moments.take(batch.len() as int),
            PassView { batch, to_wake: Seq::empty() },
        ).to_wake.len(),
        moments[0].0.streams.contains_key(id),
        !moments[0].0.streams[id].destroyed,
        moments[0].0.streams[id].wakeup == Some(wakeup),
        forall|k: int|
            0 <= k < at ==> !#[trigger] wakes_at(
                moments,
                PassView { batch, to_wake: Seq::empty() },
                k,
                id,
            ),
    ensures
        moments[at].0.streams.contains_key(id),
        !moments[at].0.streams[id].destroyed,
        moments[at].0.streams[id].wakeup == Some(wakeup),
    decreases at,
{
    if at > 0 {
        let start = PassView { batch, to_wake: Seq::empty() };
        let count = batch.len() as int;
        let k = at - 1;
        lemma_undisturbed_reader(moments, batch, id, wakeup, k);
        let before = pass_after(moments.take(k), start);
        assert(step_at(moments, start, k).session == moments[at].0);
        assert(!moments[k].0.destroyed);
        if k < count {
            lemma_batch_lists(moments, batch, k, id);
            assert(before.batch.len() > 0);
        } else {
            lemma_batch_lists(moments, batch, count, id);
            lemma_wake_turns(moments, start, count, k - count);
            assert(count + (k - count) == k);
            assert(before.batch.len() == 0 && before.to_wake.len() > 0);
            assert(!wakes_at(moments, start, k, id));
            assert(before.to_wake[0].0 != id);
        }
    }
}

/// A reader that is registered when a batch begins, on a stream that is alive,
/// is woken by it where the batch has data, a close or a reset for its stream:
/// once, after the batch, and told of the end exactly where some piece was the
/// last, or the stream was closed or reset.
pub proof fn law_registered_reader_is_woken_once(
    moments: Moments,
    batch: Seq<StreamEvent>,
    id: i64,
    wakeup: u64,
)
    requires
        undisturbed(moments, PassView { batch, to_wake: Seq::empty() }),
        0 < batch.len() <= moments.len(),
        moments.len() == batch.len() + pass_after(
            moments.take(batch.len() as int),
            PassView { batch, to_wake: Seq::empty() },
        ).to_wake.len(),
        !moments[0].0.destroyed,
        moments[0].0.streams.contains_key(id),
        !moments[0].0.streams[id].destroyed,
        moments[0].0.streams[id].wakeup == Some(wakeup),
        exists|k: int| 0 <= k < batch.len() && #[trigger] tells_reader(batch[k], id) is Some,
    ensures
        ({
            let start = PassView { batch, to_wake: Seq::empty() };
            let fin = exists|k: int|
                0 <= k < batch.len() && #[trigger] tells_reader(batch[k], id) == Some(true);
            exists|at: int|
                {
                    &&& batch.len() <= at < moments.len()
                    &&& #[trigger] wakes_at(moments, start, at, id)
                    &&& step_at(moments, start, at).action == EventAction::Wake { wakeup, fin }
                    &&& forall|other: int|
                        0 <= other < moments.len() && #[trigger] wakes_at(
                            moments,
                            start,
                            other,
                            id,
                        ) ==> other == at
                }
        }),
{
    let start = PassView { batch, to_wake: Seq::empty() };
    let count = batch.len() as int;
    let fin = exists|k: int|
        0 <= k < batch.len() && #[trigger] tells_reader(batch[k], id) == Some(true);
    assert forall|k: int| 0 <= k < moments.len() implies !(#[trigger] moments[k]).0.destroyed by {
        lemma_undisturbed_lives(moments, start, k);
    }
    assert(all_live(moments));
    assert forall|k: int| 0 <= k < count implies (#[trigger] moments[k]).0.streams.contains_key(
        id,
    ) by {
        assert forall|j: int| 0 <= j < k implies !#[trigger] wakes_at(moments, start, j, id) by {
            lemma_batch_step(moments, batch, j, id);
        }
        lemma_undisturbed_reader(moments, batch, id, wakeup, k);
    }
    let first = choose|k: int|
        0 <= k < batch.len() && #[trigger] tells_reader(batch[k], id) is Some;
    assert(moments[first].0.streams.contains_key(id));
    assert(told_by(moments, batch, count, id));
    assert(ended_by(moments, batch, count, id) == fin) by {
        if fin {
            let k = choose|k: int|
                0 <= k < batch.len() && #[trigger] tells_reader(batch[k], id) == Some(true);
            assert(moments[k].0.streams.contains_key(id));
        }
    }
    law_batch_wakes_each_reader_once(moments, batch, id);
    let at = choose|at: int|
        count <= at < moments.len() && #[trigger] wakes_at(moments, start, at, id);
    assert forall|j: int| 0 <= j < at implies !#[trigger] wakes_at(moments, start, j, id) by {}
    lemma_undisturbed_reader(moments, batch, id, wakeup, at);
    assert(step_at(moments, start, at).action == EventAction::Wake { wakeup, fin });
}

/// What a step does to a stream that is there and alive. The bytes that its
/// reader has to read change only by an event for the stream: data is added at
/// the end, a reset takes everything away. No other step touches them, the wake
/// steps included, whether or not a wakeup is registered; and none touches what
/// the stream sends.
pub proof fn law_steps_keep_received_bytes(
    session: SessionView,
    pass: PassView,
    now: u64,
    id: i64,
)
    requires
        session.streams.contains_key(id),
        !session.streams[id].destroyed,
    ensures
        ({
            let before = session.streams[id];
            let after = stepped(session, pass, now).session.streams[id];
            let idle = pass.batch.len() == 0 || session.destroyed;
            &&& stepped(session, pass, now).session.streams.contains_key(id)
            &&& !after.destroyed && after.attached == before.attached && after.id == before.id
            &&& after.outbound == before.outbound
            &&& idle ==> after == (StreamView { wakeup: after.wakeup, ..before })
            &&& !idle ==> after.wakeup == before.wakeup && match pass.batch[0] {
                StreamEvent::Data { id: about, bytes, fin } if about == id => {
                    &&& after.inbound.readable() == before.inbound.readable() + bytes@
                    &&& after.inbound.ended == (before.inbound.ended || fin)
                    &&& after.inbound.errored == before.inbound.errored
                },
                StreamEvent::Closed { id: about, .. } if about == id => {
                    &&& after.inbound.readable() == before.inbound.readable()
                    &&& after.inbound.ended
                    &&& after.inbound.errored == before.inbound.errored
                },
                StreamEvent::Reset { id: about, code } if about == id => {
                    &&& after.inbound.readable().len() == 0
                    &&& after.inbound.ended && after.inbound.errored
                    &&& after.state.reset == 1 && after.state.reset_code == code
                },
                StreamEvent::Drain(about) if about == id => {
                    &&& after.inbound == before.inbound
                    &&& after.state.write_desired_size == if before.outbound.data.len()
                        >= before.state.high_water_mark {
                        0
                    } else {
                        before.state.high_water_mark - before.outbound.data.len()
                    }
                },
                _ => after == before,
            }
        }),
{
    let before = session.streams[id];
    if pass.batch.len() > 0 && !session.destroyed {
        match pass.batch[0] {
            StreamEvent::Data { bytes, fin, .. } => {
                law_received_data_is_readable_last(before.inbound, bytes@, fin);
            },
            StreamEvent::Closed { .. } => {
                law_received_data_is_readable_last(before.inbound, Seq::empty(), true);
                assert(before.inbound.readable() + Seq::<u8>::empty() =~= before.inbound.readable());
            },
            _ => {},
        }
    }
}

/// The data that events bring for a stream, in order.
pub open spec fn data_for(events: Seq<StreamEvent>, id: i64) -> Seq<u8>
    decreases events.len(),
{
    if events.len() == 0 {
        Seq::empty()
    } else {
        let rest = data_for(events.skip(1), id);
        match events[0] {
            StreamEvent::Data { id: about, bytes, .. } if about == id => bytes@ + rest,
            _ => rest,
        }
    }
}

/// No event resets the stream.
pub open spec fn no_reset(events: Seq<StreamEvent>, id: i64) -> bool {
    forall|i: int|
        0 <= i < events.len() ==> !(#[trigger] events[i] matches StreamEvent::Reset {
            id: about,
            ..
        } && about == id)
}

proof fn lemma_data_joins(first: Seq<StreamEvent>, second: Seq<StreamEvent>, id: i64)
    ensures
        data_for(first + second, id) == data_for(first, id) + data_for(second, id),
    decreases first.len(),
{
    if first.len() == 0 {
        assert(first + second =~= second);
        assert(data_for(first, id) + data_for(second, id) =~= data_for(second, id));
    } else {
        lemma_data_joins(first.skip(1), second, id);
        assert((first + second).skip(1) =~= first.skip(1) + second);
        assert((first + second)[0] == first[0]);
        assert(data_for(first + second, id) =~= data_for(first, id) + data_for(second, id));
    }
}

/// No byte is lost on the way to a reader, whatever else a pass dispatches and
/// whoever it wakes: what a stream's reader has to read, followed by what the
/// events that wait bring for it, is the same after a run as before, as long
/// as the peer does not reset the stream.
pub proof fn law_run_loses_no_received_byte(
    session: SessionView,
    pass: PassView,
    now: u64,
    id: i64,
)
    requires
        !session.destroyed,
        session.streams.contains_key(id),
        !session.streams[id].destroyed,
        no_reset(pass.batch, id),
        no_reset(session.stream_events, id),
    ensures
        ({
            let after = run(session, pass, now);
            &&& after.session.streams.contains_key(id)
            &&& !after.session.streams[id].destroyed
            &&& after.session.streams[id].inbound.readable() + data_for(
                after.pass.batch + after.session.stream_events,
                id,
            ) == session.streams[id].inbound.readable() + data_for(
                pass.batch + session.stream_events,
                id,
            )
            &&& after.action is Done ==> after.session.streams[id].inbound.readable()
                == session.streams[id].inbound.readable() + data_for(
                pass.batch + session.stream_events,
                id,
            )
        }),
    decreases session.stream_events.len(), 2 * pass.batch.len() + pass.to_wake.len(),
{
    let step = stepped(session, pass, now);
    let before = session.streams[id].inbound.readable();
    let between = step.session.streams[id].inbound.readable();
    let queue = session.stream_events;
    law_steps_keep_received_bytes(session, pass, now, id);
    lemma_data_joins(pass.batch, queue, id);
    lemma_data_joins(step.pass.batch, step.session.stream_events, id);
    if pass.batch.len() > 0 {
        assert(step.pass.batch =~= pass.batch.skip(1));
        assert(step.session.stream_events == queue);
        assert(no_reset(step.pass.batch, id)) by {
            assert forall|i: int| 0 <= i < step.pass.batch.len() implies !(
            #[trigger] step.pass.batch[i] matches StreamEvent::Reset { id: about, .. } && about
                == id) by {
                assert(step.pass.batch[i] == pass.batch[i + 1]);
            }
        }
        assert(!(pass.batch[0] matches StreamEvent::Reset { id: about, .. } && about == id));
        assert(between + data_for(pass.batch.skip(1), id) =~= before + data_for(pass.batch, id));
        assert(between + (data_for(pass.batch.skip(1), id) + data_for(queue, id)) =~= (between
            + data_for(pass.batch.skip(1), id)) + data_for(queue, id));
        assert(before + (data_for(pass.batch, id) + data_for(queue, id)) =~= (before + data_for(
            pass.batch,
            id,
        )) + data_for(queue, id));
    } else if pass.to_wake.len() > 0 {
        assert(step.pass.batch =~= pass.batch);
        assert(step.session.stream_events == queue);
        assert(between == before);
    } else if queue.len() > 0 {
        assert(step.pass.batch == queue);
        assert(step.pass.batch + step.session.stream_events =~= pass.batch + queue);
        assert(between == before);
    } else {
        assert(between == before);
    }
    if step.action is Nothing {
        law_run_loses_no_received_byte(step.session, step.pass, now, id);
    }
    let after = run(session, pass, now);
    if after.action is Done {
        law_pass_ends_with_an_empty_queue(session, pass, now);
        assert((after.pass.batch + after.session.stream_events).len() == 0);
        assert(after.session.streams[id].inbound.readable() + data_for(
            after.pass.batch + after.session.stream_events,
            id,
        ) =~= after.session.streams[id].inbound.readable());
    }
}

/// What each kind of event asks for, and what it leaves alone. An event about a
/// stream that is not there asks for nothing, unless it opens the stream; an
/// event that is not about a stream changes nothing and is told to those who
/// listen for it.
pub proof fn law_events_are_told_to_those_who_listen(
    session: SessionView,
    pass: PassView,
    event: StreamEvent,
    now: u64,
)
    ensures
        ({
            let step = dispatched(session, pass, event, now);
            let flags = session.state.listener_flags;
            &&& step.pass.batch == pass.batch
            &&& match event {
                StreamEvent::Opened(id) => {
                    &&& step.session == session && step.pass == pass
                    &&& step.action == if session.streams.contains_key(id) {
                        EventAction::Nothing
                    } else {
                        EventAction::OpenStream { id }
                    }
                },
                StreamEvent::Data { id, .. } => {
                    &&& step.action is Nothing
                    &&& !session.streams.contains_key(id) ==> step.session == session && step.pass
                        == pass
                },
                StreamEvent::Closed { id, code, errored } => if session.streams.contains_key(id) {
                    step.action == (EventAction::StreamClose {
                        id,
                        error: if errored {
                            Some(code)
                        } else {
                            None
                        },
                    })
                } else {
                    step.action is Nothing && step.session == session && step.pass == pass
                },
                StreamEvent::Reset { id, code } => if session.streams.contains_key(id) {
                    step.action == if session.streams[id].state.wants_reset != 0 {
                        EventAction::StreamReset { id, code }
                    } else {
                        EventAction::Nothing
                    }
                } else {
                    step.action is Nothing && step.session == session && step.pass == pass
                },
                StreamEvent::Drain(id) => {
                    &&& step.pass == pass
                    &&& step.action == if session.streams.contains_key(id)
                        && session.streams[id].state.write_desired_size == 0
                        && session.streams[id].outbound.data.len()
                        < session.streams[id].state.high_water_mark {
                        EventAction::StreamDrain { id }
                    } else {
                        EventAction::Nothing
                    }
                    &&& !session.streams.contains_key(id) ==> step.session == session
                },
                StreamEvent::Blocked(id) => {
                    &&& step.session == session && step.pass == pass
                    &&& step.action == if session.streams.contains_key(id)
                        && session.streams[id].state.wants_block != 0 {
                        EventAction::StreamBlocked { id }
                    } else {
                        EventAction::Nothing
                    }
                },
                StreamEvent::Datagram { bytes, early } => {
                    &&& step.session == session && step.pass == pass
                    &&& step.action == if flags & 0x2 != 0 {
                        EventAction::Datagram { bytes, early }
                    } else {
                        EventAction::Nothing
                    }
                },
                StreamEvent::DatagramStatus { id, lost } => {
                    &&& step.session == session && step.pass == pass
                    &&& step.action == if flags & 0x4 != 0 {
                        EventAction::DatagramStatus { id, lost }
                    } else {
                        EventAction::Nothing
                    }
                },
                StreamEvent::SessionTicket(ticket) => {
                    &&& step.session == session && step.pass == pass
                    &&& step.action == if flags & 0x8 != 0 {
                        EventAction::SessionTicket(ticket)
                    } else {
                        EventAction::Nothing
                    }
                },
                StreamEvent::NewToken(token) => {
                    &&& step.session == session && step.pass == pass
                    &&& step.action == if flags & 0x10 != 0 {
                        EventAction::NewToken { token, remote: session.remote_addr }
                    } else {
                        EventAction::Nothing
                    }
                },
            }
        }),
{
}

/// A step changes the session's streams and, where it takes the queue as the
/// next batch, the queue; nothing else of the session. It takes the whole queue,
/// and only when neither an event nor a reader is left; then, with an empty
/// queue, the pass is over.
pub proof fn law_steps_take_the_queue_whole(session: SessionView, pass: PassView, now: u64)
    ensures
        ({
            let step = stepped(session, pass, now);
            let left = pass.batch.len() > 0 || pass.to_wake.len() > 0;
            &&& step.session == (SessionView {
                streams: step.session.streams,
                stream_events: step.session.stream_events,
                ..session
            })
            &&& left ==> step.session.stream_events == session.stream_events
            &&& !left ==> {
                &&& step.session.streams == session.streams
                &&& step.pass.batch == session.stream_events
                &&& step.pass.to_wake.len() == 0
                &&& step.session.stream_events.len() == 0
                &&& step.action == if session.stream_events.len() == 0 {
                    EventAction::Done
                } else {
                    EventAction::Nothing
                }
            }
            &&& left && !session.destroyed ==> step.action !is Done
            &&& left && session.destroyed ==> step.action is Done && step.session == session
            &&& step.session.streams.dom() == session.streams.dom()
        }),
{
    let step = stepped(session, pass, now);
    assert(step.session.streams.dom() =~= session.streams.dom());
    if pass.batch.len() == 0 && pass.to_wake.len() == 0 && session.stream_events.len() == 0 {
        assert(step.pass.batch =~= session.stream_events);
    }
}

/// A run goes on from step to step until one asks for something, and ends
/// there.
pub proof fn law_run_goes_on_until_something_is_asked(
    session: SessionView,
    pass: PassView,
    now: u64,
)
    ensures
        ({
            let step = stepped(session, pass, now);
            &&& step.action is Nothing ==> run(session, pass, now) == run(
                step.session,
                step.pass,
                now,
            )
            &&& step.action !is Nothing ==> run(session, pass, now) == step
        }),
        run(session, pass, now).action !is Nothing,
    decreases session.stream_events.len(), 2 * pass.batch.len() + pass.to_wake.len(),
{
    let step = stepped(session, pass, now);
    if step.action is Nothing {
        law_run_goes_on_until_something_is_asked(step.session, step.pass, now);
    }
}

/// A wake step takes the wakeup of its stream, and changes nothing else: not of
/// that stream, not of another, not of the session, not of the list behind it.
pub proof fn law_wake_takes_the_wakeup_alone(
    session: SessionView,
    pass: PassView,
    id: i64,
    fin: bool,
    other: i64,
)
    ensures
        ({
            let step = woken(session, pass, id, fin);
            let alive = session.streams.contains_key(id) && !session.streams[id].destroyed;
            &&& step.pass == pass
            &&& step.session == (SessionView { streams: step.session.streams, ..session })
            &&& !alive ==> step.session == session && step.action is Nothing
            &&& alive ==> {
                &&& step.session.streams[id] == (StreamView {
                    wakeup: None,
                    ..session.streams[id]
                })
                &&& session.streams[id].wakeup is None ==> step.action is Nothing
                &&& session.streams[id].wakeup matches Some(wakeup) ==> step.action == (
                EventAction::Wake { wakeup, fin })
            }
            &&& other != id ==> step.session.streams.contains_key(other)
                == session.streams.contains_key(other) && (session.streams.contains_key(other)
                ==> step.session.streams[other] == session.streams[other])
        }),
{
}

/// Readers are woken in the order in which their streams were first listed:
/// listing a stream keeps the places and the marks of the others, and a stream
/// that was not listed comes last.
pub proof fn law_wake_list_keeps_its_order(pass: PassView, id: i64, fin: bool, at: int)
    requires
        0 <= at < pass.to_wake.len(),
    ensures
        ({
            let after = pass.with_wake(id, fin);
            let known = exists|i: int| 0 <= i < pass.to_wake.len() && (#[trigger] pass.to_wake[i]).0 == id;
            &&& after.batch == pass.batch
            &&& after.to_wake[at].0 == pass.to_wake[at].0
            &&& pass.to_wake[at].0 != id ==> after.to_wake[at].1 == pass.to_wake[at].1
            &&& pass.to_wake[at].1 ==> after.to_wake[at].1
            &&& known ==> after.to_wake.len() == pass.to_wake.len()
            &&& !known ==> after.to_wake == pass.to_wake.push((id, fin))
        }),
{
    let known = exists|i: int| 0 <= i < pass.to_wake.len() && (#[trigger] pass.to_wake[i]).0 == id;
    if known {
        let i = choose|i: int| 0 <= i < pass.to_wake.len() && (#[trigger] pass.to_wake[i]).0 == id;
        assert(wakes(pass.to_wake, id, i));
    }
    if pass.listed(id) {
        let i = choose|i: int| wakes(pass.to_wake, id, i);
        assert(pass.to_wake[i].0 == id);
    }
}

/// A pass stands for what its fields hold, and a new one is empty.
pub proof fn law_pass_is_seen_as_it_is(pass: EventPass)
    ensures
        pass@.batch == pass.batch@,
        pass@.to_wake == pass.to_wake@,
        PassView::empty().batch.len() == 0 && PassView::empty().to_wake.len() == 0,
{
}

} // verus!
