//! The per-connection state machine.
//!
//! One handler exists per open connection and is driven by the host
//! engine's polling loop.  In consumer role it reads every inbound
//! channel and surfaces decoded messages; in producer role it lazily
//! opens one outbound channel and drains a FIFO of pending messages
//! into it.  The handler itself never blocks: every decision entry
//! point takes the observed channel readiness as an argument and
//! returns what the host engine must do next.

use std::collections::VecDeque;
use vstd::prelude::*;

use crate::behaviour::PushEvent;
use crate::error::PushError;
use crate::protocol::{decode_frame, spec_decode_frame, FrameDecode, FrameOutcome};

verus! {

/// Lifecycle of the producer's single outbound channel.  Transitions
/// run strictly `Empty` → `PendingCreate` → `Init` → `PendingFlush` →
/// `Init` → …; losing the channel is a connection failure, never a
/// transition back to `Empty`.
#[derive(Debug, Clone, Copy, PartialEq, Eq, Structural)]
pub enum OutboundSinkState {
    /// No outbound channel exists or was requested yet.
    Empty,
    /// A channel was requested; negotiation has not finished.
    PendingCreate,
    /// The channel is ready for the next message.
    Init,
    /// A message was written and awaits an explicit flush.
    PendingFlush,
}

/// The mathematical state of one connection handler.
#[verifier::ext_equal]
pub struct HandlerView {
    pub is_server: bool,
    /// Messages waiting in the FIFO, oldest first.
    pub queued: Seq<Seq<u8>>,
    /// The at most one in-flight message, already popped from the FIFO.
    pub sending: Option<Seq<u8>>,
    /// How many negotiated inbound channels the connection holds.
    pub n_inbound: usize,
    /// Whether the negotiated outbound channel exists.
    pub has_outbound: bool,
    pub state: OutboundSinkState,
}

impl HandlerView {
    /// Everything still owed to the wire, oldest first.
    pub open spec fn outbox(self) -> Seq<Seq<u8>> {
        match self.sending {
            Some(m) => seq![m] + self.queued,
            None => self.queued,
        }
    }

    /// The states `Init` and `PendingFlush` presuppose a negotiated
    /// outbound channel.
    pub open spec fn wf(self) -> bool {
        (self.state is Init || self.state is PendingFlush) ==> self.has_outbound
    }
}

/// A freshly created handler: nothing queued, no channels.
pub open spec fn spec_new_handler(is_server: bool) -> HandlerView {
    HandlerView {
        is_server,
        queued: Seq::empty(),
        sending: None,
        n_inbound: 0,
        has_outbound: false,
        state: OutboundSinkState::Empty,
    }
}

/// Effect of an injected message: it joins the tail of the FIFO.
pub open spec fn spec_handler_inject(v: HandlerView, m: Seq<u8>) -> HandlerView {
    HandlerView { queued: v.queued.push(m), ..v }
}

/// Effect of a negotiated inbound channel: the set grows by one.
pub open spec fn spec_negotiated_inbound(v: HandlerView) -> HandlerView {
    HandlerView { n_inbound: (v.n_inbound + 1) as usize, ..v }
}

/// Effect of a negotiated outbound channel: accepted only while one is
/// awaited; an unsolicited channel is dropped.
pub open spec fn spec_negotiated_outbound(v: HandlerView) -> HandlerView {
    if v.state is PendingCreate {
        HandlerView { has_outbound: true, ..v }
    } else {
        v
    }
}

/// What the producer side asks of the host engine after one decision
/// step.
#[derive(Debug, Clone, Copy, PartialEq, Eq, Structural)]
pub enum OutboundStep {
    /// Request negotiation of the outbound channel.
    RequestSubstream,
    /// Poll the channel for write readiness, then report back.
    AwaitSinkReady,
    /// Poll the pending flush, then report back.
    AwaitFlush,
    /// Nothing to do until new input arrives.
    Idle,
}

/// One decision step of the producer side: request the channel exactly
/// once, settle into `Init` once the channel exists, pop the oldest
/// queued message when none is in flight, and say what to wait for.
pub open spec fn spec_outbound_step(v: HandlerView) -> (HandlerView, OutboundStep) {
    if !v.has_outbound {
        if v.state is Empty {
            (
                HandlerView { state: OutboundSinkState::PendingCreate, ..v },
                OutboundStep::RequestSubstream,
            )
        } else {
            (v, OutboundStep::Idle)
        }
    } else {
        let v1 = if v.state is Empty || v.state is PendingCreate {
            HandlerView { state: OutboundSinkState::Init, ..v }
        } else {
            v
        };
        if v1.state is PendingFlush {
            (v1, OutboundStep::AwaitFlush)
        } else {
            let v2 = if v1.sending is None && v1.queued.len() > 0 {
                HandlerView { sending: Some(v1.queued[0]), queued: v1.queued.drop_first(), ..v1 }
            } else {
                v1
            };
            if v2.sending is Some {
                (v2, OutboundStep::AwaitSinkReady)
            } else {
                (v2, OutboundStep::Idle)
            }
        }
    }
}

/// Effect of a write-ready channel: the in-flight message leaves for
/// the wire and the machine turns to flushing.
pub open spec fn spec_take_ready(v: HandlerView) -> (HandlerView, Seq<u8>) {
    (
        HandlerView { sending: None, state: OutboundSinkState::PendingFlush, ..v },
        v.sending.unwrap(),
    )
}

/// Effect of a completed flush: back to `Init` for the next message.
pub open spec fn spec_flush_ok(v: HandlerView) -> HandlerView {
    HandlerView { state: OutboundSinkState::Init, ..v }
}

/// What one consumer-side poll of an inbound channel decides, given the
/// channel's buffered bytes and whether it reached end-of-stream.
pub enum InboundDecision {
    /// A whole frame: surface its payload, consume `used` bytes.
    Surface { msg: Seq<u8>, used: usize },
    /// No complete frame yet: wait for more bytes.
    Wait,
    /// Close the whole connection with this error.
    Close { error: PushError },
}

/// The consumer decision relation.  A decodable frame is surfaced even
/// at end-of-stream; a clean end-of-stream with no unread bytes closes
/// the connection with `SubStreamEof`; an end-of-stream inside a frame
/// is a read failure.
pub open spec fn spec_poll_inbound(s: Seq<u8>, eof: bool) -> InboundDecision {
    match spec_decode_frame(s) {
        FrameDecode::Payload { msg, used } => InboundDecision::Surface { msg, used },
        FrameDecode::Failed { error } => InboundDecision::Close { error },
        FrameDecode::NeedMore => {
            if eof {
                if s.len() == 0 {
                    InboundDecision::Close { error: PushError::SubStreamEof }
                } else {
                    InboundDecision::Close { error: PushError::IoError }
                }
            } else {
                InboundDecision::Wait
            }
        },
    }
}

/// What the consumer side reports for one inbound channel, as
/// executable data.
#[derive(Debug, PartialEq, Eq, Clone)]
pub enum InboundPollResult {
    /// Surface this message and continue reading at `next`.
    Event { msg: Vec<u8>, next: usize },
    /// The channel holds no complete frame yet.
    NeedMore,
    /// Close the whole connection with this error.
    Closed { error: PushError },
}

/// The per-connection handler.  Created by the host engine for each
/// open connection and destroyed with it; nothing survives teardown.
pub struct OneDirectionPushHandler {
    pub is_server: bool,
    pub pending_events: VecDeque<PushEvent>,
    send_event: Option<PushEvent>,
    n_in_substreams: usize,
    has_out_substream: bool,
    out_substream_state: OutboundSinkState,
}

impl View for OneDirectionPushHandler {
    type V = HandlerView;

    closed spec fn view(&self) -> HandlerView {
        HandlerView {
            is_server: self.is_server,
            queued: self.pending_events@.map_values(|e: PushEvent| e@),
            sending: match self.send_event {
                Some(e) => Some(e@),
                None => None,
            },
            n_inbound: self.n_in_substreams,
            has_outbound: self.has_out_substream,
            state: self.out_substream_state,
        }
    }
}

impl OneDirectionPushHandler {
    /// Creates the handler for one new connection.
    pub fn new(is_server: bool) -> (r: Self)
        ensures
            r@ == spec_new_handler(is_server),
    {
        let r = OneDirectionPushHandler {
            is_server,
            pending_events: VecDeque::new(),
            send_event: None,
            n_in_substreams: 0,
            has_out_substream: false,
            out_substream_state: OutboundSinkState::Empty,
        };
        proof {
            assert(r@ =~= spec_new_handler(is_server));
        }
        r
    }

    /// The protocol offered for every inbound channel of this
    /// connection.
    pub fn listen_protocol(&self) -> (r: crate::protocol::PushProtocol)
        ensures
            r == (crate::protocol::PushProtocol),
    {
        crate::protocol::PushProtocol
    }

    /// Accepts a message from the coordinator; it joins the FIFO tail.
    /// Draining is strict FIFO: no reordering, no coalescing.
    pub fn inject_event(&mut self, event: PushEvent)
        ensures
            final(self)@ == spec_handler_inject(old(self)@, event@),
    {
        let ghost prev = self@;
        let ghost m = event@;
        self.pending_events.push_back(event);
        proof {
            assert(self@.queued =~= spec_handler_inject(prev, m).queued);
            assert(self@ =~= spec_handler_inject(prev, m));
        }
    }

    /// Adopts a newly negotiated inbound channel.
    pub fn inject_fully_negotiated_inbound(&mut self)
        requires
            old(self)@.n_inbound < usize::MAX,
        ensures
            final(self)@ == spec_negotiated_inbound(old(self)@),
    {
        self.n_in_substreams = self.n_in_substreams + 1;
        proof {
            assert(self@ =~= spec_negotiated_inbound(old(self)@));
        }
    }

    /// Adopts the newly negotiated outbound channel, if one is awaited;
    /// an unsolicited channel is dropped.  The host engine answers each
    /// request at most once, so no channel is ever delivered while one
    /// is already held.
    pub fn inject_fully_negotiated_outbound(&mut self)
        requires
            !(old(self)@.state is PendingCreate && old(self)@.has_outbound),
        ensures
            final(self)@ == spec_negotiated_outbound(old(self)@),
    {
        if let OutboundSinkState::PendingCreate = self.out_substream_state {
            self.has_out_substream = true;
            proof {
                assert(self@ =~= spec_negotiated_outbound(old(self)@));
            }
        }
    }

    /// Takes note of a failed outbound negotiation.  Deliberately a
    /// no-op beyond the report itself: retry policy belongs to the host
    /// engine, so the state stays `PendingCreate` until the engine
    /// supplies another attempt or tears the connection down.
    pub fn inject_dial_upgrade_error(&mut self)
        ensures
            final(self)@ == old(self)@,
    {
    }

    /// The connection is kept alive as long as it exists.
    pub fn connection_keep_alive(&self) -> (r: bool)
        ensures
            r,
    {
        true
    }

    /// One producer decision step; the returned instruction tells the
    /// host engine what to wait for next.
    pub fn outbound_step(&mut self) -> (s: OutboundStep)
        requires
            !old(self)@.is_server,
        ensures
            final(self)@ == spec_outbound_step(old(self)@).0,
            s == spec_outbound_step(old(self)@).1,
    {
        let ghost prev = self@;
        if !self.has_out_substream {
            if let OutboundSinkState::Empty = self.out_substream_state {
                self.out_substream_state = OutboundSinkState::PendingCreate;
                proof {
                    assert(self@ =~= spec_outbound_step(prev).0);
                }
                return OutboundStep::RequestSubstream;
            }
            return OutboundStep::Idle;
        }
        match self.out_substream_state {
            OutboundSinkState::Empty | OutboundSinkState::PendingCreate => {
                self.out_substream_state = OutboundSinkState::Init;
            },
            _ => {},
        }
        if let OutboundSinkState::PendingFlush = self.out_substream_state {
            proof {
                assert(self@ =~= spec_outbound_step(prev).0);
            }
            return OutboundStep::AwaitFlush;
        }
        if self.send_event.is_none() {
            self.send_event = self.pending_events.pop_front();
        }
        proof {
            assert(self@.queued =~= spec_outbound_step(prev).0.queued);
            assert(self@ =~= spec_outbound_step(prev).0);
        }
        if self.send_event.is_some() {
            OutboundStep::AwaitSinkReady
        } else {
            OutboundStep::Idle
        }
    }

    /// Hands over the in-flight message once the host engine reports
    /// the outbound channel ready; the machine turns to flushing, so
    /// the write becomes visible to the peer only after the flush.
    pub fn on_sink_ready(&mut self) -> (ev: PushEvent)
        requires
            old(self)@.state is Init,
            old(self)@.sending is Some,
        ensures
            final(self)@ == spec_take_ready(old(self)@).0,
            ev@ == spec_take_ready(old(self)@).1,
    {
        let ghost prev = self@;
        let ev = self.send_event.take().unwrap();
        self.out_substream_state = OutboundSinkState::PendingFlush;
        proof {
            assert(self@ =~= spec_take_ready(prev).0);
        }
        ev
    }

    /// Takes note of a completed flush.  The host engine yields one
    /// scheduling turn before polling again rather than busy-looping.
    pub fn on_flush_ok(&mut self)
        requires
            old(self)@.state is PendingFlush,
        ensures
            final(self)@ == spec_flush_ok(old(self)@),
    {
        self.out_substream_state = OutboundSinkState::Init;
        proof {
            assert(self@ =~= spec_flush_ok(old(self)@));
        }
    }

    /// One consumer decision for one inbound channel: `buf[start..]`
    /// holds the bytes read from it so far and `eof` says whether it
    /// ended.  The first channel that yields a message short-circuits
    /// the host engine's scan; any error closes the whole connection.
    pub fn poll_inbound(&self, buf: &Vec<u8>, start: usize, eof: bool) -> (r: InboundPollResult)
        requires
            self@.is_server,
            start <= buf@.len(),
        ensures
            ({
                match spec_poll_inbound(buf@.skip(start as int), eof) {
                    InboundDecision::Surface { msg, used } => r matches InboundPollResult::Event {
                        msg: m,
                        next,
                    } && m@ == msg && next == start + used,
                    InboundDecision::Wait => r == InboundPollResult::NeedMore,
                    InboundDecision::Close { error } => r == (InboundPollResult::Closed { error }),
                }
            }),
    {
        match decode_frame(buf, start) {
            FrameOutcome::Frame { msg, next } => InboundPollResult::Event { msg, next },
            FrameOutcome::Failed { error } => InboundPollResult::Closed { error },
            FrameOutcome::NeedMore => {
                if eof {
                    if start == buf.len() {
                        InboundPollResult::Closed { error: PushError::SubStreamEof }
                    } else {
                        InboundPollResult::Closed { error: PushError::IoError }
                    }
                } else {
                    InboundPollResult::NeedMore
                }
            },
        }
    }
}

/// A fresh handler owes nothing to the wire: the send queue is bound to
/// one connection and never survives into the next one.
pub proof fn lemma_fresh_handler_owes_nothing(is_server: bool)
    ensures
        spec_new_handler(is_server).outbox().len() == 0,
{
}

/// Injecting appends to the tail of what is owed to the wire.
pub proof fn lemma_inject_appends(v: HandlerView, m: Seq<u8>)
    ensures
        spec_handler_inject(v, m).outbox() == v.outbox().push(m),
{
    assert(spec_handler_inject(v, m).outbox() =~= v.outbox().push(m));
}

/// A decision step moves messages between queue and in-flight slot but
/// never loses, duplicates or reorders them.
pub proof fn lemma_step_preserves_outbox(v: HandlerView)
    ensures
        spec_outbound_step(v).0.outbox() == v.outbox(),
{
    assert(spec_outbound_step(v).0.outbox() =~= v.outbox());
}

/// What leaves for the wire is always the oldest owed message.
pub proof fn lemma_send_takes_oldest(v: HandlerView)
    requires
        v.sending is Some,
    ensures
        spec_take_ready(v).1 == v.outbox()[0],
        spec_take_ready(v).0.outbox() == v.outbox().drop_first(),
{
    assert(spec_take_ready(v).0.outbox() =~= v.outbox().drop_first());
}

/// A completed flush changes no queue content.
pub proof fn lemma_flush_preserves_outbox(v: HandlerView)
    ensures
        spec_flush_ok(v).outbox() == v.outbox(),
{
}

/// Three messages injected into a handler that owes nothing are owed in
/// exactly their injection order; with `lemma_step_preserves_outbox`
/// and `lemma_send_takes_oldest`, they reach the wire as first, second,
/// third.
pub proof fn lemma_fifo_order(v: HandlerView, m1: Seq<u8>, m2: Seq<u8>, m3: Seq<u8>)
    requires
        v.outbox().len() == 0,
    ensures
        spec_handler_inject(spec_handler_inject(spec_handler_inject(v, m1), m2), m3).outbox()
            == seq![m1, m2, m3],
{
    lemma_inject_appends(v, m1);
    lemma_inject_appends(spec_handler_inject(v, m1), m2);
    lemma_inject_appends(spec_handler_inject(spec_handler_inject(v, m1), m2), m3);
    assert(spec_handler_inject(spec_handler_inject(spec_handler_inject(v, m1), m2), m3).outbox()
        =~= seq![m1, m2, m3]);
}

/// Every transition preserves well-formedness: the machine is never in
/// a sending state without its negotiated outbound channel, and the
/// channel, once present, is never replaced.
pub proof fn lemma_transitions_preserve_wf(v: HandlerView, m: Seq<u8>)
    requires
        v.wf(),
    ensures
        spec_new_handler(v.is_server).wf(),
        spec_handler_inject(v, m).wf(),
        spec_negotiated_inbound(v).wf(),
        spec_negotiated_outbound(v).wf(),
        spec_outbound_step(v).0.wf(),
        v.state is Init ==> spec_take_ready(v).0.wf(),
        v.state is PendingFlush ==> spec_flush_ok(v).wf(),
{
}

/// One full producer send cycle, as the host engine drives it: a step
/// that reports `AwaitSinkReady`, the hand-over of the in-flight
/// message once the channel is ready, the step that reports
/// `AwaitFlush`, and the completed flush.  Yields the machine after the
/// cycle and the message that left for the wire.
pub open spec fn spec_send_cycle(v: HandlerView) -> (HandlerView, Seq<u8>) {
    let v1 = spec_outbound_step(v).0;
    let (v2, m) = spec_take_ready(v1);
    let v3 = spec_outbound_step(v2).0;
    (spec_flush_ok(v3), m)
}

/// Three queued messages leave for the wire in exactly queue order:
/// each cycle asks for write readiness, emits the oldest message, and
/// flushes, until nothing is owed.
pub proof fn lemma_drain_in_order(v: HandlerView, m1: Seq<u8>, m2: Seq<u8>, m3: Seq<u8>)
    requires
        v.has_outbound,
        v.state is Init,
        v.sending is None,
        v.queued == seq![m1, m2, m3],
    ensures
        ({
            let (va, e1) = spec_send_cycle(v);
            let (vb, e2) = spec_send_cycle(va);
            let (vc, e3) = spec_send_cycle(vb);
            e1 == m1 && e2 == m2 && e3 == m3 && vc.outbox().len() == 0
                && spec_outbound_step(vc).1 is Idle
        }),
{
    let (va, e1) = spec_send_cycle(v);
    assert(va.queued =~= seq![m2, m3]);
    let (vb, e2) = spec_send_cycle(va);
    assert(vb.queued =~= seq![m3]);
    let (vc, e3) = spec_send_cycle(vb);
    assert(vc.queued =~= Seq::<Seq<u8>>::empty());
}

/// A surfaced frame is consumed: the decision for a channel holding one
/// whole frame is to surface it exactly once, and reading on past the
/// frame leaves only what followed it, so the same frame is never
/// surfaced again.
pub proof fn lemma_surfaced_frame_consumed(msg: Seq<u8>, rest: Seq<u8>)
    requires
        msg.len() <= crate::protocol::MAX_MSG_LEN,
    ensures
        ({
            let s = crate::protocol::frame_encoding(msg) + rest;
            let used = crate::protocol::frame_encoding(msg).len() as usize;
            spec_poll_inbound(s, false) == (InboundDecision::Surface { msg, used })
                && s.skip(used as int) == rest
        }),
{
    crate::protocol::lemma_varint_encoding_len(msg.len());
    assert(crate::protocol::frame_encoding(msg).len() <= crate::protocol::MAX_MSG_LEN + 5);
    crate::protocol::lemma_frame_round_trip(msg, rest);
}

/// A frame that declares more than the permitted payload closes the
/// connection: the consumer decision for such input is never to
/// surface a message, whatever else the stream holds.
pub proof fn lemma_oversized_frame_closes_connection(msg: Seq<u8>, rest: Seq<u8>, eof: bool)
    requires
        msg.len() > crate::protocol::MAX_MSG_LEN,
    ensures
        ({
            let d = spec_poll_inbound(crate::protocol::frame_encoding(msg) + rest, eof);
            d matches InboundDecision::Close { error } && error matches PushError::PushEventTooLarge(
                limit,
                request,
            ) && limit == crate::protocol::MAX_MSG_LEN && request > crate::protocol::MAX_MSG_LEN
        }),
{
    crate::protocol::lemma_oversized_frame_rejected(msg, rest);
}

} // verus!
