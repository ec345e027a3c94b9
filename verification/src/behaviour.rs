//! The per-peer coordination policy.
//!
//! A coordinator is created once per role.  A producer-role coordinator
//! tracks at most one live peer, turns `push` calls into deliver
//! instructions for that peer's connection, and turns a connection loss
//! into a single redial request.  Inbound application events jump ahead
//! of queued connection-management instructions: the two queues drain
//! urgent-first, each in strict FIFO order.

use std::collections::VecDeque;
use vstd::prelude::*;

verus! {

/// An application-level event of the protocol: one opaque message.
#[derive(Debug, Clone)]
pub enum PushEvent {
    Message(Vec<u8>),
}

impl View for PushEvent {
    type V = Seq<u8>;

    open spec fn view(&self) -> Seq<u8> {
        match self {
            PushEvent::Message(m) => m@,
        }
    }
}

impl PushEvent {
    /// The payload bytes carried by this event.
    pub fn into_message(self) -> (r: Vec<u8>)
        ensures
            r@ == self@,
    {
        match self {
            PushEvent::Message(m) => m,
        }
    }
}

/// Identity of a remote peer: an opaque, equality-comparable handle
/// assigned by the host network engine.
#[derive(Debug, Clone, Copy, PartialEq, Eq, Structural, Hash)]
pub struct PeerId {
    pub id: u64,
}

/// Identity of one open connection to a peer, assigned by the host
/// network engine.
#[derive(Debug, Clone, Copy, PartialEq, Eq, Structural, Hash)]
pub struct ConnectionId {
    pub id: u64,
}

/// An instruction the coordinator hands to the host network engine.
#[derive(Debug, Clone)]
pub enum BehaviourAction {
    /// Deliver `event` to the connection handler of `peer_id`.
    NotifyHandler { peer_id: PeerId, event: PushEvent },
    /// Dial `peer_id` again, unless a dial to it is already in flight.
    DialPeer { peer_id: PeerId },
    /// Surface `event` to the application.
    GenerateEvent(PushEvent),
}

/// The mathematical shape of one queued instruction.
pub enum ActionView {
    Deliver { peer: PeerId, msg: Seq<u8> },
    Redial { peer: PeerId },
    Surface { msg: Seq<u8> },
}

impl View for BehaviourAction {
    type V = ActionView;

    open spec fn view(&self) -> ActionView {
        match self {
            BehaviourAction::NotifyHandler { peer_id, event } => ActionView::Deliver {
                peer: *peer_id,
                msg: event@,
            },
            BehaviourAction::DialPeer { peer_id } => ActionView::Redial { peer: *peer_id },
            BehaviourAction::GenerateEvent(event) => ActionView::Surface { msg: event@ },
        }
    }
}

/// The mathematical state of a coordinator: its role, its current peer
/// (producer role only), and the two instruction queues.
#[verifier::ext_equal]
pub struct CoordView {
    pub is_server: bool,
    pub peer: Option<PeerId>,
    pub urgent: Seq<ActionView>,
    pub queued: Seq<ActionView>,
}

impl CoordView {
    /// Everything still queued, in the order the host engine will see it.
    pub open spec fn instructions(self) -> Seq<ActionView> {
        self.urgent + self.queued
    }
}

/// A freshly created coordinator: no peer, nothing queued.
pub open spec fn spec_new_coord(is_server: bool) -> CoordView {
    CoordView { is_server, peer: None, urgent: Seq::empty(), queued: Seq::empty() }
}

/// Effect of `push`: with a live peer, one deliver instruction joins the
/// normal queue; in every other case the message is silently dropped.
pub open spec fn spec_push(v: CoordView, m: Seq<u8>) -> CoordView {
    if !v.is_server && v.peer is Some {
        CoordView {
            queued: v.queued.push(ActionView::Deliver { peer: v.peer.unwrap(), msg: m }),
            ..v
        }
    } else {
        v
    }
}

/// Effect of a newly established connection: the producer records the
/// peer as its current target.
pub open spec fn spec_inject_connected(v: CoordView, p: PeerId) -> CoordView {
    if !v.is_server {
        CoordView { peer: Some(p), ..v }
    } else {
        v
    }
}

/// Effect of a lost connection: the producer clears its target and
/// queues exactly one redial request for the lost peer.
pub open spec fn spec_inject_disconnected(v: CoordView, p: PeerId) -> CoordView {
    if !v.is_server {
        CoordView { peer: None, queued: v.queued.push(ActionView::Redial { peer: p }), ..v }
    } else {
        v
    }
}

/// Effect of an inbound event from a connection: it joins the urgent
/// queue, ahead of every connection-management instruction.
pub open spec fn spec_inject_event(v: CoordView, m: Seq<u8>) -> CoordView {
    CoordView { urgent: v.urgent.push(ActionView::Surface { msg: m }), ..v }
}

/// Effect of one poll: the oldest urgent instruction leaves first; only
/// when no urgent instruction waits does the normal queue drain.
pub open spec fn spec_poll(v: CoordView) -> (CoordView, Option<ActionView>) {
    if v.urgent.len() > 0 {
        (CoordView { urgent: v.urgent.drop_first(), ..v }, Some(v.urgent[0]))
    } else if v.queued.len() > 0 {
        (CoordView { queued: v.queued.drop_first(), ..v }, Some(v.queued[0]))
    } else {
        (v, None)
    }
}

/// Whether an instruction is a redial request for `p`.
pub open spec fn is_redial_for(a: ActionView, p: PeerId) -> bool {
    a matches ActionView::Redial { peer } && peer == p
}

/// How many redial requests for `p` a queue holds.
pub open spec fn count_redials(s: Seq<ActionView>, p: PeerId) -> nat
    decreases s.len(),
{
    if s.len() == 0 {
        0
    } else {
        count_redials(s.drop_last(), p) + if is_redial_for(s.last(), p) {
            1nat
        } else {
            0nat
        }
    }
}

/// Redial requests pending for `p` across both queues.
pub open spec fn pending_redials(v: CoordView, p: PeerId) -> nat {
    count_redials(v.urgent, p) + count_redials(v.queued, p)
}

proof fn lemma_count_redials_push(s: Seq<ActionView>, a: ActionView, p: PeerId)
    ensures
        count_redials(s.push(a), p) == count_redials(s, p) + if is_redial_for(a, p) {
            1nat
        } else {
            0nat
        },
{
    assert(s.push(a).drop_last() =~= s);
}

/// A producer-role coordinator with no live peer drops a pushed message
/// entirely: no error, nothing queued, no state change at all.
pub proof fn lemma_push_without_peer_is_noop(v: CoordView, m: Seq<u8>)
    requires
        v.peer is None,
    ensures
        spec_push(v, m) == v,
{
}

/// While a connection to `p` is live, consecutive pushes queue their
/// deliver instructions for `p` in exactly the order they were made.
pub proof fn lemma_pushes_keep_order(v: CoordView, p: PeerId, m1: Seq<u8>, m2: Seq<u8>, m3: Seq<u8>)
    requires
        !v.is_server,
        v.peer == Some(p),
    ensures
        ({
            let v3 = spec_push(spec_push(spec_push(v, m1), m2), m3);
            v3.queued == v.queued + seq![
                ActionView::Deliver { peer: p, msg: m1 },
                ActionView::Deliver { peer: p, msg: m2 },
                ActionView::Deliver { peer: p, msg: m3 },
            ] && v3.urgent == v.urgent && v3.peer == Some(p)
        }),
{
    let v3 = spec_push(spec_push(spec_push(v, m1), m2), m3);
    assert(v3.queued =~= v.queued + seq![
        ActionView::Deliver { peer: p, msg: m1 },
        ActionView::Deliver { peer: p, msg: m2 },
        ActionView::Deliver { peer: p, msg: m3 },
    ]);
}

/// Once the connection is lost, the queue accepts nothing new for the
/// vanished peer: a push right after a disconnection changes nothing,
/// so pending messages are discarded rather than buffered for redial.
pub proof fn lemma_no_buffering_across_disconnect(v: CoordView, p: PeerId, m: Seq<u8>)
    requires
        !v.is_server,
    ensures
        spec_push(spec_inject_disconnected(v, p), m) == spec_inject_disconnected(v, p),
{
}

/// A lost connection adds exactly one redial request for the lost peer.
pub proof fn lemma_disconnect_issues_one_redial(v: CoordView, p: PeerId)
    requires
        !v.is_server,
    ensures
        pending_redials(spec_inject_disconnected(v, p), p) == pending_redials(v, p) + 1,
        spec_inject_disconnected(v, p).peer is None,
{
    lemma_count_redials_push(v.queued, ActionView::Redial { peer: p }, p);
}

/// No other entry point issues a redial: pushes, connection
/// establishment and inbound events leave the pending redial count
/// untouched, so one disconnection yields one redial request and no
/// second one while that request is outstanding.
pub proof fn lemma_only_disconnect_redials(v: CoordView, p: PeerId, q: PeerId, m: Seq<u8>)
    ensures
        pending_redials(spec_push(v, m), p) == pending_redials(v, p),
        pending_redials(spec_inject_connected(v, q), p) == pending_redials(v, p),
        pending_redials(spec_inject_event(v, m), p) == pending_redials(v, p),
{
    if !v.is_server && v.peer is Some {
        lemma_count_redials_push(
            v.queued,
            ActionView::Deliver { peer: v.peer.unwrap(), msg: m },
            p,
        );
    }
    lemma_count_redials_push(v.urgent, ActionView::Surface { msg: m }, p);
}

/// Polling consumes: the returned instruction is the head of the
/// pending sequence and leaves the queue, so a surfaced event is never
/// emitted a second time.
pub proof fn lemma_poll_consumes(v: CoordView)
    ensures
        ({
            let (v1, a) = spec_poll(v);
            match a {
                Some(av) => av == v.instructions()[0] && v1.instructions()
                    == v.instructions().drop_first(),
                None => v1 == v && v.instructions().len() == 0,
            }
        }),
{
    let (v1, a) = spec_poll(v);
    if v.urgent.len() > 0 {
        assert(v1.instructions() =~= v.instructions().drop_first());
    } else if v.queued.len() > 0 {
        assert(v1.instructions() =~= v.instructions().drop_first());
    }
}

/// The per-peer coordinator.  One exists per role for the lifetime of
/// the process's networking session.
pub struct OneDirectionPush {
    is_server: bool,
    peer_id: Option<PeerId>,
    urgent_events: VecDeque<BehaviourAction>,
    events: VecDeque<BehaviourAction>,
}

impl View for OneDirectionPush {
    type V = CoordView;

    closed spec fn view(&self) -> CoordView {
        CoordView {
            is_server: self.is_server,
            peer: self.peer_id,
            urgent: self.urgent_events@.map_values(|a: BehaviourAction| a@),
            queued: self.events@.map_values(|a: BehaviourAction| a@),
        }
    }
}

impl OneDirectionPush {
    /// Creates the coordinator for one role.
    pub fn new(is_server: bool) -> (r: Self)
        ensures
            r@ == spec_new_coord(is_server),
    {
        let r = OneDirectionPush {
            is_server,
            peer_id: None,
            urgent_events: VecDeque::new(),
            events: VecDeque::new(),
        };
        proof {
            assert(r@ =~= spec_new_coord(is_server));
        }
        r
    }

    /// Creates the connection handler for a newly opened connection,
    /// carrying this coordinator's role.
    pub fn new_handler(&self) -> (r: crate::handler::OneDirectionPushHandler)
        ensures
            r@ == crate::handler::spec_new_handler(self@.is_server),
    {
        crate::handler::OneDirectionPushHandler::new(self.is_server)
    }

    /// Requests delivery of `data` to the current peer.  Without a live
    /// peer, or in consumer role, the call does nothing: no error is
    /// raised and nothing is buffered across a disconnection.
    pub fn push(&mut self, data: Vec<u8>)
        ensures
            final(self)@ == spec_push(old(self)@, data@),
    {
        let ghost prev = self@;
        let ghost m = data@;
        if !self.is_server {
            if let Some(peer_id) = self.peer_id {
                self.events.push_back(
                    BehaviourAction::NotifyHandler { peer_id, event: PushEvent::Message(data) },
                );
                proof {
                    assert(self@.queued =~= spec_push(prev, m).queued);
                    assert(self@ =~= spec_push(prev, m));
                }
            }
        }
    }

    /// Records `peer_id` as the producer's current target.
    pub fn inject_connected(&mut self, peer_id: PeerId)
        ensures
            final(self)@ == spec_inject_connected(old(self)@, peer_id),
    {
        if !self.is_server {
            self.peer_id = Some(peer_id);
            proof {
                assert(self@ =~= spec_inject_connected(old(self)@, peer_id));
            }
        }
    }

    /// Clears the producer's target and queues one redial request for
    /// the lost peer.  Deliver instructions already queued are not
    /// removed here: their connection is gone, so the host engine drops
    /// them, and nothing is redelivered after a redial.
    pub fn inject_disconnected(&mut self, peer_id: PeerId)
        ensures
            final(self)@ == spec_inject_disconnected(old(self)@, peer_id),
    {
        let ghost prev = self@;
        if !self.is_server {
            self.peer_id = None;
            self.events.push_back(BehaviourAction::DialPeer { peer_id });
            proof {
                assert(self@.queued =~= spec_inject_disconnected(prev, peer_id).queued);
                assert(self@ =~= spec_inject_disconnected(prev, peer_id));
            }
        }
    }

    /// Accepts an inbound event surfaced by the handler of `connection`
    /// to `peer_id`; the event jumps ahead of queued dial and notify
    /// instructions.
    pub fn inject_event(&mut self, peer_id: PeerId, connection: ConnectionId, event: PushEvent)
        ensures
            final(self)@ == spec_inject_event(old(self)@, event@),
    {
        let ghost prev = self@;
        let ghost m = event@;
        let _ = peer_id;
        let _ = connection;
        self.urgent_events.push_back(BehaviourAction::GenerateEvent(event));
        proof {
            assert(self@.urgent =~= spec_inject_event(prev, m).urgent);
            assert(self@ =~= spec_inject_event(prev, m));
        }
    }

    /// Hands the host engine the next queued instruction, oldest urgent
    /// instruction first; `None` asks the engine to poll again later.
    pub fn poll(&mut self) -> (r: Option<BehaviourAction>)
        ensures
            final(self)@ == spec_poll(old(self)@).0,
            match spec_poll(old(self)@).1 {
                Some(av) => r matches Some(a) && a@ == av,
                None => r is None,
            },
    {
        let ghost prev = self@;
        if let Some(a) = self.urgent_events.pop_front() {
            proof {
                assert(self@.urgent =~= spec_poll(prev).0.urgent);
                assert(self@ =~= spec_poll(prev).0);
            }
            return Some(a);
        }
        if let Some(a) = self.events.pop_front() {
            proof {
                assert(self@.queued =~= spec_poll(prev).0.queued);
                assert(self@ =~= spec_poll(prev).0);
            }
            return Some(a);
        }
        None
    }
}

} // verus!
