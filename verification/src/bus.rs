//! The in-process broadcast bus between the two USB transports, and the
//! keepalive responder that rides on it.
//!
//! Every published envelope carries a direction tag beside its message:
//! `true` means "generated inside the device, write it out to the host",
//! `false` means "arrived from the host, must not be echoed straight back".
//! That tag is the sole loop-suppression mechanism: the responder answers
//! only `false`-tagged heartbeats, and the wire writer forwards only
//! `true`-tagged envelopes, so no frame can cycle.
//!
//! The bus is a bounded broadcast channel: every subscriber sees every
//! envelope in publish order through its own read cursor.  When a slow
//! subscriber is overrun the publisher is never blocked; the oldest
//! envelope is evicted and the subscriber learns the exact count of what it
//! missed before resuming with the next retained envelope.

use vstd::prelude::*;

use crate::message::CommandKind;
use crate::message::Message;
use crate::message::ResponseKind;
use crate::message::spec_decode;
use crate::message::spec_encode;

verus! {

/// One unit of bus traffic: the direction tag and the message.
pub type Envelope = (bool, Message);

/// The mathematical model of the bus: the retained envelopes, oldest
/// first, and how many envelopes eviction has dropped since creation.
pub struct BusView {
    pub capacity: nat,
    pub queue: Seq<Envelope>,
    pub dropped: nat,
}

impl BusView {
    /// Total number of envelopes ever published on the bus.
    pub open spec fn total(self) -> nat {
        self.dropped + self.queue.len()
    }
}

/// One publish step: the envelope is appended, and if the buffer were to
/// exceed its capacity the oldest retained envelope is evicted instead of
/// the publisher blocking.
pub open spec fn spec_publish(v: BusView, e: Envelope) -> BusView {
    if v.queue.len() < v.capacity {
        BusView { queue: v.queue.push(e), ..v }
    } else {
        BusView { queue: v.queue.skip(1).push(e), dropped: v.dropped + 1, ..v }
    }
}

/// The bus state after publishing `es` in order.
pub open spec fn spec_publish_all(v: BusView, es: Seq<Envelope>) -> BusView
    decreases es.len(),
{
    if es.len() == 0 {
        v
    } else {
        spec_publish_all(spec_publish(v, es[0]), es.skip(1))
    }
}

/// A publisher slot of the bus.  Claim one through
/// [`PubSubChannel::publisher`] before publishing; the bounded slot count
/// makes an over-committed configuration detectable at claim time.
#[derive(Debug, Clone, Copy)]
pub struct Publisher {}

/// A subscriber's read cursor: the index (in publish order, counted from
/// the creation of the bus) of the next envelope this subscriber reads.
#[derive(Debug, Clone, Copy, PartialEq, Eq, Structural)]
pub struct Subscriber {
    pub next: u64,
}

/// What a subscriber finds on the bus.
#[derive(Debug, Clone, Copy)]
pub enum WaitResult {
    /// The subscriber was overrun; this many envelopes were evicted before
    /// it read them.  The cursor has resumed at the oldest retained one.
    Lagged(u64),
    /// The next envelope, in publish order.
    Message(Envelope),
}

/// A bounded broadcast channel with a fixed number of publisher and
/// subscriber slots.  Shared by cooperative tasks that run one at a time,
/// so plain exclusive access stands in for the original's internal
/// synchronization.
pub struct PubSubChannel {
    pub queue: Vec<Envelope>,
    pub dropped: u64,
    pub capacity: usize,
    pub publishers: usize,
    pub subscribers: usize,
    pub max_publishers: usize,
    pub max_subscribers: usize,
}

impl View for PubSubChannel {
    type V = BusView;

    open spec fn view(&self) -> BusView {
        BusView {
            capacity: self.capacity as nat,
            queue: self.queue@,
            dropped: self.dropped as nat,
        }
    }
}

impl PubSubChannel {
    /// The bus invariant: the buffer never exceeds its capacity, slot
    /// counts never exceed their bounds, and the publish counter has not
    /// wrapped.
    pub open spec fn wf(&self) -> bool {
        &&& self.capacity >= 1
        &&& self.queue@.len() <= self.capacity
        &&& self.publishers <= self.max_publishers
        &&& self.subscribers <= self.max_subscribers
        &&& self.dropped + self.queue@.len() <= u64::MAX
    }

    /// A fresh bus with the given buffer capacity and slot bounds.
    pub fn new(capacity: usize, max_publishers: usize, max_subscribers: usize) -> (c:
        PubSubChannel)
        requires
            capacity >= 1,
        ensures
            c.wf(),
            c@.capacity == capacity,
            c@.queue == Seq::<Envelope>::empty(),
            c@.dropped == 0,
            c.publishers == 0,
            c.subscribers == 0,
            c.max_publishers == max_publishers,
            c.max_subscribers == max_subscribers,
    {
        let c = PubSubChannel {
            queue: Vec::new(),
            dropped: 0,
            capacity,
            publishers: 0,
            subscribers: 0,
            max_publishers,
            max_subscribers,
        };
        proof {
            assert(c@.queue =~= Seq::<Envelope>::empty());
        }
        c
    }

    /// Claims a publisher slot.  Succeeds exactly while a slot is free;
    /// `None` is the detectable configuration error of an over-committed
    /// bus.
    pub fn publisher(&mut self) -> (r: Option<Publisher>)
        requires
            old(self).wf(),
        ensures
            final(self).wf(),
            final(self)@ == old(self)@,
            final(self).subscribers == old(self).subscribers,
            final(self).max_publishers == old(self).max_publishers,
            final(self).max_subscribers == old(self).max_subscribers,
            r is Some <==> old(self).publishers < old(self).max_publishers,
            r is Some ==> final(self).publishers == old(self).publishers + 1,
            r is None ==> final(self).publishers == old(self).publishers,
    {
        if self.publishers < self.max_publishers {
            self.publishers = self.publishers + 1;
            Some(Publisher {})
        } else {
            None
        }
    }

    /// Claims a subscriber slot.  Succeeds exactly while a slot is free; a
    /// fresh subscriber starts at the current end of the stream and sees
    /// only envelopes published after this call.
    pub fn subscriber(&mut self) -> (r: Option<Subscriber>)
        requires
            old(self).wf(),
        ensures
            final(self).wf(),
            final(self)@ == old(self)@,
            final(self).publishers == old(self).publishers,
            final(self).max_publishers == old(self).max_publishers,
            final(self).max_subscribers == old(self).max_subscribers,
            r is Some <==> old(self).subscribers < old(self).max_subscribers,
            r is Some ==> final(self).subscribers == old(self).subscribers + 1 && r->0.next
                == old(self)@.total(),
            r is None ==> final(self).subscribers == old(self).subscribers,
    {
        if self.subscribers < self.max_subscribers {
            self.subscribers = self.subscribers + 1;
            let next = self.dropped + self.queue.len() as u64;
            Some(Subscriber { next })
        } else {
            None
        }
    }

    /// Publishes one envelope, never blocking: on a full buffer the oldest
    /// retained envelope is evicted and counted as dropped.
    pub fn publish(&mut self, _p: &Publisher, e: Envelope)
        requires
            old(self).wf(),
            old(self)@.total() < u64::MAX,
        ensures
            final(self).wf(),
            final(self)@ == spec_publish(old(self)@, e),
            final(self).publishers == old(self).publishers,
            final(self).subscribers == old(self).subscribers,
            final(self).max_publishers == old(self).max_publishers,
            final(self).max_subscribers == old(self).max_subscribers,
    {
        if self.queue.len() < self.capacity {
            self.queue.push(e);
            proof {
                assert(self@ == spec_publish(old(self)@, e));
            }
        } else {
            self.queue.remove(0);
            self.queue.push(e);
            self.dropped = self.dropped + 1;
            proof {
                assert(self@.queue =~= spec_publish(old(self)@, e).queue);
            }
        }
    }

    /// The subscriber's next observation: its lag if it was overrun, the
    /// next envelope in publish order otherwise, or `None` when it has seen
    /// everything published so far (the point where the original task
    /// suspends until more traffic arrives).
    pub fn next_message(&self, sub: &mut Subscriber) -> (r: Option<WaitResult>)
        requires
            self.wf(),
            old(sub).next <= self@.total(),
        ensures
            final(sub).next <= self@.total(),
            old(sub).next < self@.dropped ==> r == Some(
                WaitResult::Lagged((self@.dropped - old(sub).next) as u64),
            ) && final(sub).next == self@.dropped,
            self@.dropped <= old(sub).next < self@.total() ==> r == Some(
                WaitResult::Message(self@.queue[old(sub).next - self@.dropped]),
            ) && final(sub).next == old(sub).next + 1,
            old(sub).next == self@.total() ==> r is None && final(sub).next == old(sub).next,
    {
        if sub.next < self.dropped {
            let lag = self.dropped - sub.next;
            sub.next = self.dropped;
            Some(WaitResult::Lagged(lag))
        } else {
            let idx = sub.next - self.dropped;
            if idx < self.queue.len() as u64 {
                sub.next = sub.next + 1;
                Some(WaitResult::Message(self.queue[idx as usize]))
            } else {
                None
            }
        }
    }
}

/// What the keepalive responder answers to one observed envelope: exactly
/// the inbound (`false`-tagged) heartbeat commands get a reply, an
/// outbound heartbeat response under the same tag discipline, echoing both
/// nonce and correlation id.  Everything else is ignored.
pub open spec fn spec_respond(e: Envelope) -> Option<Envelope> {
    if e.0 {
        None
    } else {
        match e.1 {
            Message::Command { cmd: CommandKind::Heartbeat(n), id } => Some(
                (true, Message::Response { res: ResponseKind::Heartbeat(n), to: id }),
            ),
            _ => None,
        }
    }
}

/// The keepalive responder's decision for one observed envelope.
pub fn respond(e: &Envelope) -> (r: Option<Envelope>)
    ensures
        r == spec_respond(*e),
{
    if e.0 {
        None
    } else {
        match e.1 {
            Message::Command { cmd: CommandKind::Heartbeat(n), id } => Some(
                (true, Message::Response { res: ResponseKind::Heartbeat(n), to: id }),
            ),
            _ => None,
        }
    }
}

/// The wire reader's decision for one received frame: a decoded message is
/// published inbound (`false`-tagged, so it cannot echo straight back); a
/// malformed frame is dropped, fatal for that frame alone.
pub fn inbound_envelope(frame: &[u8]) -> (r: Option<Envelope>)
    ensures
        (spec_decode(frame@) matches Ok(m) ==> r == Some((false, m))),
        (spec_decode(frame@) matches Err(_) ==> r is None),
{
    match Message::deserialize(frame) {
        Ok(m) => Some((false, m)),
        Err(_) => None,
    }
}

/// The wire writer's decision for one observed envelope: only outbound
/// (`true`-tagged) envelopes are encoded and put on the wire; inbound ones
/// exist only to be observed by the responder.
pub fn outbound_frame(e: &Envelope) -> (r: Option<Vec<u8>>)
    ensures
        (e.0 ==> (r matches Some(f) && f@ == spec_encode(e.1))),
        (!e.0 ==> r is None),
{
    if e.0 {
        Some(e.1.serialize())
    } else {
        None
    }
}

/// Loop suppression: an inbound heartbeat draws exactly one reply, and a
/// reply is never answered again.  The responder produces an envelope
/// exactly for a `false`-tagged heartbeat command; what it produces is
/// `true`-tagged, and feeding any produced envelope back to the responder
/// yields nothing, so no ping/pong cycle can start.
pub proof fn lemma_loop_suppression(e: Envelope)
    ensures
        (spec_respond(e) is Some <==> !e.0 && (e.1 matches Message::Command {
            cmd: CommandKind::Heartbeat(_),
            .. })),
        (spec_respond(e) matches Some(r) ==> r.0 && spec_respond(r) is None),
{
}

/// Whether one envelope is traffic the responder answers: an inbound
/// (`false`-tagged) heartbeat command.
pub open spec fn spec_is_inbound_ping(e: Envelope) -> bool {
    !e.0 && (e.1 matches Message::Command { cmd: CommandKind::Heartbeat(_), .. })
}

/// The replies the responder publishes while observing `es` in order.
pub open spec fn spec_responder_replies(es: Seq<Envelope>) -> Seq<Envelope>
    decreases es.len(),
{
    if es.len() == 0 {
        Seq::empty()
    } else {
        let head = match spec_respond(es[0]) {
            Some(r) => seq![r],
            None => Seq::empty(),
        };
        head + spec_responder_replies(es.skip(1))
    }
}

/// The number of inbound pings among the observed envelopes.
pub open spec fn spec_ping_count(es: Seq<Envelope>) -> int
    decreases es.len(),
{
    if es.len() == 0 {
        0
    } else {
        (if spec_is_inbound_ping(es[0]) {
            1int
        } else {
            0int
        }) + spec_ping_count(es.skip(1))
    }
}

/// Over any run of observed traffic the responder replies exactly once
/// per inbound ping, every reply is outbound-tagged, and observing the
/// replies themselves yields no further reply: the ping/pong exchange
/// terminates after one round.
pub proof fn lemma_responder_run(es: Seq<Envelope>)
    ensures
        spec_responder_replies(es).len() == spec_ping_count(es),
        forall|i: int| 0 <= i < spec_responder_replies(es).len() ==> (#[trigger] spec_responder_replies(
            es,
        )[i]).0,
        spec_responder_replies(spec_responder_replies(es)) =~= Seq::<Envelope>::empty(),
    decreases es.len(),
{
    if es.len() > 0 {
        lemma_responder_run(es.skip(1));
        let replies = spec_responder_replies(es);
        assert forall|i: int| 0 <= i < replies.len() implies (#[trigger] replies[i]).0 by {
            match spec_respond(es[0]) {
                Some(r) => {
                    if i > 0 {
                        assert(replies[i] == spec_responder_replies(es.skip(1))[i - 1]);
                    }
                }
                None => {
                    assert(replies[i] == spec_responder_replies(es.skip(1))[i]);
                }
            }
        }
        lemma_replies_of_outbound(replies);
    }
}

/// Observing only outbound-tagged envelopes draws no reply at all.
proof fn lemma_replies_of_outbound(es: Seq<Envelope>)
    requires
        forall|i: int| 0 <= i < es.len() ==> (#[trigger] es[i]).0,
    ensures
        spec_responder_replies(es) =~= Seq::<Envelope>::empty(),
    decreases es.len(),
{
    if es.len() > 0 {
        assert(es[0].0);
        lemma_replies_of_outbound(es.skip(1));
    }
}

/// Overrun accounting: filling a fresh bus with more envelopes than its
/// capacity drops exactly the surplus, keeps the newest `capacity`
/// envelopes in publish order, and a subscriber that slept through all of
/// it finds a lag count equal to the number of dropped envelopes.
pub proof fn lemma_overrun_lag(v: BusView, es: Seq<Envelope>)
    requires
        v.capacity >= 1,
        v.queue.len() == 0,
        v.dropped == 0,
        es.len() >= v.capacity,
    ensures
        spec_publish_all(v, es).dropped == es.len() - v.capacity,
        spec_publish_all(v, es).queue =~= es.skip(es.len() - v.capacity),
{
    lemma_publish_all_shape(v, es);
    assert(spec_publish_all(v, es).queue =~= (v.queue + es).skip(
        v.queue.len() + es.len() - spec_publish_all(v, es).queue.len(),
    ));
}

/// Shape of the bus after any run of publishes: capacity is untouched, no
/// envelope is lost from the accounting, the buffer holds as much of the
/// tail as fits, and what it holds is exactly the newest envelopes in
/// publish order.
pub proof fn lemma_publish_all_shape(v: BusView, es: Seq<Envelope>)
    requires
        v.capacity >= 1,
        v.queue.len() <= v.capacity,
    ensures
        spec_publish_all(v, es).capacity == v.capacity,
        spec_publish_all(v, es).total() == v.total() + es.len(),
        spec_publish_all(v, es).queue.len() == if v.queue.len() + es.len() <= v.capacity {
            v.queue.len() + es.len()
        } else {
            v.capacity
        },
        spec_publish_all(v, es).queue =~= (v.queue + es).skip(
            v.queue.len() + es.len() - spec_publish_all(v, es).queue.len(),
        ),
    decreases es.len(),
{
    if es.len() == 0 {
        assert(spec_publish_all(v, es) == v);
        assert(v.queue =~= (v.queue + es).skip(0));
    } else {
        let v1 = spec_publish(v, es[0]);
        assert(v1.queue + es.skip(1) =~= (v.queue + es).skip(
            if v.queue.len() < v.capacity {
                0
            } else {
                1
            },
        ));
        lemma_publish_all_shape(v1, es.skip(1));
        assert(spec_publish_all(v, es) == spec_publish_all(v1, es.skip(1)));
    }
}

} // verus!
