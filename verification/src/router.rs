//! The broadcast router: one bus for all rooms, each subscription filtering
//! to its own room.

use vstd::prelude::*;
use vstd::string::*;
use std::collections::VecDeque;
use crate::manager::{ChatMessage, ChatMessageView};

verus! {

/// A room-tagged message on its way through the router.
#[derive(Debug)]
pub struct Envelope {
    pub room_id: i64,
    pub chat_message: String,
    pub sender: Option<i64>,
    pub time_created: i64,
}

pub struct EnvelopeView {
    pub room_id: i64,
    pub chat_message: Seq<char>,
    pub sender: Option<i64>,
    pub time_created: i64,
}

impl View for Envelope {
    type V = EnvelopeView;

    open spec fn view(&self) -> EnvelopeView {
        EnvelopeView {
            room_id: self.room_id,
            chat_message: self.chat_message@,
            sender: self.sender,
            time_created: self.time_created,
        }
    }
}

impl Clone for Envelope {
    fn clone(&self) -> (r: Self)
        ensures
            r@ == self@,
    {
        Envelope {
            room_id: self.room_id,
            chat_message: self.chat_message.clone(),
            sender: self.sender,
            time_created: self.time_created,
        }
    }
}

/// The envelope that carries a stored message.
pub open spec fn envelope_of(m: ChatMessageView) -> EnvelopeView {
    EnvelopeView {
        room_id: m.room_id,
        chat_message: m.message,
        sender: m.user_id,
        time_created: m.time_created,
    }
}

impl Envelope {
    /// The envelope for a message that the ledger has stored.
    pub fn from_message(m: &ChatMessage) -> (e: Envelope)
        ensures
            e@ == envelope_of(m@),
    {
        Envelope {
            room_id: m.room_id,
            chat_message: m.message.clone(),
            sender: m.user_id,
            time_created: m.time_created,
        }
    }
}

/// The handle of one connection's subscription.
#[derive(Debug, Clone, Copy, PartialEq, Eq, Structural)]
pub struct Subscription {
    pub id: u64,
    pub room_id: i64,
}

struct Subscriber {
    id: u64,
    room_id: i64,
    queue: VecDeque<Envelope>,
}

/// One live subscription: its number, its room, and what the bus has handed
/// it and it has not yet looked at, oldest first.
pub struct SubscriberView {
    pub id: u64,
    pub room_id: i64,
    pub queue: Seq<EnvelopeView>,
}

impl View for Subscriber {
    type V = SubscriberView;

    closed spec fn view(&self) -> SubscriberView {
        SubscriberView { id: self.id, room_id: self.room_id, queue: envelope_views(self.queue@) }
    }
}

/// The views of a run of envelopes.
pub open spec fn envelope_views(q: Seq<Envelope>) -> Seq<EnvelopeView> {
    q.map_values(|e: Envelope| e@)
}

/// What the router holds: the bound on a subscriber's queue, how many
/// subscriptions it has issued, and the live subscribers.
pub struct RouterView {
    pub capacity: nat,
    pub issued: nat,
    pub subscribers: Seq<SubscriberView>,
}

/// Whether a subscription with number `id` is live.
pub open spec fn is_subscribed(subs: Seq<SubscriberView>, id: u64) -> bool {
    exists|i: int| 0 <= i < subs.len() && (#[trigger] subs[i]).id == id
}

/// The router's invariant: live subscriptions carry distinct numbers out of
/// those issued so far, and no queue is over the bound.
pub open spec fn router_valid(r: RouterView) -> bool {
    &&& r.issued <= u64::MAX
    &&& forall|i: int| 0 <= i < r.subscribers.len() ==> 1 <= (#[trigger] r.subscribers[i]).id <= r.issued
    &&& forall|i: int, j: int|
        0 <= i < j < r.subscribers.len() ==> (#[trigger] r.subscribers[i]).id != (
        #[trigger] r.subscribers[j]).id
    &&& forall|i: int|
        0 <= i < r.subscribers.len() ==> (#[trigger] r.subscribers[i]).queue.len() <= r.capacity
}

/// Position of the first envelope of `room` in `q`; `q.len()` where it holds none.
pub open spec fn first_match(q: Seq<EnvelopeView>, room: i64) -> int
    decreases q.len(),
{
    if q.len() == 0 {
        0
    } else if q[0].room_id == room {
        0
    } else {
        1 + first_match(q.skip(1), room)
    }
}

/// What a subscriber of `room` will be handed from `q`, in that order: the
/// envelopes of its room, the others left out.
pub open spec fn pending(q: Seq<EnvelopeView>, room: i64) -> Seq<EnvelopeView>
    decreases q.len(),
{
    if q.len() == 0 {
        Seq::empty()
    } else if q[0].room_id == room {
        seq![q[0]] + pending(q.skip(1), room)
    } else {
        pending(q.skip(1), room)
    }
}

/// A queue after one publish: the envelope at its end, unless the queue was full.
pub open spec fn after_publish(q: Seq<EnvelopeView>, capacity: nat, e: EnvelopeView) -> Seq<
    EnvelopeView,
> {
    if q.len() < capacity {
        q.push(e)
    } else {
        q
    }
}

/// A queue after its subscriber has asked for the next envelope: everything
/// up to and including the first envelope of its room is gone.
pub open spec fn after_receive(q: Seq<EnvelopeView>, room: i64) -> Seq<EnvelopeView> {
    if first_match(q, room) < q.len() {
        q.skip(first_match(q, room) + 1)
    } else {
        Seq::empty()
    }
}

/// What a subscriber of `room` is handed next from `q`.
pub open spec fn next_delivery(q: Seq<EnvelopeView>, room: i64) -> Option<EnvelopeView> {
    if first_match(q, room) < q.len() {
        Some(q[first_match(q, room)])
    } else {
        None
    }
}

/// The view of an optional envelope.
pub open spec fn delivery_view(e: Option<Envelope>) -> Option<EnvelopeView> {
    match e {
        Some(e) => Some(e@),
        None => None,
    }
}

/// The subscribers after one publish: each queue with the envelope at its
/// end, unless it was full.
pub open spec fn published(subs: Seq<SubscriberView>, capacity: nat, e: EnvelopeView) -> Seq<
    SubscriberView,
> {
    Seq::new(
        subs.len(),
        |i: int| SubscriberView { queue: after_publish(subs[i].queue, capacity, e), ..subs[i] },
    )
}

/// The subscribers after the one numbered `id` has asked for its next
/// envelope: its queue is shortened, the others are as they were.
pub open spec fn served(subs: Seq<SubscriberView>, id: u64) -> Seq<SubscriberView> {
    Seq::new(
        subs.len(),
        |i: int|
            if subs[i].id == id {
                SubscriberView { queue: after_receive(subs[i].queue, subs[i].room_id), ..subs[i] }
            } else {
                subs[i]
            },
    )
}

/// What the subscriber numbered `id` is handed when it asks for its next
/// envelope; nothing where no live subscriber has that number.
pub open spec fn delivery(subs: Seq<SubscriberView>, id: u64) -> Option<EnvelopeView>
    decreases subs.len(),
{
    if subs.len() == 0 {
        None
    } else if subs.last().id == id {
        next_delivery(subs.last().queue, subs.last().room_id)
    } else {
        delivery(subs.drop_last(), id)
    }
}

/// The subscribers without the one numbered `id`, in their order.
pub open spec fn released(subs: Seq<SubscriberView>, id: u64) -> Seq<SubscriberView>
    decreases subs.len(),
{
    if subs.len() == 0 {
        Seq::empty()
    } else if subs.last().id == id {
        released(subs.drop_last(), id)
    } else {
        released(subs.drop_last(), id).push(subs.last())
    }
}

/// The router. Every live subscriber has a bounded queue; a publish puts
/// the envelope into every queue that has room for it, whatever its room, and
/// a subscriber drops what is not for its room when it asks for the next.
pub struct BroadcastRouter {
    capacity: usize,
    issued: u64,
    subscribers: Vec<Subscriber>,
}

impl View for BroadcastRouter {
    type V = RouterView;

    closed spec fn view(&self) -> RouterView {
        RouterView {
            capacity: self.capacity as nat,
            issued: self.issued as nat,
            subscribers: self.subscribers@.map_values(|s: Subscriber| s@),
        }
    }
}

impl BroadcastRouter {
    /// The router's invariant.
    pub open spec fn wf(&self) -> bool {
        router_valid(self@)
    }

    /// A router without subscribers whose queues will hold up to `capacity`
    /// envelopes each.
    pub fn new(capacity: usize) -> (r: Self)
        ensures
            r.wf(),
            r@.capacity == capacity,
            r@.issued == 0,
            r@.subscribers == Seq::<SubscriberView>::empty(),
    {
        let r = BroadcastRouter { capacity, issued: 0, subscribers: Vec::new() };
        assert(r@.subscribers =~= Seq::<SubscriberView>::empty());
        r
    }

    /// How many subscriptions are live.
    pub fn subscriber_count(&self) -> (n: usize)
        ensures
            n == self@.subscribers.len(),
    {
        self.subscribers.len()
    }

    /// Where the subscriber with number `id` stands, if it is live.
    fn position(&self, id: u64) -> (r: Option<usize>)
        ensures
            match r {
                Some(k) => k < self@.subscribers.len() && self@.subscribers[k as int].id == id,
                None => !is_subscribed(self@.subscribers, id),
            },
    {
        let mut i: usize = 0;
        while i < self.subscribers.len()
            invariant
                i <= self.subscribers.len(),
                forall|j: int| 0 <= j < i ==> (#[trigger] self@.subscribers[j]).id != id,
            decreases self.subscribers.len() - i,
        {
            if self.subscribers[i].id == id {
                return Some(i);
            }
            i = i + 1;
        }
        None
    }

    /// Whether the subscription is live.
    pub fn is_open(&self, subscription: &Subscription) -> (open: bool)
        ensures
            open == is_subscribed(self@.subscribers, subscription.id),
    {
        self.position(subscription.id).is_some()
    }

    /// Registers a subscriber for `room_id`, with an empty queue, at the end
    /// of the list. Room existence and membership are the caller's concern.
    /// Once every number has been issued the router stays as it is and the
    /// handle names no live subscription, so it never yields anything.
    pub fn subscribe(&mut self, room_id: i64) -> (handle: Subscription)
        requires
            old(self).wf(),
        ensures
            final(self).wf(),
            final(self)@.capacity == old(self)@.capacity,
            handle.room_id == room_id,
            !is_subscribed(old(self)@.subscribers, handle.id),
            if old(self)@.issued < u64::MAX {
                &&& handle.id == old(self)@.issued + 1
                &&& final(self)@.issued == old(self)@.issued + 1
                &&& final(self)@.subscribers == old(self)@.subscribers.push(
                    SubscriberView { id: handle.id, room_id, queue: Seq::empty() },
                )
            } else {
                handle.id == 0 && final(self)@ == old(self)@
            },
    {
        if self.issued == u64::MAX {
            return Subscription { id: 0, room_id };
        }
        let id: u64 = self.issued + 1;
        let sub = Subscriber { id, room_id, queue: VecDeque::new() };
        proof {
            assert(sub@.queue =~= Seq::<EnvelopeView>::empty());
        }
        self.issued = id;
        self.subscribers.push(sub);
        proof {
            assert(self@.subscribers =~= old(self)@.subscribers.push(sub@));
            assert forall|i: int, j: int| 0 <= i < j < self@.subscribers.len() implies (
            #[trigger] self@.subscribers[i]).id != (#[trigger] self@.subscribers[j]).id by {
                if j == old(self)@.subscribers.len() {
                    assert(old(self)@.subscribers[i].id <= old(self)@.issued);
                } else {
                    assert(old(self)@.subscribers[i].id != old(self)@.subscribers[j].id);
                }
            }
            assert forall|i: int| 0 <= i < self@.subscribers.len() implies 1 <= (
            #[trigger] self@.subscribers[i]).id <= self@.issued && self@.subscribers[i].queue.len()
                <= self@.capacity by {
                if i < old(self)@.subscribers.len() {
                    assert(old(self)@.subscribers[i].id <= old(self)@.issued);
                }
            }
        }
        Subscription { id, room_id }
    }

    /// Hands the envelope to every live subscriber whose queue has room for
    /// it, at the end of that queue. A subscriber with a full queue misses
    /// it. Nobody is added or removed, and the call cannot fail.
    pub fn publish(&mut self, envelope: Envelope)
        requires
            old(self).wf(),
        ensures
            final(self).wf(),
            final(self)@.capacity == old(self)@.capacity,
            final(self)@.issued == old(self)@.issued,
            final(self)@.subscribers == published(
                old(self)@.subscribers,
                old(self)@.capacity,
                envelope@,
            ),
    {
        let mut i: usize = 0;
        while i < self.subscribers.len()
            invariant
                i <= self.subscribers.len(),
                self@.capacity == old(self)@.capacity,
                self@.issued == old(self)@.issued,
                self@.subscribers.len() == old(self)@.subscribers.len(),
                forall|j: int|
                    0 <= j < i ==> #[trigger] self@.subscribers[j] == (SubscriberView {
                        queue: after_publish(
                            old(self)@.subscribers[j].queue,
                            old(self)@.capacity,
                            envelope@,
                        ),
                        ..old(self)@.subscribers[j]
                    }),
                forall|j: int|
                    i <= j < self@.subscribers.len() ==> #[trigger] self@.subscribers[j] == old(
                        self,
                    )@.subscribers[j],
            decreases self.subscribers.len() - i,
        {
            let ghost before = self@;
            if self.subscribers[i].queue.len() < self.capacity {
                let copy = envelope.clone();
                let ghost queue_before = self.subscribers[i as int].queue@;
                self.subscribers[i].queue.push_back(copy);
                proof {
                    assert(envelope_views(self.subscribers[i as int].queue@) =~= envelope_views(
                        queue_before,
                    ).push(envelope@));
                }
            }
            proof {
                assert forall|j: int| 0 <= j < self@.subscribers.len() && j != i implies #[trigger] self@.subscribers[j]
                    == before.subscribers[j] by {}
                let now = self@.subscribers[i as int];
                assert(before.subscribers[i as int] == old(self)@.subscribers[i as int]);
                assert(now.id == before.subscribers[i as int].id);
                assert(now.room_id == before.subscribers[i as int].room_id);
                assert(before.subscribers[i as int].queue.len() == old(self).subscribers@[i as int].queue@.len());
                assert(now.queue == after_publish(
                    before.subscribers[i as int].queue,
                    before.capacity,
                    envelope@,
                ));
            }
            i = i + 1;
        }
        proof {
            assert forall|i: int| 0 <= i < self@.subscribers.len() implies 1 <= (
            #[trigger] self@.subscribers[i]).id <= self@.issued && self@.subscribers[i].queue.len()
                <= self@.capacity by {
                assert(old(self)@.subscribers[i].id <= old(self)@.issued);
            }
            assert forall|i: int, j: int| 0 <= i < j < self@.subscribers.len() implies (
            #[trigger] self@.subscribers[i]).id != (#[trigger] self@.subscribers[j]).id by {
                assert(old(self)@.subscribers[i].id != old(self)@.subscribers[j].id);
            }
            assert(self@.subscribers =~= published(
                old(self)@.subscribers,
                old(self)@.capacity,
                envelope@,
            ));
        }
    }

    /// The next envelope for the subscription: the oldest one of its room in
    /// its queue. Envelopes of other rooms that stood before it are dropped
    /// on the way, never handed out. `None` where the queue holds nothing
    /// for the room, or the subscription is not live; other subscribers are
    /// not touched.
    pub fn receive(&mut self, subscription: &Subscription) -> (r: Option<Envelope>)
        requires
            old(self).wf(),
        ensures
            final(self).wf(),
            final(self)@.capacity == old(self)@.capacity,
            final(self)@.issued == old(self)@.issued,
            final(self)@.subscribers == served(old(self)@.subscribers, subscription.id),
            delivery_view(r) == delivery(old(self)@.subscribers, subscription.id),
            forall|i: int|
                0 <= i < old(self)@.subscribers.len() && (#[trigger] old(self)@.subscribers[i]).id
                    == subscription.id ==> (r matches Some(e) ==> e.room_id == old(
                    self,
                )@.subscribers[i].room_id),
            !is_subscribed(old(self)@.subscribers, subscription.id) ==> r is None && final(self)@
                == old(self)@,
    {
        let k: usize = match self.position(subscription.id) {
            None => {
                proof {
                    lemma_unsubscribed(self@.subscribers, subscription.id);
                }
                return None;
            },
            Some(k) => k,
        };
        let room: i64 = self.subscribers[k].room_id;
        let ghost q0 = self@.subscribers[k as int].queue;
        let ghost mut dropped: int = 0;
        let mut found: Option<Envelope> = None;
        proof {
            assert(q0.skip(0) =~= q0);
        }
        while found.is_none() && self.subscribers[k].queue.len() > 0
            invariant
                k < self.subscribers.len(),
                self@.capacity == old(self)@.capacity,
                self@.issued == old(self)@.issued,
                self@.subscribers.len() == old(self)@.subscribers.len(),
                forall|j: int|
                    0 <= j < self@.subscribers.len() && j != k ==> #[trigger] self@.subscribers[j]
                        == old(self)@.subscribers[j],
                self@.subscribers[k as int].id == subscription.id,
                self@.subscribers[k as int].room_id == room,
                old(self)@.subscribers[k as int].id == subscription.id,
                old(self)@.subscribers[k as int].room_id == room,
                q0 == old(self)@.subscribers[k as int].queue,
                0 <= dropped <= q0.len(),
                forall|j: int| 0 <= j < dropped - (if found is Some { 1int } else { 0int }) ==> (#[trigger] q0[j]).room_id != room,
                self@.subscribers[k as int].queue == q0.skip(dropped),
                found matches Some(e) ==> dropped >= 1 && e@ == q0[dropped - 1] && e.room_id == room,
            decreases
                    (if found is Some { 0int } else { 1int }),
                    self.subscribers[k as int].queue@.len(),
        {
            let ghost before = self@;
            let ghost cq = self.subscribers[k as int].queue@;
            let front = self.subscribers[k].queue.pop_front();
            proof {
                assert forall|j: int| 0 <= j < self@.subscribers.len() && j != k implies #[trigger] self@.subscribers[j]
                    == before.subscribers[j] by {}
                assert(envelope_views(self.subscribers[k as int].queue@) =~= envelope_views(cq).skip(
                    1,
                ));
                assert(q0.skip(dropped).skip(1) =~= q0.skip(dropped + 1));
                assert(envelope_views(cq)[0] == q0[dropped]);
                dropped = dropped + 1;
            }
            match front {
                Some(e) => {
                    if e.room_id == room {
                        found = Some(e);
                    }
                },
                None => {},
            }
        }
        proof {
            let d = dropped - (if found is Some { 1int } else { 0int });
            lemma_first_match_skip(q0, room, d);
            if found is None {
                assert(q0.skip(dropped).len() == 0);
                assert(self@.subscribers[k as int].queue =~= Seq::<EnvelopeView>::empty());
            }
            assert forall|i: int| 0 <= i < self@.subscribers.len() implies 1 <= (
            #[trigger] self@.subscribers[i]).id <= self@.issued && self@.subscribers[i].queue.len()
                <= self@.capacity by {
                assert(old(self)@.subscribers[i].id <= old(self)@.issued);
                assert(old(self)@.subscribers[i].queue.len() <= old(self)@.capacity);
            }
            assert forall|i: int, j: int| 0 <= i < j < self@.subscribers.len() implies (
            #[trigger] self@.subscribers[i]).id != (#[trigger] self@.subscribers[j]).id by {
                assert(old(self)@.subscribers[i].id != old(self)@.subscribers[j].id);
            }
            assert forall|i: int|
                0 <= i < old(self)@.subscribers.len() && (#[trigger] old(self)@.subscribers[i]).id
                    == subscription.id implies i == k by {
                if i < k {
                    assert(old(self)@.subscribers[i].id != old(self)@.subscribers[k as int].id);
                } else if k < i {
                    assert(old(self)@.subscribers[k as int].id != old(self)@.subscribers[i].id);
                }
            }
            assert(self@.subscribers =~= served(old(self)@.subscribers, subscription.id));
            lemma_delivery_at(old(self)@.subscribers, subscription.id, k as int);
        }
        found
    }

    /// Ends the subscription and releases its queue at once. Ending one that
    /// is not live changes nothing, so the call may be repeated.
    pub fn close(&mut self, subscription: &Subscription)
        requires
            old(self).wf(),
        ensures
            final(self).wf(),
            final(self)@.capacity == old(self)@.capacity,
            final(self)@.issued == old(self)@.issued,
            final(self)@.subscribers == released(old(self)@.subscribers, subscription.id),
            !is_subscribed(final(self)@.subscribers, subscription.id),
            !is_subscribed(old(self)@.subscribers, subscription.id) ==> final(self)@ == old(self)@,
    {
        match self.position(subscription.id) {
            None => {
                proof {
                    lemma_unsubscribed(self@.subscribers, subscription.id);
                }
            },
            Some(k) => {
                let _gone = self.subscribers.remove(k);
                proof {
                    let before = old(self)@.subscribers;
                    let after = self@.subscribers;
                    assert(after =~= before.remove(k as int));
                    assert forall|i: int| 0 <= i < after.len() implies 1 <= (#[trigger] after[i]).id
                        <= self@.issued && after[i].queue.len() <= self@.capacity && after[i].id
                        != subscription.id by {
                        let o = if i < k {
                            i
                        } else {
                            i + 1
                        };
                        assert(before[o].id <= old(self)@.issued);
                        assert(before[o].queue.len() <= old(self)@.capacity);
                        if o < k {
                            assert(before[o].id != before[k as int].id);
                        } else {
                            assert(before[k as int].id != before[o].id);
                        }
                    }
                    assert forall|i: int, j: int| 0 <= i < j < after.len() implies (
                    #[trigger] after[i]).id != (#[trigger] after[j]).id by {
                        let a = if i < k {
                            i
                        } else {
                            i + 1
                        };
                        let b = if j < k {
                            j
                        } else {
                            j + 1
                        };
                        assert(before[a].id != before[b].id);
                    }
                    assert forall|i: int|
                        0 <= i < before.len() && (#[trigger] before[i]).id
                            == subscription.id implies i == k by {
                        if i < k {
                            assert(before[i].id != before[k as int].id);
                        } else if k < i {
                            assert(before[k as int].id != before[i].id);
                        }
                    }
                    lemma_released_at(before, subscription.id, k as int);
                }
            },
        }
    }
}

/// Where nothing of `room` stands before position `d`, the first match of
/// the whole queue is the first match of what stands from `d` on.
pub proof fn lemma_first_match_skip(q: Seq<EnvelopeView>, room: i64, d: int)
    requires
        0 <= d <= q.len(),
        forall|j: int| 0 <= j < d ==> (#[trigger] q[j]).room_id != room,
    ensures
        first_match(q, room) == d + first_match(q.skip(d), room),
        0 <= first_match(q.skip(d), room) <= q.len() - d,
        first_match(q, room) < q.len() ==> q[first_match(q, room)].room_id == room,
    decreases q.len() - d,
{
    let rest = q.skip(d);
    if d == q.len() {
        lemma_first_match_prefix(q, room, d);
    } else if q[d].room_id == room {
        assert(rest[0] == q[d]);
        lemma_first_match_prefix(q, room, d);
    } else {
        assert(rest[0] == q[d]);
        assert(rest.skip(1) =~= q.skip(d + 1));
        lemma_first_match_skip(q, room, d + 1);
    }
}

/// Where nothing of `room` stands before position `d`, and position `d`
/// is the queue's end or holds an envelope of `room`, the first match is `d`.
pub proof fn lemma_first_match_prefix(q: Seq<EnvelopeView>, room: i64, d: int)
    requires
        0 <= d <= q.len(),
        forall|j: int| 0 <= j < d ==> (#[trigger] q[j]).room_id != room,
        d < q.len() ==> q[d].room_id == room,
    ensures
        first_match(q, room) == d,
    decreases d,
{
    if d > 0 {
        let rest = q.skip(1);
        assert(q[0].room_id != room);
        assert forall|j: int| 0 <= j < d - 1 implies (#[trigger] rest[j]).room_id != room by {
            assert(q[j + 1].room_id != room);
        }
        lemma_first_match_prefix(rest, room, d - 1);
    }
}

/// What a subscriber is handed from two runs of envelopes, one after the
/// other, is what it is handed from the first followed by what it is handed
/// from the second.
pub proof fn lemma_pending_concat(a: Seq<EnvelopeView>, b: Seq<EnvelopeView>, room: i64)
    ensures
        pending(a + b, room) == pending(a, room) + pending(b, room),
    decreases a.len(),
{
    if a.len() == 0 {
        assert(a + b =~= b);
        assert(pending(a, room) + pending(b, room) =~= pending(b, room));
    } else {
        assert((a + b)[0] == a[0]);
        assert((a + b).skip(1) =~= a.skip(1) + b);
        lemma_pending_concat(a.skip(1), b, room);
        if a[0].room_id == room {
            assert(seq![a[0]] + (pending(a.skip(1), room) + pending(b, room)) =~= (seq![a[0]]
                + pending(a.skip(1), room)) + pending(b, room));
        }
    }
}

/// A subscriber is handed envelopes of its own room only.
pub proof fn lemma_pending_rooms(q: Seq<EnvelopeView>, room: i64)
    ensures
        forall|i: int| 0 <= i < pending(q, room).len() ==> (#[trigger] pending(q, room)[i]).room_id == room,
    decreases q.len(),
{
    if q.len() > 0 {
        lemma_pending_rooms(q.skip(1), room);
        let rest = pending(q.skip(1), room);
        if q[0].room_id == room {
            assert forall|i: int| 0 <= i < pending(q, room).len() implies (#[trigger] pending(
                q,
                room,
            )[i]).room_id == room by {
                if i > 0 {
                    assert(pending(q, room)[i] == rest[i - 1]);
                }
            }
        }
    }
}

/// Asking for the next envelope hands out the first of those pending and
/// leaves the others pending, in their order.
pub proof fn lemma_receive_pending(q: Seq<EnvelopeView>, room: i64)
    ensures
        next_delivery(q, room) == if pending(q, room).len() > 0 {
            Some(pending(q, room)[0])
        } else {
            None
        },
        pending(after_receive(q, room), room) == if pending(q, room).len() > 0 {
            pending(q, room).skip(1)
        } else {
            Seq::empty()
        },
    decreases q.len(),
{
    if q.len() > 0 {
        let rest = q.skip(1);
        if q[0].room_id == room {
            assert(q.skip(first_match(q, room) + 1) =~= rest);
            assert((seq![q[0]] + pending(rest, room)).skip(1) =~= pending(rest, room));
        } else {
            lemma_receive_pending(rest, room);
            lemma_first_match_bounds(rest, room);
            let k = first_match(rest, room);
            if k < rest.len() {
                assert(rest.skip(k + 1) =~= q.skip(k + 2));
                assert(rest[k] == q[k + 1]);
            }
        }
    }
}

/// The first match lies within the queue or at its end.
pub proof fn lemma_first_match_bounds(q: Seq<EnvelopeView>, room: i64)
    ensures
        0 <= first_match(q, room) <= q.len(),
    decreases q.len(),
{
    if q.len() > 0 && q[0].room_id != room {
        lemma_first_match_bounds(q.skip(1), room);
    }
}

/// What one publish adds to what a subscriber of `room` is yet to be handed:
/// the envelope, at the end, where it is of that room and the queue took it;
/// nothing otherwise.
pub open spec fn gained(q: Seq<EnvelopeView>, capacity: nat, e: EnvelopeView, room: i64) -> Seq<
    EnvelopeView,
> {
    if q.len() < capacity && e.room_id == room {
        seq![e]
    } else {
        Seq::empty()
    }
}

/// A publish only ever adds at the end of what a subscriber is yet to be handed.
pub proof fn lemma_publish_pending(q: Seq<EnvelopeView>, capacity: nat, e: EnvelopeView, room: i64)
    ensures
        pending(after_publish(q, capacity, e), room) == pending(q, room) + gained(
            q,
            capacity,
            e,
            room,
        ),
{
    let one = seq![e];
    assert(q.push(e) =~= q + one);
    lemma_pending_concat(q, one, room);
    assert(one.skip(1) =~= Seq::<EnvelopeView>::empty());
    assert(pending(one.skip(1), room) =~= Seq::<EnvelopeView>::empty());
    if e.room_id == room {
        assert(pending(one, room) =~= one);
    } else {
        assert(pending(one, room) =~= Seq::<EnvelopeView>::empty());
    }
    assert(pending(q, room) + Seq::<EnvelopeView>::empty() =~= pending(q, room));
}

/// Room isolation: an envelope published to another room never shows among
/// what a subscriber is handed. Its publish leaves what the subscriber is
/// yet to be handed as it was, and all of that is of the subscriber's room.
pub proof fn lemma_other_room_never_observed(
    q: Seq<EnvelopeView>,
    capacity: nat,
    e: EnvelopeView,
    room: i64,
)
    requires
        e.room_id != room,
    ensures
        pending(after_publish(q, capacity, e), room) == pending(q, room),
        !pending(after_publish(q, capacity, e), room).contains(e),
        next_delivery(after_publish(q, capacity, e), room) != Some(e),
{
    lemma_publish_pending(q, capacity, e, room);
    assert(pending(q, room) + Seq::<EnvelopeView>::empty() =~= pending(q, room));
    let after = after_publish(q, capacity, e);
    lemma_pending_rooms(after, room);
    lemma_receive_pending(after, room);
    if pending(after, room).contains(e) {
        let i = choose|i: int| 0 <= i < pending(after, room).len() && pending(after, room)[i] == e;
        assert(pending(after, room)[i].room_id == room);
    }
}

/// Order of delivery: of two envelopes published to one room, the first
/// then the second, a subscriber of that room is handed the first before the
/// second, and both after everything that was pending before. A subscriber
/// whose queue was full misses what did not fit; it never sees them swapped.
pub proof fn lemma_publish_order_kept(
    q: Seq<EnvelopeView>,
    capacity: nat,
    m1: EnvelopeView,
    m2: EnvelopeView,
    room: i64,
)
    requires
        m1.room_id == room,
        m2.room_id == room,
    ensures
        ({
            let q1 = after_publish(q, capacity, m1);
            let q2 = after_publish(q1, capacity, m2);
            pending(q2, room) == pending(q, room) + gained(q, capacity, m1, room) + gained(
                q1,
                capacity,
                m2,
                room,
            )
        }),
        q.len() + 2 <= capacity ==> pending(
            after_publish(after_publish(q, capacity, m1), capacity, m2),
            room,
        ) == pending(q, room).push(m1).push(m2),
{
    let q1 = after_publish(q, capacity, m1);
    lemma_publish_pending(q, capacity, m1, room);
    lemma_publish_pending(q1, capacity, m2, room);
    if q.len() + 2 <= capacity {
        assert(pending(q, room) + seq![m1] + seq![m2] =~= pending(q, room).push(m1).push(m2));
    }
}

/// Where no live subscriber has the number `id`, a release of it changes
/// nothing, nothing is delivered to it, and serving it changes nothing.
pub proof fn lemma_unsubscribed(subs: Seq<SubscriberView>, id: u64)
    requires
        !is_subscribed(subs, id),
    ensures
        released(subs, id) == subs,
        delivery(subs, id) is None,
        served(subs, id) == subs,
    decreases subs.len(),
{
    if subs.len() > 0 {
        let front = subs.drop_last();
        let last = subs.len() - 1;
        assert(subs[last].id != id);
        assert forall|i: int| 0 <= i < front.len() implies (#[trigger] front[i]).id != id by {
            assert(subs[i].id != id);
        }
        lemma_unsubscribed(front, id);
        assert(front.push(subs.last()) =~= subs);
    } else {
        assert(released(subs, id) =~= subs);
    }
    assert forall|i: int| 0 <= i < subs.len() implies served(subs, id)[i] == subs[i] by {
        assert(subs[i].id != id);
    }
    assert(served(subs, id) =~= subs);
}

/// Where the subscriber at position `k` is the only one numbered `id`,
/// releasing `id` takes exactly that subscriber out.
pub proof fn lemma_released_at(subs: Seq<SubscriberView>, id: u64, k: int)
    requires
        0 <= k < subs.len(),
        subs[k].id == id,
        forall|i: int| 0 <= i < subs.len() && (#[trigger] subs[i]).id == id ==> i == k,
    ensures
        released(subs, id) == subs.remove(k),
    decreases subs.len(),
{
    let front = subs.drop_last();
    let last = subs.len() - 1;
    if k == last {
        assert forall|i: int| 0 <= i < front.len() implies (#[trigger] front[i]).id != id by {
            if subs[i].id == id {
            }
        }
        lemma_unsubscribed(front, id);
        assert(subs.remove(k) =~= front);
    } else {
        assert(subs[last].id != id);
        assert forall|i: int| 0 <= i < front.len() && (#[trigger] front[i]).id == id implies i
            == k by {
            assert(subs[i].id == id);
        }
        lemma_released_at(front, id, k);
        assert(front.remove(k).push(subs.last()) =~= subs.remove(k));
    }
}

/// Where the subscriber at position `k` is the only one numbered `id`, what
/// is delivered to `id` is what that subscriber's queue holds next for
/// its room.
pub proof fn lemma_delivery_at(subs: Seq<SubscriberView>, id: u64, k: int)
    requires
        0 <= k < subs.len(),
        subs[k].id == id,
        forall|i: int| 0 <= i < subs.len() && (#[trigger] subs[i]).id == id ==> i == k,
    ensures
        delivery(subs, id) == next_delivery(subs[k].queue, subs[k].room_id),
    decreases subs.len(),
{
    let front = subs.drop_last();
    let last = subs.len() - 1;
    if k != last {
        assert(subs[last].id != id);
        assert forall|i: int| 0 <= i < front.len() && (#[trigger] front[i]).id == id implies i
            == k by {
            assert(subs[i].id == id);
        }
        lemma_delivery_at(front, id, k);
    }
}

/// Release is final and may be repeated. Once the subscription numbered
/// `id` has been released, no live subscriber has that number; releasing
/// it again changes nothing; a publish hands the envelope to the others and
/// brings the released one not back; and asking for its next envelope
/// yields nothing and touches nobody.
pub proof fn lemma_release_is_final(
    subs: Seq<SubscriberView>,
    capacity: nat,
    e: EnvelopeView,
    id: u64,
)
    ensures
        !is_subscribed(released(subs, id), id),
        released(released(subs, id), id) == released(subs, id),
        !is_subscribed(published(released(subs, id), capacity, e), id),
        delivery(published(released(subs, id), capacity, e), id) is None,
        served(published(released(subs, id), capacity, e), id) == published(
            released(subs, id),
            capacity,
            e,
        ),
{
    lemma_released_members(subs, id);
    let rest = released(subs, id);
    assert(!is_subscribed(rest, id)) by {
        if is_subscribed(rest, id) {
            let i = choose|i: int| 0 <= i < rest.len() && (#[trigger] rest[i]).id == id;
            assert(rest[i].id != id);
        }
    }
    lemma_unsubscribed(rest, id);
    lemma_publish_keeps_subscribers(rest, capacity, e, id);
    lemma_unsubscribed(published(rest, capacity, e), id);
}

/// What is left after a release are subscribers with other numbers.
pub proof fn lemma_released_members(subs: Seq<SubscriberView>, id: u64)
    ensures
        forall|i: int| 0 <= i < released(subs, id).len() ==> (#[trigger] released(subs, id)[i]).id != id,
    decreases subs.len(),
{
    if subs.len() > 0 {
        lemma_released_members(subs.drop_last(), id);
        let front = released(subs.drop_last(), id);
        if subs.last().id != id {
            assert forall|i: int| 0 <= i < released(subs, id).len() implies (#[trigger] released(
                subs,
                id,
            )[i]).id != id by {
                if i < front.len() {
                    assert(released(subs, id)[i] == front[i]);
                }
            }
        }
    }
}

/// A publish neither adds nor removes a subscriber.
pub proof fn lemma_publish_keeps_subscribers(
    subs: Seq<SubscriberView>,
    capacity: nat,
    e: EnvelopeView,
    id: u64,
)
    ensures
        is_subscribed(published(subs, capacity, e), id) == is_subscribed(subs, id),
{
    let after = published(subs, capacity, e);
    if is_subscribed(after, id) {
        let k = choose|k: int| 0 <= k < after.len() && (#[trigger] after[k]).id == id;
        assert(subs[k].id == id);
    }
    if is_subscribed(subs, id) {
        let k = choose|k: int| 0 <= k < subs.len() && (#[trigger] subs[k]).id == id;
        assert(after[k].id == id);
    }
}

} // verus!
