//! The event path: one publisher, many subscribers, each with a bounded
//! queue of its own.
//!
//! Publishing never waits for a subscriber. An event goes into the queue of
//! every subscriber that has room for it; a subscriber whose queue is full
//! has fallen too far behind and is disconnected.

use std::collections::VecDeque;
use vstd::prelude::*;
use crate::registry::{
    as_map, distinct, lemma_at, lemma_empty, lemma_push, lemma_remove, lemma_size, lemma_update,
    listed, slot,
};

verus! {

/// The receiving end of one subscriber. It cannot be copied.
#[derive(Debug)]
pub struct EventReceiver {
    id: u64,
}

impl View for EventReceiver {
    type V = u64;

    /// The identity of the subscriber.
    closed spec fn view(&self) -> u64 {
        self.id
    }
}

impl EventReceiver {
    /// The identity of the subscriber.
    pub fn id(&self) -> (id: u64)
        ensures
            id == self@,
    {
        self.id
    }
}

/// What a subscriber gets when it asks for its next event.
#[derive(Debug, PartialEq, Eq)]
pub enum Delivery<E> {
    /// The oldest event that it has not seen.
    Event(E),
    /// It has seen every event so far.
    Empty,
    /// It is not subscribed: it unsubscribed or was disconnected.
    Disconnected,
}

/// The broadcaster as a mathematical value.
pub ghost struct BroadcasterState<E> {
    /// For each subscriber, the events published since it subscribed that
    /// it has not taken yet, oldest first.
    pub queues: Map<u64, Seq<E>>,
    /// The number of events that a queue can hold.
    pub capacity: nat,
    /// The identity that the next subscriber gets.
    pub next_id: nat,
}

impl<E> BroadcasterState<E> {
    /// A broadcaster without subscribers.
    pub open spec fn fresh(capacity: nat) -> Self {
        BroadcasterState { queues: Map::empty(), capacity, next_id: 0 }
    }

    /// Whether an identity is left for one more subscriber.
    pub open spec fn can_subscribe(self) -> bool {
        self.next_id <= u64::MAX
    }

    /// The broadcaster after one more subscriber registered. Its queue is
    /// empty: it gets no event published before.
    pub open spec fn subscribe(self) -> Self {
        if self.can_subscribe() {
            BroadcasterState {
                queues: self.queues.insert(self.next_id as u64, Seq::empty()),
                next_id: self.next_id + 1,
                ..self
            }
        } else {
            self
        }
    }

    /// The broadcaster after `subscriber` left.
    pub open spec fn unsubscribe(self, subscriber: u64) -> Self {
        BroadcasterState { queues: self.queues.remove(subscriber), ..self }
    }

    /// Whether `subscriber` is registered and its queue can take one more
    /// event.
    pub open spec fn has_room(self, subscriber: u64) -> bool {
        self.queues.contains_key(subscriber) && self.queues[subscriber].len() < self.capacity
    }

    /// Whether `subscriber` is registered and its queue is full.
    pub open spec fn overflows(self, subscriber: u64) -> bool {
        self.queues.contains_key(subscriber) && self.queues[subscriber].len() >= self.capacity
    }

    /// The broadcaster after `event` was published: the subscribers with
    /// room have it at the end of their queues, the others are gone.
    pub open spec fn publish(self, event: E) -> Self {
        BroadcasterState {
            queues: Map::new(
                |subscriber: u64| self.has_room(subscriber),
                |subscriber: u64| self.queues[subscriber].push(event),
            ),
            ..self
        }
    }

    /// What `subscriber` gets next.
    pub open spec fn delivery(self, subscriber: u64) -> Delivery<E> {
        if !self.queues.contains_key(subscriber) {
            Delivery::Disconnected
        } else if self.queues[subscriber].len() == 0 {
            Delivery::Empty
        } else {
            Delivery::Event(self.queues[subscriber][0])
        }
    }

    /// The broadcaster after `subscriber` asked for its next event.
    pub open spec fn take(self, subscriber: u64) -> Self {
        if self.queues.contains_key(subscriber) && self.queues[subscriber].len() > 0 {
            BroadcasterState {
                queues: self.queues.insert(subscriber, self.queues[subscriber].skip(1)),
                ..self
            }
        } else {
            self
        }
    }
}

/// One subscriber with the events that wait for it.
struct Subscription<E> {
    id: u64,
    queue: VecDeque<E>,
}

/// The subscribers of `entries`, each with the events that wait for it.
spec fn pairs<E>(entries: Seq<Subscription<E>>) -> Seq<(u64, Seq<E>)> {
    entries.map_values(|entry: Subscription<E>| (entry.id, entry.queue@))
}

/// Each entry is found in the registry under its own identity.
proof fn lemma_entry_at<E>(entries: Seq<Subscription<E>>, i: int)
    requires
        distinct(pairs(entries)),
        0 <= i < entries.len(),
    ensures
        as_map(pairs(entries)).contains_key(entries[i].id),
        as_map(pairs(entries))[entries[i].id] == entries[i].queue@,
{
    lemma_at(pairs(entries), i);
}

/// Appending the entry of a new subscriber inserts it into the registry.
proof fn lemma_entry_pushed<E>(entries: Seq<Subscription<E>>, entry: Subscription<E>)
    requires
        distinct(pairs(entries)),
        !listed(pairs(entries), entry.id),
    ensures
        distinct(pairs(entries.push(entry))),
        as_map(pairs(entries.push(entry))) == as_map(pairs(entries)).insert(
            entry.id,
            entry.queue@,
        ),
{
    assert(pairs(entries.push(entry)) =~= pairs(entries).push((entry.id, entry.queue@)));
    lemma_push(pairs(entries), (entry.id, entry.queue@));
}

/// Removing an entry removes its subscriber from the registry.
proof fn lemma_entry_removed<E>(entries: Seq<Subscription<E>>, i: int)
    requires
        distinct(pairs(entries)),
        0 <= i < entries.len(),
    ensures
        distinct(pairs(entries.remove(i))),
        as_map(pairs(entries.remove(i))) == as_map(pairs(entries)).remove(entries[i].id),
{
    assert(pairs(entries.remove(i)) =~= pairs(entries).remove(i));
    lemma_remove(pairs(entries), i);
}

/// Changing the queue of an entry replaces it in the registry.
proof fn lemma_entry_changed<E>(
    entries: Seq<Subscription<E>>,
    changed: Seq<Subscription<E>>,
    i: int,
)
    requires
        distinct(pairs(entries)),
        0 <= i < entries.len(),
        changed.len() == entries.len(),
        changed[i].id == entries[i].id,
        forall|j: int| 0 <= j < entries.len() && j != i ==> changed[j] == entries[j],
    ensures
        distinct(pairs(changed)),
        as_map(pairs(changed)) == as_map(pairs(entries)).insert(
            entries[i].id,
            changed[i].queue@,
        ),
{
    assert(pairs(changed) =~= pairs(entries).update(i, (entries[i].id, changed[i].queue@)));
    lemma_update(pairs(entries), i, changed[i].queue@);
}

/// Position of `subscriber` among `entries`, if it is there.
fn find<E>(entries: &Vec<Subscription<E>>, subscriber: u64) -> (found: Option<usize>)
    ensures
        match found {
            Some(i) => i < entries@.len() && entries@[i as int].id == subscriber && listed(
                pairs(entries@),
                subscriber,
            ),
            None => !listed(pairs(entries@), subscriber),
        },
{
    let mut i: usize = 0;
    while i < entries.len()
        invariant
            i <= entries@.len(),
            forall|j: int| 0 <= j < i ==> pairs(entries@)[j].0 != subscriber,
        decreases entries@.len() - i,
    {
        if entries[i].id == subscriber {
            assert(pairs(entries@)[i as int].0 == subscriber);
            return Some(i);
        }
        i += 1;
    }
    None
}

/// The fan-out registry of the event path.
pub struct EventBroadcaster<E> {
    subscriptions: Vec<Subscription<E>>,
    capacity: usize,
    next_id: u64,
    exhausted: bool,
}

impl<E> View for EventBroadcaster<E> {
    type V = BroadcasterState<E>;

    closed spec fn view(&self) -> BroadcasterState<E> {
        BroadcasterState {
            queues: as_map(pairs(self.subscriptions@)),
            capacity: self.capacity as nat,
            next_id: if self.exhausted {
                u64::MAX as nat + 1
            } else {
                self.next_id as nat
            },
        }
    }
}

impl<E> EventBroadcaster<E> {
    /// What holds of every broadcaster: no subscriber is registered twice,
    /// each identity was handed out by this broadcaster, and no queue
    /// holds more than the capacity.
    pub closed spec fn wf(&self) -> bool {
        &&& distinct(pairs(self.subscriptions@))
        &&& forall|i: int|
            0 <= i < self.subscriptions@.len() ==> (#[trigger] self.subscriptions@[i]).id
                < self@.next_id
        &&& forall|i: int|
            0 <= i < self.subscriptions@.len() ==> (#[trigger] self.subscriptions@[i]).queue@.len()
                <= self.capacity
    }

    /// A broadcaster without subscribers, whose queues hold up to
    /// `capacity` events each.
    pub fn new(capacity: usize) -> (broadcaster: Self)
        ensures
            broadcaster.wf(),
            broadcaster@ == BroadcasterState::<E>::fresh(capacity as nat),
    {
        let broadcaster = EventBroadcaster {
            subscriptions: Vec::new(),
            capacity,
            next_id: 0,
            exhausted: false,
        };
        proof {
            lemma_empty(pairs(broadcaster.subscriptions@));
        }
        broadcaster
    }

    /// Registers a subscriber. It gets every event published from now on
    /// and none published before. Returns nothing when the identities have
    /// run out.
    pub fn subscribe(&mut self) -> (receiver: Option<EventReceiver>)
        requires
            old(self).wf(),
        ensures
            final(self).wf(),
            final(self)@ == old(self)@.subscribe(),
            old(self)@.can_subscribe() <==> receiver.is_some(),
            receiver.is_some() ==> receiver.unwrap()@ == old(self)@.next_id,
            receiver.is_some() ==> !old(self)@.queues.contains_key(receiver.unwrap()@),
    {
        if self.exhausted {
            return None;
        }
        let id: u64 = self.next_id;
        let ghost before = self.subscriptions@;
        assert(!listed(pairs(before), id)) by {
            if listed(pairs(before), id) {
                let i = slot(pairs(before), id);
                assert(before[i].id < id);
            }
        }
        if id == u64::MAX {
            self.exhausted = true;
        } else {
            self.next_id = id + 1;
        }
        let entry = Subscription { id, queue: VecDeque::new() };
        proof {
            lemma_entry_pushed(before, entry);
        }
        self.subscriptions.push(entry);
        Some(EventReceiver { id })
    }

    /// Removes a subscriber. No event published from now on reaches it.
    pub fn unsubscribe(&mut self, receiver: EventReceiver)
        requires
            old(self).wf(),
        ensures
            final(self).wf(),
            final(self)@ == old(self)@.unsubscribe(receiver@),
    {
        match find(&self.subscriptions, receiver.id) {
            None => {
                assert(self@.queues.remove(receiver@) =~= self@.queues);
            },
            Some(i) => {
                proof {
                    lemma_entry_removed(self.subscriptions@, i as int);
                }
                self.subscriptions.remove(i);
            },
        }
    }

    /// Hands `receiver` the oldest event that it has not seen, if there is
    /// one, and says otherwise whether it is still subscribed.
    pub fn next_event(&mut self, receiver: &EventReceiver) -> (next: Delivery<E>)
        requires
            old(self).wf(),
        ensures
            final(self).wf(),
            next == old(self)@.delivery(receiver@),
            final(self)@ == old(self)@.take(receiver@),
    {
        match find(&self.subscriptions, receiver.id) {
            None => Delivery::Disconnected,
            Some(i) => {
                let ghost before = self.subscriptions@;
                proof {
                    lemma_entry_at(before, i as int);
                }
                match self.subscriptions[i].queue.pop_front() {
                    None => {
                        proof {
                            lemma_entry_changed(before, self.subscriptions@, i as int);
                            assert(self@.queues =~= old(self)@.queues);
                        }
                        Delivery::Empty
                    },
                    Some(event) => {
                        proof {
                            let rest = before[i as int].queue@.skip(1);
                            assert(self.subscriptions@[i as int].queue@ =~= rest);
                            lemma_entry_changed(before, self.subscriptions@, i as int);
                        }
                        Delivery::Event(event)
                    },
                }
            },
        }
    }

    /// Whether one more subscriber can register.
    pub fn can_subscribe(&self) -> (possible: bool)
        ensures
            possible == self@.can_subscribe(),
    {
        !self.exhausted
    }

    /// Number of subscribers.
    pub fn subscriber_count(&self) -> (count: usize)
        requires
            self.wf(),
        ensures
            count == self@.queues.dom().len(),
            self@.queues.dom().finite(),
    {
        proof {
            lemma_size(pairs(self.subscriptions@));
        }
        self.subscriptions.len()
    }

    /// Whether `receiver` is subscribed.
    pub fn is_subscribed(&self, receiver: &EventReceiver) -> (subscribed: bool)
        ensures
            subscribed == self@.queues.contains_key(receiver@),
    {
        find(&self.subscriptions, receiver.id).is_some()
    }

    /// The number of events that a queue can hold.
    pub fn capacity(&self) -> (capacity: usize)
        ensures
            capacity == self@.capacity,
    {
        self.capacity
    }
}

impl<E: Copy> EventBroadcaster<E> {
    /// Publishes `event` to every subscriber, without waiting for any. A
    /// subscriber with room in its queue gets the event behind those it has
    /// not taken yet. A subscriber whose queue is full is disconnected;
    /// the identities of those are returned, each once.
    pub fn publish(&mut self, event: E) -> (dropped: Vec<u64>)
        requires
            old(self).wf(),
        ensures
            final(self).wf(),
            final(self)@ == old(self)@.publish(event),
            dropped@.no_duplicates(),
            forall|subscriber: u64| #[trigger]
                dropped@.contains(subscriber) <==> old(self)@.overflows(subscriber),
    {
        let ghost orig = self@;
        let ghost mut seen: Set<u64> = Set::empty();
        let mut dropped: Vec<u64> = Vec::new();
        let mut i: usize = 0;
        while i < self.subscriptions.len()
            invariant
                self.wf(),
                self@.capacity == orig.capacity,
                self@.next_id == orig.next_id,
                i <= self.subscriptions@.len(),
                forall|j: int| 0 <= j < i ==> seen.contains(#[trigger] self.subscriptions@[j].id),
                forall|j: int|
                    i <= j < self.subscriptions@.len() ==> !seen.contains(
                        #[trigger] self.subscriptions@[j].id,
                    ),
                forall|s: u64| seen.contains(s) ==> orig.queues.contains_key(s),
                self@.queues =~= Map::new(
                    |s: u64|
                        orig.queues.contains_key(s) && !(seen.contains(s) && orig.overflows(s)),
                    |s: u64|
                        if seen.contains(s) {
                            orig.queues[s].push(event)
                        } else {
                            orig.queues[s]
                        },
                ),
                dropped@.no_duplicates(),
                forall|s: u64| #[trigger]
                    dropped@.contains(s) ==> seen.contains(s) && orig.overflows(s),
                forall|s: u64|
                    seen.contains(s) && #[trigger] orig.overflows(s) ==> dropped@.contains(s),
            decreases self.subscriptions@.len() - i,
        {
            let ghost before = self.subscriptions@;
            let ghost current = before[i as int].id;
            proof {
                lemma_entry_at(before, i as int);
                assert(!seen.contains(before[i as int].id));
                assert(self@.queues.contains_key(current));
                assert(orig.queues[current] == before[i as int].queue@);
            }
            if self.subscriptions[i].queue.len() < self.capacity {
                self.subscriptions[i].queue.push_back(event);
                proof {
                    lemma_entry_changed(before, self.subscriptions@, i as int);
                    seen = seen.insert(current);
                    assert forall|j: int| i < j < self.subscriptions@.len() implies !seen.contains(
                        #[trigger] self.subscriptions@[j].id,
                    ) by {
                        assert(pairs(before)[j].0 != pairs(before)[i as int].0);
                    }
                }
                i += 1;
            } else {
                proof {
                    lemma_entry_removed(before, i as int);
                }
                let ghost listed_before = dropped@;
                let entry = self.subscriptions.remove(i);
                dropped.push(entry.id);
                proof {
                    seen = seen.insert(current);
                    assert forall|j: int|
                        i <= j < self.subscriptions@.len() implies !seen.contains(
                        #[trigger] self.subscriptions@[j].id,
                    ) by {
                        assert(self.subscriptions@[j] == before[j + 1]);
                        assert(pairs(before)[j + 1].0 != pairs(before)[i as int].0);
                    }
                    assert forall|j: int| 0 <= j < i implies seen.contains(
                        #[trigger] self.subscriptions@[j].id,
                    ) by {
                        assert(self.subscriptions@[j] == before[j]);
                    }
                    assert forall|j: int|
                        0 <= j < self.subscriptions@.len() implies (
                    #[trigger] self.subscriptions@[j]).id < self@.next_id by {
                        let j0 = if j < i { j } else { j + 1 };
                        assert(self.subscriptions@[j] == before[j0]);
                    }
                    assert forall|j: int|
                        0 <= j < self.subscriptions@.len() implies (
                    #[trigger] self.subscriptions@[j]).queue@.len() <= self.capacity by {
                        let j0 = if j < i { j } else { j + 1 };
                        assert(self.subscriptions@[j] == before[j0]);
                    }
                    assert(!listed_before.contains(current));
                    assert(dropped@.no_duplicates()) by {
                        assert forall|a: int, b: int|
                            0 <= a < dropped@.len() && 0 <= b < dropped@.len() && a
                                != b implies dropped@[a] != dropped@[b] by {
                            if a < listed_before.len() {
                                assert(listed_before.contains(dropped@[a]));
                            }
                            if b < listed_before.len() {
                                assert(listed_before.contains(dropped@[b]));
                            }
                        }
                    }
                    assert forall|s: u64| #[trigger] dropped@.contains(s) implies seen.contains(
                        s,
                    ) && orig.overflows(s) by {
                        let a = choose|a: int| 0 <= a < dropped@.len() && dropped@[a] == s;
                        if a < listed_before.len() {
                            assert(listed_before.contains(s));
                        }
                    }
                    assert forall|s: u64|
                        seen.contains(s) && #[trigger] orig.overflows(s) implies dropped@.contains(
                        s,
                    ) by {
                        if s == current {
                            assert(dropped@[listed_before.len() as int] == s);
                        } else {
                            assert(listed_before.contains(s));
                            let a = choose|a: int|
                                0 <= a < listed_before.len() && listed_before[a] == s;
                            assert(dropped@[a] == s);
                        }
                    }
                }
            }
        }
        proof {
            assert forall|s: u64| orig.queues.contains_key(s) implies seen.contains(s) by {
                if self@.queues.contains_key(s) {
                    let j = slot(pairs(self.subscriptions@), s);
                    assert(self.subscriptions@[j].id == s);
                }
            }
            assert(self@.queues =~= orig.publish(event).queues);
            assert forall|s: u64| #[trigger] dropped@.contains(s) <==> orig.overflows(s) by {
                if orig.overflows(s) {
                    assert(seen.contains(s));
                    assert(dropped@.contains(s));
                }
                if dropped@.contains(s) {
                    assert(orig.overflows(s));
                }
            }
        }
        dropped
    }
}

/// One operation on a broadcaster.
pub ghost enum BroadcastOp<E> {
    Subscribe,
    Unsubscribe { subscriber: u64 },
    Publish { event: E },
    Take { subscriber: u64 },
}

impl<E> BroadcasterState<E> {
    /// What holds of the state of every broadcaster: each subscriber got
    /// its identity from it, and no queue holds more than the capacity.
    pub open spec fn valid(self) -> bool {
        &&& self.next_id <= u64::MAX + 1
        &&& forall|subscriber: u64| #[trigger]
            self.queues.contains_key(subscriber) ==> subscriber < self.next_id
                && self.queues[subscriber].len() <= self.capacity
    }

    /// The broadcaster after `op`.
    pub open spec fn apply(self, op: BroadcastOp<E>) -> Self {
        match op {
            BroadcastOp::Subscribe => self.subscribe(),
            BroadcastOp::Unsubscribe { subscriber } => self.unsubscribe(subscriber),
            BroadcastOp::Publish { event } => self.publish(event),
            BroadcastOp::Take { subscriber } => self.take(subscriber),
        }
    }

    /// The broadcaster after the operations of `ops`, in order.
    pub open spec fn apply_all(self, ops: Seq<BroadcastOp<E>>) -> Self
        decreases ops.len(),
    {
        if ops.len() == 0 {
            self
        } else {
            self.apply_all(ops.drop_last()).apply(ops.last())
        }
    }

    /// The broadcaster after the events of `events` were published, in
    /// order.
    pub open spec fn publish_all(self, events: Seq<E>) -> Self
        decreases events.len(),
    {
        if events.len() == 0 {
            self
        } else {
            self.publish_all(events.drop_last()).publish(events.last())
        }
    }
}

impl<E> EventBroadcaster<E> {
    /// The state of a well-formed broadcaster is valid.
    pub proof fn lemma_view_valid(&self)
        requires
            self.wf(),
        ensures
            self@.valid(),
    {
        assert forall|subscriber: u64| #[trigger]
            self@.queues.contains_key(subscriber) implies subscriber < self@.next_id
            && self@.queues[subscriber].len() <= self@.capacity by {
            let i = slot(pairs(self.subscriptions@), subscriber);
            lemma_entry_at(self.subscriptions@, i);
        }
    }
}

/// Every operation keeps the state valid: queues stay within the capacity
/// and identities are never handed out twice.
pub proof fn lemma_apply_keeps_valid<E>(state: BroadcasterState<E>, op: BroadcastOp<E>)
    requires
        state.valid(),
    ensures
        state.apply(op).valid(),
{
    let next = state.apply(op);
    assert forall|subscriber: u64| #[trigger]
        next.queues.contains_key(subscriber) implies subscriber < next.next_id
        && next.queues[subscriber].len() <= next.capacity by {
        if state.queues.contains_key(subscriber) {
            assert(subscriber < state.next_id);
        }
    }
}

/// A client that disconnected stays out: whatever happens afterwards, it
/// is not in the registry, so no event published later ever reaches it.
pub proof fn lemma_disconnected_stays_out<E>(
    state: BroadcasterState<E>,
    subscriber: u64,
    ops: Seq<BroadcastOp<E>>,
)
    requires
        state.valid(),
        state.queues.contains_key(subscriber),
    ensures
        !state.unsubscribe(subscriber).queues.contains_key(subscriber),
        state.unsubscribe(subscriber).apply_all(ops).valid(),
        subscriber < state.unsubscribe(subscriber).apply_all(ops).next_id,
        !state.unsubscribe(subscriber).apply_all(ops).queues.contains_key(subscriber),
        state.unsubscribe(subscriber).apply_all(ops).delivery(subscriber) == Delivery::<
            E,
        >::Disconnected,
    decreases ops.len(),
{
    let gone = state.unsubscribe(subscriber);
    if ops.len() == 0 {
        assert forall|s: u64| #[trigger] gone.queues.contains_key(s) implies s < gone.next_id
            && gone.queues[s].len() <= gone.capacity by {
            assert(state.queues.contains_key(s));
        }
    } else {
        lemma_disconnected_stays_out(state, subscriber, ops.drop_last());
        lemma_apply_keeps_valid(gone.apply_all(ops.drop_last()), ops.last());
    }
}

/// Publishing reaches every subscriber with room, whatever the state of
/// the others: a subscriber that has fallen behind delays nobody. When all
/// subscribers have room, all of them get the event and none is lost.
pub proof fn lemma_publish_reaches_all<E>(state: BroadcasterState<E>, event: E)
    ensures
        forall|subscriber: u64| #[trigger]
            state.has_room(subscriber) ==> state.publish(event).queues.contains_key(subscriber)
                && state.publish(event).queues[subscriber] == state.queues[subscriber].push(
                event,
            ),
        forall|subscriber: u64| #[trigger]
            state.publish(event).queues.contains_key(subscriber) ==> state.has_room(subscriber),
        (forall|subscriber: u64| #[trigger]
            state.queues.contains_key(subscriber) ==> state.has_room(subscriber))
            ==> state.publish(event).queues.dom() == state.queues.dom(),
{
    if forall|subscriber: u64| #[trigger]
        state.queues.contains_key(subscriber) ==> state.has_room(subscriber) {
        assert(state.publish(event).queues.dom() =~= state.queues.dom());
    }
}

/// A subscriber with room for them gets the events in the order in which
/// they were published, each once, behind those it had not taken yet.
pub proof fn lemma_events_arrive_in_order<E>(
    state: BroadcasterState<E>,
    subscriber: u64,
    events: Seq<E>,
)
    requires
        state.queues.contains_key(subscriber),
        state.queues[subscriber].len() + events.len() <= state.capacity,
    ensures
        state.publish_all(events).capacity == state.capacity,
        state.publish_all(events).queues.contains_key(subscriber),
        state.publish_all(events).queues[subscriber] == state.queues[subscriber] + events,
    decreases events.len(),
{
    if events.len() == 0 {
        assert(state.queues[subscriber] + events =~= state.queues[subscriber]);
    } else {
        let earlier = events.drop_last();
        lemma_events_arrive_in_order(state, subscriber, earlier);
        let before = state.publish_all(earlier);
        assert(before.has_room(subscriber));
        assert(before.queues[subscriber].push(events.last()) =~= state.queues[subscriber]
            + events);
    }
}

/// A new subscriber gets exactly the events published after it
/// subscribed: none from before, and none of the later ones is missing, as
/// long as its queue holds them.
pub proof fn lemma_subscriber_gets_later_events<E>(state: BroadcasterState<E>, events: Seq<E>)
    requires
        state.valid(),
        state.can_subscribe(),
        events.len() <= state.capacity,
    ensures
        state.subscribe().publish_all(events).queues.contains_key(state.next_id as u64),
        state.subscribe().publish_all(events).queues[state.next_id as u64] == events,
{
    let subscriber = state.next_id as u64;
    let joined = state.subscribe();
    assert(joined.queues[subscriber] =~= Seq::<E>::empty());
    lemma_events_arrive_in_order(joined, subscriber, events);
    assert(Seq::<E>::empty() + events =~= events);
}

} // verus!
