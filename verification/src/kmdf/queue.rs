//! A bounded queue of driver events that drops the oldest event when full.
use vstd::prelude::*;
use std::collections::VecDeque;
use crate::kmdf::filter_eval::DriverEvent;

verus! {

broadcast use vstd::std_specs::vecdeque::group_vec_dequeue_axioms;

/// Events in arrival order, at most `capacity` of them.
#[derive(Debug, Clone)]
pub struct EventQueue {
    capacity: usize,
    entries: VecDeque<DriverEvent>,
}

/// The queue after pushing `e` onto `q` with room for `cap`: nothing with
/// no room at all, else `e` at the back after dropping the oldest event if
/// the queue is full.
pub open spec fn queue_push(q: Seq<DriverEvent>, cap: nat, e: DriverEvent) -> Seq<DriverEvent> {
    if cap == 0 {
        q
    } else if q.len() >= cap {
        q.drop_first().push(e)
    } else {
        q.push(e)
    }
}

impl EventQueue {
    /// The queued events, oldest first.
    pub closed spec fn spec_entries(&self) -> Seq<DriverEvent> {
        self.entries@
    }

    pub closed spec fn spec_capacity(&self) -> nat {
        self.capacity as nat
    }

    /// The queue never holds more than its capacity.
    pub closed spec fn wf(&self) -> bool {
        self.entries@.len() <= self.capacity
    }

    /// An empty queue for at most `capacity` events.
    pub fn new(capacity: usize) -> (q: EventQueue)
        ensures
            q.wf(),
            q.spec_entries() == Seq::<DriverEvent>::empty(),
            q.spec_capacity() == capacity,
    {
        EventQueue { capacity, entries: VecDeque::new() }
    }

    /// Appends an event, dropping the oldest one when the queue is full; a
    /// queue of capacity 0 keeps nothing.
    pub fn push(&mut self, event: DriverEvent)
        requires
            old(self).wf(),
        ensures
            final(self).wf(),
            final(self).spec_capacity() == old(self).spec_capacity(),
            final(self).spec_entries() == queue_push(old(self).spec_entries(), old(self).spec_capacity(), event),
            old(self).spec_capacity() > 0 && old(self).spec_entries().len() == old(self).spec_capacity() ==> (forall|i: int|
                0 <= i < old(self).spec_capacity() - 1 ==> #[trigger] final(self).spec_entries()[i]
                    == old(self).spec_entries()[i + 1]) && final(self).spec_entries().last() == event,
    {
        if self.capacity == 0 {
            return;
        }
        if self.entries.len() == self.capacity {
            let _ = self.entries.pop_front();
        }
        self.entries.push_back(event);
    }

    /// Takes the oldest event.
    pub fn pop(&mut self) -> (r: Option<DriverEvent>)
        requires
            old(self).wf(),
        ensures
            final(self).wf(),
            final(self).spec_capacity() == old(self).spec_capacity(),
            old(self).spec_entries().len() == 0 ==> r is None && final(self).spec_entries() == old(self).spec_entries(),
            old(self).spec_entries().len() > 0 ==> r == Some(old(self).spec_entries()[0])
                && final(self).spec_entries() == old(self).spec_entries().drop_first(),
    {
        let r = self.entries.pop_front();
        proof {
            if old(self).entries@.len() > 0 {
                assert(self.entries@ =~= old(self).entries@.drop_first());
            }
        }
        r
    }

    /// How many events are queued.
    pub fn len(&self) -> (n: usize)
        ensures
            n == self.spec_entries().len(),
    {
        self.entries.len()
    }
}

/// Pushing keeps the queue within its capacity, and a pushed event is the
/// newest one whenever there is room at all.
pub proof fn lemma_queue_push_bounded(q: Seq<DriverEvent>, cap: nat, e: DriverEvent)
    requires
        q.len() <= cap,
    ensures
        queue_push(q, cap, e).len() <= cap,
        cap > 0 ==> queue_push(q, cap, e).last() == e,
        cap > 0 && q.len() == cap ==> queue_push(q, cap, e).len() == cap,
{
}

/// Pushing onto a queue that has room for `cap > 0` events: below capacity
/// every queued event stays where it was and `e` follows them; at
/// capacity the oldest event (the first) is the one dropped, the others
/// move up one place in their order, and `e` is the newest.
pub proof fn lemma_queue_push_drops_oldest(q: Seq<DriverEvent>, cap: nat, e: DriverEvent)
    requires
        cap > 0,
        q.len() <= cap,
    ensures
        q.len() < cap ==> queue_push(q, cap, e).len() == q.len() + 1
            && (forall|i: int| 0 <= i < q.len() ==> #[trigger] queue_push(q, cap, e)[i] == q[i])
            && queue_push(q, cap, e)[q.len() as int] == e,
        q.len() == cap ==> queue_push(q, cap, e).len() == cap
            && (forall|i: int| 0 <= i < cap - 1 ==> #[trigger] queue_push(q, cap, e)[i] == q[i + 1])
            && queue_push(q, cap, e)[cap - 1] == e,
{
}

/// Events come out of the queue in the order they went in: pushing `e`
/// onto a queue with room and then popping everything gives the events
/// that were queued, oldest first, then `e`; at capacity the oldest is
/// missing.
pub proof fn lemma_queue_fifo(q: Seq<DriverEvent>, cap: nat, e: DriverEvent)
    requires
        cap > 0,
        q.len() <= cap,
    ensures
        q.len() < cap ==> queue_push(q, cap, e) == q.push(e),
        q.len() == cap ==> queue_push(q, cap, e) == q.subrange(1, q.len() as int).push(e),
{
    lemma_queue_push_drops_oldest(q, cap, e);
    if q.len() < cap {
        assert(queue_push(q, cap, e) =~= q.push(e));
    } else {
        assert(queue_push(q, cap, e) =~= q.subrange(1, q.len() as int).push(e));
    }
}

} // verus!
