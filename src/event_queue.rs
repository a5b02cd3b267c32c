use vstd::prelude::*;

use priority_queue::PriorityQueue;

verus! {

/// The priority of a queued event: a pair that is greater for an earlier
/// time, and at equal times for a key inserted earlier.
pub type Priority = (u64, u64);

/// A queued key with its priority.
pub type QueueEntry = (usize, Priority);

/// The queue of event keys, earliest first.
pub type EventHeap = PriorityQueue<usize, Priority>;

#[verifier::external_type_specification]
#[verifier::external_body]
#[verifier::reject_recursive_types(I)]
#[verifier::reject_recursive_types(P)]
#[verifier::reject_recursive_types(H)]
pub struct ExPriorityQueue<I, P, H>(PriorityQueue<I, P, H>);

/// The queue's contents: each queued key with its priority.
pub uninterp spec fn queue_items(q: EventHeap) -> Map<usize, Priority>;

/// `a` is at most `b` in the lexicographic order std gives to pairs.
pub open spec fn priority_le(a: Priority, b: Priority) -> bool {
    a.0 < b.0 || (a.0 == b.0 && a.1 <= b.1)
}

/// Relies on `PriorityQueue::new`: a queue with no items.
#[verifier::external_body]
pub(crate) fn queue_new() -> (r: EventHeap)
    ensures
        queue_items(r).dom() == Set::<usize>::empty(),
{
    PriorityQueue::new()
}

/// Relies on `PriorityQueue::push`: the key is inserted with the priority, or
/// its priority replaced, and the old priority is returned.
#[verifier::external_body]
pub(crate) fn queue_push(q: &mut EventHeap, key: usize, priority: Priority) -> (r: Option<Priority>)
    ensures
        queue_items(*final(q)) == queue_items(*old(q)).insert(key, priority),
        r == (if queue_items(*old(q)).contains_key(key) {
            Some(queue_items(*old(q))[key])
        } else {
            None
        }),
{
    q.push(key, priority)
}

/// Relies on `PriorityQueue::peek`: an item of greatest priority, `None` only
/// when the queue is empty.
#[verifier::external_body]
pub(crate) fn queue_peek(q: &EventHeap) -> (r: Option<QueueEntry>)
    ensures
        r is None <==> queue_items(*q).dom() == Set::<usize>::empty(),
        r matches Some((k, p)) ==> {
            &&& queue_items(*q).contains_key(k)
            &&& queue_items(*q)[k] == p
            &&& forall|j: usize| #[trigger] queue_items(*q).contains_key(j) ==> priority_le(queue_items(*q)[j], p)
        },
{
    q.peek().map(|(k, p)| (*k, *p))
}

/// Relies on `PriorityQueue::remove`: the key leaves the queue, and its entry
/// is returned if it was there.
#[verifier::external_body]
pub(crate) fn queue_remove(q: &mut EventHeap, key: usize) -> (r: Option<QueueEntry>)
    ensures
        queue_items(*final(q)) == queue_items(*old(q)).remove(key),
        r == (if queue_items(*old(q)).contains_key(key) {
            Some((key, queue_items(*old(q))[key]))
        } else {
            None
        }),
{
    q.remove(&key)
}

} // verus!
