use vstd::prelude::*;

use keyed_priority_queue::KeyedPriorityQueue;
use std::hash::{BuildHasher, Hash};

verus! {

/// The priority queue of the `keyed_priority_queue` crate, whose contents are named by
/// [queue_contents].
#[verifier::external_type_specification]
#[verifier::external_body]
#[verifier::reject_recursive_types(TKey)]
#[verifier::reject_recursive_types(TPriority)]
#[verifier::reject_recursive_types(S)]
pub struct ExKeyedPriorityQueue<TKey: Hash + Eq, TPriority: Ord, S: BuildHasher>(KeyedPriorityQueue<TKey, TPriority, S>);

/// The keys of a queue with their priorities.
pub uninterp spec fn queue_contents(q: KeyedPriorityQueue<u128, i64>) -> Map<u128, i64>;

/// An empty queue, through `KeyedPriorityQueue::new`. Claimed: it holds nothing.
#[verifier::external_body]
pub(crate) fn queue_new() -> (res: KeyedPriorityQueue<u128, i64>)
    ensures
        queue_contents(res).dom().is_empty(),
{
    KeyedPriorityQueue::new()
}

/// `KeyedPriorityQueue::push`. Claimed, as its source shows: the key gets the priority (added when
/// missing, its priority replaced when present), and the old priority is returned.
#[verifier::external_body]
pub(crate) fn queue_push(q: &mut KeyedPriorityQueue<u128, i64>, key: u128, priority: i64) -> (res: Option<i64>)
    ensures
        queue_contents(*final(q)) == queue_contents(*old(q)).insert(key, priority),
        res == (if queue_contents(*old(q)).contains_key(key) {
            Some(queue_contents(*old(q))[key])
        } else {
            None
        }),
{
    q.push(key, priority)
}

/// `KeyedPriorityQueue::peek`, copied out. Claimed, as its source shows: `None` when the queue is empty,
/// else a key with a maximal priority and that priority.
#[verifier::external_body]
pub(crate) fn queue_peek(q: &KeyedPriorityQueue<u128, i64>) -> (res: Option<(u128, i64)>)
    ensures
        res is None <==> queue_contents(*q).dom().len() == 0,
        res matches Some((k, p)) ==> queue_contents(*q).contains_key(k) && queue_contents(*q)[k] == p && forall|
            j: u128,
        | #[trigger] queue_contents(*q).contains_key(j) ==> queue_contents(*q)[j] <= p,
{
    match q.peek() {
        Some((k, p)) => Some((*k, *p)),
        None => None,
    }
}

/// `KeyedPriorityQueue::pop`. Claimed, as its source shows: `None` (and nothing changes) when the queue is
/// empty, else a key with a maximal priority, which leaves the queue.
#[verifier::external_body]
pub(crate) fn queue_pop(q: &mut KeyedPriorityQueue<u128, i64>) -> (res: Option<(u128, i64)>)
    ensures
        res is None <==> queue_contents(*old(q)).dom().len() == 0,
        res is None ==> queue_contents(*final(q)) == queue_contents(*old(q)),
        res matches Some((k, p)) ==> {
            &&& queue_contents(*old(q)).contains_key(k)
            &&& queue_contents(*old(q))[k] == p
            &&& forall|j: u128| #[trigger] queue_contents(*old(q)).contains_key(j) ==> queue_contents(*old(q))[j] <= p
            &&& queue_contents(*final(q)) == queue_contents(*old(q)).remove(k)
        },
{
    q.pop()
}

/// `KeyedPriorityQueue::remove`. Claimed, as its source shows: the key leaves the queue, and its priority
/// is returned when it was there.
#[verifier::external_body]
pub(crate) fn queue_remove(q: &mut KeyedPriorityQueue<u128, i64>, key: u128) -> (res: Option<i64>)
    ensures
        queue_contents(*final(q)) == queue_contents(*old(q)).remove(key),
        res == (if queue_contents(*old(q)).contains_key(key) {
            Some(queue_contents(*old(q))[key])
        } else {
            None
        }),
{
    q.remove(&key)
}

} // verus!
