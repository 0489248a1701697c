//! The bounded lock-free queue that tasks and interrupt handlers share.
//!
//! A queue is reached through shared references from the run loop and from
//! interrupt context alike, so what it holds may change between any two
//! calls: the contracts here promise nothing of its contents.

use core::task::Waker;
use crossbeam_queue::ArrayQueue;
use vstd::prelude::*;

verus! {

/// `crossbeam_queue::ArrayQueue`: a bounded queue that many producers and
/// consumers may use at once.
#[verifier::external_type_specification]
#[verifier::external_body]
#[verifier::reject_recursive_types(T)]
pub struct ExArrayQueue<T>(ArrayQueue<T>);

/// `core::task::Waker`: a handle that marks a task ready when woken.
#[verifier::external_type_specification]
#[verifier::external_body]
pub struct ExWaker(Waker);

/// The number of scancodes that a queue of scancodes was made for. A queue
/// keeps the capacity that it was made with for its whole life.
pub uninterp spec fn scancode_queue_capacity(queue: ArrayQueue<u8>) -> nat;

/// The number of task identifiers that a ready queue was made for. A queue
/// keeps the capacity that it was made with for its whole life.
pub uninterp spec fn ready_queue_capacity(queue: ArrayQueue<u64>) -> nat;

/// `ArrayQueue::new` for a queue of bytes: an empty queue whose capacity is
/// `capacity`. The call panics for a capacity of zero and for a buffer
/// beyond the address space, which the bounds here keep away.
#[verifier::external_body]
pub(crate) fn scancode_queue_new(capacity: usize) -> (queue: ArrayQueue<u8>)
    requires
        0 < capacity <= 0x1_0000,
    ensures
        scancode_queue_capacity(queue) == capacity,
{
    ArrayQueue::new(capacity)
}

/// `ArrayQueue::new` for a queue of task identifiers: an empty queue whose
/// capacity is `capacity`. The call panics for a capacity of zero and for a
/// buffer beyond the address space, which the bounds here keep away.
#[verifier::external_body]
pub(crate) fn ready_queue_new(capacity: usize) -> (queue: ArrayQueue<u64>)
    requires
        0 < capacity <= 0x1_0000,
    ensures
        ready_queue_capacity(queue) == capacity,
{
    ArrayQueue::new(capacity)
}

/// `ArrayQueue::push`: puts `value` at the back of the queue, or hands it
/// back when the queue is full.
#[verifier::external_body]
pub(crate) fn queue_push<T>(queue: &ArrayQueue<T>, value: T) -> (pushed: Result<(), T>) {
    queue.push(value).map_err(|full| full.0)
}

/// `ArrayQueue::pop`: takes the item at the front of the queue, if there is
/// one.
#[verifier::external_body]
pub(crate) fn queue_pop<T>(queue: &ArrayQueue<T>) -> (item: Option<T>) {
    queue.pop().ok()
}

/// `ArrayQueue::is_empty`: whether the queue held nothing at the moment of
/// the call.
#[verifier::external_body]
pub(crate) fn queue_is_empty<T>(queue: &ArrayQueue<T>) -> (empty: bool) {
    queue.is_empty()
}

} // verus!
