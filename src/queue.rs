//! Bounded FIFO queues of `crossbeam_queue::ArrayQueue`, seen through what
//! they hold. Every operation here takes the queue by exclusive reference,
//! so the contents before and after a call are well defined.
use vstd::prelude::*;
use crossbeam_queue::ArrayQueue;

verus! {

#[verifier::external_type_specification]
#[verifier::external_body]
#[verifier::reject_recursive_types(T)]
pub struct ExArrayQueue<T>(ArrayQueue<T>);

/// The task ids a queue holds, oldest first.
pub uninterp spec fn queued_ids(q: ArrayQueue<u64>) -> Seq<u64>;

/// The capacity a queue of task ids was made with.
pub uninterp spec fn id_queue_capacity(q: ArrayQueue<u64>) -> nat;

/// The bytes a queue holds, oldest first.
pub uninterp spec fn queued_bytes(q: ArrayQueue<u8>) -> Seq<u8>;

/// The capacity a queue of bytes was made with.
pub uninterp spec fn byte_queue_capacity(q: ArrayQueue<u8>) -> nat;

/// Relies on `ArrayQueue::new`: an empty queue of the given capacity; it
/// panics on a zero capacity or one whose next power of two overflows.
#[verifier::external_body]
pub(crate) fn new_id_queue(cap: usize) -> (q: ArrayQueue<u64>)
    requires
        0 < cap < usize::MAX / 2,
    ensures
        queued_ids(q) == Seq::<u64>::empty(),
        id_queue_capacity(q) == cap,
{
    ArrayQueue::new(cap)
}

/// Relies on `ArrayQueue::push_mut`: appends at the tail unless the queue
/// holds `capacity` items, in which case the item comes back as the error.
#[verifier::external_body]
pub(crate) fn push_id(q: &mut ArrayQueue<u64>, id: u64) -> (r: Result<(), u64>)
    ensures
        id_queue_capacity(*final(q)) == id_queue_capacity(*old(q)),
        queued_ids(*old(q)).len() < id_queue_capacity(*old(q)) ==> {
            &&& r == Ok::<(), u64>(())
            &&& queued_ids(*final(q)) == queued_ids(*old(q)).push(id)
        },
        queued_ids(*old(q)).len() >= id_queue_capacity(*old(q)) ==> {
            &&& r == Err::<(), u64>(id)
            &&& queued_ids(*final(q)) == queued_ids(*old(q))
        },
{
    q.push_mut(id)
}

/// Relies on `ArrayQueue::pop_mut`: removes the item at the head, `None`
/// on an empty queue.
#[verifier::external_body]
pub(crate) fn pop_id(q: &mut ArrayQueue<u64>) -> (r: Option<u64>)
    ensures
        id_queue_capacity(*final(q)) == id_queue_capacity(*old(q)),
        queued_ids(*old(q)).len() == 0 ==> {
            &&& r.is_none()
            &&& queued_ids(*final(q)) == queued_ids(*old(q))
        },
        queued_ids(*old(q)).len() > 0 ==> {
            &&& r == Some(queued_ids(*old(q))[0])
            &&& queued_ids(*final(q)) == queued_ids(*old(q)).drop_first()
        },
{
    q.pop_mut()
}

/// Relies on `ArrayQueue::is_empty`.
#[verifier::external_body]
pub(crate) fn ids_empty(q: &ArrayQueue<u64>) -> (r: bool)
    ensures
        r == (queued_ids(*q).len() == 0),
{
    q.is_empty()
}

/// Relies on `ArrayQueue::is_full`: the queue holds `capacity` items.
#[verifier::external_body]
pub(crate) fn ids_full(q: &ArrayQueue<u64>) -> (r: bool)
    ensures
        r == (queued_ids(*q).len() >= id_queue_capacity(*q)),
{
    q.is_full()
}

/// Relies on `ArrayQueue::new`, as `new_id_queue` does.
#[verifier::external_body]
pub(crate) fn new_byte_queue(cap: usize) -> (q: ArrayQueue<u8>)
    requires
        0 < cap < usize::MAX / 2,
    ensures
        queued_bytes(q) == Seq::<u8>::empty(),
        byte_queue_capacity(q) == cap,
{
    ArrayQueue::new(cap)
}

/// Relies on `ArrayQueue::push_mut`, as `push_id` does.
#[verifier::external_body]
pub(crate) fn push_byte(q: &mut ArrayQueue<u8>, b: u8) -> (r: Result<(), u8>)
    ensures
        byte_queue_capacity(*final(q)) == byte_queue_capacity(*old(q)),
        queued_bytes(*old(q)).len() < byte_queue_capacity(*old(q)) ==> {
            &&& r == Ok::<(), u8>(())
            &&& queued_bytes(*final(q)) == queued_bytes(*old(q)).push(b)
        },
        queued_bytes(*old(q)).len() >= byte_queue_capacity(*old(q)) ==> {
            &&& r == Err::<(), u8>(b)
            &&& queued_bytes(*final(q)) == queued_bytes(*old(q))
        },
{
    q.push_mut(b)
}

/// Relies on `ArrayQueue::pop_mut`, as `pop_id` does.
#[verifier::external_body]
pub(crate) fn pop_byte(q: &mut ArrayQueue<u8>) -> (r: Option<u8>)
    ensures
        byte_queue_capacity(*final(q)) == byte_queue_capacity(*old(q)),
        queued_bytes(*old(q)).len() == 0 ==> {
            &&& r.is_none()
            &&& queued_bytes(*final(q)) == queued_bytes(*old(q))
        },
        queued_bytes(*old(q)).len() > 0 ==> {
            &&& r == Some(queued_bytes(*old(q))[0])
            &&& queued_bytes(*final(q)) == queued_bytes(*old(q)).drop_first()
        },
{
    q.pop_mut()
}

} // verus!
