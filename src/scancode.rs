//! Bridge from the keyboard interrupt to the task that reads scancodes.
//!
//! The interrupt side pushes bytes into a bounded queue and wakes the
//! registered reader; the reader drains the queue and, when it finds it
//! empty, registers its waker and checks the queue once more.
//!
//! Both sides take the stream by exclusive reference, so within one call
//! nothing can arrive between the steps, and the second check of `poll_next`
//! never finds a byte here. What keeps wakeups from being lost in the kernel
//! is that callers serialise the two sides (the reader holds the stream's
//! lock only with interrupts disabled). `lemma_no_lost_wakeup` shows that the
//! check, register, check-again protocol would also be safe if an add could
//! fall between its steps.
use vstd::prelude::*;
use core::task::Waker;
use crossbeam_queue::ArrayQueue;
use futures_util::task::AtomicWaker;
use crate::queue::{byte_queue_capacity, new_byte_queue, pop_byte, push_byte, queued_bytes};

verus! {

/// Capacity of the scancode queue.
pub const QUEUE_CAPACITY: usize = 1024;

#[verifier::external_type_specification]
#[verifier::external_body]
pub struct ExWaker(Waker);

#[verifier::external_type_specification]
#[verifier::external_body]
pub struct ExAtomicWaker(AtomicWaker);

/// The single waker slot holds a waker.
pub uninterp spec fn slot_filled(w: AtomicWaker) -> bool;

/// Relies on `AtomicWaker::new`: an empty slot.
#[verifier::external_body]
fn new_slot() -> (r: AtomicWaker)
    ensures
        !slot_filled(r),
{
    AtomicWaker::new()
}

/// Relies on `AtomicWaker::register`: with no wake running concurrently (the
/// slot is held exclusively) it stores a clone of `waker`, replacing any
/// earlier one.
#[verifier::external_body]
fn register_waker(slot: &mut AtomicWaker, waker: &Waker)
    ensures
        slot_filled(*final(slot)),
{
    slot.register(waker)
}

/// Relies on `AtomicWaker::take`: removes the stored waker, if any.
#[verifier::external_body]
fn take_waker(slot: &mut AtomicWaker) -> (r: Option<Waker>)
    ensures
        r.is_some() == slot_filled(*old(slot)),
        !slot_filled(*final(slot)),
{
    slot.take()
}

/// Relies on `Waker::wake`: schedules the task the waker belongs to.
#[verifier::external_body]
fn wake_by_value(waker: Waker) {
    waker.wake()
}

/// What became of a scancode handed to `add_scancode`.
#[derive(Clone, Copy, Debug, PartialEq, Eq, Structural)]
pub enum Delivery {
    /// The queue was full: the byte was dropped.
    Dropped,
    /// Queued; no reader was waiting.
    Queued,
    /// Queued, and the waiting reader was woken.
    QueuedAndWoke,
}

/// Queue contents and slot state after the interrupt side adds `b`, and
/// what became of `b`.
pub open spec fn add_spec(bytes: Seq<u8>, registered: bool, capacity: nat, b: u8) -> (
    Seq<u8>,
    bool,
    Delivery,
) {
    if bytes.len() < capacity {
        (bytes.push(b), false, if registered { Delivery::QueuedAndWoke } else { Delivery::Queued })
    } else {
        (bytes, registered, Delivery::Dropped)
    }
}

/// First step of a poll: take a byte if one is queued.
pub open spec fn check_spec(bytes: Seq<u8>, registered: bool) -> (Option<u8>, Seq<u8>, bool) {
    if bytes.len() > 0 {
        (Some(bytes[0]), bytes.drop_first(), registered)
    } else {
        (None, bytes, registered)
    }
}

/// Second step of a poll that found the queue empty: register the waker.
pub open spec fn register_spec(bytes: Seq<u8>, registered: bool) -> (Seq<u8>, bool) {
    (bytes, true)
}

/// Third step: check again; a byte found now is delivered and the slot
/// cleared, so that no extra wake follows.
pub open spec fn recheck_spec(bytes: Seq<u8>, registered: bool) -> (Option<u8>, Seq<u8>, bool) {
    if bytes.len() > 0 {
        (Some(bytes[0]), bytes.drop_first(), false)
    } else {
        (None, bytes, registered)
    }
}

/// A whole poll: `Some(b)` is a delivered byte, `None` means pending.
pub open spec fn poll_spec(bytes: Seq<u8>, registered: bool) -> (Option<u8>, Seq<u8>, bool) {
    let c = check_spec(bytes, registered);
    if c.0 is Some {
        c
    } else {
        let r = register_spec(c.1, c.2);
        recheck_spec(r.0, r.1)
    }
}

/// Queue of raw scancodes together with the waker of the one reader.
pub struct ScancodeStream {
    queue: ArrayQueue<u8>,
    waker: AtomicWaker,
}

impl ScancodeStream {
    /// Bytes waiting to be read, oldest first.
    pub closed spec fn bytes(&self) -> Seq<u8> {
        queued_bytes(self.queue)
    }

    /// Capacity of the queue.
    pub closed spec fn capacity(&self) -> nat {
        byte_queue_capacity(self.queue)
    }

    /// A reader's waker is registered.
    pub closed spec fn registered(&self) -> bool {
        slot_filled(self.waker)
    }

    /// An empty queue of `QUEUE_CAPACITY` bytes with no reader registered.
    pub fn new() -> (r: Self)
        ensures
            r.bytes() == Seq::<u8>::empty(),
            r.capacity() == QUEUE_CAPACITY,
            !r.registered(),
    {
        ScancodeStream { queue: new_byte_queue(QUEUE_CAPACITY), waker: new_slot() }
    }

    /// Interrupt side: queues `scancode` without blocking and wakes the
    /// registered reader, if any. A full queue drops the byte.
    pub fn add_scancode(&mut self, scancode: u8) -> (r: Delivery)
        ensures
            final(self).capacity() == old(self).capacity(),
            (final(self).bytes(), final(self).registered(), r) == add_spec(
                old(self).bytes(),
                old(self).registered(),
                old(self).capacity(),
                scancode,
            ),
    {
        match push_byte(&mut self.queue, scancode) {
            Err(_) => Delivery::Dropped,
            Ok(()) => match take_waker(&mut self.waker) {
                Some(w) => {
                    wake_by_value(w);
                    Delivery::QueuedAndWoke
                },
                None => Delivery::Queued,
            },
        }
    }

    /// Reader side: the next byte, or `None` (pending) after registering
    /// `waker` to be woken when a byte arrives.
    pub fn poll_next(&mut self, waker: &Waker) -> (r: Option<u8>)
        ensures
            final(self).capacity() == old(self).capacity(),
            (r, final(self).bytes(), final(self).registered()) == poll_spec(
                old(self).bytes(),
                old(self).registered(),
            ),
    {
        match pop_byte(&mut self.queue) {
            Some(b) => return Some(b),
            None => {},
        }
        register_waker(&mut self.waker, waker);
        match pop_byte(&mut self.queue) {
            None => None,
            Some(b) => {
                let _ = take_waker(&mut self.waker);
                Some(b)
            },
        }
    }
}

/// A byte added by the interrupt side while the reader polls an empty queue
/// is never lost: whether it arrives before the first check, between the
/// check and the registration, between the registration and the second
/// check, or after the poll went pending, either that poll delivers it or
/// the reader is woken and its next poll delivers it. (`capacity > 0`: the
/// empty queue has room for the byte, as in every stream `new` makes.)
pub proof fn lemma_no_lost_wakeup(registered: bool, capacity: nat, b: u8)
    requires
        capacity > 0,
    ensures
        ({
            let empty = Seq::<u8>::empty();
            // before the first check
            let a0 = add_spec(empty, registered, capacity, b);
            // between the check and the registration
            let c1 = check_spec(empty, registered);
            let a1 = add_spec(c1.1, c1.2, capacity, b);
            let g1 = register_spec(a1.0, a1.1);
            // between the registration and the second check
            let g2 = register_spec(c1.1, c1.2);
            let a2 = add_spec(g2.0, g2.1, capacity, b);
            // after the poll went pending
            let pended = poll_spec(empty, registered);
            let a3 = add_spec(pended.1, pended.2, capacity, b);
            &&& poll_spec(a0.0, a0.1).0 == Some(b)
            &&& c1.0.is_none() && recheck_spec(g1.0, g1.1).0 == Some(b)
            &&& recheck_spec(a2.0, a2.1).0 == Some(b)
            &&& pended.0.is_none() && a3.2 == Delivery::QueuedAndWoke && poll_spec(a3.0, a3.1).0
                == Some(b)
        }),
{
}

} // verus!
