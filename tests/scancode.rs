use futures_util::task::noop_waker_ref;
use ruin::scancode::{Delivery, ScancodeStream, QUEUE_CAPACITY};

#[test]
fn bytes_come_out_in_order() {
    let mut s = ScancodeStream::new();
    assert_eq!(s.add_scancode(0x1e), Delivery::Queued);
    assert_eq!(s.add_scancode(0x9e), Delivery::Queued);
    assert_eq!(s.poll_next(noop_waker_ref()), Some(0x1e));
    assert_eq!(s.poll_next(noop_waker_ref()), Some(0x9e));
    assert_eq!(s.poll_next(noop_waker_ref()), None);
}

#[test]
fn pending_reader_is_woken_once() {
    let mut s = ScancodeStream::new();
    assert_eq!(s.poll_next(noop_waker_ref()), None);
    assert_eq!(s.add_scancode(0x1c), Delivery::QueuedAndWoke);
    assert_eq!(s.add_scancode(0x9c), Delivery::Queued);
    assert_eq!(s.poll_next(noop_waker_ref()), Some(0x1c));
    assert_eq!(s.poll_next(noop_waker_ref()), Some(0x9c));
}

#[test]
fn full_queue_drops_newest() {
    let mut s = ScancodeStream::new();
    for i in 0..QUEUE_CAPACITY {
        assert_eq!(s.add_scancode(i as u8), Delivery::Queued);
    }
    assert_eq!(s.add_scancode(0xff), Delivery::Dropped);
    assert_eq!(s.poll_next(noop_waker_ref()), Some(0));
    assert_eq!(s.add_scancode(0xff), Delivery::Queued);
}
