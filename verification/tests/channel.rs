use yos_kernel::executer::TaskWaker;
use yos_kernel::keyboard::{
    add_scancode, ScancodeChannel, ScancodePoll, ScancodeStream, SCANCODE_QUEUE_CAPACITY,
};
use yos_kernel::task::{TaskId, TaskIdAllocator};

fn fresh_id(ids: &mut TaskIdAllocator) -> TaskId {
    TaskId::new(ids)
}

#[test]
fn scancodes_come_back_in_push_order() {
    let mut ch = ScancodeChannel::new();
    assert_eq!(add_scancode(&mut ch, 1), None);
    assert_eq!(add_scancode(&mut ch, 2), None);
    assert_eq!(add_scancode(&mut ch, 3), None);
    assert_eq!(ch.try_pop(), Some(1));
    assert_eq!(ch.try_pop(), Some(2));
    assert_eq!(ch.try_pop(), Some(3));
    assert_eq!(ch.try_pop(), None);
}

#[test]
fn overflow_drops_newest_without_error() {
    let mut ch = ScancodeChannel::new();
    for i in 0..SCANCODE_QUEUE_CAPACITY {
        assert_eq!(add_scancode(&mut ch, (i % 251) as u8), None);
    }
    assert_eq!(ch.buffered(), SCANCODE_QUEUE_CAPACITY);
    // The buffer is full: the newest values are dropped silently.
    assert_eq!(add_scancode(&mut ch, 200), None);
    assert_eq!(add_scancode(&mut ch, 201), None);
    assert_eq!(ch.buffered(), SCANCODE_QUEUE_CAPACITY);
    let mut drained = 0usize;
    while let Some(b) = ch.try_pop() {
        assert_eq!(b, (drained % 251) as u8);
        drained += 1;
    }
    assert_eq!(drained, SCANCODE_QUEUE_CAPACITY);
}

#[test]
fn value_pushed_between_check_and_registration_is_observed() {
    let mut ids = TaskIdAllocator::new();
    let mut ch = ScancodeChannel::new();
    let id = fresh_id(&mut ids);
    // The consumer's first check finds the buffer empty ...
    assert_eq!(ch.try_pop(), None);
    // ... a value arrives before the wake slot is registered ...
    assert_eq!(add_scancode(&mut ch, 42), None);
    // ... and the same poll still observes it, leaving no stale
    // registration behind.
    assert_eq!(ch.register_and_recheck(id), Some(42));
    assert_eq!(add_scancode(&mut ch, 7), None);
}

#[test]
fn empty_poll_registers_and_next_push_wakes() {
    let mut ids = TaskIdAllocator::new();
    let mut ch = ScancodeChannel::new();
    let id = fresh_id(&mut ids);
    let mut stream = ScancodeStream::new(&mut ch);
    let waker = TaskWaker::new(id);
    assert_eq!(stream.poll_next(&mut ch, &waker), ScancodePoll::Pending);
    // The producer's next successful push takes the registration and hands
    // back the task to wake.
    assert_eq!(add_scancode(&mut ch, 9), Some(id));
    // The slot was consumed by that wake.
    assert_eq!(add_scancode(&mut ch, 10), None);
    assert_eq!(stream.poll_next(&mut ch, &waker), ScancodePoll::Ready(9));
    assert_eq!(stream.poll_next(&mut ch, &waker), ScancodePoll::Ready(10));
    assert_eq!(stream.poll_next(&mut ch, &waker), ScancodePoll::Pending);
}

#[test]
fn buffered_poll_returns_at_once() {
    let mut ids = TaskIdAllocator::new();
    let mut ch = ScancodeChannel::new();
    let id = fresh_id(&mut ids);
    let mut stream = ScancodeStream::new(&mut ch);
    let waker = TaskWaker::new(id);
    assert_eq!(add_scancode(&mut ch, 55), None);
    assert_eq!(stream.poll_next(&mut ch, &waker), ScancodePoll::Ready(55));
}
