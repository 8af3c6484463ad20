use async_runtime::runtime::io::driver::IoHandle;
use async_runtime::runtime::io::registration::{after_attempt, IoWaitAction, Registration};
use async_runtime::runtime::io::scheduled_io::{interest_bits, Interest, ScheduledIo, READABLE, WRITABLE};
use futures::task::{waker, ArcWake};
use std::sync::atomic::{AtomicUsize, Ordering};
use std::sync::Arc;
use std::task::Waker;

struct WakeCounter(AtomicUsize);

impl ArcWake for WakeCounter {
    fn wake_by_ref(arc_self: &Arc<Self>) {
        arc_self.0.fetch_add(1, Ordering::SeqCst);
    }
}

fn counting_waker() -> (Arc<WakeCounter>, Waker) {
    let c = Arc::new(WakeCounter(AtomicUsize::new(0)));
    let w = waker(c.clone());
    (c, w)
}

fn count(c: &Arc<WakeCounter>) -> usize {
    c.0.load(Ordering::SeqCst)
}

#[test]
fn interest_bits_encode_each_readiness() {
    assert_eq!(interest_bits(Interest { readable: false, writable: false }), 0);
    assert_eq!(interest_bits(Interest { readable: true, writable: false }), READABLE);
    assert_eq!(interest_bits(Interest { readable: false, writable: true }), WRITABLE);
    assert_eq!(interest_bits(Interest { readable: true, writable: true }), 3);
    let both = interest_bits(Interest { readable: true, writable: true });
    assert!(both & READABLE != 0 && both & WRITABLE != 0);
}

#[test]
fn scheduled_io_poll_waits_then_takes_event() {
    let (c, w) = counting_waker();
    let mut io: ScheduledIo<u32> = ScheduledIo::new(5);
    assert_eq!(io.token(), 5);
    assert_eq!(io.interest(), 0);
    assert!(io.waker().is_none());
    assert_eq!(io.poll_event(w.clone()), None);
    io.waker().unwrap().wake_by_ref();
    assert_eq!(count(&c), 1);
    io.set_event(42);
    assert_eq!(io.poll_event(w.clone()), Some(42));
    assert_eq!(io.poll_event(w), None);
    assert_eq!(count(&c), 1);
}

#[test]
fn scheduled_io_later_event_replaces_earlier() {
    let (_c, w) = counting_waker();
    let mut io: ScheduledIo<u32> = ScheduledIo::new(0);
    io.set_event(1);
    io.set_event(2);
    assert_eq!(io.poll_event(w), Some(2));
}

#[test]
fn scheduled_io_future_records_interest() {
    let mut io: ScheduledIo<u32> = ScheduledIo::new(7);
    let f = io.io_future(Interest { readable: true, writable: false });
    assert_eq!(f.token, 7);
    assert_eq!(io.interest(), READABLE);
    let f = io.io_future(Interest { readable: true, writable: true });
    assert_eq!(f.token, 7);
    assert_eq!(io.interest(), 3);
}

#[test]
fn io_handle_gives_distinct_tokens() {
    let mut h: IoHandle<u32> = IoHandle::new();
    assert_eq!(h.len(), 0);
    assert_eq!(h.add_source(), 0);
    assert_eq!(h.add_source(), 1);
    assert_eq!(h.add_source(), 2);
    assert_eq!(h.len(), 3);
}

#[test]
fn dispatch_delivers_last_event_and_wakes_waiters() {
    let (c, w) = counting_waker();
    let mut h: IoHandle<&str> = IoHandle::new();
    let a = h.add_source();
    let b = h.add_source();
    assert_eq!(h.poll_io(a, w.clone()), None);
    let to_wake = h.dispatch(vec![(a, "a1"), (9, "lost"), (b, "b1"), (a, "a2")]);
    assert_eq!(to_wake, vec![a, a]);
    assert!(h.waker_of(b).is_none());
    assert!(h.waker_of(9).is_none());
    for t in to_wake {
        h.waker_of(t).unwrap().wake_by_ref();
    }
    assert_eq!(count(&c), 2);
    assert_eq!(h.poll_io(a, w.clone()), Some("a2"));
    assert_eq!(h.poll_io(b, w.clone()), Some("b1"));
    assert_eq!(h.poll_io(a, w), None);
}

#[test]
fn dispatch_to_unknown_token_changes_nothing() {
    let (c, w) = counting_waker();
    let mut h: IoHandle<u8> = IoHandle::new();
    let t = h.add_source();
    assert_eq!(h.poll_io(t, w.clone()), None);
    assert_eq!(h.dispatch(vec![(1, 5), (100, 6)]), Vec::<usize>::new());
    assert_eq!(count(&c), 0);
    assert_eq!(h.poll_io(t, w), None);
    assert_eq!(h.dispatch(vec![]), Vec::<usize>::new());
}

#[test]
fn registration_waits_on_its_own_source() {
    let (c, w) = counting_waker();
    let mut h: IoHandle<u8> = IoHandle::new();
    let first = Registration::register(&mut h);
    let second = Registration::register(&mut h);
    assert_eq!(first.token(), 0);
    assert_eq!(second.token(), 1);
    let f = second.io_future(&mut h, Interest { readable: false, writable: true });
    assert_eq!(f.token, 1);
    assert_eq!(h.poll_io(f.token, w), None);
    assert_eq!(h.dispatch(vec![(0, 1)]), Vec::<usize>::new());
    assert_eq!(h.dispatch(vec![(1, 2), (1, 3)]), vec![1, 1]);
    h.waker_of(1).unwrap().wake_by_ref();
    assert_eq!(count(&c), 1);
}

#[test]
fn would_block_attempt_waits_again() {
    assert_eq!(after_attempt(true), IoWaitAction::WaitAgain);
    assert_eq!(after_attempt(false), IoWaitAction::Return);
}
