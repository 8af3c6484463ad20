use async_runtime::runtime::executor::{step, DriverAction, DriverEvent, PollOutcome, POLL_TIMEOUT_MS};
use async_runtime::runtime::queue::ReadyQueue;

const PENDING: DriverEvent = DriverEvent::Polled(PollOutcome::Pending);
const READY: DriverEvent = DriverEvent::Polled(PollOutcome::Ready);

#[test]
fn nothing_spawned_parks_with_timeout() {
    let mut q: ReadyQueue<u32> = ReadyQueue::bounded();
    assert_eq!(step(&mut q, DriverEvent::QueueDrained), DriverAction::Park { timeout_ms: 100 });
    assert_eq!(POLL_TIMEOUT_MS, 100);
}

#[test]
fn single_task_ready_on_first_poll_exits() {
    let mut q: ReadyQueue<u32> = ReadyQueue::bounded();
    assert_eq!(q.spawn(1), Ok(()));
    assert_eq!(q.try_recv(), Some(1));
    assert_eq!(step(&mut q, READY), DriverAction::Exit);
    assert_eq!(q.unfinished_tasks(), 0);
}

#[test]
fn pending_task_then_finished_task_does_not_exit() {
    let mut q: ReadyQueue<u32> = ReadyQueue::bounded();
    assert_eq!(q.spawn(1), Ok(()));
    assert_eq!(q.spawn(2), Ok(()));
    assert_eq!(q.try_recv(), Some(1));
    assert_eq!(step(&mut q, PENDING), DriverAction::ReceiveNext);
    assert_eq!(q.try_recv(), Some(2));
    assert_eq!(step(&mut q, READY), DriverAction::ReceiveNext);
    assert_eq!(q.unfinished_tasks(), 1);
    assert_eq!(step(&mut q, DriverEvent::QueueDrained), DriverAction::Park { timeout_ms: 0 });
    assert_eq!(q.try_send(1), Ok(()));
    assert_eq!(q.try_recv(), Some(1));
    assert_eq!(step(&mut q, READY), DriverAction::Exit);
}

#[test]
fn already_completed_task_changes_nothing() {
    let mut q: ReadyQueue<u32> = ReadyQueue::bounded();
    assert_eq!(q.spawn(1), Ok(()));
    assert_eq!(step(&mut q, DriverEvent::AlreadyCompleted), DriverAction::ReceiveNext);
    assert_eq!(q.unfinished_tasks(), 1);
    assert_eq!(q.len(), 1);
}

#[test]
fn exits_at_last_of_three_completions() {
    let mut q: ReadyQueue<u32> = ReadyQueue::bounded();
    for i in 0..3 {
        assert_eq!(q.spawn(i), Ok(()));
    }
    for i in 0..3 {
        assert_eq!(q.try_recv(), Some(i));
    }
    let events = [PENDING, READY, DriverEvent::QueueDrained, PENDING, READY, READY];
    let mut actions = Vec::new();
    for e in events {
        actions.push(step(&mut q, e));
    }
    assert_eq!(
        actions,
        vec![
            DriverAction::ReceiveNext,
            DriverAction::ReceiveNext,
            DriverAction::Park { timeout_ms: 0 },
            DriverAction::ReceiveNext,
            DriverAction::ReceiveNext,
            DriverAction::Exit,
        ]
    );
}

#[test]
fn drained_report_with_queued_task_does_not_park() {
    let mut q: ReadyQueue<u32> = ReadyQueue::bounded();
    assert_eq!(q.spawn(1), Ok(()));
    assert_eq!(step(&mut q, DriverEvent::QueueDrained), DriverAction::ReceiveNext);
    assert_eq!(q.try_recv(), Some(1));
    assert_eq!(step(&mut q, DriverEvent::QueueDrained), DriverAction::Park { timeout_ms: 0 });
}
