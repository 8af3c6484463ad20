use vstd::prelude::*;
use crate::runtime::queue::ReadyQueue;

verus! {

/// Milliseconds that the executor parks in the I/O driver when no spawned
/// task is unfinished.
pub const POLL_TIMEOUT_MS: u64 = 100;

/// What one poll of a task's future gave back.
#[derive(Clone, Copy, PartialEq, Eq, Debug, Structural)]
pub enum PollOutcome {
    Pending,
    Ready,
}

/// What the executor learned since its last step.
#[derive(Clone, Copy, PartialEq, Eq, Debug, Structural)]
pub enum DriverEvent {
    /// A task taken from the ready queue was polled.
    Polled(PollOutcome),
    /// A task taken from the ready queue had already completed; it was not
    /// polled again.
    AlreadyCompleted,
    /// The ready queue had no task left.
    QueueDrained,
}

/// What the executor does next.
#[derive(Clone, Copy, PartialEq, Eq, Debug, Structural)]
pub enum DriverAction {
    /// Take the next task from the ready queue.
    ReceiveNext,
    /// Wait for I/O events in the I/O driver for at most this many
    /// milliseconds, then take tasks again.
    Park { timeout_ms: u64 },
    /// Leave the runtime: every spawned task has completed.
    Exit,
}

/// One step of the executor, from the count of unfinished tasks and what it
/// learned, to the new count and what it does next. A completed poll lowers
/// the count, and the executor leaves when the count reaches zero; a drained
/// queue makes it park, without waiting while tasks are unfinished.
pub open spec fn step_model(unfinished: nat, event: DriverEvent) -> (nat, DriverAction) {
    match event {
        DriverEvent::Polled(PollOutcome::Ready) => {
            let left = (unfinished - 1) as nat;
            (left, if left == 0 {
                DriverAction::Exit
            } else {
                DriverAction::ReceiveNext
            })
        },
        DriverEvent::Polled(PollOutcome::Pending) => (unfinished, DriverAction::ReceiveNext),
        DriverEvent::AlreadyCompleted => (unfinished, DriverAction::ReceiveNext),
        DriverEvent::QueueDrained => (
            unfinished,
            DriverAction::Park {
                timeout_ms: if unfinished > 0 {
                    0
                } else {
                    POLL_TIMEOUT_MS
                },
            },
        ),
    }
}

/// One step of the executor's loop over the ready queue `queue`. A report of
/// a drained queue that meanwhile received a task (a wake from elsewhere)
/// does not park: the executor takes that task first.
pub fn step<T>(queue: &mut ReadyQueue<T>, event: DriverEvent) -> (action: DriverAction)
    requires
        event == DriverEvent::Polled(PollOutcome::Ready) ==> old(queue).unfinished() > 0,
    ensures
        event == DriverEvent::QueueDrained && old(queue)@.len() > 0 ==> final(queue).unfinished()
            == old(queue).unfinished() && action == DriverAction::ReceiveNext,
        !(event == DriverEvent::QueueDrained && old(queue)@.len() > 0) ==> (
        final(queue).unfinished(),
        action,
        ) == step_model(old(queue).unfinished(), event),
        action is Park ==> final(queue)@.len() == 0,
        final(queue)@ == old(queue)@,
        final(queue).max_len() == old(queue).max_len(),
        final(queue).is_closed_spec() == old(queue).is_closed_spec(),
{
    match event {
        DriverEvent::Polled(PollOutcome::Ready) => {
            queue.complete();
            if queue.unfinished_tasks() == 0 {
                DriverAction::Exit
            } else {
                DriverAction::ReceiveNext
            }
        },
        DriverEvent::Polled(PollOutcome::Pending) => DriverAction::ReceiveNext,
        DriverEvent::AlreadyCompleted => DriverAction::ReceiveNext,
        DriverEvent::QueueDrained => {
            if !queue.is_empty() {
                DriverAction::ReceiveNext
            } else if queue.unfinished_tasks() > 0 {
                DriverAction::Park { timeout_ms: 0 }
            } else {
                DriverAction::Park { timeout_ms: POLL_TIMEOUT_MS }
            }
        },
    }
}

/// How many of `events` are polls that completed a task.
pub open spec fn count_completed(events: Seq<DriverEvent>) -> nat
    decreases events.len(),
{
    if events.len() == 0 {
        0
    } else {
        (if events[0] == DriverEvent::Polled(PollOutcome::Ready) {
            1nat
        } else {
            0nat
        }) + count_completed(events.drop_first())
    }
}

/// The actions of the executor when it starts with `unfinished` tasks and
/// learns `events` in order.
pub open spec fn actions_model(unfinished: nat, events: Seq<DriverEvent>) -> Seq<DriverAction>
    decreases events.len(),
{
    if events.len() == 0 {
        Seq::empty()
    } else {
        let (left, action) = step_model(unfinished, events[0]);
        seq![action] + actions_model(left, events.drop_first())
    }
}

/// A drained queue makes the executor park: without waiting while any spawned
/// task is unfinished, and for `POLL_TIMEOUT_MS` only when none is.
pub proof fn law_park_timeout(unfinished: nat)
    ensures
        unfinished > 0 ==> step_model(unfinished, DriverEvent::QueueDrained).1
            == (DriverAction::Park { timeout_ms: 0 }),
        unfinished == 0 ==> step_model(unfinished, DriverEvent::QueueDrained).1
            == (DriverAction::Park { timeout_ms: POLL_TIMEOUT_MS }),
        step_model(unfinished, DriverEvent::QueueDrained).0 == unfinished,
{
}

/// Only a completed poll changes the count of unfinished tasks, by exactly
/// one; the executor leaves exactly when that poll completes the last one,
/// and otherwise takes the next task.
pub proof fn law_step_counts_completions(unfinished: nat)
    requires
        unfinished > 0,
    ensures
        step_model(unfinished, DriverEvent::Polled(PollOutcome::Ready)).0 + 1 == unfinished,
        (step_model(unfinished, DriverEvent::Polled(PollOutcome::Ready)).1 == DriverAction::Exit)
            <==> unfinished == 1,
        unfinished > 1 ==> step_model(unfinished, DriverEvent::Polled(PollOutcome::Ready)).1
            == DriverAction::ReceiveNext,
        step_model(unfinished, DriverEvent::Polled(PollOutcome::Pending)) == (
            unfinished,
            DriverAction::ReceiveNext,
        ),
        step_model(unfinished, DriverEvent::AlreadyCompleted) == (
            unfinished,
            DriverAction::ReceiveNext,
        ),
{
}

/// The executor never leaves while a spawned task is unfinished.
pub proof fn law_exit_only_when_all_completed(unfinished: nat, event: DriverEvent)
    ensures
        step_model(unfinished, event).1 == DriverAction::Exit ==> step_model(unfinished, event).0
            == 0,
        step_model(unfinished, event).1 == DriverAction::Exit ==> event == DriverEvent::Polled(
            PollOutcome::Ready,
        ),
{
}

/// When `unfinished` tasks are spawned and the executor's polls complete each
/// of them once, the last event being the last completion, it leaves exactly
/// at that last completion and at no step before.
pub proof fn law_exit_at_last_completion(unfinished: nat, events: Seq<DriverEvent>)
    requires
        unfinished > 0,
        count_completed(events) == unfinished,
        events.len() > 0,
        events.last() == DriverEvent::Polled(PollOutcome::Ready),
    ensures
        actions_model(unfinished, events).len() == events.len(),
        actions_model(unfinished, events).last() == DriverAction::Exit,
        forall|i: int|
            0 <= i < events.len() - 1 ==> #[trigger] actions_model(unfinished, events)[i]
                != DriverAction::Exit,
    decreases events.len(),
{
    let rest = events.drop_first();
    let (left, action) = step_model(unfinished, events[0]);
    if events.len() == 1 {
        assert(count_completed(rest) == 0);
        assert(actions_model(left, rest) =~= Seq::<DriverAction>::empty());
        assert(actions_model(unfinished, events) =~= seq![action]);
    } else {
        assert(rest.last() == events.last());
        if events[0] == DriverEvent::Polled(PollOutcome::Ready) {
            lemma_count_completed_positive(rest);
        }
        law_exit_at_last_completion(left, rest);
        let all = actions_model(unfinished, events);
        assert(all == seq![action] + actions_model(left, rest));
        assert forall|i: int| 0 <= i < events.len() - 1 implies #[trigger] all[i]
            != DriverAction::Exit by {
            if i > 0 {
                assert(all[i] == actions_model(left, rest)[i - 1]);
            }
        }
    }
}

proof fn lemma_count_completed_positive(events: Seq<DriverEvent>)
    requires
        events.len() > 0,
        events.last() == DriverEvent::Polled(PollOutcome::Ready),
    ensures
        count_completed(events) > 0,
    decreases events.len(),
{
    if events[0] != DriverEvent::Polled(PollOutcome::Ready) {
        assert(events.drop_first().last() == events.last());
        lemma_count_completed_positive(events.drop_first());
    }
}

} // verus!
