use vstd::prelude::*;
use std::collections::VecDeque;

verus! {

/// How many tasks may wait in the ready queue at once.
pub const MAX_QUEUED_TASKS: usize = 10_000;

/// The queue after offering `item` to a queue that holds `items` and takes at
/// most `capacity`: the item goes to the back when there is room, else nothing
/// changes.
pub open spec fn send_model<T>(items: Seq<T>, capacity: nat, item: T) -> Seq<T> {
    if items.len() < capacity {
        items.push(item)
    } else {
        items
    }
}

/// The queue after offering each of `sent`, in order.
pub open spec fn send_all<T>(items: Seq<T>, capacity: nat, sent: Seq<T>) -> Seq<T>
    decreases sent.len(),
{
    if sent.len() == 0 {
        items
    } else {
        send_model(send_all(items, capacity, sent.drop_last()), capacity, sent.last())
    }
}

/// The items that receiving from a queue until it is empty hands out, in the
/// order in which they come.
pub open spec fn drain_order<T>(items: Seq<T>) -> Seq<T>
    decreases items.len(),
{
    if items.len() == 0 {
        Seq::empty()
    } else {
        seq![items[0]] + drain_order(items.drop_first())
    }
}

/// The queue of tasks that are ready to be polled: a bounded first-in
/// first-out queue, the count of spawned tasks that have not completed, and
/// whether the executor has left, after which no task is taken any more.
pub struct ReadyQueue<T> {
    items: VecDeque<T>,
    capacity: usize,
    unfinished: usize,
    closed: bool,
}

impl<T> View for ReadyQueue<T> {
    type V = Seq<T>;

    closed spec fn view(&self) -> Seq<T> {
        self.items@
    }
}

impl<T> ReadyQueue<T> {
    #[verifier::type_invariant]
    spec fn well_formed(self) -> bool {
        &&& self.items@.len() <= self.capacity
        &&& self.closed ==> self.items@.len() == 0
    }

    /// The most items the queue holds at once.
    pub closed spec fn max_len(&self) -> nat {
        self.capacity as nat
    }

    /// How many spawned tasks have not completed yet.
    pub closed spec fn unfinished(&self) -> nat {
        self.unfinished as nat
    }

    /// Whether the executor has left: the queue then takes nothing.
    pub closed spec fn is_closed_spec(&self) -> bool {
        self.closed
    }

    /// An empty, open queue that takes at most `capacity` items, with no task
    /// spawned yet.
    pub fn new(capacity: usize) -> (queue: Self)
        ensures
            queue@ == Seq::<T>::empty(),
            queue.max_len() == capacity,
            queue.unfinished() == 0,
            !queue.is_closed_spec(),
    {
        ReadyQueue { items: VecDeque::new(), capacity, unfinished: 0, closed: false }
    }

    /// An empty, open queue that takes at most `MAX_QUEUED_TASKS` items.
    pub fn bounded() -> (queue: Self)
        ensures
            queue@ == Seq::<T>::empty(),
            queue.max_len() == MAX_QUEUED_TASKS,
            queue.unfinished() == 0,
            !queue.is_closed_spec(),
    {
        Self::new(MAX_QUEUED_TASKS)
    }

    /// Queues a newly spawned task and counts it as unfinished. A closed or
    /// full queue refuses it and hands it back, as does a queue whose count of
    /// unfinished tasks is at the limit of `usize`.
    pub fn spawn(&mut self, task: T) -> (result: Result<(), T>)
        ensures
            final(self).max_len() == old(self).max_len(),
            final(self).is_closed_spec() == old(self).is_closed_spec(),
            final(self)@.len() <= final(self).max_len(),
            result is Ok <==> !old(self).is_closed_spec() && old(self)@.len() < old(self).max_len()
                && old(self).unfinished() < usize::MAX,
            result is Ok ==> final(self)@ == old(self)@.push(task) && final(self).unfinished()
                == old(self).unfinished() + 1,
            result matches Err(back) ==> back == task && final(self)@ == old(self)@
                && final(self).unfinished() == old(self).unfinished(),
    {
        proof {
            use_type_invariant(&*self);
        }
        if !self.closed && self.items.len() < self.capacity && self.unfinished < usize::MAX {
            let mut items = VecDeque::new();
            std::mem::swap(&mut items, &mut self.items);
            items.push_back(task);
            self.items = items;
            self.unfinished = self.unfinished + 1;
            Ok(())
        } else {
            Err(task)
        }
    }

    /// Puts a task that was woken back at the end of the queue when the queue
    /// is open and has room; otherwise leaves the queue as it was and hands
    /// the task back.
    pub fn try_send(&mut self, item: T) -> (result: Result<(), T>)
        ensures
            final(self).max_len() == old(self).max_len(),
            final(self).unfinished() == old(self).unfinished(),
            final(self).is_closed_spec() == old(self).is_closed_spec(),
            final(self)@ == (if old(self).is_closed_spec() {
                old(self)@
            } else {
                send_model(old(self)@, old(self).max_len(), item)
            }),
            final(self)@.len() <= final(self).max_len(),
            result is Ok <==> !old(self).is_closed_spec() && old(self)@.len() < old(self).max_len(),
            result matches Err(back) ==> back == item,
    {
        proof {
            use_type_invariant(&*self);
        }
        if !self.closed && self.items.len() < self.capacity {
            let mut items = VecDeque::new();
            std::mem::swap(&mut items, &mut self.items);
            items.push_back(item);
            self.items = items;
            Ok(())
        } else {
            Err(item)
        }
    }

    /// Takes the item at the front of the queue, if there is one.
    pub fn try_recv(&mut self) -> (result: Option<T>)
        ensures
            final(self).max_len() == old(self).max_len(),
            final(self).unfinished() == old(self).unfinished(),
            final(self).is_closed_spec() == old(self).is_closed_spec(),
            final(self)@.len() <= final(self).max_len(),
            old(self)@.len() == 0 ==> result is None && final(self)@ == old(self)@,
            old(self)@.len() > 0 ==> result == Some(old(self)@[0]) && final(self)@
                == old(self)@.drop_first(),
    {
        proof {
            use_type_invariant(&*self);
        }
        let mut items = VecDeque::new();
        std::mem::swap(&mut items, &mut self.items);
        let front = items.pop_front();
        self.items = items;
        front
    }

    /// Counts one spawned task as completed.
    pub fn complete(&mut self)
        requires
            old(self).unfinished() > 0,
        ensures
            final(self)@ == old(self)@,
            final(self).max_len() == old(self).max_len(),
            final(self).is_closed_spec() == old(self).is_closed_spec(),
            final(self).unfinished() == old(self).unfinished() - 1,
    {
        proof {
            use_type_invariant(&*self);
        }
        self.unfinished = self.unfinished - 1;
    }

    /// Closes the queue when the executor leaves: the tasks still queued are
    /// dropped, and every later send or spawn is refused.
    pub fn close(&mut self)
        ensures
            final(self)@ == Seq::<T>::empty(),
            final(self).is_closed_spec(),
            final(self).max_len() == old(self).max_len(),
            final(self).unfinished() == old(self).unfinished(),
    {
        self.items = VecDeque::new();
        self.closed = true;
    }

    /// How many items wait in the queue.
    pub fn len(&self) -> (n: usize)
        ensures
            n == self@.len(),
            n <= self.max_len(),
    {
        proof {
            use_type_invariant(self);
        }
        self.items.len()
    }

    /// Whether no item waits in the queue.
    pub fn is_empty(&self) -> (empty: bool)
        ensures
            empty == (self@.len() == 0),
    {
        self.items.len() == 0
    }

    /// The most items the queue holds at once.
    pub fn capacity(&self) -> (capacity: usize)
        ensures
            capacity == self.max_len(),
    {
        self.capacity
    }

    /// How many spawned tasks have not completed yet.
    pub fn unfinished_tasks(&self) -> (n: usize)
        ensures
            n == self.unfinished(),
    {
        self.unfinished
    }

    /// Whether the queue has been closed.
    pub fn is_closed(&self) -> (closed: bool)
        ensures
            closed == self.is_closed_spec(),
    {
        self.closed
    }
}

/// Offering items to a queue with room for all of them appends them in the
/// order in which they were offered.
pub proof fn lemma_send_all_appends<T>(items: Seq<T>, capacity: nat, sent: Seq<T>)
    requires
        items.len() + sent.len() <= capacity,
    ensures
        send_all(items, capacity, sent) == items + sent,
    decreases sent.len(),
{
    if sent.len() > 0 {
        lemma_send_all_appends(items, capacity, sent.drop_last());
        assert(items + sent.drop_last() + seq![sent.last()] =~= items + sent);
    }
}

/// Receiving until the queue is empty hands the items out front first.
pub proof fn lemma_drain_order<T>(items: Seq<T>)
    ensures
        drain_order(items) == items,
    decreases items.len(),
{
    if items.len() > 0 {
        lemma_drain_order(items.drop_first());
        assert(seq![items[0]] + items.drop_first() =~= items);
    }
}

/// First in, first out: tasks offered to an empty queue with room for all of
/// them are received in the order in which they were offered.
pub proof fn law_first_in_first_out<T>(capacity: nat, sent: Seq<T>)
    requires
        sent.len() <= capacity,
    ensures
        drain_order(send_all(Seq::<T>::empty(), capacity, sent)) == sent,
{
    lemma_send_all_appends(Seq::<T>::empty(), capacity, sent);
    assert(Seq::<T>::empty() + sent =~= sent);
    lemma_drain_order(sent);
}

/// A full queue refuses every further item and stays as it is.
pub proof fn law_full_queue_refuses<T>(items: Seq<T>, capacity: nat, sent: Seq<T>)
    requires
        items.len() >= capacity,
    ensures
        send_all(items, capacity, sent) == items,
    decreases sent.len(),
{
    if sent.len() > 0 {
        law_full_queue_refuses(items, capacity, sent.drop_last());
    }
}

/// However many items are offered, a queue within its capacity stays within
/// it, and what it held stays at its front.
pub proof fn law_send_all_bounded<T>(items: Seq<T>, capacity: nat, sent: Seq<T>)
    requires
        items.len() <= capacity,
    ensures
        send_all(items, capacity, sent).len() <= capacity,
        send_all(items, capacity, sent).len() >= items.len(),
        send_all(items, capacity, sent).subrange(0, items.len() as int) == items,
    decreases sent.len(),
{
    if sent.len() > 0 {
        law_send_all_bounded(items, capacity, sent.drop_last());
        let before = send_all(items, capacity, sent.drop_last());
        if before.len() < capacity {
            assert(before.push(sent.last()).subrange(0, items.len() as int) =~= before.subrange(
                0,
                items.len() as int,
            ));
        }
    }
}

} // verus!
