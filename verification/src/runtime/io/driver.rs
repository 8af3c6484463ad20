use vstd::prelude::*;
use crate::runtime::io::scheduled_io::{
    fresh_state, interest_mask, poll_model, set_event_model, Interest, IoEventFuture, IoState,
    ScheduledIo,
};
use std::task::Waker;

verus! {

/// Every source sits at the index of its own token.
pub open spec fn tokens_are_indices<E>(states: Seq<IoState<E>>) -> bool {
    forall|i: int| 0 <= i < states.len() ==> #[trigger] states[i].token == i
}

/// The sources after the driver delivers `event` for `token`: the source
/// registered under that token stores it; an unknown token changes nothing.
pub open spec fn dispatch_one<E>(states: Seq<IoState<E>>, token: usize, event: E) -> Seq<
    IoState<E>,
> {
    if token < states.len() {
        states.update(token as int, set_event_model(states[token as int], event))
    } else {
        states
    }
}

/// The sources after the driver delivers `events` in order.
pub open spec fn dispatch_model<E>(states: Seq<IoState<E>>, events: Seq<(usize, E)>) -> Seq<
    IoState<E>,
>
    decreases events.len(),
{
    if events.len() == 0 {
        states
    } else {
        let last = events.last();
        dispatch_one(dispatch_model(states, events.drop_last()), last.0, last.1)
    }
}

/// Whether delivering an event for `token` wakes a task: the token is
/// registered and a task waits on it.
pub open spec fn wakes<E>(states: Seq<IoState<E>>, token: usize) -> bool {
    token < states.len() && states[token as int].waker is Some
}

/// The tokens whose waiting task is to be woken when `events` are delivered,
/// one entry per such event, in the order of the events.
pub open spec fn wake_tokens<E>(states: Seq<IoState<E>>, events: Seq<(usize, E)>) -> Seq<usize>
    decreases events.len(),
{
    if events.len() == 0 {
        Seq::empty()
    } else if wakes(states, events.last().0) {
        wake_tokens(states, events.drop_last()).push(events.last().0)
    } else {
        wake_tokens(states, events.drop_last())
    }
}

/// The I/O sources registered with the I/O driver, each under its own token.
pub struct IoHandle<E> {
    scheduled_io: Vec<ScheduledIo<E>>,
}

impl<E> View for IoHandle<E> {
    type V = Seq<IoState<E>>;

    closed spec fn view(&self) -> Seq<IoState<E>> {
        self.scheduled_io@.map_values(|io: ScheduledIo<E>| io@)
    }
}

proof fn lemma_dispatch_keeps_shape<E>(states: Seq<IoState<E>>, events: Seq<(usize, E)>)
    ensures
        dispatch_model(states, events).len() == states.len(),
        forall|i: int|
            0 <= i < states.len() ==> {
                let after = #[trigger] dispatch_model(states, events)[i];
                &&& after.token == states[i].token
                &&& after.waker == states[i].waker
                &&& after.interest == states[i].interest
            },
    decreases events.len(),
{
    if events.len() > 0 {
        lemma_dispatch_keeps_shape(states, events.drop_last());
    }
}

proof fn lemma_wake_tokens_wake<E>(states: Seq<IoState<E>>, events: Seq<(usize, E)>)
    ensures
        forall|i: int|
            0 <= i < wake_tokens(states, events).len() ==> #[trigger] wakes(
                states,
                wake_tokens(states, events)[i],
            ),
    decreases events.len(),
{
    if events.len() > 0 {
        let prev = wake_tokens(states, events.drop_last());
        lemma_wake_tokens_wake(states, events.drop_last());
        let cur = wake_tokens(states, events);
        assert forall|i: int| 0 <= i < cur.len() implies #[trigger] wakes(states, cur[i]) by {
            if i < prev.len() {
                assert(cur[i] == prev[i]);
            }
        }
    }
}

impl<E> IoHandle<E> {
    #[verifier::type_invariant]
    spec fn well_indexed(self) -> bool {
        tokens_are_indices(self@)
    }

    /// A driver with no source registered.
    pub fn new() -> (handle: Self)
        ensures
            handle@ == Seq::<IoState<E>>::empty(),
    {
        let handle = IoHandle { scheduled_io: Vec::new() };
        assert(handle@ =~= Seq::<IoState<E>>::empty());
        handle
    }

    /// How many sources are registered.
    pub fn len(&self) -> (n: usize)
        ensures
            n == self@.len(),
            tokens_are_indices(self@),
    {
        proof {
            use_type_invariant(self);
        }
        self.scheduled_io.len()
    }

    /// Registers a new source and returns its token: the number of sources
    /// registered before it, so that no two sources share a token.
    pub fn add_source(&mut self) -> (token: usize)
        ensures
            token == old(self)@.len(),
            final(self)@ == old(self)@.push(fresh_state::<E>(token)),
            tokens_are_indices(final(self)@),
    {
        proof {
            use_type_invariant(&*self);
        }
        let token = self.scheduled_io.len();
        let mut scheduled_io = Vec::new();
        std::mem::swap(&mut scheduled_io, &mut self.scheduled_io);
        let ghost before = scheduled_io@;
        scheduled_io.push(ScheduledIo::new(token));
        proof {
            assert(scheduled_io@.map_values(|io: ScheduledIo<E>| io@) =~= before.map_values(
                |io: ScheduledIo<E>| io@,
            ).push(fresh_state::<E>(token)));
        }
        self.scheduled_io = scheduled_io;
        token
    }

    /// The waker of the task that waits on the source under `token`, if the
    /// token is registered and a task waits on it.
    pub fn waker_of(&self, token: usize) -> (waker: Option<&Waker>)
        ensures
            waker is None <==> !(token < self@.len() && self@[token as int].waker is Some),
            waker matches Some(w) ==> self@[token as int].waker == Some(*w),
    {
        if token < self.scheduled_io.len() {
            self.scheduled_io[token].waker()
        } else {
            None
        }
    }

    /// Starts a wait for `interest` on the source under `token`.
    pub fn io_future(&mut self, token: usize, interest: Interest) -> (future: IoEventFuture)
        requires
            token < old(self)@.len(),
        ensures
            final(self)@ == old(self)@.update(
                token as int,
                IoState { interest: interest_mask(interest), ..old(self)@[token as int] },
            ),
            future.token == token,
            tokens_are_indices(final(self)@),
    {
        proof {
            use_type_invariant(&*self);
        }
        let mut scheduled_io = Vec::new();
        std::mem::swap(&mut scheduled_io, &mut self.scheduled_io);
        let ghost before = scheduled_io@;
        let future = scheduled_io[token].io_future(interest);
        proof {
            assert(scheduled_io@.map_values(|io: ScheduledIo<E>| io@) =~= before.map_values(
                |io: ScheduledIo<E>| io@,
            ).update(
                token as int,
                IoState { interest: interest_mask(interest), ..before[token as int]@ },
            ));
        }
        self.scheduled_io = scheduled_io;
        future
    }

    /// Polls the future that waits on the source under `token`: hands out the
    /// delivered event, or keeps `waker` for the next one.
    pub fn poll_io(&mut self, token: usize, waker: Waker) -> (event: Option<E>)
        requires
            token < old(self)@.len(),
        ensures
            event == poll_model(old(self)@[token as int], waker).0,
            final(self)@ == old(self)@.update(
                token as int,
                poll_model(old(self)@[token as int], waker).1,
            ),
            tokens_are_indices(final(self)@),
    {
        proof {
            use_type_invariant(&*self);
        }
        let mut scheduled_io = Vec::new();
        std::mem::swap(&mut scheduled_io, &mut self.scheduled_io);
        let ghost before = scheduled_io@;
        let event = scheduled_io[token].poll_event(waker);
        proof {
            assert(scheduled_io@.map_values(|io: ScheduledIo<E>| io@) =~= before.map_values(
                |io: ScheduledIo<E>| io@,
            ).update(token as int, poll_model(before[token as int]@, waker).1));
            let after = scheduled_io@.map_values(|io: ScheduledIo<E>| io@);
            let prior = before.map_values(|io: ScheduledIo<E>| io@);
            assert forall|i: int| 0 <= i < after.len() implies #[trigger] after[i].token == i by {
                assert(prior[i].token == i);
            }
        }
        self.scheduled_io = scheduled_io;
        event
    }

    /// Delivers the events that the poller reported, in order: each event for
    /// a registered token is stored at its source; events for unknown tokens
    /// are dropped. Returns, in the order of the events, the token of each
    /// event whose source has a waiting task: the task to wake for it, whose
    /// waker `waker_of` hands out.
    pub fn dispatch(&mut self, events: Vec<(usize, E)>) -> (to_wake: Vec<usize>)
        ensures
            final(self)@ == dispatch_model(old(self)@, events@),
            final(self)@.len() == old(self)@.len(),
            to_wake@ == wake_tokens(old(self)@, events@),
            forall|i: int|
                0 <= i < to_wake@.len() ==> #[trigger] wakes(final(self)@, to_wake@[i]),
            tokens_are_indices(final(self)@),
    {
        proof {
            use_type_invariant(&*self);
        }
        let mut scheduled_io = Vec::new();
        std::mem::swap(&mut scheduled_io, &mut self.scheduled_io);
        let ghost start = scheduled_io@.map_values(|io: ScheduledIo<E>| io@);
        let ghost all = events@;
        proof {
            assert(all.len() == events.len());
        }
        let mut to_wake: Vec<usize> = Vec::new();
        for ev in it: events.into_iter()
            invariant
                it.seq() == all,
                scheduled_io@.map_values(|io: ScheduledIo<E>| io@) == dispatch_model(
                    start,
                    all.take(it.index() as int),
                ),
                to_wake@ == wake_tokens(start, all.take(it.index() as int)),
                all.len() <= usize::MAX,
                tokens_are_indices(start),
        {
            let ghost idx = it.index();
            let ghost states = scheduled_io@.map_values(|io: ScheduledIo<E>| io@);
            proof {
                assert(ev == all[idx as int]);
                assert(all.take(idx + 1).drop_last() =~= all.take(idx as int));
                lemma_dispatch_keeps_shape(start, all.take(idx as int));
            }
            let (token, event) = ev;
            if token < scheduled_io.len() {
                scheduled_io[token].set_event(event);
                if scheduled_io[token].waker().is_some() {
                    to_wake.push(token);
                }
                proof {
                    assert(scheduled_io@.map_values(|io: ScheduledIo<E>| io@) =~= dispatch_one(
                        states,
                        token,
                        event,
                    ));
                }
            }
        }
        proof {
            assert(all.take(all.len() as int) =~= all);
            lemma_dispatch_keeps_shape(start, all);
            lemma_wake_tokens_wake(start, all);
            let after = dispatch_model(start, all);
            assert forall|i: int| 0 <= i < to_wake@.len() implies #[trigger] wakes(
                after,
                to_wake@[i],
            ) by {
                let t = to_wake@[i];
                assert(wakes(start, t));
                assert(after[t as int].waker == start[t as int].waker);
            }
        }
        self.scheduled_io = scheduled_io;
        to_wake
    }
}

/// The event that the source under `token` holds after `events` are
/// delivered, when it held `held` before.
pub open spec fn last_event_for<E>(events: Seq<(usize, E)>, token: usize, held: Option<E>) -> Option<
    E,
>
    decreases events.len(),
{
    if events.len() == 0 {
        held
    } else if events.last().0 == token {
        Some(events.last().1)
    } else {
        last_event_for(events.drop_last(), token, held)
    }
}

/// How many of `events` are meant for `token`.
pub open spec fn events_for<E>(events: Seq<(usize, E)>, token: usize) -> nat
    decreases events.len(),
{
    if events.len() == 0 {
        0
    } else {
        events_for(events.drop_last(), token) + (if events.last().0 == token {
            1nat
        } else {
            0nat
        })
    }
}

/// How many times `token` occurs in `tokens`.
pub open spec fn occurrences(tokens: Seq<usize>, token: usize) -> nat
    decreases tokens.len(),
{
    if tokens.len() == 0 {
        0
    } else {
        occurrences(tokens.drop_last(), token) + (if tokens.last() == token {
            1nat
        } else {
            0nat
        })
    }
}

/// Delivering a batch wakes the task waiting on a source once for every event
/// of the batch meant for that source, whatever readiness the task waits for
/// (its interest mask plays no part), and wakes no task of a source that no
/// task waits on, or of a token that no source holds.
pub proof fn law_wake_once_per_event<E>(
    states: Seq<IoState<E>>,
    events: Seq<(usize, E)>,
    token: usize,
)
    ensures
        occurrences(wake_tokens(states, events), token) == (if token < states.len()
            && states[token as int].waker is Some {
            events_for(events, token)
        } else {
            0
        }),
    decreases events.len(),
{
    if events.len() > 0 {
        law_wake_once_per_event(states, events.drop_last(), token);
        let prev = wake_tokens(states, events.drop_last());
        if wakes(states, events.last().0) {
            assert(prev.push(events.last().0).drop_last() =~= prev);
        }
    }
}

/// An event for a token that no source holds changes nothing.
pub proof fn law_unknown_token_ignored<E>(states: Seq<IoState<E>>, token: usize, event: E)
    requires
        token >= states.len(),
    ensures
        dispatch_one(states, token, event) == states,
{
}

/// Delivering a batch of events leaves every source under its token, with its
/// waker and interest, and leaves it holding the last event of the batch that
/// was meant for it (or what it held before, if none was).
pub proof fn law_last_event_wins<E>(states: Seq<IoState<E>>, events: Seq<(usize, E)>, token: usize)
    requires
        token < states.len(),
    ensures
        dispatch_model(states, events).len() == states.len(),
        dispatch_model(states, events)[token as int].token == states[token as int].token,
        dispatch_model(states, events)[token as int].waker == states[token as int].waker,
        dispatch_model(states, events)[token as int].interest == states[token as int].interest,
        dispatch_model(states, events)[token as int].last_event == last_event_for(
            events,
            token,
            states[token as int].last_event,
        ),
    decreases events.len(),
{
    lemma_dispatch_keeps_shape(states, events);
    if events.len() > 0 {
        law_last_event_wins(states, events.drop_last(), token);
        lemma_dispatch_keeps_shape(states, events.drop_last());
    }
}

/// No two registered sources share a token.
pub proof fn law_tokens_unique<E>(states: Seq<IoState<E>>, i: int, j: int)
    requires
        tokens_are_indices(states),
        0 <= i < states.len(),
        0 <= j < states.len(),
        i != j,
    ensures
        states[i].token != states[j].token,
{
}

/// The token that a new source gets is held by no source registered before.
pub proof fn law_new_token_is_fresh<E>(states: Seq<IoState<E>>)
    requires
        tokens_are_indices(states),
        states.len() <= usize::MAX,
    ensures
        forall|i: int| 0 <= i < states.len() ==> #[trigger] states[i].token != states.len(),
        tokens_are_indices(states.push(fresh_state::<E>(states.len() as usize))),
{
    let grown = states.push(fresh_state::<E>(states.len() as usize));
    assert forall|k: int| 0 <= k < grown.len() implies #[trigger] grown[k].token == k by {
        if k < states.len() {
            assert(states[k].token == k);
        }
    }
}

} // verus!
