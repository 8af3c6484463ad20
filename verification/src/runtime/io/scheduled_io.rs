use vstd::prelude::*;
use std::task::Waker;

verus! {

/// `std::task::Waker`, which the library holds and hands on without looking
/// inside.
#[verifier::external_type_specification]
#[verifier::external_body]
pub struct ExWaker(Waker);

/// Bit of the interest mask for readiness to read.
pub const READABLE: usize = 0b01;

/// Bit of the interest mask for readiness to write.
pub const WRITABLE: usize = 0b10;

/// The readiness that a task waits for on an I/O source.
#[derive(Clone, Copy, PartialEq, Eq, Debug, Structural)]
pub struct Interest {
    pub readable: bool,
    pub writable: bool,
}

/// The interest mask of `interest`: `READABLE` when it asks for reading,
/// `WRITABLE` when it asks for writing, both or none.
pub open spec fn interest_mask(interest: Interest) -> usize {
    ((if interest.readable {
        READABLE
    } else {
        0usize
    }) + (if interest.writable {
        WRITABLE
    } else {
        0usize
    })) as usize
}

/// Encodes `interest` as a bit mask.
pub fn interest_bits(interest: Interest) -> (bits: usize)
    ensures
        bits == interest_mask(interest),
{
    proof {
        assert((0usize | 1usize) == 1usize) by (bit_vector);
        assert((0usize | 2usize) == 2usize && (1usize | 2usize) == 3usize) by (bit_vector);
    }
    let mut bits: usize = 0;
    if interest.readable {
        bits = bits | READABLE;
    }
    if interest.writable {
        bits = bits | WRITABLE;
    }
    bits
}

/// The mask keeps each readiness apart: its `READABLE` bit is set exactly when
/// reading is asked for, and its `WRITABLE` bit exactly when writing is.
pub proof fn law_interest_mask_decodes(interest: Interest)
    ensures
        (interest_mask(interest) & READABLE != 0) == interest.readable,
        (interest_mask(interest) & WRITABLE != 0) == interest.writable,
        interest_mask(interest) <= (READABLE | WRITABLE),
{
    assert((0usize & 1usize) == 0usize && (0usize & 2usize) == 0usize) by (bit_vector);
    assert((1usize & 1usize) == 1usize && (1usize & 2usize) == 0usize) by (bit_vector);
    assert((2usize & 1usize) == 0usize && (2usize & 2usize) == 2usize) by (bit_vector);
    assert((3usize & 1usize) == 1usize && (3usize & 2usize) == 2usize) by (bit_vector);
    assert((1usize | 2usize) == 3usize) by (bit_vector);
}

/// A handle by which a task waits for the next event of the I/O source under
/// `token`.
#[derive(Clone, Copy, PartialEq, Eq, Debug, Structural)]
pub struct IoEventFuture {
    pub token: usize,
}

/// What the library knows of an I/O source registered with the I/O driver.
pub struct IoState<E> {
    /// The token under which the source is registered.
    pub token: usize,
    /// The waker of the task that waits for the source, if one waits.
    pub waker: Option<Waker>,
    /// The interest mask of the last wait.
    pub interest: usize,
    /// The event that the driver delivered and no task has taken yet.
    pub last_event: Option<E>,
}

/// The state of a source just registered under `token`.
pub open spec fn fresh_state<E>(token: usize) -> IoState<E> {
    IoState { token, waker: None, interest: 0, last_event: None }
}

/// The state after the driver delivers `event`: it replaces any event not
/// taken yet.
pub open spec fn set_event_model<E>(state: IoState<E>, event: E) -> IoState<E> {
    IoState { last_event: Some(event), ..state }
}

/// What a poll of the source's future gives back, and the state after it: a
/// delivered event is taken, else the task's waker is kept for the next event.
pub open spec fn poll_model<E>(state: IoState<E>, waker: Waker) -> (Option<E>, IoState<E>) {
    match state.last_event {
        Some(event) => (Some(event), IoState { last_event: None, ..state }),
        None => (None, IoState { waker: Some(waker), ..state }),
    }
}

/// An I/O source registered with the I/O driver: the event delivered for it
/// and the waker of the task that waits for it.
pub struct ScheduledIo<E> {
    token: usize,
    waker: Option<Waker>,
    interest: usize,
    last_event: Option<E>,
}

impl<E> View for ScheduledIo<E> {
    type V = IoState<E>;

    closed spec fn view(&self) -> IoState<E> {
        IoState {
            token: self.token,
            waker: self.waker,
            interest: self.interest,
            last_event: self.last_event,
        }
    }
}

impl<E> ScheduledIo<E> {
    /// A source under `token` that no task waits for yet: no waker, no
    /// interest, no event.
    pub fn new(token: usize) -> (io: Self)
        ensures
            io@ == fresh_state::<E>(token),
    {
        ScheduledIo { token, waker: None, interest: 0, last_event: None }
    }

    /// The token under which the source is registered.
    pub fn token(&self) -> (token: usize)
        ensures
            token == self@.token,
    {
        self.token
    }

    /// The interest mask of the last wait.
    pub fn interest(&self) -> (bits: usize)
        ensures
            bits == self@.interest,
    {
        self.interest
    }

    /// The waker of the task that waits for this source, if one waits: the
    /// one to wake when an event for the source arrives. The waker stays.
    pub fn waker(&self) -> (waker: Option<&Waker>)
        ensures
            waker is None <==> self@.waker is None,
            waker matches Some(w) ==> self@.waker == Some(*w),
    {
        match &self.waker {
            Some(w) => Some(w),
            None => None,
        }
    }

    /// Stores the event that the driver delivered for this source.
    pub fn set_event(&mut self, event: E)
        ensures
            final(self)@ == set_event_model(old(self)@, event),
    {
        self.last_event = Some(event);
    }

    /// Starts a wait for `interest` on this source: records its mask and
    /// returns the future that waits for the next event.
    pub fn io_future(&mut self, interest: Interest) -> (future: IoEventFuture)
        ensures
            final(self)@ == (IoState { interest: interest_mask(interest), ..old(self)@ }),
            future.token == old(self)@.token,
    {
        self.interest = interest_bits(interest);
        IoEventFuture { token: self.token }
    }

    /// Polls the future of this source: takes the delivered event if there is
    /// one; otherwise keeps `waker` so that the next event wakes the task.
    pub fn poll_event(&mut self, waker: Waker) -> (event: Option<E>)
        ensures
            (event, final(self)@) == poll_model(old(self)@, waker),
    {
        match self.last_event.take() {
            Some(event) => Some(event),
            None => {
                self.waker = Some(waker);
                None
            },
        }
    }
}

/// A poll after the driver delivered an event hands out that event and clears
/// it: the next poll waits again.
pub proof fn law_poll_after_set_event<E>(state: IoState<E>, event: E, waker: Waker)
    ensures
        poll_model(set_event_model(state, event), waker).0 == Some(event),
        poll_model(set_event_model(state, event), waker).1.last_event is None,
        poll_model(poll_model(set_event_model(state, event), waker).1, waker).0 is None,
{
}

/// A poll that finds no event keeps the waker, so that waking the source
/// reaches the waiting task; the next delivered event is handed out then.
pub proof fn law_pending_poll_waits<E>(state: IoState<E>, waker: Waker, event: E)
    requires
        state.last_event is None,
    ensures
        poll_model(state, waker).0 is None,
        poll_model(state, waker).1.waker == Some(waker),
        poll_model(set_event_model(poll_model(state, waker).1, event), waker).0 == Some(event),
{
}

} // verus!
