use vstd::prelude::*;
use crate::runtime::io::driver::{tokens_are_indices, IoHandle};
use crate::runtime::io::scheduled_io::{fresh_state, interest_mask, Interest, IoEventFuture, IoState};

verus! {

/// What a task that waits on an I/O source does after its I/O attempt.
#[derive(Clone, Copy, PartialEq, Eq, Debug, Structural)]
pub enum IoWaitAction {
    /// The source was not ready after all: wait for its next event again.
    WaitAgain,
    /// Hand the attempt's outcome to the caller.
    Return,
}

/// Decides after an I/O attempt on a source: an attempt that would block
/// waits for the next event again; any other outcome, success or error, is
/// returned.
pub fn after_attempt(would_block: bool) -> (action: IoWaitAction)
    ensures
        action == (if would_block {
            IoWaitAction::WaitAgain
        } else {
            IoWaitAction::Return
        }),
{
    if would_block {
        IoWaitAction::WaitAgain
    } else {
        IoWaitAction::Return
    }
}

/// An I/O source's registration with the I/O driver: the token under which
/// the driver keeps its state.
#[derive(Clone, Copy, PartialEq, Eq, Debug, Structural)]
pub struct Registration {
    token: usize,
}

impl View for Registration {
    type V = usize;

    closed spec fn view(&self) -> usize {
        self.token
    }
}

impl Registration {
    /// Registers a new source with the driver behind `handle`.
    pub fn register<E>(handle: &mut IoHandle<E>) -> (registration: Self)
        ensures
            registration@ == old(handle)@.len(),
            final(handle)@ == old(handle)@.push(fresh_state::<E>(registration@)),
            tokens_are_indices(final(handle)@),
    {
        let token = handle.add_source();
        Registration { token }
    }

    /// The token under which the source is registered.
    pub fn token(&self) -> (token: usize)
        ensures
            token == self@,
    {
        self.token
    }

    /// Starts a wait for `interest` on the registered source.
    pub fn io_future<E>(&self, handle: &mut IoHandle<E>, interest: Interest) -> (future:
        IoEventFuture)
        requires
            self@ < old(handle)@.len(),
        ensures
            final(handle)@ == old(handle)@.update(
                self@ as int,
                IoState { interest: interest_mask(interest), ..old(handle)@[self@ as int] },
            ),
            future.token == self@,
            tokens_are_indices(final(handle)@),
    {
        handle.io_future(self.token, interest)
    }
}

} // verus!
