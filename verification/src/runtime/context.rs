use vstd::prelude::*;

verus! {

/// The runtime context of one thread: the executor handle that the runtime
/// entered with, set at most once.
pub struct Context<T> {
    executor: Option<T>,
}

impl<T> View for Context<T> {
    type V = Option<T>;

    closed spec fn view(&self) -> Option<T> {
        self.executor
    }
}

impl<T> Context<T> {
    /// A context that no runtime has entered yet.
    pub fn new() -> (context: Self)
        ensures
            context@ is None,
    {
        Context { executor: None }
    }

    /// Stores the handle of the executor that enters the runtime. A runtime
    /// enters a thread's context once: a second entry is not allowed.
    pub fn set_executor(&mut self, executor: T)
        requires
            old(self)@ is None,
        ensures
            final(self)@ == Some(executor),
    {
        self.executor = Some(executor);
    }

    /// Whether a runtime has entered this context.
    pub fn is_entered(&self) -> (entered: bool)
        ensures
            entered == self@ is Some,
    {
        self.executor.is_some()
    }

    /// The handle of the executor that entered the runtime, if one did.
    pub fn get_executor_handle(&self) -> (handle: Option<&T>)
        ensures
            handle is None <==> self@ is None,
            handle matches Some(h) ==> self@ == Some(*h),
    {
        match &self.executor {
            Some(h) => Some(h),
            None => None,
        }
    }
}

} // verus!
