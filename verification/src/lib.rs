//! A small single-threaded runtime for asynchronous code: the ready queue of
//! tasks, the executor's bookkeeping, the per-thread runtime context, the
//! registry of I/O sources woken by the I/O driver, and the address search of
//! a TCP listener.
pub mod net;
pub mod runtime;
