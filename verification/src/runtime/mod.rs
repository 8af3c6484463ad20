pub mod context;
pub mod executor;
pub mod io;
pub mod queue;
