pub mod driver;
pub mod registration;
pub mod scheduled_io;
