pub mod listener;
