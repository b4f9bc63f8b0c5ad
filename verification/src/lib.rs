//! A focus/rest interval timer with a small to-do list.
//!
//! The crate holds the timer engine and the rules around it. Time advances in
//! whole seconds, one call per second, and nothing in here sleeps, prints or
//! touches a file: the program around the library does that.

pub mod backend;
pub mod frontend;
