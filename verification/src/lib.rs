//! The decisions that a host and its guests take while they call each other
//! concurrently.
//!
//! Everything here is a function of plain values: what a guest hands to its
//! import, which wakers a host wakes, which command follows an event.  Running
//! components, sleeping and polling are left to the program around the library.
pub mod host;
pub mod guest;
pub mod join;
pub mod round_trip;
pub mod ready;
pub mod poll;
pub mod yielding;
pub mod backpressure;
pub mod callee;
pub mod caller;
pub mod exchange;
pub mod codec;
pub mod echo;
