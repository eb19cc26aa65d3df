//! Core of an asynchronous runtime that bridges a completion-based I/O model
//! to a cooperative task model.
//!
//! Each facility is a small "pool": shared state that is driven from two
//! sides, by kernel worker callbacks that report completions and by user
//! tasks that poll for results.  This crate holds the decision logic of every
//! pool as a plain state machine with a verified contract; the embedding
//! program supplies the operating-system registrations, threads and wakers
//! and forwards their events to these state machines.

pub mod buffer;
pub mod codec;
pub mod errors;
pub mod guid;
pub mod handle;
pub mod hex;
pub mod hkey;
pub mod device;
pub mod drive;
pub mod lines;
pub mod message;
pub mod overlapped;
pub mod timer;
pub mod wait;
pub mod watch;
pub mod work;

use vstd::prelude::*;

verus! {

/// Whether a teardown should wait for pending callbacks or cancel those that
/// have not started yet.
#[derive(Copy, Clone, Debug, PartialEq, Eq, Structural)]
pub enum WaitPending {
    /// Wait for pending callbacks to run to completion.
    Wait,
    /// Cancel pending callbacks that have not started to execute.
    Cancel,
}

} // verus!
