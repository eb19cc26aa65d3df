//! The error taxonomy of the byte-stream drivers.

use crate::overlapped::OverlappedError;
use vstd::prelude::*;

verus! {

/// Why a decoded-item stream yields an error item.
///
/// Only `QueueFull` (and an end-of-file overlapped error) terminates the
/// stream; a decode error is reported and the stream continues behind the
/// consumed frame.
#[derive(Debug)]
pub enum StreamError<E> {
    /// The kernel reported a failed read.
    Overlapped(OverlappedError),
    /// The decoder rejected a frame.
    Decode(E),
    /// The completion queue overflowed; items were dropped, so the stream
    /// ends and the channel must be torn down and reopened.
    QueueFull,
}

/// Why a write cycle fails.
#[derive(Debug)]
pub enum SinkError {
    /// The kernel reported a failed write.
    Overlapped(OverlappedError),
    /// The pool was torn down before the write resolved.
    Cancelled,
    /// The write buffer cannot take the offered bytes.
    BufferFull,
}

/// Why encoding an item into a write buffer fails.
#[derive(Debug)]
pub enum SinkEncodeError<E> {
    /// The item's encoder failed.
    Encode(E),
    /// The item's encoded length does not fit the buffer's remaining
    /// capacity.
    BufferFull,
}

/// Why constructing an I/O pool fails.
#[derive(Debug)]
pub enum ThreadpoolError<E> {
    /// The first read could not be started.
    Stream(StreamError<E>),
    /// The write side could not be set up.
    Sink,
    /// The worker-pool registration could not be created, by its system
    /// error code.
    Io(i32),
}

} // verus!
