//! What the underlying byte channel and its worker pool must offer.
//!
//! The runtime never performs I/O itself: an implementor-supplied handle
//! starts a read into a buffer or a write from a buffer, and either finishes
//! synchronously with a byte count or reports that the kernel will complete
//! it later.  A worker-pool handle is told before each operation that a
//! completion may arrive, and told again when none will.

use crate::buffer::IoBuffer;
use crate::overlapped::Overlapped;
use crate::overlapped::OverlappedError;
use crate::WaitPending;
use vstd::prelude::*;

verus! {

/// Raw value of a kernel file handle, opaque to the runtime.
#[derive(Debug, Copy, Clone, PartialEq, Eq, Structural)]
pub struct RawFileHandle {
    raw: usize,
}

impl RawFileHandle {
    pub closed spec fn spec_raw(&self) -> usize {
        self.raw
    }

    pub fn from_raw(raw: usize) -> (r: RawFileHandle)
        ensures
            r.spec_raw() == raw,
    {
        RawFileHandle { raw }
    }

    pub fn raw(&self) -> (r: usize)
        ensures
            r == self.spec_raw(),
    {
        self.raw
    }
}

/// The buffer grew from `pre` to `post` by exactly `n` bytes at the tail.
pub open spec fn appended_exactly(pre: Seq<u8>, post: Seq<u8>, n: int) -> bool {
    post.len() == pre.len() + n && post.take(pre.len() as int) == pre
}

/// A byte channel that can start an overlapped read.
///
/// A successful call appends the bytes it read at the tail of the buffer,
/// within the buffer's capacity, and reports how many.  A read that would
/// transfer no bytes must instead report `Pending` (the kernel will complete
/// it later and the completion path will deliver the bytes), `Eof`, or an
/// error; this is what lets a driver keep issuing reads until the kernel
/// takes over.
pub trait ReadOverlapped {
    fn read_overlapped(&mut self, overlapped: &mut Overlapped, buf: &mut IoBuffer) -> (r:
        Result<usize, OverlappedError>)
        requires
            old(buf).wf(),
        ensures
            final(buf).wf(),
            final(buf).spec_capacity() == old(buf).spec_capacity(),
            match r {
                Ok(n) => 1 <= n <= old(buf).spec_capacity() - old(buf)@.len()
                    && appended_exactly(old(buf)@, final(buf)@, n as int),
                Err(_) => final(buf)@ == old(buf)@,
            },
    ;
}

/// A byte channel that can start an overlapped write.
///
/// A successful call reports how many bytes from the head of the buffer the
/// kernel accepted; a write that would accept none must instead report
/// `Pending`, `Eof`, or an error, so a flushing driver always makes progress.
pub trait WriteOverlapped {
    fn write_overlapped(&mut self, overlapped: &mut Overlapped, bytes: &IoBuffer) -> (r:
        Result<usize, OverlappedError>)
        requires
            bytes@.len() > 0,
        ensures
            match r {
                Ok(n) => 1 <= n <= bytes@.len(),
                Err(_) => true,
            },
    ;
}

/// Bookkeeping of a worker pool that delivers completion callbacks.
///
/// `start` announces that an operation was issued and a callback may arrive;
/// `cancel` withdraws the announcement after a synchronous completion; `wait`
/// blocks until outstanding callbacks have quiesced, optionally cancelling
/// those that have not started.  The calls only steer the pool's accounting,
/// so no contract constrains them.
pub trait ThreadpoolIoWork {
    /// Announce that an I/O operation was issued on the pool.
    fn start(&self) -> &Self;

    /// Block until outstanding callbacks have quiesced.
    fn wait(&self, pending: WaitPending) -> &Self;

    /// Withdraw the announcement after a synchronous completion.
    fn cancel(&self) -> &Self;
}

} // verus!
