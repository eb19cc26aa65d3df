//! The work-once pool: one computation on a worker thread, one result.
//!
//! The embedding program owns the closure in a cell beside this state; the
//! worker callback takes it exactly once, runs it, and publishes the output
//! here.  The future only ever inspects the result slot.  `cancel_with`
//! first waits for the callback to quiesce — so the closure, once started,
//! always runs to completion — and then publishes a synthetic result for
//! consumers, unless the real result beat it: the closure's output wins.

use vstd::prelude::*;

verus! {

/// The result slot is write-once: a prior result survives any later offer.
pub open spec fn published<O>(prior: Option<O>, offered: O) -> Option<O> {
    if prior is Some {
        prior
    } else {
        Some(offered)
    }
}

/// The state shared by the worker callback and the consuming future.
#[derive(Debug)]
pub struct WorkOncePool<O> {
    ran: bool,
    result: Option<O>,
    consumed: bool,
}

impl<O> WorkOncePool<O> {
    /// The closure's slot is spent: the worker ran it, or a cancellation
    /// made sure it never will run.
    pub closed spec fn spec_ran(&self) -> bool {
        self.ran
    }

    /// The published result awaiting the consumer.
    pub closed spec fn spec_result(&self) -> Option<O> {
        self.result
    }

    /// The future has resolved; polling again is a programming error.
    pub closed spec fn spec_consumed(&self) -> bool {
        self.consumed
    }

    pub fn new() -> (r: WorkOncePool<O>)
        ensures
            !r.spec_ran(),
            r.spec_result() is None,
            !r.spec_consumed(),
    {
        WorkOncePool { ran: false, result: None, consumed: false }
    }

    /// The worker callback finished the closure with this output.  The
    /// closure is taken from its cell exactly once, so a second completion
    /// cannot happen; the precondition records that.
    pub fn complete(&mut self, output: O)
        requires
            !old(self).spec_ran(),
        ensures
            final(self).spec_ran(),
            final(self).spec_consumed() == old(self).spec_consumed(),
            final(self).spec_result() == published(old(self).spec_result(), output),
    {
        self.ran = true;
        match self.result {
            Some(_) => {},
            None => {
                self.result = Some(output);
            },
        }
    }

    /// Publish a synthetic result after the callbacks have quiesced: no
    /// closure will run after this.  The result slot is write-once, so if
    /// the closure's own output arrived first, it wins and the synthetic
    /// result is discarded.
    pub fn cancel_with(&mut self, output: O)
        ensures
            final(self).spec_ran(),
            final(self).spec_consumed() == old(self).spec_consumed(),
            final(self).spec_result() == published(old(self).spec_result(), output),
    {
        self.ran = true;
        match self.result {
            Some(_) => {},
            None => {
                self.result = Some(output);
            },
        }
    }

    /// The future's poll: takes the published result, exactly once.  Polling
    /// a resolved future again is a programming error: the unverified facade
    /// panics on it, and this precondition excludes it.
    pub fn poll(&mut self) -> (r: Option<O>)
        requires
            !old(self).spec_consumed(),
        ensures
            final(self).spec_ran() == old(self).spec_ran(),
            r == old(self).spec_result(),
            final(self).spec_result() is None,
            final(self).spec_consumed() == (r is Some),
    {
        let mut taken: Option<O> = None;
        core::mem::swap(&mut taken, &mut self.result);
        if let Some(output) = taken {
            self.consumed = true;
            Some(output)
        } else {
            None
        }
    }
}

/// Law: whichever of the worker's completion and a cancellation publishes
/// first wins.  In particular, when the closure finishes before a
/// `cancel_with`, the future resolves with the closure's actual output and
/// the synthetic result is discarded.
pub proof fn lemma_first_result_wins<O>(first: O, later: O)
    ensures
        published(published(None::<O>, first), later) == Some(first),
{
}

} // verus!
