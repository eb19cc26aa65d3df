//! The wait pool: awaiting a kernel waitable object.
//!
//! A pool holds one pending wait at a time.  The kernel callback stores the
//! outcome — signalled or timed out — in a shared slot; the future resolves
//! with it.  Starting a second wait without `restart` is a programming
//! error: the unverified facade panics, and here the precondition excludes
//! it.  `restart` consumes the previous outcome and refuses with
//! `InProgress` while none has arrived.

use vstd::prelude::*;

verus! {

/// Why a wait resolves without the object being signalled.
#[derive(Copy, Clone, Debug, PartialEq, Eq, Structural)]
pub enum WaitError {
    /// A caller is no longer interested in the wait object.
    Cancelled,
    /// The wait object was not signalled before the requested timeout.
    Timeout,
    /// A previous wait on this pool has not resolved yet.
    InProgress,
}

/// Waiting resolves with the object signalled, or a wait error.
pub type WaitResult = Result<(), WaitError>;

/// The slot shared by the kernel wait callback and the polling future.  The
/// embedding program guards it with its lock and keeps the waker beside it.
#[derive(Debug)]
pub struct Shared {
    result: Option<WaitResult>,
}

impl Shared {
    /// The stored outcome, if one has arrived.
    pub closed spec fn spec_result(&self) -> Option<WaitResult> {
        self.result
    }

    pub fn new() -> (r: Shared)
        ensures
            r.spec_result() is None,
    {
        Shared { result: None }
    }

    /// Store an outcome unless one is already present: the first outcome
    /// wins.  Reports whether the consumer must be woken.
    pub fn maybe_wake_with(&mut self, result: WaitResult) -> (woke: bool)
        ensures
            match old(self).spec_result() {
                Some(prior) => !woke && final(self).spec_result() == Some(prior),
                None => woke && final(self).spec_result() == Some(result),
            },
    {
        match self.result {
            Some(_) => false,
            None => {
                self.result = Some(result);
                true
            },
        }
    }
}

impl Default for Shared {
    fn default() -> (r: Shared)
        ensures
            r.spec_result() is None,
    {
        Shared::new()
    }
}

/// One pool: the kernel wait registration's shared state plus the
/// started-once latch.
#[derive(Debug)]
pub struct WaitPool {
    shared: Shared,
    started: bool,
}

impl WaitPool {
    /// A wait has been started on this pool.
    pub closed spec fn spec_started(&self) -> bool {
        self.started
    }

    /// The outcome of the current wait, once the callback has delivered it.
    pub closed spec fn spec_result(&self) -> Option<WaitResult> {
        self.shared.spec_result()
    }

    pub fn new() -> (r: WaitPool)
        ensures
            !r.spec_started(),
            r.spec_result() is None,
    {
        WaitPool { shared: Shared::new(), started: false }
    }

    /// Begin the pool's first wait; the embedding program registers the wait
    /// object and timeout with the kernel.  Starting twice without `restart`
    /// is a programming error: the unverified facade panics on it, and this
    /// precondition excludes it.
    pub fn start(&mut self)
        requires
            !old(self).spec_started(),
        ensures
            final(self).spec_started(),
            final(self).spec_result() == old(self).spec_result(),
    {
        self.started = true;
    }

    /// Begin waiting for another object: consumes the previous outcome, and
    /// refuses with `InProgress` exactly when the previous wait has not
    /// resolved yet.
    pub fn restart(&mut self) -> (r: Result<(), WaitError>)
        ensures
            final(self).spec_started() == old(self).spec_started(),
            match old(self).spec_result() {
                Some(_) => r is Ok && final(self).spec_result() is None,
                None => r == Err::<(), WaitError>(WaitError::InProgress) && final(self).spec_result() is None,
            },
    {
        match self.shared.result {
            Some(_) => {
                self.shared.result = None;
                Ok(())
            },
            None => Err(WaitError::InProgress),
        }
    }

    /// The kernel callback delivered the wait outcome: the object was
    /// signalled, or the timeout elapsed first.  The callback stores it
    /// unconditionally.
    pub fn complete(&mut self, timed_out: bool)
        ensures
            final(self).spec_started() == old(self).spec_started(),
            final(self).spec_result() == Some(
                if timed_out {
                    Err::<(), WaitError>(WaitError::Timeout)
                } else {
                    Ok::<(), WaitError>(())
                },
            ),
    {
        if timed_out {
            self.shared.result = Some(Err(WaitError::Timeout));
        } else {
            self.shared.result = Some(Ok(()));
        }
    }

    /// Resolve pending futures with `Cancelled`; an outcome that already
    /// arrived wins.  Reports whether the consumer must be woken.
    pub fn cancel(&mut self) -> (woke: bool)
        ensures
            final(self).spec_started() == old(self).spec_started(),
            match old(self).spec_result() {
                Some(prior) => !woke && final(self).spec_result() == Some(prior),
                None => woke && final(self).spec_result() == Some(
                    Err::<(), WaitError>(WaitError::Cancelled),
                ),
            },
    {
        self.shared.maybe_wake_with(Err(WaitError::Cancelled))
    }

    /// The future's poll: the stored outcome once it has arrived, pending
    /// until then.  The outcome stays for `restart` to consume.
    pub fn poll(&self) -> (r: Option<WaitResult>)
        ensures
            r == self.spec_result(),
    {
        self.shared.result
    }
}

} // verus!
