//! The one-shot completion signal that sequences operations on a pool.
//!
//! Every future or stream a pool hands out is paired with a signal; when the
//! wrapped operation finishes, the signal fires, and the pool awaits it
//! before installing the next operation.  The embedding program shares an
//! [`Inner`] between the wrapper and the signal's future and supplies the
//! waker; the state here is the signal bit itself and the wrapper's
//! position.

use vstd::prelude::*;

verus! {

/// The shared state of one signal: fired or not.
#[derive(Debug)]
pub struct Inner {
    signal: bool,
}

impl Inner {
    pub closed spec fn spec_signalled(&self) -> bool {
        self.signal
    }

    pub fn new() -> (r: Inner)
        ensures
            !r.spec_signalled(),
    {
        Inner { signal: false }
    }

    /// Fire the signal; it stays fired.  The embedding program wakes the
    /// waiting task.
    pub fn signal(&mut self)
        ensures
            final(self).spec_signalled(),
    {
        self.signal = true;
    }

    /// Whether the signal has fired: the paired future resolves exactly when
    /// it has.
    pub fn is_signalled(&self) -> (r: bool)
        ensures
            r == self.spec_signalled(),
    {
        self.signal
    }
}

impl Default for Inner {
    fn default() -> (r: Inner)
        ensures
            !r.spec_signalled(),
    {
        Inner::new()
    }
}

/// A wrapped operation paired with a completion signal.
///
/// While `Incomplete` it carries the inner future or stream; once the inner
/// operation yields its final result the wrapper becomes `Complete` and the
/// paired signal must fire.  Polling a complete wrapper is a programming
/// error, excluded here by precondition and reported by the embedding
/// program as a panic.
#[derive(Debug)]
pub enum Watch<I> {
    Incomplete { inner: I },
    Complete,
}

impl<I> Watch<I> {
    pub fn new(inner: I) -> (r: Watch<I>)
        ensures
            r == (Watch::Incomplete { inner }),
    {
        Watch::Incomplete { inner }
    }

    /// The wrapped operation, while it has not completed.
    pub fn inner(&self) -> (r: Option<&I>)
        ensures
            match r {
                Some(v) => *self matches Watch::Incomplete { inner } && v == &inner,
                None => *self is Complete,
            },
    {
        match self {
            Watch::Incomplete { inner } => Some(inner),
            Watch::Complete => None,
        }
    }

    /// The wrapped operation yielded its final result: retire the wrapper.
    /// The embedding program fires the paired signal at this moment and
    /// never polls the wrapper again.
    pub fn finish(&mut self)
        requires
            *old(self) is Incomplete,
        ensures
            *final(self) is Complete,
    {
        *self = Watch::Complete;
    }
}

} // verus!
