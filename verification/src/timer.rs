//! A polled timeout: fires its handler once a deadline has passed.
use vstd::prelude::*;

verus! {

/// A timeout polled by an event loop.  The loop reports, at each poll,
/// how long the timer has existed; the timer counts the polls and says
/// when the deadline has passed, at which point its owner runs the
/// handler.  The clock itself is read outside this crate.
pub struct SetTimeout<T> {
    pub timeOut: u64,
    pub handler: T,
    pub count: u64,
}

impl<T> SetTimeout<T> {
    /// A timeout of `timeOut` seconds around a handler.
    pub fn new(timeOut: u64, handler: T) -> (r: SetTimeout<T>)
        ensures
            r.timeOut == timeOut,
            r.handler == handler,
            r.count == 0,
    {
        SetTimeout { timeOut, handler, count: 0 }
    }

    /// One poll of the timer, given the seconds elapsed since it was
    /// created: counts the wakeup, and reports whether the deadline has
    /// passed — exactly then does the owner run the handler and let the
    /// timer's future resolve.
    pub fn poll_at(&mut self, elapsed_secs: u64) -> (fired: bool)
        requires
            old(self).count < u64::MAX,
        ensures
            fired == (elapsed_secs >= old(self).timeOut),
            final(self).count == old(self).count + 1,
            final(self).timeOut == old(self).timeOut,
            final(self).handler == old(self).handler,
    {
        self.count = self.count + 1;
        elapsed_secs >= self.timeOut
    }
}

} // verus!
