//! The shutdown signal that the supervisor shares with its workers.

use std::sync::atomic::{AtomicBool, Ordering};
use std::sync::Arc;
use vstd::prelude::*;

verus! {

/// A handle on the shutdown signal. The signal starts clear, and the only
/// change it offers is to be set: once a shutdown is requested it stays
/// requested.
///
/// The signal can be set from any thread at any time, so nothing is stated
/// of when a handle first sees the request; the monitor is verified for
/// either answer. What a handle has seen it keeps: from the first reading
/// that tells of the request, every reading of that handle does.
pub struct ShutdownToken {
    flag: Arc<AtomicBool>,
    seen: bool,
}

impl ShutdownToken {
    /// The flag that the token is a handle on. Tokens with the same flag
    /// are handles on the same signal.
    pub closed spec fn flag(&self) -> Arc<AtomicBool> {
        self.flag
    }

    /// Whether this handle has seen the request.
    pub closed spec fn observed(&self) -> bool {
        self.seen
    }

    /// A handle on a new signal. No shutdown has been requested on it, and
    /// the handle has seen none.
    pub fn new() -> (token: ShutdownToken)
        ensures
            !token.observed(),
    {
        ShutdownToken { flag: Arc::new(AtomicBool::new(false)), seen: false }
    }

    /// Another handle on the same signal, for one more worker or for the
    /// signal handler. It has seen what this handle has seen.
    pub fn share(&self) -> (other: ShutdownToken)
        ensures
            other.flag() == self.flag(),
            other.observed() == self.observed(),
    {
        ShutdownToken { flag: Arc::clone(&self.flag), seen: self.seen }
    }

    /// Requests the shutdown.
    pub fn request(&self) {
        self.flag.store(true, Ordering::Relaxed);
    }

    /// Takes note of a reading of the signal: `set` is what the flag held.
    /// The answer is yes if the reading tells of the request or the handle
    /// has seen it before, and the handle remembers the answer.
    pub fn note(&mut self, set: bool) -> (requested: bool)
        ensures
            requested == (old(self).observed() || set),
            final(self).observed() == requested,
            final(self).flag() == old(self).flag(),
    {
        if set {
            self.seen = true;
        }
        self.seen
    }

    /// Whether a shutdown has been requested, as far as this handle can
    /// tell. The handle reads the signal and takes [`note`](Self::note) of
    /// the reading: once the answer is yes, it is yes for good.
    pub fn is_requested(&mut self) -> (requested: bool)
        ensures
            old(self).observed() ==> requested,
            final(self).observed() == requested,
            final(self).flag() == old(self).flag(),
    {
        let set = self.flag.load(Ordering::Relaxed);
        self.note(set)
    }
}

} // verus!
