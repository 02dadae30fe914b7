//! Process-wide shutdown flag fed by SIGINT/SIGTERM/SIGHUP.
//!
//! All blocking points in worker threads are bounded (channel timeouts, poll
//! timeouts), so setting this flag guarantees every thread notices within a
//! few hundred milliseconds and unwinds through its normal cleanup path.

use std::sync::atomic::AtomicBool;
use std::sync::atomic::Ordering;
use std::sync::Arc;
use vstd::prelude::*;

verus! {

/// A handle on the shutdown flag. What the flag holds is shared with every other
/// handle, so nothing is said here of the value that a read gives.
pub struct Shutdown(Arc<AtomicBool>);

impl Shutdown {
    /// The flag behind the handle.
    pub closed spec fn flag(self) -> Arc<AtomicBool> {
        self.0
    }

    /// Whether shutdown was requested.
    pub fn is_set(&self) -> (r: bool) {
        self.0.load(Ordering::SeqCst)
    }

    /// Requests shutdown. The flag is never cleared again.
    pub fn request(&self) {
        self.0.store(true, Ordering::SeqCst);
    }
}

impl Default for Shutdown {
    /// A handle on a new flag that is not set.
    fn default() -> (r: Self) {
        Shutdown(Arc::new(AtomicBool::new(false)))
    }
}

impl Clone for Shutdown {
    /// Another handle on the same flag.
    fn clone(&self) -> (r: Self)
        ensures
            r.flag() == self.flag(),
    {
        Shutdown(self.0.clone())
    }
}

} // verus!
