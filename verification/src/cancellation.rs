//! A cooperative cancellation flag shared between clones.

use vstd::prelude::*;
use std::sync::Arc;
use std::sync::atomic::{AtomicBool, Ordering};

verus! {

/// A cooperative cancellation handle for one decoding request.
///
/// Clones share one flag: cancelling any clone cancels them all. Whether the
/// flag is set is decided by other threads, so no contract here states it.
#[derive(Clone, Debug)]
pub struct CancellationToken(Arc<AtomicBool>);

impl CancellationToken {
    /// A token that has not been cancelled.
    pub fn new() -> (t: Self) {
        CancellationToken(Arc::new(AtomicBool::new(false)))
    }

    /// Cooperatively cancel every request configured with a clone of this token.
    pub fn cancel(&self) {
        self.0.store(true, Ordering::Release);
    }

    /// Whether cancellation has been requested.
    pub fn is_cancelled(&self) -> (b: bool) {
        self.0.load(Ordering::Acquire)
    }
}

impl Default for CancellationToken {
    fn default() -> (t: Self) {
        Self::new()
    }
}

} // verus!
