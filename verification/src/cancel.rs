use vstd::prelude::*;

use crate::errors::AcquireError;

verus! {

/// Cooperative cancellation token, shared between the caller and the worker
/// threads it spawned. The flag only ever moves from "not cancelled" to
/// "cancelled"; since other threads may flip it at any moment, nothing is
/// promised about the value an individual load observes.
pub struct CancelFlag {
    flag: std::sync::Arc<core::sync::atomic::AtomicBool>,
}

impl Clone for CancelFlag {
    /// The clone shares the same underlying flag.
    fn clone(&self) -> Self {
        CancelFlag { flag: self.flag.clone() }
    }
}

impl CancelFlag {
    /// A fresh, not-yet-cancelled flag.
    pub fn new() -> Self {
        CancelFlag {
            flag: std::sync::Arc::new(core::sync::atomic::AtomicBool::new(false)),
        }
    }

    /// Requests cancellation; every clone of this flag observes it.
    pub fn cancel(&self) {
        self.flag.store(true, core::sync::atomic::Ordering::SeqCst);
    }

    /// Whether cancellation has been requested at this instant.
    pub fn is_cancelled(&self) -> bool {
        self.flag.load(core::sync::atomic::Ordering::SeqCst)
    }

    /// Turns the current state of the flag into a result: whenever this
    /// returns an error, that error is `Cancelled`.
    pub fn check(&self) -> (r: Result<(), AcquireError>)
        ensures
            r is Err ==> r->Err_0 is Cancelled,
    {
        if self.is_cancelled() {
            Err(AcquireError::Cancelled)
        } else {
            Ok(())
        }
    }
}

impl Default for CancelFlag {
    fn default() -> Self {
        Self::new()
    }
}

} // verus!
