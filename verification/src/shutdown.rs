//! Cross-thread stop flag of an executor.
use vstd::prelude::*;
use std::sync::Arc;
use std::sync::atomic::AtomicBool;
use std::sync::atomic::Ordering;

verus! {

/// Token that can interrupt an executor's `spin` / background `start` from
/// another thread (ROS 2–style cancel).
///
/// Every clone shares one flag; another thread may change it at any time, so
/// no contract here states what a read returns, only which flag a handle
/// names.
#[derive(Clone)]
pub struct ShutdownHandle {
    running: Arc<AtomicBool>,
}

/// `Arc::clone`: another pointer to the same allocation.
///
/// Trusted: calls std's `Arc::clone`; the contract claims only that the new
/// pointer names the same flag as `flag`.
#[verifier::external_body]
fn share_flag(flag: &Arc<AtomicBool>) -> (r: Arc<AtomicBool>)
    ensures
        r == *flag,
{
    Arc::clone(flag)
}

impl ShutdownHandle {
    /// The flag this handle names.
    pub closed spec fn spec_flag(&self) -> AtomicBool {
        *self.running
    }

    /// Another handle on the same flag.
    pub fn share(&self) -> (r: Self)
        ensures
            r.spec_flag() == self.spec_flag(),
    {
        ShutdownHandle { running: share_flag(&self.running) }
    }

    /// A fresh flag, not running.
    pub fn new() -> Self {
        ShutdownHandle { running: Arc::new(AtomicBool::new(false)) }
    }

    /// Ask the executor to leave its loop.
    pub fn shutdown(&self) {
        self.running.store(false, Ordering::Release);
    }

    /// Mark the executor as running.
    pub fn set_running(&self) {
        self.running.store(true, Ordering::Release);
    }

    /// Whether the executor should keep looping.
    pub fn is_running(&self) -> bool {
        self.running.load(Ordering::Acquire)
    }
}

} // verus!
