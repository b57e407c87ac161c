//! The cross-thread stop latch: the control thread sets it, the audio
//! thread reads it once per buffer. What a read returns depends on the
//! other thread, so nothing is promised of it.

use std::sync::Arc;
use std::sync::atomic::{AtomicBool, Ordering};
use vstd::prelude::*;

verus! {

/// A fresh, unset stop latch.
pub(crate) fn new_stop_flag() -> Arc<AtomicBool> {
    Arc::new(AtomicBool::new(false))
}

/// Another handle on the same latch (`Arc::clone`): a pointer to the
/// same allocation, so the same latch.
#[verifier::external_body]
pub(crate) fn share_flag(flag: &Arc<AtomicBool>) -> (r: Arc<AtomicBool>)
    ensures
        r == *flag,
{
    Arc::clone(flag)
}

/// Read the latch (acquire).
pub(crate) fn read_flag(flag: &Arc<AtomicBool>) -> bool {
    flag.load(Ordering::Acquire)
}

/// Set the latch (release).
pub(crate) fn set_flag(flag: &Arc<AtomicBool>) {
    flag.store(true, Ordering::Release);
}

/// Control-thread handle that asks the audio callback to stop.
#[derive(Clone)]
pub struct PlayheadStopHandle {
    flag: Arc<AtomicBool>,
}

impl PlayheadStopHandle {
    /// The latch this handle sets and reads.
    pub closed spec fn latch(&self) -> Arc<AtomicBool> {
        self.flag
    }

    /// A handle on `flag`.
    pub fn from_flag(flag: Arc<AtomicBool>) -> (h: PlayheadStopHandle)
        ensures
            h.latch() == flag,
    {
        PlayheadStopHandle { flag }
    }

    /// Ask the audio callback to emit a final Stop and fall silent.
    /// Idempotent.
    pub fn request_stop(&self) {
        set_flag(&self.flag);
    }

    /// Whether a stop has been requested (as far as this thread sees).
    pub fn is_stop_requested(&self) -> bool {
        read_flag(&self.flag)
    }
}

/// Control-thread stop handle of the single-clock engine.
#[derive(Clone)]
pub struct MachineStopHandle {
    flag: Arc<AtomicBool>,
}

impl MachineStopHandle {
    /// The latch this handle sets and reads.
    pub closed spec fn latch(&self) -> Arc<AtomicBool> {
        self.flag
    }

    /// A handle on `flag`.
    pub fn from_flag(flag: Arc<AtomicBool>) -> (h: MachineStopHandle)
        ensures
            h.latch() == flag,
    {
        MachineStopHandle { flag }
    }

    /// Ask the engine to stop. Idempotent.
    pub fn request_stop(&self) {
        set_flag(&self.flag);
    }

    /// Whether a stop has been requested.
    pub fn is_stop_requested(&self) -> bool {
        read_flag(&self.flag)
    }
}

} // verus!
