//! The stop flag shared between a running course brush and the command that
//! asks it to stop.
use vstd::prelude::*;
use std::sync::Arc;
use std::sync::atomic::AtomicBool;

verus! {

/// Owner of the shared stop flag of a brush run.
pub struct BrushRunner {
    pub stop: Arc<AtomicBool>,
}

impl BrushRunner {
    /// A runner whose flag starts lowered. The std atomic holding the flag
    /// has no value specification, so the lowered flag is not stated.
    pub fn new() -> (r: BrushRunner) {
        BrushRunner { stop: Arc::new(AtomicBool::new(false)) }
    }

    /// Raises the stop flag; the run notices it at its next check.
    pub fn request_stop(&self) {
        self.stop.store(true, std::sync::atomic::Ordering::SeqCst);
    }

    /// Lowers the stop flag, as a new run does when it starts.
    pub fn clear_stop(&self) {
        self.stop.store(false, std::sync::atomic::Ordering::SeqCst);
    }

    /// Reads the stop flag. Another thread may change it at any time, so
    /// nothing is stated of the value.
    pub fn stopped(&self) -> bool {
        self.stop.load(std::sync::atomic::Ordering::SeqCst)
    }
}

} // verus!
