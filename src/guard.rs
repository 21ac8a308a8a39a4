//! The single-flight guard: at most one engine invocation runs at a time.

use vstd::prelude::*;

verus! {

/// The two states of the guard: `Idle` (false) and `Running` (true).
pub struct EngineGuard {
    running: bool,
}

impl View for EngineGuard {
    type V = bool;

    closed spec fn view(&self) -> bool {
        self.running
    }
}

impl EngineGuard {
    /// A guard in the `Idle` state.
    pub fn new() -> (r: EngineGuard)
        ensures
            !r@,
    {
        EngineGuard { running: false }
    }

    /// Whether an invocation is running.
    pub fn is_running(&self) -> (r: bool)
        ensures
            r == self@,
    {
        self.running
    }

    /// Starts an invocation. A start while one is running is refused and
    /// leaves the guard as it was.
    pub fn begin(&mut self) -> (r: bool)
        ensures
            r == !old(self)@,
            final(self)@,
    {
        if self.running {
            false
        } else {
            self.running = true;
            true
        }
    }

    /// Ends the running invocation, however it ended.
    pub fn finish(&mut self)
        ensures
            !final(self)@,
    {
        self.running = false;
    }
}

} // verus!
