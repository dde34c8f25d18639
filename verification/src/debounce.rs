//! Debouncing of the filtered-list recomputation.
//!
//! Recomputing the visible list runs on a background task.  At most one
//! such task is in flight: further requests while one runs are dropped,
//! and when the running one delivers its result, a fresh task is
//! requested exactly when the search text has changed since the task
//! was started — last write wins.

use vstd::prelude::*;

verus! {

/// Tracks whether a recomputation is in flight.
#[derive(Debug, Clone, Copy, PartialEq, Eq, Structural)]
pub struct RecomputeGate {
    pub waiting: bool,
}

impl RecomputeGate {
    /// A gate with no computation in flight.
    pub fn new() -> (r: Self)
        ensures
            !r.waiting,
    {
        RecomputeGate { waiting: false }
    }

    /// Asks for a recomputation.  Returns whether the caller should
    /// start one: only when none is in flight.
    pub fn request(&mut self) -> (spawn: bool)
        ensures
            spawn == !old(self).waiting,
            final(self).waiting,
    {
        let spawn = !self.waiting;
        self.waiting = true;
        spawn
    }

    /// Takes delivery of a finished recomputation that was started for
    /// the search text `computed_for`, while the current search text is
    /// `current`.  Returns whether the caller should start a fresh
    /// computation: only when the search text has changed meanwhile;
    /// that fresh computation counts as the one in flight.
    pub fn complete(&mut self, current: &String, computed_for: &String) -> (respawn: bool)
        ensures
            respawn == (current@ != computed_for@),
            final(self).waiting == respawn,
    {
        self.waiting = false;
        if !crate::group::string_eq_str(current, computed_for.as_str()) {
            self.waiting = true;
            true
        } else {
            false
        }
    }
}

} // verus!
