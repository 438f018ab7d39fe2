//! Phases of a garbage collection.

use vstd::prelude::*;

verus! {

/// The phase the collector is in.
#[derive(Debug, Clone, Copy, PartialEq, Eq, Structural)]
pub enum GCPhase {
    /// Not collecting.
    Idle,
    /// Marking reachable objects.
    Marking,
    /// Marking concurrently with the program.
    ConcurrentMarking,
    /// Sweeping unreachable objects.
    Sweeping,
    /// Sweeping concurrently with the program.
    ConcurrentSweeping,
    /// Compacting the heap.
    Compacting,
}

} // verus!
