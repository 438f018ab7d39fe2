//! Notifications of the collector, for its users to handle.

use vstd::prelude::*;
use super::phase::GCPhase;
use super::stats::GCStats;

verus! {

/// Receives the collector's notifications; implemented by its users.
pub trait GCEventHandler: Send + Sync {
    /// A collection phase starts.
    fn on_gc_start(&self, phase: GCPhase);

    /// A collection phase ended, with the counters after it.
    fn on_gc_end(&self, phase: GCPhase, stats: &GCStats);

    /// An object of `size` bytes was reclaimed.
    fn on_object_collected(&self, size: usize);
}

} // verus!
