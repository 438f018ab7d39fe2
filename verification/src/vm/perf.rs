//! Execution performance counters.

use vstd::prelude::*;
use crate::time::{instant_now, micros_since};

verus! {

/// Counts instructions, calls, memory events and collections while enabled.
pub struct PerformanceMonitor {
    /// Instructions executed.
    pub instruction_count: usize,
    /// Function calls.
    pub call_count: usize,
    /// Deepest call stack seen.
    pub max_stack_depth: usize,
    /// When execution started.
    pub start_time: Option<std::time::Instant>,
    /// Memory allocations.
    pub memory_allocations: usize,
    /// Memory deallocations.
    pub memory_deallocations: usize,
    /// Garbage collections.
    pub gc_count: usize,
    /// Total garbage-collection time in microseconds.
    pub gc_total_time_us: u64,
    /// Largest memory use seen, in bytes.
    pub max_memory_used: usize,
    /// Whether events are recorded.
    pub enabled: bool,
}

impl PerformanceMonitor {
    /// All counters zero, no start time, enabled.
    pub open spec fn is_fresh(&self) -> bool {
        &&& self.instruction_count == 0
        &&& self.call_count == 0
        &&& self.max_stack_depth == 0
        &&& self.memory_allocations == 0
        &&& self.memory_deallocations == 0
        &&& self.gc_count == 0
        &&& self.gc_total_time_us == 0
        &&& self.max_memory_used == 0
    }

    /// Creates an enabled monitor with every counter zero and no start time.
    pub fn new() -> (m: Self)
        ensures
            m.is_fresh(),
            m.start_time is None,
            m.enabled,
    {
        PerformanceMonitor {
            instruction_count: 0,
            call_count: 0,
            max_stack_depth: 0,
            start_time: None,
            memory_allocations: 0,
            memory_deallocations: 0,
            gc_count: 0,
            gc_total_time_us: 0,
            max_memory_used: 0,
            enabled: true,
        }
    }

    /// Starts timing now and zeroes every counter.
    pub fn start(&mut self)
        ensures
            final(self).is_fresh(),
            final(self).start_time is Some,
            final(self).enabled == old(self).enabled,
    {
        self.start_time = Some(instant_now());
        self.instruction_count = 0;
        self.call_count = 0;
        self.max_stack_depth = 0;
        self.memory_allocations = 0;
        self.memory_deallocations = 0;
        self.gc_count = 0;
        self.gc_total_time_us = 0;
        self.max_memory_used = 0;
    }

    /// Counts one executed instruction, when enabled.
    pub fn record_instruction(&mut self)
        requires
            old(self).enabled ==> old(self).instruction_count < usize::MAX,
        ensures
            *final(self) == (if old(self).enabled {
                PerformanceMonitor { instruction_count: (old(self).instruction_count + 1) as usize, ..*old(self) }
            } else {
                *old(self)
            }),
    {
        if !self.enabled {
            return;
        }
        self.instruction_count += 1;
    }

    /// Counts one call at stack depth `stack_depth` and raises the deepest
    /// depth seen, when enabled.
    pub fn record_call(&mut self, stack_depth: usize)
        requires
            old(self).enabled ==> old(self).call_count < usize::MAX,
        ensures
            *final(self) == (if old(self).enabled {
                PerformanceMonitor {
                    call_count: (old(self).call_count + 1) as usize,
                    max_stack_depth: if stack_depth > old(self).max_stack_depth { stack_depth } else { old(self).max_stack_depth },
                    ..*old(self)
                }
            } else {
                *old(self)
            }),
    {
        if !self.enabled {
            return;
        }
        self.call_count += 1;
        if stack_depth > self.max_stack_depth {
            self.max_stack_depth = stack_depth;
        }
    }

    /// Counts one memory allocation (its size is not recorded), when enabled.
    pub fn record_memory_allocation(&mut self, size: usize)
        requires
            old(self).enabled ==> old(self).memory_allocations < usize::MAX,
        ensures
            *final(self) == (if old(self).enabled {
                PerformanceMonitor { memory_allocations: (old(self).memory_allocations + 1) as usize, ..*old(self) }
            } else {
                *old(self)
            }),
    {
        if !self.enabled {
            return;
        }
        self.memory_allocations += 1;
    }

    /// Counts one memory deallocation (its size is not recorded), when enabled.
    pub fn record_memory_deallocation(&mut self, size: usize)
        requires
            old(self).enabled ==> old(self).memory_deallocations < usize::MAX,
        ensures
            *final(self) == (if old(self).enabled {
                PerformanceMonitor { memory_deallocations: (old(self).memory_deallocations + 1) as usize, ..*old(self) }
            } else {
                *old(self)
            }),
    {
        if !self.enabled {
            return;
        }
        self.memory_deallocations += 1;
    }

    /// Counts one collection of `duration_us` microseconds, when enabled.
    pub fn record_gc(&mut self, duration_us: u64)
        requires
            old(self).enabled ==> old(self).gc_count < usize::MAX
                && old(self).gc_total_time_us + duration_us <= u64::MAX,
        ensures
            *final(self) == (if old(self).enabled {
                PerformanceMonitor {
                    gc_count: (old(self).gc_count + 1) as usize,
                    gc_total_time_us: (old(self).gc_total_time_us + duration_us) as u64,
                    ..*old(self)
                }
            } else {
                *old(self)
            }),
    {
        if !self.enabled {
            return;
        }
        self.gc_count += 1;
        self.gc_total_time_us += duration_us;
    }

    /// Raises the largest memory use seen to `current_used`, when enabled.
    pub fn update_max_memory_used(&mut self, current_used: usize)
        ensures
            *final(self) == (if old(self).enabled && current_used > old(self).max_memory_used {
                PerformanceMonitor { max_memory_used: current_used, ..*old(self) }
            } else {
                *old(self)
            }),
    {
        if !self.enabled {
            return;
        }
        if current_used > self.max_memory_used {
            self.max_memory_used = current_used;
        }
    }

    /// Turns recording on.
    pub fn enable(&mut self)
        ensures
            *final(self) == (PerformanceMonitor { enabled: true, ..*old(self) }),
    {
        self.enabled = true;
    }

    /// Turns recording off.
    pub fn disable(&mut self)
        ensures
            *final(self) == (PerformanceMonitor { enabled: false, ..*old(self) }),
    {
        self.enabled = false;
    }

    /// Whether recording is on.
    pub fn is_enabled(&self) -> (b: bool)
        ensures
            b == self.enabled,
    {
        self.enabled
    }

    /// Microseconds since `start`, or zero when never started.
    pub fn elapsed_us(&self) -> (us: u64)
        ensures
            self.start_time is None ==> us == 0,
    {
        match &self.start_time {
            Some(t) => micros_since(t),
            None => 0,
        }
    }
}

impl Default for PerformanceMonitor {
    fn default() -> (m: Self)
        ensures
            m.is_fresh(),
            m.start_time is None,
            m.enabled,
    {
        Self::new()
    }
}

} // verus!
