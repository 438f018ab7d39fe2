//! Value types of the virtual machine: a minimal performance monitor and
//! the exception-handler record of the interpreter loop.

use vstd::prelude::*;

verus! {

/// Exception handler record kept by the interpreter loop.
#[derive(Debug, Clone)]
pub struct ExceptionHandler {
    /// Address of the handler.
    pub handler_address: usize,
    /// Stack depth when the handler was installed.
    pub stack_depth: usize,
    /// First instruction of the guarded block.
    pub start_ip: usize,
    /// First instruction past the guarded block.
    pub end_ip: usize,
    /// First instruction of the handler.
    pub handler_ip: usize,
    /// Name bound to the exception, if any.
    pub exception_var: Option<String>,
    /// Whether a finally block follows.
    pub has_finally: bool,
    /// First instruction of the finally block.
    pub finally_ip: Option<usize>,
}

/// Minimal performance monitor: instruction and allocation counts.
#[derive(Debug, Clone)]
pub struct PerformanceMonitor {
    /// Instructions executed.
    pub instruction_count: u64,
    /// Memory allocations.
    pub memory_allocations: u64,
}

impl PerformanceMonitor {
    /// Both counts zero.
    pub fn new() -> (m: Self)
        ensures
            m.instruction_count == 0,
            m.memory_allocations == 0,
    {
        PerformanceMonitor { instruction_count: 0, memory_allocations: 0 }
    }

    /// Counts one executed instruction.
    pub fn record_instruction(&mut self)
        requires
            old(self).instruction_count < u64::MAX,
        ensures
            final(self).instruction_count == old(self).instruction_count + 1,
            final(self).memory_allocations == old(self).memory_allocations,
    {
        self.instruction_count += 1;
    }

    /// Counts one memory allocation; the size is not recorded.
    pub fn record_memory_allocation(&mut self, _size: usize)
        requires
            old(self).memory_allocations < u64::MAX,
        ensures
            final(self).memory_allocations == old(self).memory_allocations + 1,
            final(self).instruction_count == old(self).instruction_count,
    {
        self.memory_allocations += 1;
    }

    /// Accepts a deallocation without recording anything.
    pub fn record_memory_deallocation(&mut self, _size: usize)
        ensures
            *final(self) == *old(self),
    {
    }
}

} // verus!
