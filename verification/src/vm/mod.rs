//! Parts of the virtual machine: performance counters, the exception
//! handler table and jump arithmetic.

pub mod exception;
pub mod exception_ops;
pub mod executor;
pub mod machine;
pub mod perf;
pub mod types;
