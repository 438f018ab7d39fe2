//! Runtime support library of a TypeScript compiler and virtual machine:
//! memory pools and allocators, garbage-collector bookkeeping, compiler
//! stage state, the lexer and cache keys, just-in-time compilation
//! decisions, foreign-function statuses, platform queries, performance
//! counters and the exception-handler table of the VM.

pub mod codegen;
pub mod compiler;
pub mod error;
pub mod ffi;
pub mod gc;
pub mod jit;
pub mod language;
pub mod memory;
pub mod platform;
pub mod time;
pub mod vm;
pub mod webidl;

use vstd::prelude::*;

verus! {

/// Options of the runtime environment.
#[derive(Debug, Clone)]
pub struct CompileOptions {
    /// Strict mode.
    pub strict: bool,
    /// Just-in-time compilation.
    pub enable_jit: bool,
    /// Type checking.
    pub enable_type_checking: bool,
    /// Performance monitoring.
    pub enable_performance_monitoring: bool,
    /// Garbage collection.
    pub enable_garbage_collection: bool,
    /// Target ECMAScript version.
    pub target_es_version: String,
    /// Module resolution strategy.
    pub module_resolution: String,
    /// Whether source maps are written.
    pub source_map: bool,
}

impl Default for CompileOptions {
    /// Every switch off and both strings empty.
    fn default() -> (o: Self)
        ensures
            !o.strict,
            !o.enable_jit,
            !o.enable_type_checking,
            !o.enable_performance_monitoring,
            !o.enable_garbage_collection,
            o.target_es_version@ == Seq::<char>::empty(),
            o.module_resolution@ == Seq::<char>::empty(),
            !o.source_map,
    {
        CompileOptions {
            strict: false,
            enable_jit: false,
            enable_type_checking: false,
            enable_performance_monitoring: false,
            enable_garbage_collection: false,
            target_es_version: String::new(),
            module_resolution: String::new(),
            source_map: false,
        }
    }
}

} // verus!
