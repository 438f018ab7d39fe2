//! Compilation options.

use vstd::prelude::*;
use vstd::string::*;

verus! {

/// A file-system path.
#[verifier::external_type_specification]
#[verifier::external_body]
pub struct ExPathBuf(std::path::PathBuf);

/// The number of logical CPUs this process may use: `num_cpus::get`.
/// It depends on the machine; its documentation promises at least one.
#[verifier::external_body]
fn available_cpus() -> (n: usize)
    ensures
        n >= 1,
{
    num_cpus::get()
}

/// Options of a compilation.
#[derive(Debug, Clone)]
pub struct CompilationOptions {
    /// Strict mode.
    pub strict: bool,
    /// Incremental compilation.
    pub incremental: bool,
    /// Parallel compilation.
    pub parallel: bool,
    /// Threads of a parallel compilation.
    pub parallel_threads: usize,
    /// Whether source maps are written.
    pub source_map: bool,
    /// Target ECMAScript version.
    pub target: String,
    /// Module system.
    pub module: String,
    /// Output directory.
    pub out_dir: Option<std::path::PathBuf>,
}

impl Default for CompilationOptions {
    /// Incremental, parallel on every available CPU, with source maps,
    /// not strict, targeting `es2020` with `esnext` modules and no output
    /// directory.
    fn default() -> (o: Self)
        ensures
            !o.strict,
            o.incremental,
            o.parallel,
            o.parallel_threads >= 1,
            o.source_map,
            o.target@ == "es2020"@,
            o.module@ == "esnext"@,
            o.out_dir is None,
    {
        CompilationOptions {
            strict: false,
            incremental: true,
            parallel: true,
            parallel_threads: available_cpus(),
            source_map: true,
            target: String::from_str("es2020"),
            module: String::from_str("esnext"),
            out_dir: None,
        }
    }
}

} // verus!
