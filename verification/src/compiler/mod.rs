//! Stages of the compiler pipeline and the state of its code generator,
//! optimizer, options and cache keys.

pub mod cache;
pub mod codegen;
pub mod context;
pub mod ir_generator;
pub mod optimizer;
pub mod parser;

use vstd::prelude::*;

verus! {

/// Appends `c` to `s`: `String::push`.
#[verifier::external_body]
pub(crate) fn push_char(s: &mut String, c: char)
    ensures
        final(s)@ == old(s)@.push(c),
{
    s.push(c);
}

/// A stage of the compiler pipeline.
#[derive(Debug, Clone, Copy, PartialEq, Eq, Hash, Structural)]
pub enum CompilationStage {
    /// Lexical analysis.
    LexicalAnalysis,
    /// Syntax analysis.
    SyntaxAnalysis,
    /// Semantic analysis.
    SemanticAnalysis,
    /// Generation of the intermediate representation.
    IRGeneration,
    /// Optimization.
    Optimization,
    /// Code generation.
    CodeGeneration,
    /// Execution.
    Execution,
}

} // verus!
