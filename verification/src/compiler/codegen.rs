//! The code generator's state.

use vstd::prelude::*;
use super::CompilationStage;

verus! {

/// The code generator; it stays in the code-generation stage.
#[derive(Debug, Clone)]
pub struct CodeGenerator {
    current_stage: CompilationStage,
}

impl CodeGenerator {
    /// The stage the generator is in.
    pub closed spec fn stage(&self) -> CompilationStage {
        self.current_stage
    }

    /// A generator in the code-generation stage.
    pub fn new() -> (g: Self)
        ensures
            g.stage() == CompilationStage::CodeGeneration,
    {
        CodeGenerator { current_stage: CompilationStage::CodeGeneration }
    }

    /// The stage the generator is in.
    pub fn current_stage(&self) -> (s: CompilationStage)
        ensures
            s == self.stage(),
    {
        self.current_stage
    }

    /// Puts the generator back in the code-generation stage.
    pub fn reset(&mut self)
        ensures
            final(self).stage() == CompilationStage::CodeGeneration,
    {
        self.current_stage = CompilationStage::CodeGeneration;
    }
}

impl Default for CodeGenerator {
    fn default() -> (g: Self)
        ensures
            g.stage() == CompilationStage::CodeGeneration,
    {
        Self::new()
    }
}

} // verus!
