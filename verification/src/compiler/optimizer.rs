//! The optimizer's state: its stage and its optimization level.

use vstd::prelude::*;
use super::CompilationStage;

verus! {

/// How much the optimizer does.
#[derive(Debug, Clone, Copy, PartialEq, Eq, PartialOrd, Structural)]
pub enum OptimizationLevel {
    /// No optimization.
    NoOptimization,
    /// Basic optimizations.
    Basic,
    /// Medium optimizations.
    Medium,
    /// Every optimization.
    High,
}

/// The optimizer.
#[derive(Debug, Clone)]
pub struct Optimizer {
    current_stage: CompilationStage,
    optimization_level: OptimizationLevel,
}

impl Optimizer {
    /// The stage the optimizer is in.
    pub closed spec fn stage(&self) -> CompilationStage {
        self.current_stage
    }

    /// The optimization level.
    pub closed spec fn level(&self) -> OptimizationLevel {
        self.optimization_level
    }

    /// An optimizer in the optimization stage at the highest level.
    pub fn new() -> (o: Self)
        ensures
            o.stage() == CompilationStage::Optimization,
            o.level() == OptimizationLevel::High,
    {
        Optimizer { current_stage: CompilationStage::Optimization, optimization_level: OptimizationLevel::High }
    }

    /// An optimizer in the optimization stage at `level`.
    pub fn with_level(level: OptimizationLevel) -> (o: Self)
        ensures
            o.stage() == CompilationStage::Optimization,
            o.level() == level,
    {
        Optimizer { current_stage: CompilationStage::Optimization, optimization_level: level }
    }

    /// The stage the optimizer is in.
    pub fn current_stage(&self) -> (s: CompilationStage)
        ensures
            s == self.stage(),
    {
        self.current_stage
    }

    /// The optimization level.
    pub fn optimization_level(&self) -> (l: OptimizationLevel)
        ensures
            l == self.level(),
    {
        self.optimization_level
    }

    /// Sets the optimization level; the stage stays.
    pub fn set_optimization_level(&mut self, level: OptimizationLevel)
        ensures
            final(self).level() == level,
            final(self).stage() == old(self).stage(),
    {
        self.optimization_level = level;
    }

    /// Back to the optimization stage at the highest level.
    pub fn reset(&mut self)
        ensures
            final(self).stage() == CompilationStage::Optimization,
            final(self).level() == OptimizationLevel::High,
    {
        self.current_stage = CompilationStage::Optimization;
        self.optimization_level = OptimizationLevel::High;
    }
}

impl Default for Optimizer {
    fn default() -> (o: Self)
        ensures
            o.stage() == CompilationStage::Optimization,
            o.level() == OptimizationLevel::High,
    {
        Self::new()
    }
}

/// Resetting undoes any change of level: a reset optimizer is a new one.
pub proof fn lemma_reset_is_new(reset: Optimizer, fresh: Optimizer)
    requires
        reset.stage() == CompilationStage::Optimization,
        reset.level() == OptimizationLevel::High,
        fresh.stage() == CompilationStage::Optimization,
        fresh.level() == OptimizationLevel::High,
    ensures
        reset == fresh,
{
}

} // verus!
