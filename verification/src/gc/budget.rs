//! Time budgets of incremental collection steps: the configured budgets,
//! the window of recent (budget, actual time) pairs and the step range.

use vstd::prelude::*;

verus! {

/// The integer part of a step budget: per-phase budgets derived from the
/// longest step, the pause target, the recent history of steps and the
/// allowed range of step sizes. The adaptive scaling factors are kept by
/// the caller.
#[derive(Debug, Clone)]
pub struct StepBudget {
    max_step_time_us: u64,
    mark_budget_us: u64,
    sweep_budget_us: u64,
    compact_budget_us: u64,
    target_max_pause_us: u64,
    history: Vec<(u64, u64)>,
    max_history_size: usize,
    min_step_size: usize,
    max_step_size: usize,
}

/// The budgets in microseconds: longest step, marking, sweeping,
/// compacting, and the pause target.
pub struct BudgetView {
    /// Longest step.
    pub max_step: u64,
    /// Marking budget before scaling.
    pub mark: u64,
    /// Sweeping budget before scaling.
    pub sweep: u64,
    /// Compacting budget before scaling.
    pub compact: u64,
    /// Longest pause aimed for.
    pub target_pause: u64,
}

impl StepBudget {
    /// The budgets.
    pub closed spec fn view(&self) -> BudgetView {
        BudgetView {
            max_step: self.max_step_time_us,
            mark: self.mark_budget_us,
            sweep: self.sweep_budget_us,
            compact: self.compact_budget_us,
            target_pause: self.target_max_pause_us,
        }
    }

    /// The recent `(budget, actual)` pairs, oldest first.
    pub closed spec fn recent(&self) -> Seq<(u64, u64)> {
        self.history@
    }

    /// How many pairs are kept.
    pub closed spec fn window(&self) -> usize {
        self.max_history_size
    }

    /// The allowed step sizes, smallest and largest.
    pub closed spec fn step_range(&self) -> (usize, usize) {
        (self.min_step_size, self.max_step_size)
    }

    /// The history never outgrows its window.
    pub closed spec fn wf(&self) -> bool {
        self.history@.len() <= self.max_history_size
    }

    /// The budgets derived from a longest step of `t` microseconds: half
    /// for marking, a third for sweeping, a fifth for compacting.
    pub open spec fn split(t: u64, target: u64) -> BudgetView {
        BudgetView { max_step: t, mark: t / 2, sweep: t / 3, compact: t / 5, target_pause: target }
    }

    /// Steps of 1000 µs (500 marking, 300 sweeping, 200 compacting), a
    /// 5000 µs pause target, a window of ten steps, step sizes 50 to 500.
    pub fn new() -> (b: Self)
        ensures
            b.wf(),
            b@ == (BudgetView { max_step: 1000, mark: 500, sweep: 300, compact: 200, target_pause: 5000 }),
            b.recent().len() == 0,
            b.window() == 10,
            b.step_range() == (50usize, 500usize),
    {
        StepBudget {
            max_step_time_us: 1000,
            mark_budget_us: 500,
            sweep_budget_us: 300,
            compact_budget_us: 200,
            target_max_pause_us: 5000,
            history: Vec::new(),
            max_history_size: 10,
            min_step_size: 50,
            max_step_size: 500,
        }
    }

    /// Steps of `max_step_time_us`, split into phase budgets, and the pause
    /// target `target_max_pause_us`; window and step range as in `new`.
    pub fn with_config(max_step_time_us: u64, target_max_pause_us: u64) -> (b: Self)
        ensures
            b.wf(),
            b@ == StepBudget::split(max_step_time_us, target_max_pause_us),
            b.recent().len() == 0,
            b.window() == 10,
            b.step_range() == (50usize, 500usize),
    {
        StepBudget {
            max_step_time_us,
            mark_budget_us: max_step_time_us / 2,
            sweep_budget_us: max_step_time_us / 3,
            compact_budget_us: max_step_time_us / 5,
            target_max_pause_us,
            history: Vec::new(),
            max_history_size: 10,
            min_step_size: 50,
            max_step_size: 500,
        }
    }

    /// Sets the longest step and splits it into phase budgets again.
    pub fn set_max_step_time(&mut self, time_us: u64)
        requires
            old(self).wf(),
        ensures
            final(self).wf(),
            final(self)@ == StepBudget::split(time_us, old(self)@.target_pause),
            final(self).recent() == old(self).recent(),
            final(self).window() == old(self).window(),
            final(self).step_range() == old(self).step_range(),
    {
        self.max_step_time_us = time_us;
        self.mark_budget_us = time_us / 2;
        self.sweep_budget_us = time_us / 3;
        self.compact_budget_us = time_us / 5;
    }

    /// Sets the pause target.
    pub fn set_target_max_pause(&mut self, time_us: u64)
        requires
            old(self).wf(),
        ensures
            final(self).wf(),
            final(self)@ == (BudgetView { target_pause: time_us, ..old(self)@ }),
            final(self).recent() == old(self).recent(),
            final(self).window() == old(self).window(),
            final(self).step_range() == old(self).step_range(),
    {
        self.target_max_pause_us = time_us;
    }

    /// The longest step.
    pub fn max_step_time(&self) -> (t: u64)
        ensures
            t == self@.max_step,
    {
        self.max_step_time_us
    }

    /// The marking budget before scaling.
    pub fn base_mark_budget(&self) -> (t: u64)
        ensures
            t == self@.mark,
    {
        self.mark_budget_us
    }

    /// The sweeping budget before scaling.
    pub fn base_sweep_budget(&self) -> (t: u64)
        ensures
            t == self@.sweep,
    {
        self.sweep_budget_us
    }

    /// The compacting budget before scaling.
    pub fn base_compact_budget(&self) -> (t: u64)
        ensures
            t == self@.compact,
    {
        self.compact_budget_us
    }

    /// The history after recording `(budget, actual)`: appended, and the
    /// oldest pair dropped when the window overflows.
    pub open spec fn recorded(&self, budget: u64, actual: u64) -> Seq<(u64, u64)> {
        let pushed = self.recent().push((budget, actual));
        if pushed.len() > self.window() { pushed.drop_first() } else { pushed }
    }

    /// Records a step that had `budget_time_us` and took `actual_time_us`.
    pub fn record(&mut self, actual_time_us: u64, budget_time_us: u64)
        requires
            old(self).wf(),
        ensures
            final(self).wf(),
            final(self).recent() == old(self).recorded(budget_time_us, actual_time_us),
            final(self)@ == old(self)@,
            final(self).window() == old(self).window(),
            final(self).step_range() == old(self).step_range(),
    {
        self.history.push((budget_time_us, actual_time_us));
        if self.history.len() > self.max_history_size {
            self.history.remove(0);
            proof {
                assert(self.history@ =~= old(self).recorded(budget_time_us, actual_time_us));
            }
        }
    }

    /// The recorded pairs with a nonzero budget, oldest first.
    pub fn budgeted_steps(&self) -> (steps: Vec<(u64, u64)>)
        ensures
            steps@ == self.recent().filter(|p: (u64, u64)| p.0 > 0),
    {
        let mut steps: Vec<(u64, u64)> = Vec::new();
        let mut i: usize = 0;
        while i < self.history.len()
            invariant
                i <= self.history@.len(),
                steps@ == self.history@.subrange(0, i as int).filter(|p: (u64, u64)| p.0 > 0),
            decreases self.history@.len() - i,
        {
            let p = self.history[i];
            proof {
                let s = self.history@.subrange(0, i + 1);
                assert(s.drop_last() =~= self.history@.subrange(0, i as int));
                assert(s.last() == p);
                reveal(Seq::filter);
            }
            if p.0 > 0 {
                steps.push(p);
            }
            i = i + 1;
        }
        proof {
            assert(self.history@.subrange(0, self.history@.len() as int) =~= self.history@);
        }
        steps
    }

    /// `step` clamped into the allowed step range.
    pub fn clamp_step(&self, step: usize) -> (s: usize)
        requires
            self.step_range().0 <= self.step_range().1,
        ensures
            s == if step < self.step_range().0 {
                self.step_range().0
            } else if step > self.step_range().1 {
                self.step_range().1
            } else {
                step
            },
    {
        if step < self.min_step_size {
            self.min_step_size
        } else if step > self.max_step_size {
            self.max_step_size
        } else {
            step
        }
    }

    /// The allowed step sizes, smallest and largest.
    pub fn step_bounds(&self) -> (r: (usize, usize))
        ensures
            r == self.step_range(),
    {
        (self.min_step_size, self.max_step_size)
    }

    /// Sets the allowed step sizes.
    pub fn set_step_range(&mut self, min_step: usize, max_step: usize)
        requires
            old(self).wf(),
        ensures
            final(self).wf(),
            final(self).step_range() == (min_step, max_step),
            final(self)@ == old(self)@,
            final(self).recent() == old(self).recent(),
            final(self).window() == old(self).window(),
    {
        self.min_step_size = min_step;
        self.max_step_size = max_step;
    }

    /// Forgets the recorded steps.
    pub fn clear_history(&mut self)
        requires
            old(self).wf(),
        ensures
            final(self).wf(),
            final(self).recent().len() == 0,
            final(self)@ == old(self)@,
            final(self).window() == old(self).window(),
            final(self).step_range() == old(self).step_range(),
    {
        self.history.clear();
    }
}

/// The window keeps the most recent steps: after recording, the newest
/// pair is last and the history never exceeds the window.
pub proof fn lemma_record_keeps_newest(b: StepBudget, budget: u64, actual: u64)
    requires
        b.wf(),
        b.window() > 0,
    ensures
        b.recorded(budget, actual).len() <= b.window(),
        b.recorded(budget, actual).last() == (budget, actual),
{
}

impl Default for StepBudget {
    /// The same budget as `new`.
    fn default() -> (b: Self)
        ensures
            b.wf(),
            b@ == (BudgetView { max_step: 1000, mark: 500, sweep: 300, compact: 200, target_pause: 5000 }),
            b.recent().len() == 0,
            b.window() == 10,
            b.step_range() == (50usize, 500usize),
    {
        StepBudget::new()
    }
}

} // verus!
