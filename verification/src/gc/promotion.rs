//! Promotion from the young to the old generation: the thresholds and the
//! decision for one object.

use vstd::prelude::*;
use super::header::ObjectHeader;

verus! {

/// The thresholds that decide promotion. The survival-rate statistics
/// that move them are kept by the caller.
#[derive(Debug, Clone)]
pub struct PromotionThresholds {
    age_threshold: u8,
    large_object_threshold: usize,
    small_object_threshold: usize,
    dynamic_age_enabled: bool,
    size_based_promotion: bool,
    access_based_promotion: bool,
    min_age_threshold: u8,
    max_age_threshold: u8,
}

/// The thresholds as plain values: age, large size, small size, and the
/// age range.
pub struct ThresholdView {
    /// Age at which objects are promoted.
    pub age: u8,
    /// Size from which objects are promoted at once.
    pub large: usize,
    /// Size up to which promotion waits.
    pub small: usize,
    /// Lowest age threshold the survival statistics may set.
    pub min_age: u8,
    /// Highest age threshold the survival statistics may set.
    pub max_age: u8,
}

impl PromotionThresholds {
    /// The thresholds.
    pub closed spec fn view(&self) -> ThresholdView {
        ThresholdView {
            age: self.age_threshold,
            large: self.large_object_threshold,
            small: self.small_object_threshold,
            min_age: self.min_age_threshold,
            max_age: self.max_age_threshold,
        }
    }

    /// Which promotion rules are on: dynamic age, size based, access based.
    pub closed spec fn switches(&self) -> (bool, bool, bool) {
        (self.dynamic_age_enabled, self.size_based_promotion, self.access_based_promotion)
    }

    /// The age range is not empty.
    pub open spec fn wf(&self) -> bool {
        self@.min_age <= self@.max_age
    }

    /// Whether an object with header `h`, read `access_count` times, is
    /// promoted: at the age threshold; or, with size-based promotion, when
    /// large; never while small under size-based promotion; or, with
    /// access-based promotion, when read more than five times.
    pub open spec fn promotes(&self, h: ObjectHeader, access_count: usize) -> bool {
        let (_, by_size, by_access) = self.switches();
        if h.age >= self@.age {
            true
        } else if by_size && h.size >= self@.large {
            true
        } else if by_size && h.size <= self@.small {
            false
        } else {
            by_access && access_count > 5
        }
    }

    /// Whether deciding for `h` stays within `u8` (the decision adds two to
    /// the age threshold for small objects under size-based promotion).
    pub open spec fn decision_defined(&self, h: ObjectHeader) -> bool {
        let (_, by_size, _) = self.switches();
        (h.age < self@.age && by_size && h.size < self@.large && h.size <= self@.small) ==> self@.age <= 253
    }

    /// Age threshold 3, objects of 1024 bytes or more promoted at once,
    /// promotion delayed up to 64 bytes, every rule on, age range 1 to 15.
    pub fn new() -> (p: Self)
        ensures
            p.wf(),
            p@ == (ThresholdView { age: 3, large: 1024, small: 64, min_age: 1, max_age: 15 }),
            p.switches() == (true, true, true),
    {
        PromotionThresholds {
            age_threshold: 3,
            large_object_threshold: 1024,
            small_object_threshold: 64,
            dynamic_age_enabled: true,
            size_based_promotion: true,
            access_based_promotion: true,
            min_age_threshold: 1,
            max_age_threshold: 15,
        }
    }

    /// The defaults with the given age and large-object thresholds.
    pub fn with_config(age_threshold: u8, large_object_threshold: usize) -> (p: Self)
        ensures
            p.wf(),
            p@ == (ThresholdView { age: age_threshold, large: large_object_threshold, small: 64, min_age: 1, max_age: 15 }),
            p.switches() == (true, true, true),
    {
        PromotionThresholds { age_threshold, large_object_threshold, ..Self::new() }
    }

    /// Sets the age threshold, clamped into the age range.
    pub fn set_age_threshold(&mut self, threshold: u8)
        requires
            old(self).wf(),
        ensures
            final(self).wf(),
            final(self)@ == (ThresholdView {
                age: if threshold < old(self)@.min_age {
                    old(self)@.min_age
                } else if threshold > old(self)@.max_age {
                    old(self)@.max_age
                } else {
                    threshold
                },
                ..old(self)@
            }),
            final(self).switches() == old(self).switches(),
    {
        self.age_threshold = if threshold < self.min_age_threshold {
            self.min_age_threshold
        } else if threshold > self.max_age_threshold {
            self.max_age_threshold
        } else {
            threshold
        };
    }

    /// Sets the large-object threshold.
    pub fn set_large_object_threshold(&mut self, threshold: usize)
        ensures
            final(self)@ == (ThresholdView { large: threshold, ..old(self)@ }),
            final(self).switches() == old(self).switches(),
    {
        self.large_object_threshold = threshold;
    }

    /// Sets the small-object threshold.
    pub fn set_small_object_threshold(&mut self, threshold: usize)
        ensures
            final(self)@ == (ThresholdView { small: threshold, ..old(self)@ }),
            final(self).switches() == old(self).switches(),
    {
        self.small_object_threshold = threshold;
    }

    /// Turns dynamic age adjustment on or off.
    pub fn set_dynamic_age_enabled(&mut self, enabled: bool)
        ensures
            final(self)@ == old(self)@,
            final(self).switches() == (enabled, old(self).switches().1, old(self).switches().2),
    {
        self.dynamic_age_enabled = enabled;
    }

    /// Turns size-based promotion on or off.
    pub fn set_size_based_promotion(&mut self, enabled: bool)
        ensures
            final(self)@ == old(self)@,
            final(self).switches() == (old(self).switches().0, enabled, old(self).switches().2),
    {
        self.size_based_promotion = enabled;
    }

    /// Turns access-based promotion on or off.
    pub fn set_access_based_promotion(&mut self, enabled: bool)
        ensures
            final(self)@ == old(self)@,
            final(self).switches() == (old(self).switches().0, old(self).switches().1, enabled),
    {
        self.access_based_promotion = enabled;
    }

    /// Decides whether the object with header `header`, read `access_count`
    /// times, moves to the old generation.
    pub fn should_promote(&self, header: &ObjectHeader, access_count: usize) -> (b: bool)
        requires
            self.decision_defined(*header),
        ensures
            b == self.promotes(*header, access_count),
    {
        if header.age >= self.age_threshold {
            return true;
        }
        if self.size_based_promotion && header.size >= self.large_object_threshold {
            return true;
        }
        if self.size_based_promotion && header.size <= self.small_object_threshold
            && header.age < self.age_threshold + 2 {
            return false;
        }
        if self.access_based_promotion && access_count > 5 {
            return true;
        }
        false
    }

    /// One step of dynamic age adjustment, when it is on: up by one when
    /// survival runs above its target (`above`) and the threshold is below
    /// the top of the range; otherwise down by one when survival runs below
    /// its target (`below`) and the threshold is above the bottom.
    pub fn adjust_age_threshold(&mut self, above: bool, below: bool)
        ensures
            final(self)@ == (ThresholdView {
                age: if !old(self).switches().0 {
                    old(self)@.age
                } else if above && old(self)@.age < old(self)@.max_age {
                    (old(self)@.age + 1) as u8
                } else if below && old(self)@.age > old(self)@.min_age {
                    (old(self)@.age - 1) as u8
                } else {
                    old(self)@.age
                },
                ..old(self)@
            }),
            final(self).switches() == old(self).switches(),
    {
        if !self.dynamic_age_enabled {
            return;
        }
        if above && self.age_threshold < self.max_age_threshold {
            self.age_threshold += 1;
        } else if below && self.age_threshold > self.min_age_threshold {
            self.age_threshold -= 1;
        }
    }

    /// The age threshold.
    pub fn age_threshold(&self) -> (a: u8)
        ensures
            a == self@.age,
    {
        self.age_threshold
    }

    /// The large-object threshold.
    pub fn large_object_threshold(&self) -> (t: usize)
        ensures
            t == self@.large,
    {
        self.large_object_threshold
    }

    /// The small-object threshold.
    pub fn small_object_threshold(&self) -> (t: usize)
        ensures
            t == self@.small,
    {
        self.small_object_threshold
    }

    /// Sets the age range and clamps the age threshold into it.
    pub fn set_age_range(&mut self, min_age: u8, max_age: u8)
        requires
            min_age <= max_age,
        ensures
            final(self).wf(),
            final(self)@ == (ThresholdView {
                age: if old(self)@.age < min_age {
                    min_age
                } else if old(self)@.age > max_age {
                    max_age
                } else {
                    old(self)@.age
                },
                min_age,
                max_age,
                ..old(self)@
            }),
            final(self).switches() == old(self).switches(),
    {
        self.min_age_threshold = min_age;
        self.max_age_threshold = max_age;
        self.age_threshold = if self.age_threshold < min_age {
            min_age
        } else if self.age_threshold > max_age {
            max_age
        } else {
            self.age_threshold
        };
    }

    /// Whether dynamic age adjustment is on.
    pub fn dynamic_age_enabled(&self) -> (b: bool)
        ensures
            b == self.switches().0,
    {
        self.dynamic_age_enabled
    }

    /// Whether size-based promotion is on.
    pub fn size_based_promotion(&self) -> (b: bool)
        ensures
            b == self.switches().1,
    {
        self.size_based_promotion
    }

    /// Whether access-based promotion is on.
    pub fn access_based_promotion(&self) -> (b: bool)
        ensures
            b == self.switches().2,
    {
        self.access_based_promotion
    }
}

/// Dynamic adjustment keeps an age threshold that lies in the age range
/// inside it.
pub proof fn lemma_adjust_stays_in_range(before: PromotionThresholds, after: PromotionThresholds, above: bool, below: bool)
    requires
        before.wf(),
        before@.min_age <= before@.age <= before@.max_age,
        after@ == (ThresholdView {
            age: if !before.switches().0 {
                before@.age
            } else if above && before@.age < before@.max_age {
                (before@.age + 1) as u8
            } else if below && before@.age > before@.min_age {
                (before@.age - 1) as u8
            } else {
                before@.age
            },
            ..before@
        }),
    ensures
        after@.min_age <= after@.age <= after@.max_age,
{
}

/// An object old enough is always promoted, whatever its size.
pub proof fn lemma_old_enough_promoted(p: PromotionThresholds, h: ObjectHeader, access_count: usize)
    requires
        h.age >= p@.age,
    ensures
        p.promotes(h, access_count),
{
}

impl Default for PromotionThresholds {
    /// The same thresholds as `new`.
    fn default() -> (p: Self)
        ensures
            p.wf(),
            p@ == (ThresholdView { age: 3, large: 1024, small: 64, min_age: 1, max_age: 15 }),
            p.switches() == (true, true, true),
    {
        PromotionThresholds::new()
    }
}

} // verus!
