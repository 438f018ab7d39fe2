//! Counters of the collector: collections, objects, bytes and pauses.

use vstd::prelude::*;

verus! {

/// Counters of the collector. The share of free heap at the last update
/// is kept as the free and total byte counts it is computed from.
#[derive(Debug, Clone)]
pub struct GCStats {
    /// Collections.
    pub collection_count: usize,
    /// Objects marked, over all collections.
    pub marked_objects: usize,
    /// Objects collected, over all collections.
    pub collected_objects: usize,
    /// Bytes collected, over all collections.
    pub collected_bytes: usize,
    /// Length of the last collection in microseconds.
    pub last_collection_time_us: u64,
    /// Total collection time in microseconds.
    pub total_collection_time_us: u64,
    /// Free bytes of the heap at the last fragmentation update.
    pub fragmentation_free_bytes: usize,
    /// Total bytes of the heap at the last fragmentation update (zero
    /// before any update with a nonempty heap).
    pub fragmentation_total_bytes: usize,
    /// Average size of the objects collected by the last collection that
    /// collected any.
    pub average_object_size: usize,
    /// Young-generation collections.
    pub young_gen_collections: usize,
    /// Old-generation collections.
    pub old_gen_collections: usize,
    /// Objects promoted to the old generation.
    pub promoted_objects: usize,
    /// Bytes promoted to the old generation.
    pub promoted_bytes: usize,
    /// Time spent in parallel marking, in microseconds.
    pub parallel_mark_time_us: u64,
    /// Time spent in parallel sweeping, in microseconds.
    pub parallel_sweep_time_us: u64,
    /// Allocations.
    pub allocation_count: usize,
    /// Bytes allocated.
    pub allocation_bytes: usize,
    /// Longest collection in microseconds.
    pub max_pause_time_us: u64,
    /// Shortest collection in microseconds (zero while none is recorded).
    pub min_pause_time_us: u64,
}

impl GCStats {
    /// Every counter zero.
    pub open spec fn zeroed() -> GCStats {
        GCStats {
            collection_count: 0,
            marked_objects: 0,
            collected_objects: 0,
            collected_bytes: 0,
            last_collection_time_us: 0,
            total_collection_time_us: 0,
            fragmentation_free_bytes: 0,
            fragmentation_total_bytes: 0,
            average_object_size: 0,
            young_gen_collections: 0,
            old_gen_collections: 0,
            promoted_objects: 0,
            promoted_bytes: 0,
            parallel_mark_time_us: 0,
            parallel_sweep_time_us: 0,
            allocation_count: 0,
            allocation_bytes: 0,
            max_pause_time_us: 0,
            min_pause_time_us: 0,
        }
    }

    /// The counters after a collection of `d` microseconds that marked
    /// `marked` objects and collected `collected` objects of `bytes` bytes.
    pub open spec fn after_collection(self, d: u64, marked: usize, collected: usize, bytes: usize) -> GCStats {
        GCStats {
            collection_count: (self.collection_count + 1) as usize,
            marked_objects: (self.marked_objects + marked) as usize,
            collected_objects: (self.collected_objects + collected) as usize,
            collected_bytes: (self.collected_bytes + bytes) as usize,
            last_collection_time_us: d,
            total_collection_time_us: (self.total_collection_time_us + d) as u64,
            average_object_size: if collected > 0 { (bytes / collected) as usize } else { self.average_object_size },
            max_pause_time_us: if self.max_pause_time_us < d { d } else { self.max_pause_time_us },
            min_pause_time_us: if self.collection_count == 0 || self.min_pause_time_us > d { d } else { self.min_pause_time_us },
            ..self
        }
    }

    /// Whether recording that collection overflows no counter.
    pub open spec fn collection_fits(self, d: u64, marked: usize, collected: usize, bytes: usize) -> bool {
        &&& self.collection_count < usize::MAX
        &&& self.marked_objects + marked <= usize::MAX
        &&& self.collected_objects + collected <= usize::MAX
        &&& self.collected_bytes + bytes <= usize::MAX
        &&& self.total_collection_time_us + d <= u64::MAX
    }

    /// Counts a collection of `duration_us` microseconds that marked
    /// `marked` objects and collected `collected` objects of `bytes` bytes.
    pub fn record_collection(&mut self, duration_us: u64, marked: usize, collected: usize, bytes: usize)
        requires
            old(self).collection_fits(duration_us, marked, collected, bytes),
        ensures
            *final(self) == old(self).after_collection(duration_us, marked, collected, bytes),
    {
        self.collection_count += 1;
        self.marked_objects += marked;
        self.collected_objects += collected;
        self.collected_bytes += bytes;
        self.last_collection_time_us = duration_us;
        self.total_collection_time_us += duration_us;
        if collected > 0 {
            self.average_object_size = bytes / collected;
        }
        if self.max_pause_time_us < duration_us {
            self.max_pause_time_us = duration_us;
        }
        if self.collection_count == 1 || self.min_pause_time_us > duration_us {
            self.min_pause_time_us = duration_us;
        }
    }

    /// Counts a young-generation collection that also promoted `promoted`
    /// objects of `promoted_bytes` bytes.
    pub fn record_young_gen_collection(
        &mut self,
        duration_us: u64,
        marked: usize,
        collected: usize,
        bytes: usize,
        promoted: usize,
        promoted_bytes: usize,
    )
        requires
            old(self).collection_fits(duration_us, marked, collected, bytes),
            old(self).young_gen_collections < usize::MAX,
            old(self).promoted_objects + promoted <= usize::MAX,
            old(self).promoted_bytes + promoted_bytes <= usize::MAX,
        ensures
            *final(self) == (GCStats {
                young_gen_collections: (old(self).young_gen_collections + 1) as usize,
                promoted_objects: (old(self).promoted_objects + promoted) as usize,
                promoted_bytes: (old(self).promoted_bytes + promoted_bytes) as usize,
                ..old(self).after_collection(duration_us, marked, collected, bytes)
            }),
    {
        self.young_gen_collections += 1;
        self.record_collection(duration_us, marked, collected, bytes);
        self.promoted_objects += promoted;
        self.promoted_bytes += promoted_bytes;
    }

    /// Counts an old-generation collection.
    pub fn record_old_gen_collection(&mut self, duration_us: u64, marked: usize, collected: usize, bytes: usize)
        requires
            old(self).collection_fits(duration_us, marked, collected, bytes),
            old(self).old_gen_collections < usize::MAX,
        ensures
            *final(self) == (GCStats {
                old_gen_collections: (old(self).old_gen_collections + 1) as usize,
                ..old(self).after_collection(duration_us, marked, collected, bytes)
            }),
    {
        self.old_gen_collections += 1;
        self.record_collection(duration_us, marked, collected, bytes);
    }

    /// Counts an allocation of `size` bytes.
    pub fn record_allocation(&mut self, size: usize)
        requires
            old(self).allocation_count < usize::MAX,
            old(self).allocation_bytes + size <= usize::MAX,
        ensures
            *final(self) == (GCStats {
                allocation_count: (old(self).allocation_count + 1) as usize,
                allocation_bytes: (old(self).allocation_bytes + size) as usize,
                ..*old(self)
            }),
    {
        self.allocation_count += 1;
        self.allocation_bytes += size;
    }

    /// Adds `duration_us` to the parallel marking time.
    pub fn record_parallel_mark_time(&mut self, duration_us: u64)
        requires
            old(self).parallel_mark_time_us + duration_us <= u64::MAX,
        ensures
            *final(self) == (GCStats {
                parallel_mark_time_us: (old(self).parallel_mark_time_us + duration_us) as u64,
                ..*old(self)
            }),
    {
        self.parallel_mark_time_us += duration_us;
    }

    /// Adds `duration_us` to the parallel sweeping time.
    pub fn record_parallel_sweep_time(&mut self, duration_us: u64)
        requires
            old(self).parallel_sweep_time_us + duration_us <= u64::MAX,
        ensures
            *final(self) == (GCStats {
                parallel_sweep_time_us: (old(self).parallel_sweep_time_us + duration_us) as u64,
                ..*old(self)
            }),
    {
        self.parallel_sweep_time_us += duration_us;
    }

    /// Average collection time in microseconds, rounded down (zero without
    /// collections).
    pub fn average_collection_time_us(&self) -> (avg: u64)
        ensures
            avg == if self.collection_count == 0 { 0 } else {
                self.total_collection_time_us / (self.collection_count as u64)
            },
    {
        if self.collection_count == 0 {
            0
        } else {
            self.total_collection_time_us / self.collection_count as u64
        }
    }

    /// Total collection time over the young-generation collections, in
    /// microseconds, rounded down (zero without such collections).
    pub fn average_young_gen_time_us(&self) -> (avg: u64)
        ensures
            avg == if self.young_gen_collections == 0 { 0 } else {
                self.total_collection_time_us / (self.young_gen_collections as u64)
            },
    {
        if self.young_gen_collections == 0 {
            0
        } else {
            self.total_collection_time_us / self.young_gen_collections as u64
        }
    }

    /// Records the heap's fragmentation: `total - used` free bytes of
    /// `total`. A zero total leaves the previous record.
    pub fn update_fragmentation(&mut self, used: usize, total: usize)
        requires
            total > 0 ==> used <= total,
        ensures
            *final(self) == if total > 0 {
                GCStats {
                    fragmentation_free_bytes: (total - used) as usize,
                    fragmentation_total_bytes: total,
                    ..*old(self)
                }
            } else {
                *old(self)
            },
    {
        if total > 0 {
            self.fragmentation_free_bytes = total - used;
            self.fragmentation_total_bytes = total;
        }
    }

    /// Every counter back to zero.
    pub fn reset(&mut self)
        ensures
            *final(self) == GCStats::zeroed(),
    {
        *self = GCStats::new();
    }

    /// Every counter zero.
    pub fn new() -> (s: Self)
        ensures
            s == GCStats::zeroed(),
    {
        GCStats {
            collection_count: 0,
            marked_objects: 0,
            collected_objects: 0,
            collected_bytes: 0,
            last_collection_time_us: 0,
            total_collection_time_us: 0,
            fragmentation_free_bytes: 0,
            fragmentation_total_bytes: 0,
            average_object_size: 0,
            young_gen_collections: 0,
            old_gen_collections: 0,
            promoted_objects: 0,
            promoted_bytes: 0,
            parallel_mark_time_us: 0,
            parallel_sweep_time_us: 0,
            allocation_count: 0,
            allocation_bytes: 0,
            max_pause_time_us: 0,
            min_pause_time_us: 0,
        }
    }
}

impl Default for GCStats {
    fn default() -> (s: Self)
        ensures
            s == GCStats::zeroed(),
    {
        GCStats::new()
    }
}

/// What collections recorded since the counters were zero keep: the
/// shortest pause is at most the longest, and the total time lies between
/// the count times the shortest and the count times the longest.
pub open spec fn pauses_consistent(s: GCStats) -> bool {
    &&& s.collection_count == 0 ==> {
        &&& s.total_collection_time_us == 0
        &&& s.max_pause_time_us == 0
        &&& s.min_pause_time_us == 0
    }
    &&& s.collection_count > 0 ==> {
        &&& s.min_pause_time_us <= s.max_pause_time_us
        &&& s.total_collection_time_us <= s.collection_count * s.max_pause_time_us
        &&& s.collection_count * s.min_pause_time_us <= s.total_collection_time_us
    }
}

/// Zeroed counters are consistent.
pub proof fn lemma_zeroed_consistent()
    ensures
        pauses_consistent(GCStats::zeroed()),
{
}

/// Recording a collection keeps the counters consistent.
pub proof fn lemma_collection_keeps_consistent(s: GCStats, d: u64, marked: usize, collected: usize, bytes: usize)
    requires
        pauses_consistent(s),
        s.collection_fits(d, marked, collected, bytes),
    ensures
        pauses_consistent(s.after_collection(d, marked, collected, bytes)),
{
    let t = s.after_collection(d, marked, collected, bytes);
    let n = s.collection_count as int;
    let mx = s.max_pause_time_us as int;
    let mn = s.min_pause_time_us as int;
    let tot = s.total_collection_time_us as int;
    let mx2 = t.max_pause_time_us as int;
    let mn2 = t.min_pause_time_us as int;
    let dd = d as int;
    assert(t.collection_count as int == n + 1);
    assert(t.total_collection_time_us as int == tot + dd);
    if n == 0 {
        assert(mn2 == dd && mx2 == dd);
        assert((n + 1) * mx2 == dd);
        assert((n + 1) * mn2 == dd);
    } else {
        assert(tot + dd <= (n + 1) * mx2) by (nonlinear_arith)
            requires
                tot <= n * mx,
                mx <= mx2,
                dd <= mx2,
                n > 0,
        ;
        assert((n + 1) * mn2 <= tot + dd) by (nonlinear_arith)
            requires
                n * mn <= tot,
                mn2 <= mn,
                mn2 <= dd,
                n > 0,
        ;
        assert(mn2 <= mx2);
    }
}

/// With consistent counters, the average collection time lies between the
/// shortest and the longest collection.
pub proof fn lemma_average_between_extremes(s: GCStats)
    requires
        pauses_consistent(s),
        s.collection_count > 0,
    ensures
        s.min_pause_time_us <= (s.total_collection_time_us as int) / (s.collection_count as int)
            <= s.max_pause_time_us,
{
    let n = s.collection_count as int;
    let tot = s.total_collection_time_us as int;
    let mn = s.min_pause_time_us as int;
    let mx = s.max_pause_time_us as int;
    assert(mn <= tot / n <= mx) by (nonlinear_arith)
        requires
            n > 0,
            n * mn <= tot,
            tot <= n * mx,
            mn >= 0,
    {
        vstd::arithmetic::div_mod::lemma_div_is_ordered(n * mn, tot, n);
        vstd::arithmetic::div_mod::lemma_div_is_ordered(tot, n * mx, n);
        vstd::arithmetic::div_mod::lemma_div_multiples_vanish(mn, n);
        vstd::arithmetic::div_mod::lemma_div_multiples_vanish(mx, n);
    }
}

} // verus!
