//! Pause-time statistics of the collector.

use vstd::prelude::*;
use vstd::relations::sorted_by;
use crate::time::{instant_now, micros_between};
use super::phase::GCPhase;

verus! {

broadcast use vstd::seq_lib::group_to_multiset_ensures;

/// One collector pause.
pub struct PauseTimeRecord {
    /// When the pause began.
    pub start_time: std::time::Instant,
    /// When the pause ended.
    pub end_time: std::time::Instant,
    /// The phase that paused.
    pub phase: GCPhase,
    /// Length of the pause in microseconds.
    pub duration_us: u64,
    /// Objects processed during the pause.
    pub objects_processed: usize,
    /// Bytes reclaimed during the pause.
    pub bytes_collected: usize,
}

impl PauseTimeRecord {
    /// A record of a pause of `duration_us` microseconds in `phase`,
    /// stamped now, with nothing processed or reclaimed.
    pub fn new(phase: GCPhase, duration_us: u64) -> (r: Self)
        ensures
            r.phase == phase,
            r.duration_us == duration_us,
            r.objects_processed == 0,
            r.bytes_collected == 0,
    {
        PauseTimeRecord {
            start_time: instant_now(),
            end_time: instant_now(),
            phase,
            duration_us,
            objects_processed: 0,
            bytes_collected: 0,
        }
    }

    /// A record of a pause from `start_time` to `end_time`; its duration is
    /// the microseconds between them.
    pub fn with_details(
        start_time: std::time::Instant,
        end_time: std::time::Instant,
        phase: GCPhase,
        objects_processed: usize,
        bytes_collected: usize,
    ) -> (r: Self)
        ensures
            r.start_time == start_time,
            r.end_time == end_time,
            r.phase == phase,
            r.objects_processed == objects_processed,
            r.bytes_collected == bytes_collected,
    {
        let duration_us = micros_between(&start_time, &end_time);
        PauseTimeRecord { start_time, end_time, phase, duration_us, objects_processed, bytes_collected }
    }
}

/// The pause lengths of `records`, in order.
pub open spec fn durations(records: Seq<PauseTimeRecord>) -> Seq<u64> {
    records.map_values(|r: PauseTimeRecord| r.duration_us)
}

/// The pause lengths of `records` in ascending order.
pub open spec fn sorted_durations(records: Seq<PauseTimeRecord>) -> Seq<u64> {
    durations(records).sort_by(|a: u64, b: u64| a <= b)
}

/// The position of percentile `p` among `n` sorted pauses:
/// `min(p * n / 100, n - 1)`.
pub open spec fn percentile_index(p: u8, n: nat) -> int {
    let i = (p as int) * (n as int) / 100;
    if i < n - 1 { i } else { n - 1 }
}

/// Percentile `p` of the pause lengths of `records` (zero without records).
pub open spec fn percentile_of(records: Seq<PauseTimeRecord>, p: u8) -> u64 {
    if records.len() == 0 {
        0
    } else {
        sorted_durations(records)[percentile_index(p, records.len())]
    }
}

/// Sorts `v` ascending: `slice::sort`. The result is sorted and holds the
/// same elements.
#[verifier::external_body]
fn sort_ascending(v: &mut Vec<u64>)
    ensures
        sorted_by(final(v)@, |a: u64, b: u64| a <= b),
        final(v)@.to_multiset() == old(v)@.to_multiset(),
{
    v.sort();
}

/// Pause-time report: every pause and running statistics of them.
pub struct PauseTimeReport {
    /// Every recorded pause.
    pub pause_records: Vec<PauseTimeRecord>,
    /// Longest pause in microseconds.
    pub max_pause_us: u64,
    /// Shortest pause in microseconds (zero while no pause is recorded).
    pub min_pause_us: u64,
    /// Average pause in microseconds, rounded down.
    pub avg_pause_us: u64,
    /// Total pause time in microseconds.
    pub total_pause_us: u64,
    /// Number of pauses.
    pub pause_count: usize,
    /// Number of pauses longer than the target at the time they were added.
    pub over_target_count: usize,
    /// Target pause time in microseconds.
    pub target_pause_us: u64,
}

impl PauseTimeReport {
    /// The report after adding a pause of `d` microseconds.
    pub open spec fn statistics_after(self, d: u64) -> (u64, u64, u64, usize, usize) {
        let max = if d > self.max_pause_us { d } else { self.max_pause_us };
        let min = if self.pause_count == 0 || d < self.min_pause_us { d } else { self.min_pause_us };
        let total = (self.total_pause_us + d) as u64;
        let count = (self.pause_count + 1) as usize;
        let over = if d > self.target_pause_us { (self.over_target_count + 1) as usize } else { self.over_target_count };
        (max, min, total, count, over)
    }

    /// An empty report with every statistic and the target zero.
    pub fn new() -> (r: Self)
        ensures
            r.pause_records@.len() == 0,
            r.max_pause_us == 0,
            r.min_pause_us == 0,
            r.avg_pause_us == 0,
            r.total_pause_us == 0,
            r.pause_count == 0,
            r.over_target_count == 0,
            r.target_pause_us == 0,
            reflects_records(r),
    {
        let r = PauseTimeReport {
            pause_records: Vec::new(),
            max_pause_us: 0,
            min_pause_us: 0,
            avg_pause_us: 0,
            total_pause_us: 0,
            pause_count: 0,
            over_target_count: 0,
            target_pause_us: 0,
        };
        proof {
            lemma_empty_reflects(r);
        }
        r
    }

    /// Sets the target pause time.
    pub fn set_target_pause(&mut self, target_us: u64)
        ensures
            *final(self) == (PauseTimeReport { target_pause_us: target_us, ..*old(self) }),
            reflects_records(*old(self)) && old(self).pause_records@.len() == 0 ==> reflects_records(*final(self)),
    {
        self.target_pause_us = target_us;
        proof {
            if reflects_records(*old(self)) && old(self).pause_records@.len() == 0 {
                lemma_set_target_reflects(*old(self), *self, target_us);
            }
        }
    }

    /// Records a pause: updates the longest, shortest (the first pause sets
    /// it), total, count, average and over-target statistics and appends the
    /// record.
    pub fn add_record(&mut self, record: PauseTimeRecord)
        requires
            old(self).total_pause_us + record.duration_us <= u64::MAX,
            old(self).pause_count < usize::MAX,
            old(self).over_target_count < usize::MAX,
        ensures
            ({
                let (max, min, total, count, over) = old(self).statistics_after(record.duration_us);
                &&& final(self).max_pause_us == max
                &&& final(self).min_pause_us == min
                &&& final(self).total_pause_us == total
                &&& final(self).pause_count == count
                &&& final(self).over_target_count == over
                &&& final(self).avg_pause_us == total / (count as u64)
            }),
            final(self).target_pause_us == old(self).target_pause_us,
            final(self).pause_records@ == old(self).pause_records@.push(record),
            reflects_records(*old(self)) ==> reflects_records(*final(self)),
    {
        let d = record.duration_us;
        if d > self.max_pause_us {
            self.max_pause_us = d;
        }
        if self.pause_count == 0 || d < self.min_pause_us {
            self.min_pause_us = d;
        }
        self.total_pause_us += d;
        self.pause_count += 1;
        self.avg_pause_us = self.total_pause_us / self.pause_count as u64;
        if d > self.target_pause_us {
            self.over_target_count += 1;
        }
        self.pause_records.push(record);
        proof {
            if reflects_records(*old(self)) {
                lemma_add_record_reflects(*old(self), *self, record);
            }
        }
    }

    /// Percentile `percentile` of the recorded pause lengths: the sorted
    /// lengths at index `min(percentile * n / 100, n - 1)`; zero without
    /// records.
    pub fn percentile(&self, percentile: u8) -> (us: u64)
        requires
            (percentile as int) * self.pause_records@.len() <= usize::MAX,
        ensures
            us == percentile_of(self.pause_records@, percentile),
    {
        let n = self.pause_records.len();
        if n == 0 {
            return 0;
        }
        let mut sorted: Vec<u64> = Vec::new();
        let mut k: usize = 0;
        while k < n
            invariant
                n == self.pause_records@.len(),
                k <= n,
                sorted@ == durations(self.pause_records@).take(k as int),
            decreases n - k,
        {
            sorted.push(self.pause_records[k].duration_us);
            assert(durations(self.pause_records@).take(k + 1) =~= durations(self.pause_records@).take(k as int).push(self.pause_records@[k as int].duration_us));
            k = k + 1;
        }
        assert(durations(self.pause_records@).take(n as int) =~= durations(self.pause_records@));
        sort_ascending(&mut sorted);
        proof {
            let leq = |a: u64, b: u64| a <= b;
            durations(self.pause_records@).lemma_sort_by_ensures(leq);
            vstd::seq_lib::lemma_sorted_unique(sorted@, sorted_durations(self.pause_records@), leq);
            vstd::seq_lib::to_multiset_len(sorted@);
            vstd::seq_lib::to_multiset_len(durations(self.pause_records@));
            assert(sorted@.len() == n);
        }
        let index = (percentile as usize) * n / 100;
        let index = if index < n - 1 { index } else { n - 1 };
        sorted[index]
    }

    /// Drops every record and zeroes every statistic; the target stays.
    pub fn clear(&mut self)
        ensures
            final(self).pause_records@.len() == 0,
            final(self).max_pause_us == 0,
            final(self).min_pause_us == 0,
            final(self).avg_pause_us == 0,
            final(self).total_pause_us == 0,
            final(self).pause_count == 0,
            final(self).over_target_count == 0,
            final(self).target_pause_us == old(self).target_pause_us,
            reflects_records(*final(self)),
    {
        self.pause_records.clear();
        self.max_pause_us = 0;
        self.min_pause_us = 0;
        self.avg_pause_us = 0;
        self.total_pause_us = 0;
        self.pause_count = 0;
        self.over_target_count = 0;
        proof {
            lemma_empty_reflects(*self);
        }
    }
}

impl Default for PauseTimeReport {
    fn default() -> (r: Self)
        ensures
            r.pause_records@.len() == 0,
            r.max_pause_us == 0,
            r.min_pause_us == 0,
            r.avg_pause_us == 0,
            r.total_pause_us == 0,
            r.pause_count == 0,
            r.over_target_count == 0,
            r.target_pause_us == 0,
    {
        Self::new()
    }
}

/// A higher percentile is never a shorter pause.
pub proof fn lemma_percentile_monotone(records: Seq<PauseTimeRecord>, p: u8, q: u8)
    requires
        p <= q,
    ensures
        percentile_of(records, p) <= percentile_of(records, q),
{
    if records.len() > 0 {
        let n = records.len();
        let leq = |a: u64, b: u64| a <= b;
        durations(records).lemma_sort_by_ensures(leq);
        assert((p as int) * (n as int) <= (q as int) * (n as int)) by (nonlinear_arith)
            requires
                p <= q,
                n >= 0,
        ;
        vstd::arithmetic::div_mod::lemma_div_is_ordered((p as int) * (n as int), (q as int) * (n as int), 100);
        vstd::seq_lib::to_multiset_len(sorted_durations(records));
        vstd::seq_lib::to_multiset_len(durations(records));
        let s = sorted_durations(records);
        assert(s.len() == n);
        let ip = percentile_index(p, n);
        let iq = percentile_index(q, n);
        assert(0 <= ip <= iq < n);
        if ip < iq {
            assert(leq(s[ip], s[iq]));
        }
    }
}

/// The hundredth percentile is the longest pause.
pub proof fn lemma_percentile_hundred_is_max(records: Seq<PauseTimeRecord>)
    requires
        records.len() > 0,
    ensures
        forall|i: int| 0 <= i < records.len() ==> records[i].duration_us <= #[trigger] percentile_of(records, 100),
{
    let n = records.len();
    let leq = |a: u64, b: u64| a <= b;
    durations(records).lemma_sort_by_ensures(leq);
    let s = sorted_durations(records);
    vstd::seq_lib::to_multiset_len(s);
    vstd::seq_lib::to_multiset_len(durations(records));
    assert(s.len() == n);
    assert(percentile_index(100, n) == n - 1);
    assert(percentile_of(records, 100) == s[n - 1]);
    assert forall|i: int| 0 <= i < n implies records[i].duration_us <= #[trigger] percentile_of(records, 100) by {
        let d = records[i].duration_us;
        assert(durations(records)[i] == d);
        assert(durations(records).to_multiset().count(d) > 0);
        assert(s.to_multiset().count(d) > 0);
        assert(s.contains(d));
        let j = choose|j: int| 0 <= j < s.len() && s[j] == d;
        if j < n - 1 {
            assert(leq(s[j], s[n - 1]));
        }
    }
}

/// The zeroth percentile is the shortest pause, and every percentile is
/// one of the recorded pauses.
pub proof fn lemma_percentile_zero_is_min(records: Seq<PauseTimeRecord>, p: u8)
    requires
        records.len() > 0,
    ensures
        forall|i: int| 0 <= i < records.len() ==> percentile_of(records, 0) <= #[trigger] records[i].duration_us,
        exists|i: int| 0 <= i < records.len() && records[i].duration_us == percentile_of(records, p),
{
    let n = records.len();
    let leq = |a: u64, b: u64| a <= b;
    durations(records).lemma_sort_by_ensures(leq);
    let s = sorted_durations(records);
    vstd::seq_lib::to_multiset_len(s);
    vstd::seq_lib::to_multiset_len(durations(records));
    assert(s.len() == n);
    assert(percentile_index(0, n) == 0);
    assert(percentile_of(records, 0) == s[0]);
    assert forall|i: int| 0 <= i < n implies percentile_of(records, 0) <= #[trigger] records[i].duration_us by {
        let d = records[i].duration_us;
        assert(durations(records)[i] == d);
        assert(durations(records).to_multiset().count(d) > 0);
        assert(s.to_multiset().count(d) > 0);
        assert(s.contains(d));
        let j = choose|j: int| 0 <= j < s.len() && s[j] == d;
        if 0 < j {
            assert(leq(s[0], s[j]));
        }
    }
    let k = percentile_index(p, n);
    assert(0 <= k < n) by (nonlinear_arith)
        requires
            k == (if (p as int) * (n as int) / 100 < n - 1 { (p as int) * (n as int) / 100 } else { n - 1 }),
            n > 0,
            p >= 0,
    ;
    let v = s[k];
    assert(s.to_multiset().count(v) > 0);
    assert(durations(records).to_multiset().count(v) > 0);
    assert(durations(records).contains(v));
    let i = choose|i: int| 0 <= i < n && durations(records)[i] == v;
    assert(records[i].duration_us == v);
}

/// The sum of `s`.
pub open spec fn total_of(s: Seq<u64>) -> int
    decreases s.len(),
{
    if s.len() == 0 { 0 } else { total_of(s.drop_last()) + s.last() }
}

/// The largest element of `s` (zero for an empty `s`).
pub open spec fn max_of(s: Seq<u64>) -> u64
    decreases s.len(),
{
    if s.len() == 0 {
        0
    } else {
        let m = max_of(s.drop_last());
        if s.last() > m { s.last() } else { m }
    }
}

/// The smallest element of `s` (zero for an empty `s`).
pub open spec fn min_of(s: Seq<u64>) -> u64
    decreases s.len(),
{
    if s.len() == 0 {
        0
    } else if s.len() == 1 {
        s[0]
    } else {
        let m = min_of(s.drop_last());
        if s.last() < m { s.last() } else { m }
    }
}

/// The number of elements of `s` above `t`.
pub open spec fn count_over(s: Seq<u64>, t: u64) -> int
    decreases s.len(),
{
    if s.len() == 0 { 0 } else { count_over(s.drop_last(), t) + if s.last() > t { 1int } else { 0int } }
}

/// The report's statistics are those of its records: the count, the total,
/// the average, the longest and the shortest pause, and the number of
/// pauses over the target.
pub open spec fn reflects_records(r: PauseTimeReport) -> bool {
    let d = durations(r.pause_records@);
    &&& r.pause_count == d.len()
    &&& r.total_pause_us == total_of(d)
    &&& r.avg_pause_us == (if d.len() == 0 { 0 } else { total_of(d) / d.len() as int })
    &&& r.max_pause_us == max_of(d)
    &&& r.min_pause_us == min_of(d)
    &&& r.over_target_count == count_over(d, r.target_pause_us)
}

/// An empty report reflects its (no) records.
pub proof fn lemma_empty_reflects(r: PauseTimeReport)
    requires
        r.pause_records@.len() == 0,
        r.pause_count == 0,
        r.total_pause_us == 0,
        r.max_pause_us == 0,
        r.min_pause_us == 0,
        r.avg_pause_us == 0,
        r.over_target_count == 0,
    ensures
        reflects_records(r),
{
    assert(durations(r.pause_records@) =~= Seq::<u64>::empty());
}

/// Adding a record keeps the statistics those of the records: after
/// `add_record` from a report that reflects its records, the count, total,
/// average, longest and shortest pause and the count over the target are
/// those of all records, the new one included (a pause of zero included).
pub proof fn lemma_add_record_reflects(before: PauseTimeReport, after: PauseTimeReport, rec: PauseTimeRecord)
    requires
        reflects_records(before),
        before.total_pause_us + rec.duration_us <= u64::MAX,
        before.pause_count < usize::MAX,
        before.over_target_count < usize::MAX,
        after.pause_records@ == before.pause_records@.push(rec),
        ({
            let (max, min, total, count, over) = before.statistics_after(rec.duration_us);
            &&& after.max_pause_us == max
            &&& after.min_pause_us == min
            &&& after.total_pause_us == total
            &&& after.pause_count == count
            &&& after.over_target_count == over
            &&& after.avg_pause_us == total / (count as u64)
        }),
        after.target_pause_us == before.target_pause_us,
    ensures
        reflects_records(after),
{
    let d0 = durations(before.pause_records@);
    let d1 = durations(after.pause_records@);
    assert(d1 =~= d0.push(rec.duration_us));
    assert(d1.drop_last() =~= d0);
    assert(d1.last() == rec.duration_us);
    assert(after.pause_count == d1.len());
    assert(after.total_pause_us == total_of(d1));
    assert(count_over(d1, after.target_pause_us) == count_over(d0, before.target_pause_us)
        + if rec.duration_us > before.target_pause_us { 1int } else { 0int });
    assert(after.over_target_count == count_over(d1, after.target_pause_us));
    assert(after.avg_pause_us == total_of(d1) / d1.len() as int);
}


/// Setting the target before any pause is recorded keeps the statistics
/// those of the (no) records.
pub proof fn lemma_set_target_reflects(before: PauseTimeReport, after: PauseTimeReport, t: u64)
    requires
        reflects_records(before),
        before.pause_records@.len() == 0,
        after == (PauseTimeReport { target_pause_us: t, ..before }),
    ensures
        reflects_records(after),
{
    assert(durations(after.pause_records@) =~= Seq::<u64>::empty());
}

} // verus!
