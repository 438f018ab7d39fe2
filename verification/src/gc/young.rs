//! Collections over object ids: the young-generation collection (which
//! objects survive, which move to the old generation and which are
//! collected) and the budgeted sweep of the heap, with the headers, the
//! generation lists and the collector's records brought up to date.
//! Freeing the collected objects' memory is the caller's.

use vstd::prelude::*;
use super::barrier::RememberedSetEntry;
use super::header::ObjectHeader;
use super::incremental::{first_occurrences, init_mark, lemma_swept_bytes_grow, sweep_outcome, sweep_split, sweep_step};
use super::pause::{reflects_records, PauseTimeRecord, PauseTimeReport};
use super::phase::GCPhase;
use super::promotion::PromotionThresholds;
use super::stats::GCStats;
use crate::time::{instant_now, micros_since};

verus! {

/// The collector's generations and the objects' records, by object id.
pub struct GcState {
    /// The root objects.
    pub roots: Vec<usize>,
    /// The young generation.
    pub young: Vec<usize>,
    /// The old generation.
    pub old: Vec<usize>,
    /// Every object on the heap.
    pub heap: Vec<usize>,
    /// Each object's header, by id.
    pub headers: Vec<ObjectHeader>,
    /// How often each object was read, by id.
    pub access_counts: Vec<usize>,
    /// Each object's size in bytes, header included, by id.
    pub sizes: Vec<usize>,
    /// References from old objects to young ones.
    pub remembered: Vec<RememberedSetEntry>,
    /// The objects marked by the collection under way.
    pub marked: Vec<usize>,
    /// Marked objects whose references are still to be gone over.
    pub work_list: Vec<usize>,
    /// The phase of the incremental collection.
    pub phase: GCPhase,
    /// When objects move to the old generation.
    pub promotion: PromotionThresholds,
    /// The collector's counters.
    pub stats: GCStats,
    /// The collector's pauses.
    pub pauses: PauseTimeReport,
    /// Bytes in use.
    pub used_memory: usize,
    /// Bytes the allocator holds.
    pub total_memory: usize,
}

/// What a young-generation collection did.
pub struct YoungOutcome {
    /// Objects marked.
    pub marked: usize,
    /// The collected objects, in young-generation order.
    pub collected: Vec<usize>,
    /// Bytes of the collected objects.
    pub collected_bytes: usize,
    /// Objects moved to the old generation.
    pub promoted: usize,
    /// Bytes of the promoted objects.
    pub promoted_bytes: usize,
    /// How long the collection took, in microseconds, as counted in the
    /// statistics.
    pub duration_us: u64,
    /// The length of the pause recorded for it, in microseconds.
    pub pause_us: u64,
    /// Whether the statistics and the pause report took the collection in
    /// (they do unless one of their counters would overflow).
    pub recorded: bool,
}

/// The objects a young collection marks: the roots, then the old ends of
/// the remembered references, each once, in the order first met.
pub open spec fn young_marks(roots: Seq<usize>, remembered: Seq<RememberedSetEntry>) -> Seq<usize> {
    first_occurrences(roots + remembered.map_values(|e: RememberedSetEntry| e.old_obj))
}

/// The headers with the mark bit set on each object of `marks` that has
/// a header.
pub open spec fn with_marks(headers: Seq<ObjectHeader>, marks: Seq<usize>) -> Seq<ObjectHeader> {
    Seq::new(headers.len(), |i: int| if marks.contains(i as usize) {
        ObjectHeader { mark: true, ..headers[i] }
    } else {
        headers[i]
    })
}

/// The running result of a young collection.
pub struct YoungPass {
    /// Survivors staying young, in order.
    pub survivors: Seq<usize>,
    /// Objects moved to the old generation, in order.
    pub promoted: Seq<usize>,
    /// Collected objects, in order.
    pub collected: Seq<usize>,
    /// The headers.
    pub headers: Seq<ObjectHeader>,
    /// Bytes collected.
    pub collected_bytes: int,
    /// Bytes promoted.
    pub promoted_bytes: int,
}

/// The young collection over `young`: a marked object grows one older,
/// is unmarked, and moves to the old generation where the thresholds
/// promote it (by its new age) or else stays young; an unmarked object is
/// collected.
pub open spec fn young_pass(
    young: Seq<usize>,
    marks: Seq<usize>,
    headers: Seq<ObjectHeader>,
    counts: Seq<usize>,
    sizes: Seq<usize>,
    p: PromotionThresholds,
) -> YoungPass
    decreases young.len(),
{
    if young.len() == 0 {
        YoungPass {
            survivors: Seq::empty(),
            promoted: Seq::empty(),
            collected: Seq::empty(),
            headers,
            collected_bytes: 0,
            promoted_bytes: 0,
        }
    } else {
        let acc = young_pass(young.drop_last(), marks, headers, counts, sizes, p);
        let id = young.last();
        if marks.contains(id) {
            let h = acc.headers[id as int].aged();
            let acc2 = YoungPass { headers: acc.headers.update(id as int, ObjectHeader { mark: false, ..h }), ..acc };
            if p.promotes(h, counts[id as int]) {
                YoungPass {
                    promoted: acc.promoted.push(id),
                    promoted_bytes: acc.promoted_bytes + sizes[id as int],
                    ..acc2
                }
            } else {
                YoungPass { survivors: acc.survivors.push(id), ..acc2 }
            }
        } else {
            YoungPass {
                collected: acc.collected.push(id),
                collected_bytes: acc.collected_bytes + sizes[id as int],
                ..acc
            }
        }
    }
}

/// `heap` without the objects of `gone`, in order.
pub open spec fn without(heap: Seq<usize>, gone: Seq<usize>) -> Seq<usize>
    decreases heap.len(),
{
    if heap.len() == 0 {
        Seq::empty()
    } else if gone.contains(heap.last()) {
        without(heap.drop_last(), gone)
    } else {
        without(heap.drop_last(), gone).push(heap.last())
    }
}

/// The total size of the objects `ids`.
pub open spec fn size_of_all(ids: Seq<usize>, sizes: Seq<usize>) -> int
    decreases ids.len(),
{
    if ids.len() == 0 { 0 } else { size_of_all(ids.drop_last(), sizes) + sizes[ids.last() as int] }
}

/// Whether the state can be collected: the young objects are distinct and
/// have records, their sizes add up within `usize`, and deciding their
/// promotion stays within `u8`.
pub open spec fn young_ready(s: &GcState) -> bool {
    &&& s.young@.no_duplicates()
    &&& s.access_counts@.len() == s.headers@.len()
    &&& s.sizes@.len() == s.headers@.len()
    &&& forall|i: int| 0 <= i < s.young@.len() ==> #[trigger] s.young@[i] < s.headers@.len()
    &&& forall|i: int| 0 <= i < s.young@.len() ==> s.promotion.decision_defined(#[trigger] s.headers@[s.young@[i] as int].aged())
    &&& size_of_all(s.young@, s.sizes@) <= usize::MAX
    &&& s.total_memory > 0 ==> s.used_memory <= s.total_memory
}

/// What a young collection does to the generations, the headers, the heap
/// list and the marks, and what it reports of that.
pub open spec fn young_collected(s: GcState, t: GcState, r: YoungOutcome) -> bool {
    let marks = young_marks(s.roots@, s.remembered@);
    let pass = young_pass(s.young@, marks, with_marks(s.headers@, marks), s.access_counts@, s.sizes@, s.promotion);
    &&& t.young@ == pass.survivors
    &&& t.old@ == s.old@ + pass.promoted
    &&& t.heap@ == without(s.heap@, pass.collected)
    &&& t.headers@ == pass.headers
    &&& t.marked@.len() == 0
    &&& t.remembered@.len() == 0
    &&& t.roots@ == s.roots@
    &&& t.access_counts@ == s.access_counts@
    &&& t.sizes@ == s.sizes@
    &&& t.promotion == s.promotion
    &&& t.used_memory == s.used_memory
    &&& t.total_memory == s.total_memory
    &&& r.marked == marks.len()
    &&& r.collected@ == pass.collected
    &&& r.collected_bytes == pass.collected_bytes
    &&& r.promoted == pass.promoted.len()
    &&& r.promoted_bytes == pass.promoted_bytes
}

/// Whether the statistics and the pause report can take in a young
/// collection that took `d` microseconds (and a pause of `pd`) without a
/// counter overflowing.
pub open spec fn young_record_fits(stats: GCStats, pauses: PauseTimeReport, r: YoungOutcome, d: u64, pd: u64) -> bool {
    &&& stats.collection_fits(d, r.marked, r.collected@.len() as usize, r.collected_bytes)
    &&& stats.young_gen_collections < usize::MAX
    &&& stats.promoted_objects + r.promoted <= usize::MAX
    &&& stats.promoted_bytes + r.promoted_bytes <= usize::MAX
    &&& pauses.total_pause_us + pd <= u64::MAX
    &&& pauses.pause_count < usize::MAX
    &&& pauses.over_target_count < usize::MAX
}

/// The statistics after a young collection that took `d` microseconds.
pub open spec fn young_stats(stats: GCStats, r: YoungOutcome, d: u64) -> GCStats {
    GCStats {
        young_gen_collections: (stats.young_gen_collections + 1) as usize,
        promoted_objects: (stats.promoted_objects + r.promoted) as usize,
        promoted_bytes: (stats.promoted_bytes + r.promoted_bytes) as usize,
        ..stats.after_collection(d, r.marked, r.collected@.len() as usize, r.collected_bytes)
    }
}

/// The statistics with the heap's fragmentation taken from `used` and
/// `total` bytes (left as they are when `total` is zero).
pub open spec fn with_fragmentation(stats: GCStats, used: usize, total: usize) -> GCStats {
    if total > 0 {
        GCStats { fragmentation_free_bytes: (total - used) as usize, fragmentation_total_bytes: total, ..stats }
    } else {
        stats
    }
}

/// Whether `t` is the pause report `s` with `rec` added.
pub open spec fn pause_added(s: PauseTimeReport, t: PauseTimeReport, rec: PauseTimeRecord) -> bool {
    let (max, min, total, count, over) = s.statistics_after(rec.duration_us);
    &&& t.pause_records@ == s.pause_records@.push(rec)
    &&& t.max_pause_us == max
    &&& t.min_pause_us == min
    &&& t.total_pause_us == total
    &&& t.pause_count == count
    &&& t.over_target_count == over
    &&& t.avg_pause_us == total / (count as u64)
    &&& t.target_pause_us == s.target_pause_us
}


/// A young collection accounts for every young object once: as many
/// objects survive, are promoted or are collected as the generation held.
/// It keeps the number of headers, changes only the headers of the young
/// objects, and counts no more bytes than those objects hold.
pub proof fn lemma_young_pass_facts(
    young: Seq<usize>,
    marks: Seq<usize>,
    headers: Seq<ObjectHeader>,
    counts: Seq<usize>,
    sizes: Seq<usize>,
    p: PromotionThresholds,
)
    requires
        forall|i: int| 0 <= i < young.len() ==> #[trigger] young[i] < headers.len(),
        sizes.len() == headers.len(),
    ensures
        young_pass(young, marks, headers, counts, sizes, p).headers.len() == headers.len(),
        forall|j: int| 0 <= j < headers.len() && !young.contains(j as usize)
            ==> #[trigger] young_pass(young, marks, headers, counts, sizes, p).headers[j] == headers[j],
        0 <= young_pass(young, marks, headers, counts, sizes, p).collected_bytes,
        0 <= young_pass(young, marks, headers, counts, sizes, p).promoted_bytes,
        young_pass(young, marks, headers, counts, sizes, p).collected_bytes
            + young_pass(young, marks, headers, counts, sizes, p).promoted_bytes <= size_of_all(young, sizes),
        0 <= size_of_all(young, sizes),
        young_pass(young, marks, headers, counts, sizes, p).promoted.len()
            + young_pass(young, marks, headers, counts, sizes, p).survivors.len()
            + young_pass(young, marks, headers, counts, sizes, p).collected.len() == young.len(),
    decreases young.len(),
{
    if young.len() > 0 {
        let y = young.drop_last();
        assert forall|i: int| 0 <= i < y.len() implies #[trigger] y[i] < headers.len() by {
            assert(y[i] == young[i]);
        }
        lemma_young_pass_facts(y, marks, headers, counts, sizes, p);
        assert forall|j: int| 0 <= j < headers.len() && !young.contains(j as usize)
            implies #[trigger] young_pass(young, marks, headers, counts, sizes, p).headers[j] == headers[j] by {
            assert(young[young.len() - 1] == young.last());
            assert(young.last() != j as usize);
            if y.contains(j as usize) {
                let k = choose|k: int| 0 <= k < y.len() && y[k] == j as usize;
                assert(young[k] == j as usize);
            }
        }
        assert(young[young.len() - 1] < headers.len());
    }
}

/// The total size of a prefix is at most the whole.
proof fn lemma_size_prefix(ids: Seq<usize>, sizes: Seq<usize>, k: int)
    requires
        0 <= k <= ids.len(),
    ensures
        0 <= size_of_all(ids.take(k), sizes) <= size_of_all(ids, sizes),
    decreases ids.len() - k,
{
    if k == ids.len() {
        assert(ids.take(k) =~= ids);
        lemma_size_nonneg(ids, sizes);
    } else {
        lemma_size_prefix(ids.drop_last(), sizes, k);
        assert(ids.drop_last().take(k) =~= ids.take(k));
    }
}

/// Totals are never negative.
proof fn lemma_size_nonneg(ids: Seq<usize>, sizes: Seq<usize>)
    ensures
        size_of_all(ids, sizes) >= 0,
    decreases ids.len(),
{
    if ids.len() > 0 {
        lemma_size_nonneg(ids.drop_last(), sizes);
    }
}

/// Whether `v` holds `x`.
fn holds(v: &Vec<usize>, x: usize) -> (b: bool)
    ensures
        b == v@.contains(x),
{
    let mut i: usize = 0;
    while i < v.len()
        invariant
            i <= v@.len(),
            forall|j: int| 0 <= j < i ==> v@[j] != x,
        decreases v@.len() - i,
    {
        if v[i] == x {
            assert(v@[i as int] == x);
            return true;
        }
        i = i + 1;
    }
    false
}

/// The collection itself: marks the roots and the old ends of the
/// remembered references; each young object either grows one older, is
/// unmarked, and moves to the old generation or stays young, or is
/// collected and leaves the heap list; then the marks and the remembered
/// references are cleared. The statistics and the pause report are left
/// alone; the caller frees the collected objects.
#[verifier::rlimit(50)]
pub fn collect_young_objects(state: &mut GcState) -> (r: YoungOutcome)
    requires
        young_ready(old(state)),
    ensures
        young_collected(*old(state), *final(state), r),
        final(state).stats == old(state).stats,
        final(state).pauses == old(state).pauses,
        r.duration_us == 0,
        r.pause_us == 0,
        !r.recorded,
{
    let ghost marks_spec = young_marks(state.roots@, state.remembered@);
    let mut starts: Vec<usize> = Vec::new();
    let mut i: usize = 0;
    while i < state.roots.len()
        invariant
            i <= state.roots@.len(),
            starts@ == state.roots@.take(i as int),
        decreases state.roots@.len() - i,
    {
        starts.push(state.roots[i]);
        assert(starts@ =~= state.roots@.take(i + 1));
        i = i + 1;
    }
    let ghost rs = state.remembered@.map_values(|e: RememberedSetEntry| e.old_obj);
    let mut j: usize = 0;
    while j < state.remembered.len()
        invariant
            j <= state.remembered@.len(),
            rs == state.remembered@.map_values(|e: RememberedSetEntry| e.old_obj),
            starts@ == state.roots@ + rs.take(j as int),
        decreases state.remembered@.len() - j,
    {
        starts.push(state.remembered[j].old_obj);
        assert(starts@ =~= state.roots@ + rs.take(j + 1));
        j = j + 1;
    }
    assert(rs.take(rs.len() as int) =~= rs);
    let marks = init_mark(&starts);
    mark_headers(&mut state.headers, &marks);
    let ghost young0 = state.young@;
    let ghost headers0 = state.headers@;
    let ghost counts = state.access_counts@;
    let ghost sizes = state.sizes@;
    let ghost p = state.promotion;
    proof {
        lemma_young_pass_facts(young0, marks@, headers0, counts, sizes, p);
    }
    let mut survivors: Vec<usize> = Vec::new();
    let mut promoted: usize = 0;
    let mut promoted_bytes: usize = 0;
    let mut collected: Vec<usize> = Vec::new();
    let mut collected_bytes: usize = 0;
    let mut k: usize = 0;
    let n = state.young.len();
    assert(young0.take(0) =~= Seq::<usize>::empty());
    while k < n
        invariant
            k <= n,
            n == young0.len(),
            young_ready(old(state)),
            young0 == old(state).young@,
            state.young@ == young0,
            headers0 == with_marks(old(state).headers@, marks@),
            headers0.len() == old(state).headers@.len(),
            state.used_memory == old(state).used_memory,
            state.total_memory == old(state).total_memory,
            counts == state.access_counts@,
            counts == old(state).access_counts@,
            sizes == state.sizes@,
            sizes == old(state).sizes@,
            p == state.promotion,
            p == old(state).promotion,
            marks@ == marks_spec,
            marks_spec == young_marks(old(state).roots@, old(state).remembered@),
            state.roots@ == old(state).roots@,
            state.heap@ == old(state).heap@,
            state.remembered@ == old(state).remembered@,
            state.stats == old(state).stats,
            state.pauses == old(state).pauses,
            ({
                let acc = young_pass(young0.take(k as int), marks@, headers0, counts, sizes, p);
                &&& survivors@ == acc.survivors
                &&& state.old@ == old(state).old@ + acc.promoted
                &&& promoted == acc.promoted.len()
                &&& collected@ == acc.collected
                &&& state.headers@ == acc.headers
                &&& promoted_bytes == acc.promoted_bytes
                &&& collected_bytes == acc.collected_bytes
            }),
        decreases n - k,
    {
        let ghost pre = young0.take(k as int);
        let ghost acc = young_pass(pre, marks@, headers0, counts, sizes, p);
        proof {
            assert(young0.take(k + 1).drop_last() =~= pre);
            assert(young0.take(k + 1).last() == young0[k as int]);
            assert forall|i: int| 0 <= i < pre.len() implies #[trigger] pre[i] < headers0.len() by {
                assert(pre[i] == young0[i]);
            }
            assert forall|i: int| 0 <= i < k + 1 implies #[trigger] young0.take(k + 1)[i] < headers0.len() by {
                assert(young0.take(k + 1)[i] == young0[i]);
            }
            lemma_young_pass_facts(pre, marks@, headers0, counts, sizes, p);
            lemma_young_pass_facts(young0.take(k + 1), marks@, headers0, counts, sizes, p);
            lemma_size_prefix(young0, sizes, k + 1);
            assert(!pre.contains(young0[k as int])) by {
                if pre.contains(young0[k as int]) {
                    let m = choose|m: int| 0 <= m < pre.len() && pre[m] == young0[k as int];
                    assert(young0[m] == young0[k as int]);
                }
            }
            assert(young0[k as int] < headers0.len());
        }
        let id = state.young[k];
        assert(acc.headers[id as int] == headers0[id as int]);
        if holds(&marks, id) {
            let mut h = state.headers[id];
            h.increment_age();
            assert(old(state).young@[k as int] == id);
            assert(p.decision_defined(old(state).headers@[id as int].aged()));
            assert(headers0[id as int].aged().age == old(state).headers@[id as int].aged().age);
            assert(headers0[id as int].aged().size == old(state).headers@[id as int].aged().size);
            assert(p.decision_defined(headers0[id as int].aged()));
            let promote = state.promotion.should_promote(&h, state.access_counts[id]);
            h.mark = false;
            state.headers.set(id, h);
            if promote {
                state.old.push(id);
                promoted = promoted + 1;
                promoted_bytes = promoted_bytes + state.sizes[id];
            } else {
                survivors.push(id);
            }
            proof {
                assert(state.old@ =~= old(state).old@ + young_pass(young0.take(k + 1), marks@, headers0, counts, sizes, p).promoted);
            }
        } else {
            collected.push(id);
            collected_bytes = collected_bytes + state.sizes[id];
        }
        k = k + 1;
    }
    assert(young0.take(n as int) =~= young0);
    let ghost gone = collected@;
    let mut heap: Vec<usize> = Vec::new();
    let mut m: usize = 0;
    let ghost heap0 = state.heap@;
    assert(heap0.take(0) =~= Seq::<usize>::empty());
    while m < state.heap.len()
        invariant
            m <= state.heap@.len(),
            heap0 == state.heap@,
            gone == collected@,
            heap@ == without(heap0.take(m as int), gone),
        decreases state.heap@.len() - m,
    {
        let o = state.heap[m];
        assert(heap0.take(m + 1).drop_last() =~= heap0.take(m as int));
        if !holds(&collected, o) {
            heap.push(o);
        }
        m = m + 1;
    }
    assert(heap0.take(heap0.len() as int) =~= heap0);
    state.heap = heap;
    state.young = survivors;
    state.marked = Vec::new();
    state.remembered = Vec::new();
    YoungOutcome {
        marked: marks.len(),
        collected,
        collected_bytes,
        promoted,
        promoted_bytes,
        duration_us: 0,
        pause_us: 0,
        recorded: false,
    }
}

/// Whether the statistics and the pause report can take in the
/// collection `r`, which took `d` microseconds and paused for `pd`.
fn record_fits(stats: &GCStats, pauses: &PauseTimeReport, r: &YoungOutcome, d: u64, pd: u64) -> (b: bool)
    ensures
        b == young_record_fits(*stats, *pauses, *r, d, pd),
{
    stats.collection_count < usize::MAX
        && stats.marked_objects <= usize::MAX - r.marked
        && stats.collected_objects <= usize::MAX - r.collected.len()
        && stats.collected_bytes <= usize::MAX - r.collected_bytes
        && stats.total_collection_time_us <= u64::MAX - d
        && stats.young_gen_collections < usize::MAX
        && stats.promoted_objects <= usize::MAX - r.promoted
        && stats.promoted_bytes <= usize::MAX - r.promoted_bytes
        && pauses.total_pause_us <= u64::MAX - pd
        && pauses.pause_count < usize::MAX
        && pauses.over_target_count < usize::MAX
}

/// Collects the young generation (see `collect_young_objects`), timing
/// it: the statistics count a young collection of that length, with what
/// was marked, collected and promoted, and take the heap's fragmentation;
/// the pause report gets a marking pause over the marked objects and the
/// collected bytes. Where a counter of either would overflow, both are
/// left without this collection, and the result says so.
pub fn collect_young_gen(state: &mut GcState) -> (r: YoungOutcome)
    requires
        young_ready(old(state)),
    ensures
        young_collected(*old(state), *final(state), r),
        r.recorded == young_record_fits(old(state).stats, old(state).pauses, r, r.duration_us, r.pause_us),
        final(state).stats == with_fragmentation(
            if r.recorded { young_stats(old(state).stats, r, r.duration_us) } else { old(state).stats },
            old(state).used_memory, old(state).total_memory),
        r.recorded ==> ({
            let rec = final(state).pauses.pause_records@.last();
            &&& pause_added(old(state).pauses, final(state).pauses, rec)
            &&& rec.phase == GCPhase::Marking
            &&& rec.objects_processed == r.marked
            &&& rec.bytes_collected == r.collected_bytes
            &&& rec.duration_us == r.pause_us
        }),
        !r.recorded ==> final(state).pauses == old(state).pauses,
        reflects_records(old(state).pauses) ==> reflects_records(final(state).pauses),
{
    let start = instant_now();
    let mut r = collect_young_objects(state);
    let duration = micros_since(&start);
    let record = PauseTimeRecord::with_details(start, instant_now(), GCPhase::Marking, r.marked, r.collected_bytes);
    r.duration_us = duration;
    r.pause_us = record.duration_us;
    if record_fits(&state.stats, &state.pauses, &r, duration, record.duration_us) {
        state.stats.record_young_gen_collection(
            duration,
            r.marked,
            r.collected.len(),
            r.collected_bytes,
            r.promoted,
            r.promoted_bytes,
        );
        r.recorded = true;
        state.pauses.add_record(record);
    }
    state.stats.update_fragmentation(state.used_memory, state.total_memory);
    r
}


/// Whether each heap object is marked, in heap order.
pub open spec fn heap_marks(s: GcState) -> Seq<bool> {
    s.heap@.map_values(|o: usize| s.marked@.contains(o))
}

/// Each heap object's size, in heap order.
pub open spec fn heap_sizes(s: GcState) -> Seq<usize> {
    s.heap@.map_values(|o: usize| s.sizes@[o as int])
}

/// The objects of `v` that are marked, in order.
pub open spec fn kept(v: Seq<usize>, marked: Seq<usize>) -> Seq<usize>
    decreases v.len(),
{
    if v.len() == 0 {
        Seq::empty()
    } else if marked.contains(v.last()) {
        kept(v.drop_last(), marked).push(v.last())
    } else {
        kept(v.drop_last(), marked)
    }
}

/// The headers with the mark bit cleared on each marked object of `swept`.
pub open spec fn unmarked(headers: Seq<ObjectHeader>, swept: Seq<usize>, marked: Seq<usize>) -> Seq<ObjectHeader> {
    Seq::new(headers.len(), |i: int| if swept.contains(i as usize) && marked.contains(i as usize) {
        ObjectHeader { mark: false, ..headers[i] }
    } else {
        headers[i]
    })
}

/// Whether the heap can be swept: every heap object has a size, and the
/// sizes of the unmarked ones add up within `usize`.
pub open spec fn sweep_ready(s: GcState) -> bool {
    &&& forall|i: int| 0 <= i < s.heap@.len() ==> #[trigger] s.heap@[i] < s.sizes@.len()
    &&& sweep_split(s.heap@, heap_marks(s), heap_sizes(s), s.heap@.len() as int).2 <= usize::MAX
}

/// What a budgeted sweep did.
pub struct SweepOutcome {
    /// Whether the sweep is over.
    pub done: bool,
    /// Heap objects gone over.
    pub processed: usize,
    /// Bytes of the collected objects.
    pub bytes_collected: usize,
    /// The collected objects, in heap order.
    pub collected: Vec<usize>,
}

/// What a budgeted sweep of `s` that went over `r.processed` heap objects
/// leaves (`t`) and reports (`r`).
pub open spec fn swept(s: GcState, t: GcState, r: SweepOutcome) -> bool {
    &&& r.processed <= s.heap@.len()
    &&& ({
        let (h, c, b, d) = sweep_outcome(s.heap@, heap_marks(s), heap_sizes(s),
            r.processed as int);
        &&& r.done == d
        &&& r.bytes_collected == b
        &&& r.collected@ == c
        &&& if r.processed > 0 {
            &&& t.heap@ == h
            &&& t.young@ == kept(s.young@, s.marked@)
            &&& t.old@ == kept(s.old@, s.marked@)
            &&& t.headers@ == unmarked(s.headers@,
                s.heap@.take(r.processed as int), s.marked@)
            &&& (t.stats == s.stats || exists|dur: u64|
                s.stats.collection_fits(dur, s.marked@.len() as usize, c.len() as usize, b as usize)
                && #[trigger] s.stats.after_collection(dur, s.marked@.len() as usize,
                    c.len() as usize, b as usize) == t.stats)
        } else {
            &&& t.heap@ == s.heap@
            &&& t.young@ == s.young@
            &&& t.old@ == s.old@
            &&& t.headers@ == s.headers@
            &&& t.stats == s.stats
        }
    })
    &&& t.roots@ == s.roots@
    &&& t.marked@ == s.marked@
    &&& t.remembered@ == s.remembered@
    &&& t.access_counts@ == s.access_counts@
    &&& t.sizes@ == s.sizes@
    &&& t.promotion == s.promotion
    &&& t.pauses == s.pauses
    &&& t.used_memory == s.used_memory
    &&& t.total_memory == s.total_memory
    &&& t.work_list@ == s.work_list@
    &&& t.phase == s.phase
}

/// The objects of `v` that are marked.
fn retain_marked(v: &Vec<usize>, marked: &Vec<usize>) -> (r: Vec<usize>)
    ensures
        r@ == kept(v@, marked@),
{
    let mut r: Vec<usize> = Vec::new();
    let mut i: usize = 0;
    assert(v@.take(0) =~= Seq::<usize>::empty());
    while i < v.len()
        invariant
            i <= v@.len(),
            r@ == kept(v@.take(i as int), marked@),
        decreases v@.len() - i,
    {
        assert(v@.take(i + 1).drop_last() =~= v@.take(i as int));
        if holds(marked, v[i]) {
            r.push(v[i]);
        }
        i = i + 1;
    }
    assert(v@.take(v@.len() as int) =~= v@);
    r
}

/// Sweeps as much of the heap as the budget of `budget_us` microseconds
/// allows, from the front: marked objects are kept, unmarked, and
/// collected ones leave the heap list. Where something was swept, the
/// generation lists keep only the marked objects and the statistics count
/// the sweep as a collection (unless a counter would overflow). How many
/// objects the budget allowed depends on the clock; for each possible
/// count the result is the one `sweep_outcome` gives.
pub fn sweep_incremental_with_budget(state: &mut GcState, budget_us: u64) -> (r: SweepOutcome)
    requires
        sweep_ready(*old(state)),
    ensures
        swept(*old(state), *final(state), r),
{
    let start = instant_now();
    let n = state.heap.len();
    let mut p: usize = 0;
    while p < n
        invariant
            p <= n,
        decreases n - p,
    {
        if micros_since(&start) >= budget_us {
            break;
        }
        p = p + 1;
    }
    let ghost s0 = *state;
    let mut flags: Vec<bool> = Vec::new();
    let mut szs: Vec<usize> = Vec::new();
    let mut i: usize = 0;
    while i < n
        invariant
            i <= n,
            n == state.heap@.len(),
            s0 == *state,
            sweep_ready(s0),
            flags@ == heap_marks(s0).take(i as int),
            szs@ == heap_sizes(s0).take(i as int),
        decreases n - i,
    {
        let o = state.heap[i];
        assert(state.heap@[i as int] < state.sizes@.len());
        flags.push(holds(&state.marked, o));
        szs.push(state.sizes[o]);
        assert(flags@ =~= heap_marks(s0).take(i + 1));
        assert(szs@ =~= heap_sizes(s0).take(i + 1));
        i = i + 1;
    }
    assert(flags@ =~= heap_marks(s0));
    assert(szs@ =~= heap_sizes(s0));
    proof {
        lemma_swept_bytes_grow(s0.heap@, flags@, szs@, p as int, n as int);
    }
    let (new_heap, collected, bytes, done) = sweep_step(&state.heap, &flags, &szs, p);
    if p > 0 {
        let ghost headers0 = state.headers@;
        let mut k: usize = 0;
        assert(s0.heap@.take(0) =~= Seq::<usize>::empty());
        while k < p
            invariant
                k <= p <= n,
                n == state.heap@.len(),
                state.heap@ == s0.heap@,
                state.marked@ == s0.marked@,
                flags@ == heap_marks(s0),
                headers0 == s0.headers@,
                state.headers@.len() == headers0.len(),
                forall|j: int| 0 <= j < headers0.len() ==> #[trigger] state.headers@[j] == (
                    if s0.heap@.take(k as int).contains(j as usize) && s0.marked@.contains(j as usize) {
                        ObjectHeader { mark: false, ..headers0[j] }
                    } else {
                        headers0[j]
                    }),
                state.young@ == s0.young@,
                state.old@ == s0.old@,
                state.roots@ == s0.roots@,
                state.remembered@ == s0.remembered@,
                state.access_counts@ == s0.access_counts@,
                state.sizes@ == s0.sizes@,
                state.promotion == s0.promotion,
                state.stats == s0.stats,
                state.pauses == s0.pauses,
                state.used_memory == s0.used_memory,
                state.total_memory == s0.total_memory,
                state.work_list@ == s0.work_list@,
                state.phase == s0.phase,
            decreases p - k,
        {
            let id = state.heap[k];
            let ghost pre = s0.heap@.take(k as int);
            let ghost next = s0.heap@.take(k + 1);
            proof {
                assert forall|x: usize| next.contains(x) <==> (pre.contains(x) || x == id) by {
                    if next.contains(x) {
                        let q = choose|q: int| 0 <= q < k + 1 && #[trigger] next[q] == x;
                        if q < k { assert(pre[q] == x); }
                    }
                    if pre.contains(x) {
                        let q = choose|q: int| 0 <= q < k && #[trigger] pre[q] == x;
                        assert(next[q] == x);
                    }
                    if x == id { assert(next[k as int] == x); }
                }
                assert(flags@[k as int] == s0.marked@.contains(id));
            }
            if flags[k] && id < state.headers.len() {
                let mut h = state.headers[id];
                h.mark = false;
                state.headers.set(id, h);
            }
            k = k + 1;
        }
        assert(state.headers@ =~= unmarked(s0.headers@, s0.heap@.take(p as int), s0.marked@));
        state.young = retain_marked(&state.young, &state.marked);
        state.old = retain_marked(&state.old, &state.marked);
        state.heap = new_heap;
        let dur = micros_since(&start);
        let marked_count = state.marked.len();
        let count = collected.len();
        if state.stats.collection_count < usize::MAX
            && state.stats.marked_objects <= usize::MAX - marked_count
            && state.stats.collected_objects <= usize::MAX - count
            && state.stats.collected_bytes <= usize::MAX - bytes
            && state.stats.total_collection_time_us <= u64::MAX - dur
        {
            state.stats.record_collection(dur, marked_count, count, bytes);
            assert(marked_count == s0.marked@.len() as usize);
            assert(count == collected@.len() as usize);
            assert(s0.stats.after_collection(dur, s0.marked@.len() as usize, collected@.len() as usize, bytes as usize)
                == state.stats);
        }
    }
    SweepOutcome { done, processed: p, bytes_collected: bytes, collected }
}


/// A copy of the ids `v`.
fn copy_ids(v: &Vec<usize>) -> (r: Vec<usize>)
    ensures
        r@ == v@,
{
    let mut r: Vec<usize> = Vec::new();
    let mut i: usize = 0;
    while i < v.len()
        invariant
            i <= v@.len(),
            r@ == v@.take(i as int),
        decreases v@.len() - i,
    {
        r.push(v[i]);
        assert(r@ =~= v@.take(i + 1));
        i = i + 1;
    }
    assert(v@.take(v@.len() as int) =~= v@);
    r
}

/// Sets the mark bit of each object of `marks` that has a header.
fn mark_headers(headers: &mut Vec<ObjectHeader>, marks: &Vec<usize>)
    ensures
        final(headers)@ == with_marks(old(headers)@, marks@),
{
    let mut t: usize = 0;
    while t < marks.len()
        invariant
            t <= marks@.len(),
            headers@.len() == old(headers)@.len(),
            forall|i: int| 0 <= i < headers@.len() ==> #[trigger] headers@[i] == (
                if marks@.take(t as int).contains(i as usize) { ObjectHeader { mark: true, ..old(headers)@[i] } }
                else { old(headers)@[i] }),
        decreases marks@.len() - t,
    {
        let id = marks[t];
        proof {
            assert forall|x: usize| marks@.take(t + 1).contains(x) <==> (marks@.take(t as int).contains(x) || x == id) by {
                if marks@.take(t + 1).contains(x) {
                    let q = choose|q: int| 0 <= q < t + 1 && #[trigger] marks@.take(t + 1)[q] == x;
                    if q < t { assert(marks@.take(t as int)[q] == x); }
                }
                if marks@.take(t as int).contains(x) {
                    let q = choose|q: int| 0 <= q < t && #[trigger] marks@.take(t as int)[q] == x;
                    assert(marks@.take(t + 1)[q] == x);
                }
                if x == id { assert(marks@.take(t + 1)[t as int] == x); }
            }
        }
        if id < headers.len() {
            let mut h = headers[id];
            h.mark = true;
            headers.set(id, h);
        }
        t = t + 1;
    }
    assert(marks@.take(marks@.len() as int) =~= marks@);
    assert(headers@ =~= with_marks(old(headers)@, marks@));
}

/// Starts a mark: the roots, each once, become the marked objects and the
/// work list, and their headers are marked.
pub fn start_marking(state: &mut GcState)
    ensures
        final(state).marked@ == first_occurrences(old(state).roots@),
        final(state).work_list@ == first_occurrences(old(state).roots@),
        final(state).headers@ == with_marks(old(state).headers@, first_occurrences(old(state).roots@)),
        final(state).phase == old(state).phase,
        final(state).roots@ == old(state).roots@,
        final(state).young@ == old(state).young@,
        final(state).old@ == old(state).old@,
        final(state).heap@ == old(state).heap@,
        final(state).remembered@ == old(state).remembered@,
        final(state).access_counts@ == old(state).access_counts@,
        final(state).sizes@ == old(state).sizes@,
        final(state).promotion == old(state).promotion,
        final(state).stats == old(state).stats,
        final(state).pauses == old(state).pauses,
        final(state).used_memory == old(state).used_memory,
        final(state).total_memory == old(state).total_memory,
{
    let marks = init_mark(&state.roots);
    mark_headers(&mut state.headers, &marks);
    state.work_list = copy_ids(&marks);
    state.marked = marks;
}

/// Goes over the work list from the front for as long as the budget of
/// `budget_us` microseconds lasts. The objects' values hold no
/// references to other objects, so going over one marks nothing more.
/// True when the work list ran out within the budget. How far it got
/// depends on the clock: what is left is a suffix of the work list.
pub fn mark_incremental_with_budget(state: &mut GcState, budget_us: u64) -> (done: bool)
    ensures
        final(state).work_list@.len() <= old(state).work_list@.len(),
        final(state).work_list@ == old(state).work_list@.skip(
            old(state).work_list@.len() - final(state).work_list@.len()),
        done ==> final(state).work_list@.len() == 0,
        final(state).phase == old(state).phase,
        final(state).marked@ == old(state).marked@,
        final(state).headers@ == old(state).headers@,
        final(state).roots@ == old(state).roots@,
        final(state).young@ == old(state).young@,
        final(state).old@ == old(state).old@,
        final(state).heap@ == old(state).heap@,
        final(state).remembered@ == old(state).remembered@,
        final(state).access_counts@ == old(state).access_counts@,
        final(state).sizes@ == old(state).sizes@,
        final(state).promotion == old(state).promotion,
        final(state).stats == old(state).stats,
        final(state).pauses == old(state).pauses,
        final(state).used_memory == old(state).used_memory,
        final(state).total_memory == old(state).total_memory,
{
    let start = instant_now();
    let ghost w0 = state.work_list@;
    assert(w0.skip(0) =~= w0);
    while micros_since(&start) < budget_us
        invariant
            state.work_list@.len() <= w0.len(),
            state.work_list@ == w0.skip(w0.len() - state.work_list@.len()),
            w0 == old(state).work_list@,
            state.phase == old(state).phase,
            state.marked@ == old(state).marked@,
            state.headers@ == old(state).headers@,
            state.roots@ == old(state).roots@,
            state.young@ == old(state).young@,
            state.old@ == old(state).old@,
            state.heap@ == old(state).heap@,
            state.remembered@ == old(state).remembered@,
            state.access_counts@ == old(state).access_counts@,
            state.sizes@ == old(state).sizes@,
            state.promotion == old(state).promotion,
            state.stats == old(state).stats,
            state.pauses == old(state).pauses,
            state.used_memory == old(state).used_memory,
            state.total_memory == old(state).total_memory,
        decreases state.work_list@.len(),
    {
        if state.work_list.len() == 0 {
            return true;
        }
        let ghost before = state.work_list@;
        state.work_list.remove(0);
        assert(state.work_list@ =~= w0.skip(w0.len() - state.work_list@.len()));
    }
    false
}


/// A notification of the collector for its handlers.
#[derive(Debug, Clone, Copy, PartialEq, Eq, Structural)]
pub enum GcNotice {
    /// A phase starts.
    Start(GCPhase),
    /// A phase ended.
    End(GCPhase),
}

/// What a step of incremental collection did.
pub struct IncrementalOutcome {
    /// Whether a whole collection ended with this step.
    pub complete: bool,
    /// Whether the work of the step's phase is over.
    pub phase_done: bool,
    /// The notifications for the handlers, in order.
    pub notices: Vec<GcNotice>,
    /// What the sweep did, in a sweeping step.
    pub sweep: Option<SweepOutcome>,
    /// Whether the pause report took the step in.
    pub recorded: bool,
}

/// Whether the pause report can take in a pause of `d` microseconds.
fn pause_fits(pauses: &PauseTimeReport, d: u64) -> (b: bool)
    ensures
        b == (pauses.total_pause_us + d <= u64::MAX && pauses.pause_count < usize::MAX
            && pauses.over_target_count < usize::MAX),
{
    pauses.total_pause_us <= u64::MAX - d && pauses.pause_count < usize::MAX && pauses.over_target_count < usize::MAX
}

/// One step of incremental collection with a budget of `budget_us`
/// microseconds for the work of the current phase:
/// - idle: marking starts from the roots;
/// - marking: the work list is gone over (`mark_incremental_with_budget`);
///   when it is done, sweeping starts;
/// - sweeping: the heap is swept (`sweep_incremental_with_budget`); when
///   it is done, compacting starts and the sweep's pause is recorded;
/// - compacting: the caller moves the objects and says whether it is done
///   (`compaction_done`); then the marks and the remembered references are
///   cleared, the pause is recorded, the collector is idle again and the
///   collection is complete;
/// - the concurrent phases are left alone.
/// Each change of phase is reported as the end of one phase and the start
/// of the next.
pub fn collect_incremental_with_budget(state: &mut GcState, budget_us: u64, compaction_done: bool) -> (r: IncrementalOutcome)
    requires
        old(state).phase == GCPhase::Sweeping ==> sweep_ready(*old(state)),
    ensures
        match old(state).phase {
            GCPhase::Idle => {
                &&& final(state).phase == GCPhase::Marking
                &&& !r.complete
                &&& r.notices@ == seq![GcNotice::Start(GCPhase::Marking)]
                &&& final(state).marked@ == first_occurrences(old(state).roots@)
                &&& final(state).work_list@ == first_occurrences(old(state).roots@)
                &&& final(state).headers@ == with_marks(old(state).headers@, first_occurrences(old(state).roots@))
                &&& final(state).heap@ == old(state).heap@
                &&& final(state).pauses == old(state).pauses
            },
            GCPhase::Marking => {
                &&& final(state).phase == if r.phase_done { GCPhase::Sweeping } else { GCPhase::Marking }
                &&& !r.complete
                &&& r.phase_done ==> final(state).work_list@.len() == 0
                &&& final(state).work_list@.len() <= old(state).work_list@.len()
                &&& final(state).work_list@ == old(state).work_list@.skip(
                    old(state).work_list@.len() - final(state).work_list@.len())
                &&& r.notices@ == if r.phase_done {
                    seq![GcNotice::End(GCPhase::Marking), GcNotice::Start(GCPhase::Sweeping)]
                } else {
                    Seq::empty()
                }
                &&& final(state).marked@ == old(state).marked@
                &&& final(state).headers@ == old(state).headers@
                &&& final(state).heap@ == old(state).heap@
                &&& final(state).pauses == old(state).pauses
            },
            GCPhase::Sweeping => {
                &&& r.sweep matches Some(sw) && {
                    let mid = GcState { pauses: old(state).pauses, ..*final(state) };
                    &&& swept(*old(state), GcState { phase: GCPhase::Sweeping, ..mid }, sw)
                    &&& r.phase_done == sw.done
                    &&& (sw.done && r.recorded) ==> ({
                        let rec = final(state).pauses.pause_records@.last();
                        &&& pause_added(old(state).pauses, final(state).pauses, rec)
                        &&& rec.phase == GCPhase::Sweeping
                        &&& rec.objects_processed == sw.processed
                        &&& rec.bytes_collected == sw.bytes_collected
                    })
                }
                &&& !r.recorded ==> final(state).pauses == old(state).pauses
                &&& r.recorded ==> r.phase_done
                &&& final(state).phase == if r.phase_done { GCPhase::Compacting } else { GCPhase::Sweeping }
                &&& !r.complete
                &&& r.notices@ == if r.phase_done {
                    seq![GcNotice::End(GCPhase::Sweeping), GcNotice::Start(GCPhase::Compacting)]
                } else {
                    Seq::empty()
                }
            },
            GCPhase::Compacting => {
                &&& r.phase_done == compaction_done
                &&& r.complete == compaction_done
                &&& final(state).phase == if compaction_done { GCPhase::Idle } else { GCPhase::Compacting }
                &&& final(state).marked@ == if compaction_done { Seq::<usize>::empty() } else { old(state).marked@ }
                &&& final(state).remembered@ == if compaction_done { Seq::<RememberedSetEntry>::empty() } else { old(state).remembered@ }
                &&& r.notices@ == if compaction_done { seq![GcNotice::End(GCPhase::Compacting)] } else { Seq::empty() }
                &&& r.recorded ==> compaction_done && ({
                    let rec = final(state).pauses.pause_records@.last();
                    &&& pause_added(old(state).pauses, final(state).pauses, rec)
                    &&& rec.phase == GCPhase::Compacting
                    &&& rec.objects_processed == 0
                    &&& rec.bytes_collected == 0
                })
                &&& !r.recorded ==> final(state).pauses == old(state).pauses
                &&& final(state).heap@ == old(state).heap@
                &&& final(state).headers@ == old(state).headers@
            },
            _ => {
                &&& *final(state) == *old(state)
                &&& !r.complete
                &&& r.notices@.len() == 0
            },
        },
        final(state).roots@ == old(state).roots@,
        final(state).sizes@ == old(state).sizes@,
        final(state).access_counts@ == old(state).access_counts@,
        reflects_records(old(state).pauses) ==> reflects_records(final(state).pauses),
{
    let step_start = instant_now();
    let mut notices: Vec<GcNotice> = Vec::new();
    match state.phase {
        GCPhase::Idle => {
            notices.push(GcNotice::Start(GCPhase::Marking));
            state.phase = GCPhase::Marking;
            start_marking(state);
            IncrementalOutcome { complete: false, phase_done: false, notices, sweep: None, recorded: false }
        },
        GCPhase::Marking => {
            let done = mark_incremental_with_budget(state, budget_us);
            if done {
                notices.push(GcNotice::End(GCPhase::Marking));
                notices.push(GcNotice::Start(GCPhase::Sweeping));
                state.phase = GCPhase::Sweeping;
                assert(notices@ =~= seq![GcNotice::End(GCPhase::Marking), GcNotice::Start(GCPhase::Sweeping)]);
            } else {
                assert(notices@ =~= Seq::<GcNotice>::empty());
            }
            IncrementalOutcome { complete: false, phase_done: done, notices, sweep: None, recorded: false }
        },
        GCPhase::Sweeping => {
            let sw = sweep_incremental_with_budget(state, budget_us);
            let done = sw.done;
            let mut recorded = false;
            if done {
                notices.push(GcNotice::End(GCPhase::Sweeping));
                notices.push(GcNotice::Start(GCPhase::Compacting));
                state.phase = GCPhase::Compacting;
                let record = PauseTimeRecord::with_details(
                    step_start, instant_now(), GCPhase::Sweeping, sw.processed, sw.bytes_collected);
                if pause_fits(&state.pauses, record.duration_us) {
                    state.pauses.add_record(record);
                    recorded = true;
                }
                assert(notices@ =~= seq![GcNotice::End(GCPhase::Sweeping), GcNotice::Start(GCPhase::Compacting)]);
            } else {
                assert(notices@ =~= Seq::<GcNotice>::empty());
            }
            IncrementalOutcome { complete: false, phase_done: done, notices, sweep: Some(sw), recorded }
        },
        GCPhase::Compacting => {
            let mut recorded = false;
            if compaction_done {
                notices.push(GcNotice::End(GCPhase::Compacting));
                state.phase = GCPhase::Idle;
                state.marked = Vec::new();
                state.remembered = Vec::new();
                let elapsed = micros_since(&step_start);
                let record = PauseTimeRecord::new(GCPhase::Compacting, elapsed);
                if pause_fits(&state.pauses, record.duration_us) {
                    state.pauses.add_record(record);
                    recorded = true;
                }
                assert(notices@ =~= seq![GcNotice::End(GCPhase::Compacting)]);
            } else {
                assert(notices@ =~= Seq::<GcNotice>::empty());
            }
            IncrementalOutcome { complete: compaction_done, phase_done: compaction_done, notices, sweep: None, recorded }
        },
        _ => IncrementalOutcome { complete: false, phase_done: false, notices, sweep: None, recorded: false },
    }
}

} // verus!
