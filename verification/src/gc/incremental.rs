//! The collector's decisions, over objects named by their addresses: the
//! phase sequence of incremental collection, the sweep of a budgeted step
//! and the partition of the young generation. Marking itself, timing and
//! freeing memory are the caller's.

use vstd::prelude::*;
use super::phase::GCPhase;

verus! {

/// The next phase after one incremental step in `phase` whose work
/// finished (`done`) or not, and whether a whole collection ended:
/// idle starts marking; marking, sweeping and compacting move on to the
/// next phase once their work is done; compacting done returns to idle and
/// ends the collection; the concurrent phases are left alone.
pub open spec fn step_of(phase: GCPhase, done: bool) -> (GCPhase, bool) {
    match phase {
        GCPhase::Idle => (GCPhase::Marking, false),
        GCPhase::Marking => (if done { GCPhase::Sweeping } else { GCPhase::Marking }, false),
        GCPhase::Sweeping => (if done { GCPhase::Compacting } else { GCPhase::Sweeping }, false),
        GCPhase::Compacting => (if done { GCPhase::Idle } else { GCPhase::Compacting }, done),
        GCPhase::ConcurrentMarking => (GCPhase::ConcurrentMarking, false),
        GCPhase::ConcurrentSweeping => (GCPhase::ConcurrentSweeping, false),
    }
}

/// One step of incremental collection: the next phase, and whether the
/// collection is complete.
pub fn incremental_step(phase: GCPhase, done: bool) -> (r: (GCPhase, bool))
    ensures
        r == step_of(phase, done),
{
    match phase {
        GCPhase::Idle => (GCPhase::Marking, false),
        GCPhase::Marking => (if done { GCPhase::Sweeping } else { GCPhase::Marking }, false),
        GCPhase::Sweeping => (if done { GCPhase::Compacting } else { GCPhase::Sweeping }, false),
        GCPhase::Compacting => (if done { GCPhase::Idle } else { GCPhase::Compacting }, done),
        GCPhase::ConcurrentMarking => (GCPhase::ConcurrentMarking, false),
        GCPhase::ConcurrentSweeping => (GCPhase::ConcurrentSweeping, false),
    }
}

/// From idle, four steps whose work finishes each time run marking,
/// sweeping and compacting and come back to idle, and only the last step
/// completes the collection.
pub proof fn lemma_cycle_returns_to_idle()
    ensures
        step_of(GCPhase::Idle, true) == (GCPhase::Marking, false),
        step_of(GCPhase::Marking, true) == (GCPhase::Sweeping, false),
        step_of(GCPhase::Sweeping, true) == (GCPhase::Compacting, false),
        step_of(GCPhase::Compacting, true) == (GCPhase::Idle, true),
{
}

/// A step whose work is not done stays in its phase, except that idle
/// always starts marking; it never completes a collection.
pub proof fn lemma_unfinished_step_stays(phase: GCPhase)
    requires
        phase != GCPhase::Idle,
    ensures
        step_of(phase, false) == (phase, false),
{
}

/// The young generation split by the marks and the promotion decisions:
/// surviving objects that stay young, promoted objects, and collected
/// (unmarked) objects, each in generation order.
pub open spec fn young_split(young: Seq<usize>, marked: Seq<bool>, promote: Seq<bool>) -> (Seq<usize>, Seq<usize>, Seq<usize>)
    decreases young.len(),
{
    if young.len() == 0 {
        (Seq::empty(), Seq::empty(), Seq::empty())
    } else {
        let n = young.len() - 1;
        let (s, p, c) = young_split(young.drop_last(), marked.take(n), promote.take(n));
        let x = young.last();
        if marked[n] {
            if promote[n] { (s, p.push(x), c) } else { (s.push(x), p, c) }
        } else {
            (s, p, c.push(x))
        }
    }
}

/// Splits the young generation after marking: marked objects are promoted
/// where `promote` says so and stay young otherwise; unmarked objects are
/// collected. `marked[i]` and `promote[i]` describe `young[i]`.
pub fn collect_young(young: &[usize], marked: &[bool], promote: &[bool]) -> (r: (Vec<usize>, Vec<usize>, Vec<usize>))
    requires
        marked@.len() == young@.len(),
        promote@.len() == young@.len(),
    ensures
        (r.0@, r.1@, r.2@) == young_split(young@, marked@, promote@),
{
    let mut survivors: Vec<usize> = Vec::new();
    let mut promoted: Vec<usize> = Vec::new();
    let mut collected: Vec<usize> = Vec::new();
    let mut i: usize = 0;
    while i < young.len()
        invariant
            i <= young@.len(),
            marked@.len() == young@.len(),
            promote@.len() == young@.len(),
            (survivors@, promoted@, collected@) == young_split(
                young@.take(i as int), marked@.take(i as int), promote@.take(i as int)),
        decreases young@.len() - i,
    {
        proof {
            let k = i as int;
            assert(young@.take(k + 1).drop_last() =~= young@.take(k));
            assert(marked@.take(k + 1).take(k) =~= marked@.take(k));
            assert(promote@.take(k + 1).take(k) =~= promote@.take(k));
        }
        let x = young[i];
        if marked[i] {
            if promote[i] {
                promoted.push(x);
            } else {
                survivors.push(x);
            }
        } else {
            collected.push(x);
        }
        i = i + 1;
    }
    proof {
        assert(young@.take(young@.len() as int) =~= young@);
        assert(marked@.take(young@.len() as int) =~= marked@);
        assert(promote@.take(young@.len() as int) =~= promote@);
    }
    (survivors, promoted, collected)
}

/// Every young object lands in exactly one of the three parts: the parts'
/// lengths add up to the generation's.
pub proof fn lemma_young_split_partitions(young: Seq<usize>, marked: Seq<bool>, promote: Seq<bool>)
    requires
        marked.len() == young.len(),
        promote.len() == young.len(),
    ensures
        ({
            let (s, p, c) = young_split(young, marked, promote);
            s.len() + p.len() + c.len() == young.len()
        }),
    decreases young.len(),
{
    if young.len() > 0 {
        let n = young.len() - 1;
        lemma_young_split_partitions(young.drop_last(), marked.take(n), promote.take(n));
    }
}

/// The first `k` heap objects split by their marks: survivors and
/// collected objects, in heap order, and the bytes collected.
pub open spec fn sweep_split(heap: Seq<usize>, marked: Seq<bool>, sizes: Seq<usize>, k: int) -> (Seq<usize>, Seq<usize>, int)
    decreases k,
{
    if k <= 0 {
        (Seq::empty(), Seq::empty(), 0)
    } else {
        let (s, c, b) = sweep_split(heap, marked, sizes, k - 1);
        let x = heap[k - 1];
        if marked[k - 1] { (s.push(x), c, b) } else { (s, c.push(x), b + sizes[k - 1]) }
    }
}

/// The result of sweeping the first `processed` heap objects: the new heap
/// (survivors, then the objects not reached), the collected objects, the
/// bytes collected, and whether the sweep is done (as many objects
/// processed as the new heap holds).
pub open spec fn sweep_outcome(heap: Seq<usize>, marked: Seq<bool>, sizes: Seq<usize>, processed: int) -> (Seq<usize>, Seq<usize>, int, bool) {
    let (s, c, b) = sweep_split(heap, marked, sizes, processed);
    if processed > 0 {
        let new_heap = s + heap.skip(processed);
        (new_heap, c, b, processed >= new_heap.len())
    } else {
        (heap, c, b, processed >= heap.len())
    }
}

/// One budgeted sweep step over the heap: the first `processed` objects
/// (as many as the time budget allowed) are swept, marked ones kept and
/// unmarked ones collected. `marked[i]` and `sizes[i]` (total size in
/// bytes) describe `heap[i]`.
pub fn sweep_step(heap: &[usize], marked: &[bool], sizes: &[usize], processed: usize) -> (r: (Vec<usize>, Vec<usize>, usize, bool))
    requires
        marked@.len() == heap@.len(),
        sizes@.len() == heap@.len(),
        processed <= heap@.len(),
        sweep_split(heap@, marked@, sizes@, processed as int).2 <= usize::MAX,
    ensures
        ({
            let (h, c, b, d) = sweep_outcome(heap@, marked@, sizes@, processed as int);
            &&& r.0@ == h
            &&& r.1@ == c
            &&& r.2 == b
            &&& r.3 == d
        }),
{
    let mut survivors: Vec<usize> = Vec::new();
    let mut collected: Vec<usize> = Vec::new();
    let mut bytes: usize = 0;
    let mut i: usize = 0;
    while i < processed
        invariant
            i <= processed <= heap@.len(),
            marked@.len() == heap@.len(),
            sizes@.len() == heap@.len(),
            sweep_split(heap@, marked@, sizes@, processed as int).2 <= usize::MAX,
            (survivors@, collected@, bytes as int) == sweep_split(heap@, marked@, sizes@, i as int),
        decreases processed - i,
    {
        proof {
            lemma_swept_bytes_grow(heap@, marked@, sizes@, i + 1, processed as int);
        }
        if marked[i] {
            survivors.push(heap[i]);
        } else {
            collected.push(heap[i]);
            bytes = bytes + sizes[i];
        }
        i = i + 1;
    }
    if processed > 0 {
        let mut new_heap = survivors;
        let mut j: usize = processed;
        let ghost base = new_heap@;
        while j < heap.len()
            invariant
                processed <= j <= heap@.len(),
                new_heap@ == base + heap@.subrange(processed as int, j as int),
            decreases heap@.len() - j,
        {
            new_heap.push(heap[j]);
            proof {
                assert(base + heap@.subrange(processed as int, j + 1)
                    =~= (base + heap@.subrange(processed as int, j as int)).push(heap@[j as int]));
            }
            j = j + 1;
        }
        proof {
            assert(heap@.subrange(processed as int, heap@.len() as int) =~= heap@.skip(processed as int));
        }
        let done = processed >= new_heap.len();
        (new_heap, collected, bytes, done)
    } else {
        let mut same: Vec<usize> = Vec::new();
        let mut j: usize = 0;
        while j < heap.len()
            invariant
                j <= heap@.len(),
                same@ == heap@.take(j as int),
            decreases heap@.len() - j,
        {
            same.push(heap[j]);
            proof {
                assert(heap@.take(j + 1) =~= heap@.take(j as int).push(heap@[j as int]));
            }
            j = j + 1;
        }
        proof {
            assert(heap@.take(heap@.len() as int) =~= heap@);
        }
        let done = processed >= heap.len();
        (same, collected, bytes, done)
    }
}

/// The bytes collected over a prefix never exceed those over a longer one.
pub proof fn lemma_swept_bytes_grow(heap: Seq<usize>, marked: Seq<bool>, sizes: Seq<usize>, k: int, n: int)
    requires
        0 <= k <= n,
    ensures
        0 <= sweep_split(heap, marked, sizes, k).2 <= sweep_split(heap, marked, sizes, n).2,
    decreases n,
{
    if k < n {
        lemma_swept_bytes_grow(heap, marked, sizes, k, n - 1);
    } else if k > 0 {
        lemma_swept_bytes_grow(heap, marked, sizes, k - 1, k - 1);
    }
}


/// The total size of `sizes`.
pub open spec fn total_size(sizes: Seq<usize>) -> int
    decreases sizes.len(),
{
    if sizes.len() == 0 { 0 } else { total_size(sizes.drop_last()) + sizes.last() }
}

/// The address of each object after compaction: the objects are laid out
/// in heap order from address zero, so an object's address is the total
/// size of the objects before it.
pub open spec fn compacted_addresses(sizes: Seq<usize>) -> Seq<int> {
    Seq::new(sizes.len(), |i: int| total_size(sizes.take(i)))
}

/// Computes the address of each object after compaction, given the
/// objects' sizes in heap order.
pub fn compaction_addresses(sizes: &[usize]) -> (r: Vec<usize>)
    requires
        total_size(sizes@) <= usize::MAX,
    ensures
        r@.len() == sizes@.len(),
        forall|i: int| 0 <= i < sizes@.len() ==> r@[i] == #[trigger] compacted_addresses(sizes@)[i],
{
    let mut r: Vec<usize> = Vec::new();
    let mut current: usize = 0;
    let mut i: usize = 0;
    assert(sizes@.take(0) =~= Seq::<usize>::empty());
    while i < sizes.len()
        invariant
            i <= sizes@.len(),
            total_size(sizes@) <= usize::MAX,
            r@.len() == i,
            forall|j: int| 0 <= j < i ==> r@[j] == #[trigger] total_size(sizes@.take(j)),
            current == total_size(sizes@.take(i as int)),
        decreases sizes@.len() - i,
    {
        proof {
            lemma_total_prefix(sizes@, i + 1);
            assert(sizes@.take(i + 1).drop_last() =~= sizes@.take(i as int));
        }
        r.push(current);
        current = current + sizes[i];
        i = i + 1;
    }
    assert(sizes@.take(sizes@.len() as int) =~= sizes@);
    r
}

/// The total size of a prefix is at most the whole total.
proof fn lemma_total_prefix(sizes: Seq<usize>, k: int)
    requires
        0 <= k <= sizes.len(),
    ensures
        0 <= total_size(sizes.take(k)) <= total_size(sizes),
    decreases sizes.len() - k,
{
    if k == sizes.len() {
        assert(sizes.take(k) =~= sizes);
        lemma_total_nonneg(sizes);
    } else {
        lemma_total_prefix(sizes.drop_last(), k);
        assert(sizes.drop_last().take(k) =~= sizes.take(k));
    }
}

/// Totals are never negative.
proof fn lemma_total_nonneg(sizes: Seq<usize>)
    ensures
        total_size(sizes) >= 0,
    decreases sizes.len(),
{
    if sizes.len() > 0 {
        lemma_total_nonneg(sizes.drop_last());
    }
}

/// The roots as the marking starts: each root once, in the order first
/// met. The values that marked objects hold refer to no other heap
/// object, so working through the queue marks nothing more: these are the
/// objects that the mark leaves marked.
pub open spec fn first_occurrences(roots: Seq<usize>) -> Seq<usize>
    decreases roots.len(),
{
    if roots.len() == 0 {
        Seq::empty()
    } else {
        let before = first_occurrences(roots.drop_last());
        if before.contains(roots.last()) { before } else { before.push(roots.last()) }
    }
}

/// Starts a mark: marks each root once and queues it, in the order of
/// `roots`. Returns the marked objects in queue order.
pub fn init_mark(roots: &[usize]) -> (marked: Vec<usize>)
    ensures
        marked@ == first_occurrences(roots@),
{
    let mut marked: Vec<usize> = Vec::new();
    let mut i: usize = 0;
    assert(roots@.take(0) =~= Seq::<usize>::empty());
    while i < roots.len()
        invariant
            i <= roots@.len(),
            marked@ == first_occurrences(roots@.take(i as int)),
        decreases roots@.len() - i,
    {
        proof {
            assert(roots@.take(i + 1).drop_last() =~= roots@.take(i as int));
        }
        let root = roots[i];
        let mut seen = false;
        let mut j: usize = 0;
        while j < marked.len()
            invariant
                j <= marked@.len(),
                seen <==> exists|k: int| 0 <= k < j && marked@[k] == root,
            decreases marked@.len() - j,
        {
            if marked[j] == root {
                seen = true;
            }
            j = j + 1;
        }
        if !seen {
            marked.push(root);
        }
        i = i + 1;
    }
    assert(roots@.take(roots@.len() as int) =~= roots@);
    marked
}

/// Marking meets every root, and marks each object at most once.
pub proof fn lemma_mark_covers_roots(roots: Seq<usize>)
    ensures
        forall|x: usize| roots.contains(x) <==> first_occurrences(roots).contains(x),
        first_occurrences(roots).no_duplicates(),
    decreases roots.len(),
{
    if roots.len() > 0 {
        let rest = roots.drop_last();
        let l = roots.last();
        lemma_mark_covers_roots(rest);
        let before = first_occurrences(rest);
        let now = first_occurrences(roots);
        assert(now == (if before.contains(l) { before } else { before.push(l) }));
        assert forall|x: usize| roots.contains(x) implies now.contains(x) by {
            let k = choose|k: int| 0 <= k < roots.len() && roots[k] == x;
            if k < roots.len() - 1 {
                assert(rest[k] == x);
                assert(rest.contains(x));
                assert(before.contains(x));
                let m = choose|m: int| 0 <= m < before.len() && before[m] == x;
                assert(now[m] == x);
            } else if before.contains(l) {
                assert(now.contains(x));
            } else {
                assert(now[before.len() as int] == x);
            }
        }
        assert forall|x: usize| now.contains(x) implies roots.contains(x) by {
            let m = choose|m: int| 0 <= m < now.len() && now[m] == x;
            if m < before.len() {
                assert(before[m] == x);
                assert(before.contains(x));
                assert(rest.contains(x));
                let k = choose|k: int| 0 <= k < rest.len() && rest[k] == x;
                assert(roots[k] == x);
            } else {
                assert(roots[roots.len() - 1] == x);
            }
        }
        if !before.contains(l) {
            assert forall|i: int, j: int| 0 <= i < j < before.push(l).len() implies before.push(l)[i] != before.push(l)[j] by {
                if j == before.len() {
                    assert(before[i] == before.push(l)[i]);
                }
            }
        }
    }
}

} // verus!
