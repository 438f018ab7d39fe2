use typescript::gc::incremental::{collect_young, compaction_addresses, incremental_step, init_mark, sweep_step};
use typescript::gc::young::{
    collect_incremental_with_budget, collect_young_gen, collect_young_objects, mark_incremental_with_budget,
    start_marking, sweep_incremental_with_budget, GcNotice, GcState,
};
use typescript::memory::{AllocationStrategy, AllocatorFactory, ManagedAllocator};
use typescript::gc::barrier::{RememberedSetEntry, WriteBarrier, WriteBarrierType, CARD_SIZE};
use typescript::gc::budget::StepBudget;
use typescript::gc::header::ObjectHeader;
use typescript::gc::pause::{PauseTimeRecord, PauseTimeReport};
use typescript::gc::phase::GCPhase;
use typescript::gc::promotion::PromotionThresholds;
use typescript::gc::stats::GCStats;
use typescript::gc::work_stealing::WorkStealingQueue;

#[test]
fn header_starts_fresh() {
    let h = ObjectHeader::new(48, 3);
    assert!(!h.mark);
    assert_eq!(h.age, 0);
    assert_eq!(h.size, 48);
    assert_eq!(h.ref_count, 0);
    assert_eq!(h.type_id, 3);
    assert!(!h.is_tenured());
}

#[test]
fn header_reference_count_add_then_drop() {
    let mut h = ObjectHeader::new(8, 0);
    h.increment_ref_count();
    h.increment_ref_count();
    assert_eq!(h.decrement_ref_count(), 1);
    assert_eq!(h.decrement_ref_count(), 0);
    assert_eq!(h.decrement_ref_count(), 0);
}

#[test]
fn header_tenured_after_three_collections() {
    let mut h = ObjectHeader::new(8, 0);
    h.increment_age();
    h.increment_age();
    assert!(!h.is_tenured());
    h.increment_age();
    assert!(h.is_tenured());
}

#[test]
fn header_age_saturates() {
    let mut h = ObjectHeader::new(8, 0);
    h.age = u8::MAX;
    h.increment_age();
    assert_eq!(h.age, u8::MAX);
}

#[test]
fn card_table_marks_and_clears() {
    let mut b = WriteBarrier::new();
    b.init_card_table(1000);
    assert_eq!(b.dirty_card_count(), 0);
    assert!(!b.is_card_dirty(0));
    b.mark_card_dirty(300);
    assert!(b.is_card_dirty(256));
    assert!(b.is_card_dirty(511));
    assert!(!b.is_card_dirty(512));
    b.mark_card_dirty(400);
    assert_eq!(b.dirty_card_count(), 1);
    b.mark_card_dirty(999);
    assert_eq!(b.dirty_card_count(), 2);
    b.mark_card_dirty(5000);
    assert_eq!(b.dirty_card_count(), 2);
    assert!(!b.is_card_dirty(5000));
    b.clear_dirty_cards();
    assert_eq!(b.dirty_card_count(), 0);
    assert!(!b.is_card_dirty(300));
    assert_eq!(CARD_SIZE, 256);
}

#[test]
fn only_card_table_barriers_mark_cards() {
    let mut b = WriteBarrier::with_type(WriteBarrierType::SnapshotAtTheBeginning);
    b.init_card_table(1024);
    b.mark_card_dirty(10);
    assert_eq!(b.dirty_card_count(), 0);
    assert_eq!(b.barrier_type(), WriteBarrierType::SnapshotAtTheBeginning);
    b.set_barrier_type(WriteBarrierType::CardTable);
    b.mark_card_dirty(10);
    assert_eq!(b.dirty_card_count(), 1);
    let none = WriteBarrier::with_type(WriteBarrierType::NoBarrier);
    assert_eq!(none.barrier_type(), WriteBarrierType::NoBarrier);
}

#[test]
fn remembered_entries_without_batching_come_straight_back() {
    let mut b = WriteBarrier::new();
    b.set_batch_update_enabled(false);
    let e = RememberedSetEntry::new(0x100, 0x200);
    let out = b.add_remembered_entry(e).unwrap();
    assert_eq!(out, vec![e]);
}

#[test]
fn duplicate_remembered_entries_are_dropped() {
    let mut b = WriteBarrier::new();
    b.set_batch_time_threshold(u64::MAX);
    let e = RememberedSetEntry::new(1, 2);
    assert!(b.add_remembered_entry(e).is_none());
    assert!(b.add_remembered_entry(e).is_none());
    assert!(b.add_remembered_entry(RememberedSetEntry::new(2, 1)).is_none());
    let flushed = b.flush_batch_buffer();
    assert_eq!(flushed, vec![RememberedSetEntry::new(1, 2), RememberedSetEntry::new(2, 1)]);
    assert!(b.flush_batch_buffer().is_empty());
}

#[test]
fn batch_flushes_at_threshold() {
    let mut b = WriteBarrier::new();
    b.set_batch_time_threshold(u64::MAX);
    b.set_batch_threshold(3);
    assert!(b.add_remembered_entry(RememberedSetEntry::new(1, 1)).is_none());
    assert!(b.add_remembered_entry(RememberedSetEntry::new(2, 2)).is_none());
    let out = b.add_remembered_entry(RememberedSetEntry::new(3, 3)).unwrap();
    assert_eq!(out.len(), 3);
    assert_eq!(out[2], RememberedSetEntry::new(3, 3));
    assert!(b.add_remembered_entry(RememberedSetEntry::new(1, 1)).is_none());
}

#[test]
fn batch_flushes_when_time_is_up() {
    let mut b = WriteBarrier::new();
    b.set_batch_time_threshold(0);
    let out = b.add_remembered_entry(RememberedSetEntry::new(4, 5)).unwrap();
    assert_eq!(out, vec![RememberedSetEntry::new(4, 5)]);
}

#[test]
fn flush_if_due_respects_both_thresholds() {
    let mut b = WriteBarrier::new();
    b.set_deduplication_enabled(false);
    assert!(!b.deduplication_enabled());
    b.set_batch_time_threshold(1000);
    assert!(b.flush_if_due(999).is_none());
    assert_eq!(b.flush_if_due(1000), Some(vec![]));
}

#[test]
fn dedup_keys_differ_for_different_entries() {
    let a = RememberedSetEntry::new(1, 2);
    let b = RememberedSetEntry::new(2, 1);
    assert_ne!(a.dedup_key(), b.dedup_key());
    assert_eq!(a.dedup_key(), (1u128 << 64) + 2);
}

#[test]
fn pause_report_statistics() {
    let mut r = PauseTimeReport::new();
    r.set_target_pause(100);
    r.add_record(PauseTimeRecord::new(GCPhase::Marking, 50));
    r.add_record(PauseTimeRecord::new(GCPhase::Sweeping, 150));
    r.add_record(PauseTimeRecord::new(GCPhase::Compacting, 100));
    assert_eq!(r.pause_count, 3);
    assert_eq!(r.total_pause_us, 300);
    assert_eq!(r.avg_pause_us, 100);
    assert_eq!(r.max_pause_us, 150);
    assert_eq!(r.min_pause_us, 50);
    assert_eq!(r.over_target_count, 1);
    assert_eq!(r.pause_records.len(), 3);
}

#[test]
fn pause_report_percentiles() {
    let mut r = PauseTimeReport::default();
    assert_eq!(r.percentile(99), 0);
    for d in [30u64, 10, 50, 20, 40] {
        r.add_record(PauseTimeRecord::new(GCPhase::Marking, d));
    }
    assert_eq!(r.percentile(0), 10);
    assert_eq!(r.percentile(50), 30);
    assert_eq!(r.percentile(95), 50);
    assert_eq!(r.percentile(99), 50);
    assert_eq!(r.percentile(100), 50);
    assert!(r.percentile(20) <= r.percentile(80));
}

#[test]
fn pause_report_clear_keeps_target() {
    let mut r = PauseTimeReport::new();
    r.set_target_pause(7);
    r.add_record(PauseTimeRecord::new(GCPhase::Idle, 9));
    r.clear();
    assert_eq!(r.pause_count, 0);
    assert_eq!(r.max_pause_us, 0);
    assert_eq!(r.target_pause_us, 7);
    assert!(r.pause_records.is_empty());
}

#[test]
fn pause_record_with_details_measures_the_span() {
    let start = std::time::Instant::now();
    let end = start + std::time::Duration::from_micros(1500);
    let rec = PauseTimeRecord::with_details(start, end, GCPhase::Compacting, 10, 640);
    assert_eq!(rec.duration_us, 1500);
    assert_eq!(rec.objects_processed, 10);
    assert_eq!(rec.bytes_collected, 640);
    let back = PauseTimeRecord::with_details(end, start, GCPhase::Idle, 0, 0);
    assert_eq!(back.duration_us, 0);
}

#[test]
fn stats_record_collections() {
    let mut s = GCStats::new();
    s.record_collection(100, 10, 4, 400);
    s.record_young_gen_collection(50, 5, 0, 0, 2, 64);
    s.record_old_gen_collection(300, 1, 1, 16);
    assert_eq!(s.collection_count, 3);
    assert_eq!(s.marked_objects, 16);
    assert_eq!(s.collected_objects, 5);
    assert_eq!(s.collected_bytes, 416);
    assert_eq!(s.average_object_size, 16);
    assert_eq!(s.last_collection_time_us, 300);
    assert_eq!(s.total_collection_time_us, 450);
    assert_eq!(s.max_pause_time_us, 300);
    assert_eq!(s.min_pause_time_us, 50);
    assert_eq!(s.young_gen_collections, 1);
    assert_eq!(s.old_gen_collections, 1);
    assert_eq!(s.promoted_objects, 2);
    assert_eq!(s.promoted_bytes, 64);
    assert_eq!(s.average_collection_time_us(), 150);
    assert_eq!(s.average_young_gen_time_us(), 450);
    let avg = s.average_collection_time_us();
    assert!(s.min_pause_time_us <= avg && avg <= s.max_pause_time_us);
}

#[test]
fn stats_zero_length_pause_is_the_minimum() {
    let mut s = GCStats::default();
    s.record_collection(0, 0, 0, 0);
    s.record_collection(5, 0, 0, 0);
    assert_eq!(s.min_pause_time_us, 0);
    assert_eq!(s.max_pause_time_us, 5);
    assert_eq!(s.average_collection_time_us(), 2);
}

#[test]
fn pause_report_zero_length_pause_is_the_minimum() {
    let mut r = PauseTimeReport::new();
    r.add_record(PauseTimeRecord::new(GCPhase::Marking, 0));
    r.add_record(PauseTimeRecord::new(GCPhase::Marking, 5));
    assert_eq!(r.min_pause_us, 0);
    assert_eq!(r.max_pause_us, 5);
    r.clear();
    r.add_record(PauseTimeRecord::new(GCPhase::Marking, 7));
    assert_eq!(r.min_pause_us, 7);
}

#[test]
fn stats_counters_and_reset() {
    let mut s = GCStats::new();
    assert_eq!(s.average_collection_time_us(), 0);
    assert_eq!(s.average_young_gen_time_us(), 0);
    s.record_allocation(32);
    s.record_allocation(8);
    s.record_parallel_mark_time(7);
    s.record_parallel_sweep_time(9);
    s.update_fragmentation(30, 100);
    assert_eq!(s.allocation_count, 2);
    assert_eq!(s.allocation_bytes, 40);
    assert_eq!(s.parallel_mark_time_us, 7);
    assert_eq!(s.parallel_sweep_time_us, 9);
    assert_eq!(s.fragmentation_free_bytes, 70);
    assert_eq!(s.fragmentation_total_bytes, 100);
    s.update_fragmentation(5, 0);
    assert_eq!(s.fragmentation_free_bytes, 70);
    s.reset();
    assert_eq!(s.allocation_count, 0);
    assert_eq!(s.fragmentation_total_bytes, 0);
}

#[test]
fn promotion_decisions() {
    let p = PromotionThresholds::new();
    assert_eq!(p.age_threshold(), 3);
    assert_eq!(p.large_object_threshold(), 1024);
    assert_eq!(p.small_object_threshold(), 64);
    assert!(p.size_based_promotion());
    assert!(p.access_based_promotion());
    let mut old = ObjectHeader::new(16, 0);
    old.age = 3;
    assert!(p.should_promote(&old, 0));
    assert!(p.should_promote(&ObjectHeader::new(2048, 0), 0));
    assert!(!p.should_promote(&ObjectHeader::new(32, 0), 100));
    assert!(p.should_promote(&ObjectHeader::new(200, 0), 6));
    assert!(!p.should_promote(&ObjectHeader::new(200, 0), 5));
}

#[test]
fn promotion_rules_switch_off() {
    let mut p = PromotionThresholds::with_config(5, 100);
    assert_eq!(p.age_threshold(), 5);
    assert_eq!(p.large_object_threshold(), 100);
    p.set_size_based_promotion(false);
    p.set_access_based_promotion(false);
    assert!(!p.should_promote(&ObjectHeader::new(5000, 0), 50));
    p.set_small_object_threshold(10);
    p.set_large_object_threshold(20);
    assert_eq!(p.small_object_threshold(), 10);
    assert_eq!(p.large_object_threshold(), 20);
}

#[test]
fn promotion_age_threshold_is_clamped() {
    let mut p = PromotionThresholds::default();
    p.set_age_threshold(40);
    assert_eq!(p.age_threshold(), 15);
    p.set_age_threshold(0);
    assert_eq!(p.age_threshold(), 1);
    p.set_age_range(4, 6);
    assert_eq!(p.age_threshold(), 4);
    p.set_age_threshold(9);
    assert_eq!(p.age_threshold(), 6);
}

#[test]
fn promotion_age_adjusts_within_range() {
    let mut p = PromotionThresholds::new();
    p.set_age_range(2, 4);
    p.adjust_age_threshold(true, false);
    assert_eq!(p.age_threshold(), 4);
    p.adjust_age_threshold(true, false);
    assert_eq!(p.age_threshold(), 4);
    p.adjust_age_threshold(false, true);
    p.adjust_age_threshold(false, true);
    p.adjust_age_threshold(false, true);
    assert_eq!(p.age_threshold(), 2);
    assert!(p.dynamic_age_enabled());
    p.set_dynamic_age_enabled(false);
    assert!(!p.dynamic_age_enabled());
    p.adjust_age_threshold(true, false);
    assert_eq!(p.age_threshold(), 2);
}

#[test]
fn step_budget_splits_the_step() {
    let b = StepBudget::new();
    assert_eq!(b.max_step_time(), 1000);
    assert_eq!(b.base_mark_budget(), 500);
    assert_eq!(b.base_sweep_budget(), 300);
    assert_eq!(b.base_compact_budget(), 200);
    let mut c = StepBudget::with_config(3000, 9000);
    assert_eq!(c.base_mark_budget(), 1500);
    assert_eq!(c.base_sweep_budget(), 1000);
    assert_eq!(c.base_compact_budget(), 600);
    c.set_max_step_time(100);
    assert_eq!(c.max_step_time(), 100);
    assert_eq!(c.base_mark_budget(), 50);
    assert_eq!(c.base_sweep_budget(), 33);
    assert_eq!(c.base_compact_budget(), 20);
    c.set_target_max_pause(1);
}

#[test]
fn step_budget_history_keeps_the_last_ten() {
    let mut b = StepBudget::default();
    for i in 0..12u64 {
        b.record(i * 2, i);
    }
    let steps = b.budgeted_steps();
    assert_eq!(steps.len(), 10);
    assert_eq!(steps[0], (2, 4));
    assert_eq!(steps[9], (11, 22));
    b.clear_history();
    assert!(b.budgeted_steps().is_empty());
}

#[test]
fn step_budget_skips_unbudgeted_steps_and_clamps() {
    let mut b = StepBudget::new();
    b.record(5, 0);
    b.record(5, 10);
    assert_eq!(b.budgeted_steps(), vec![(10, 5)]);
    assert_eq!(b.clamp_step(10), 50);
    assert_eq!(b.clamp_step(100), 100);
    assert_eq!(b.clamp_step(1000), 500);
    assert_eq!(b.step_bounds(), (50, 500));
    b.set_step_range(1, 2);
    assert_eq!(b.step_bounds(), (1, 2));
    assert_eq!(b.clamp_step(5), 2);
}

#[test]
fn work_queue_owner_and_thief_ends() {
    let mut q = WorkStealingQueue::new();
    assert!(q.is_empty());
    q.push(1);
    assert_eq!(q.steal(), None);
    q.extend(vec![2, 3, 4]);
    assert_eq!(q.len(), 4);
    assert_eq!(q.steal(), Some(4));
    assert_eq!(q.pop(), Some(1));
    assert_eq!(q.pop_multiple(5), vec![2, 3]);
    assert_eq!(q.pop(), None);
    q.extend(vec![7, 8, 9]);
    assert_eq!(q.pop_multiple(2), vec![7, 8]);
    q.clear();
    assert_eq!(q.len(), 0);
    let d = WorkStealingQueue::default();
    assert!(d.is_empty());
}

#[test]
fn incremental_phases_cycle() {
    assert_eq!(incremental_step(GCPhase::Idle, false), (GCPhase::Marking, false));
    assert_eq!(incremental_step(GCPhase::Marking, false), (GCPhase::Marking, false));
    assert_eq!(incremental_step(GCPhase::Marking, true), (GCPhase::Sweeping, false));
    assert_eq!(incremental_step(GCPhase::Sweeping, true), (GCPhase::Compacting, false));
    assert_eq!(incremental_step(GCPhase::Compacting, false), (GCPhase::Compacting, false));
    assert_eq!(incremental_step(GCPhase::Compacting, true), (GCPhase::Idle, true));
    assert_eq!(incremental_step(GCPhase::ConcurrentMarking, true), (GCPhase::ConcurrentMarking, false));
}

#[test]
fn young_generation_split() {
    let young = [10, 20, 30, 40, 50];
    let marked = [true, false, true, true, false];
    let promote = [false, true, true, false, false];
    let (survivors, promoted, collected) = collect_young(&young, &marked, &promote);
    assert_eq!(survivors, vec![10, 40]);
    assert_eq!(promoted, vec![30]);
    assert_eq!(collected, vec![20, 50]);
}

#[test]
fn budgeted_sweep_steps() {
    let heap = [1, 2, 3, 4];
    let marked = [true, false, false, true];
    let sizes = [16, 32, 64, 8];
    let (h, c, b, done) = sweep_step(&heap, &marked, &sizes, 2);
    assert_eq!(h, vec![1, 3, 4]);
    assert_eq!(c, vec![2]);
    assert_eq!(b, 32);
    assert!(!done);
    let (h, c, b, done) = sweep_step(&heap, &marked, &sizes, 4);
    assert_eq!(h, vec![1, 4]);
    assert_eq!(c, vec![2, 3]);
    assert_eq!(b, 96);
    assert!(done);
    let (h, c, _, done) = sweep_step(&heap, &marked, &sizes, 0);
    assert_eq!(h, vec![1, 2, 3, 4]);
    assert!(c.is_empty());
    assert!(!done);
}

#[test]
fn factory_buddy_levels() {
    if let ManagedAllocator::Buddy(b) = AllocatorFactory::create(AllocationStrategy::Buddy, 0x8000) {
        let st = b.stats();
        assert_eq!(st.free_blocks.len(), 10);
        for k in 0..10 {
            assert!(st.free_blocks.contains_key(&(8usize << k)));
        }
    } else {
        panic!("expected the buddy allocator");
    }
}

#[test]
fn compaction_lays_objects_end_to_end() {
    assert_eq!(compaction_addresses(&[16, 8, 32, 4]), vec![0, 16, 24, 56]);
    assert_eq!(compaction_addresses(&[]), Vec::<usize>::new());
    assert_eq!(compaction_addresses(&[0, 0, 5]), vec![0, 0, 0]);
}

#[test]
fn marking_starts_from_each_root_once() {
    assert_eq!(init_mark(&[7, 3, 7, 9, 3]), vec![7, 3, 9]);
    assert_eq!(init_mark(&[]), Vec::<usize>::new());
    assert_eq!(init_mark(&[5, 5, 5]), vec![5]);
}

fn young_state() -> GcState {
    let mut headers = Vec::new();
    for size in [16usize, 32, 48, 64] {
        headers.push(ObjectHeader::new(size, 0));
    }
    headers[1].age = 2;
    GcState {
        roots: vec![0, 3],
        young: vec![0, 1, 2],
        old: vec![3],
        heap: vec![0, 1, 2, 3],
        headers,
        access_counts: vec![0, 0, 0, 0],
        sizes: vec![16, 32, 48, 64],
        remembered: vec![RememberedSetEntry { old_obj: 1, young_obj: 2 }],
        marked: vec![],
        work_list: vec![],
        phase: GCPhase::Idle,
        promotion: PromotionThresholds::new(),
        stats: GCStats::new(),
        pauses: PauseTimeReport::new(),
        used_memory: 160,
        total_memory: 200,
    }
}

#[test]
fn young_collection_promotes_survives_and_collects() {
    let mut s = young_state();
    let r = collect_young_objects(&mut s);
    assert_eq!(r.marked, 3);
    assert_eq!(s.young, vec![0]);
    assert_eq!(s.old, vec![3, 1]);
    assert_eq!(s.heap, vec![0, 1, 3]);
    assert_eq!(r.collected, vec![2]);
    assert_eq!(r.collected_bytes, 48);
    assert_eq!(r.promoted, 1);
    assert_eq!(r.promoted_bytes, 32);
    assert_eq!(s.headers[0].age, 1);
    assert!(!s.headers[0].mark);
    assert_eq!(s.headers[1].age, 3);
    assert!(!s.headers[1].mark);
    assert!(s.headers[3].mark);
    assert_eq!(s.headers[2].age, 0);
    assert!(s.remembered.is_empty());
    assert!(s.marked.is_empty());
    assert_eq!(s.stats.young_gen_collections, 0);
    assert!(!r.recorded);
}

#[test]
fn young_collection_is_counted_and_paused() {
    let mut s = young_state();
    let r = collect_young_gen(&mut s);
    assert!(r.recorded);
    assert_eq!(s.young, vec![0]);
    assert_eq!(s.stats.young_gen_collections, 1);
    assert_eq!(s.stats.collection_count, 1);
    assert_eq!(s.stats.marked_objects, 3);
    assert_eq!(s.stats.collected_objects, 1);
    assert_eq!(s.stats.collected_bytes, 48);
    assert_eq!(s.stats.promoted_objects, 1);
    assert_eq!(s.stats.promoted_bytes, 32);
    assert_eq!(s.stats.fragmentation_free_bytes, 40);
    assert_eq!(s.stats.fragmentation_total_bytes, 200);
    assert_eq!(s.pauses.pause_count, 1);
    assert_eq!(s.pauses.pause_records.len(), 1);
    assert_eq!(s.pauses.pause_records[0].phase, GCPhase::Marking);
    assert_eq!(s.pauses.pause_records[0].objects_processed, 3);
    assert_eq!(s.pauses.pause_records[0].bytes_collected, 48);
}

#[test]
fn young_collection_of_empty_generation() {
    let mut s = young_state();
    s.young = vec![];
    s.remembered = vec![];
    let r = collect_young_gen(&mut s);
    assert_eq!(r.collected, Vec::<usize>::new());
    assert_eq!(r.promoted, 0);
    assert_eq!(s.heap, vec![0, 1, 2, 3]);
    assert_eq!(s.old, vec![3]);
    assert_eq!(r.marked, 2);
}

#[test]
fn budgeted_sweep_with_room_sweeps_the_whole_heap() {
    let mut s = young_state();
    s.marked = vec![0, 3];
    s.headers[0].mark = true;
    s.headers[3].mark = true;
    let r = sweep_incremental_with_budget(&mut s, u64::MAX);
    assert_eq!(r.processed, 4);
    assert!(r.done);
    assert_eq!(r.collected, vec![1, 2]);
    assert_eq!(r.bytes_collected, 80);
    assert_eq!(s.heap, vec![0, 3]);
    assert_eq!(s.young, vec![0]);
    assert_eq!(s.old, vec![3]);
    assert!(!s.headers[0].mark);
    assert!(!s.headers[3].mark);
    assert_eq!(s.stats.collection_count, 1);
    assert_eq!(s.stats.marked_objects, 2);
    assert_eq!(s.stats.collected_objects, 2);
    assert_eq!(s.stats.collected_bytes, 80);
}

#[test]
fn budgeted_sweep_without_time_does_nothing() {
    let mut s = young_state();
    s.marked = vec![0];
    let r = sweep_incremental_with_budget(&mut s, 0);
    assert_eq!(r.processed, 0);
    assert!(!r.done);
    assert!(r.collected.is_empty());
    assert_eq!(s.heap, vec![0, 1, 2, 3]);
    assert_eq!(s.young, vec![0, 1, 2]);
    assert_eq!(s.stats.collection_count, 0);
}

#[test]
fn marking_starts_from_the_roots_once_each() {
    let mut s = young_state();
    s.roots = vec![3, 0, 3, 9];
    start_marking(&mut s);
    assert_eq!(s.marked, vec![3, 0, 9]);
    assert_eq!(s.work_list, vec![3, 0, 9]);
    assert!(s.headers[0].mark);
    assert!(s.headers[3].mark);
    assert!(!s.headers[1].mark);
    assert!(mark_incremental_with_budget(&mut s, u64::MAX));
    assert!(s.work_list.is_empty());
    assert_eq!(s.marked, vec![3, 0, 9]);
}

#[test]
fn marking_without_time_goes_over_nothing() {
    let mut s = young_state();
    start_marking(&mut s);
    assert!(!mark_incremental_with_budget(&mut s, 0));
    assert_eq!(s.work_list, vec![0, 3]);
}

#[test]
fn incremental_collection_runs_a_whole_cycle() {
    let mut s = young_state();
    let r = collect_incremental_with_budget(&mut s, u64::MAX, false);
    assert_eq!(s.phase, GCPhase::Marking);
    assert_eq!(r.notices, vec![GcNotice::Start(GCPhase::Marking)]);
    assert_eq!(s.marked, vec![0, 3]);
    assert!(!r.complete);
    let r = collect_incremental_with_budget(&mut s, u64::MAX, false);
    assert!(r.phase_done);
    assert_eq!(s.phase, GCPhase::Sweeping);
    assert_eq!(r.notices, vec![GcNotice::End(GCPhase::Marking), GcNotice::Start(GCPhase::Sweeping)]);
    let r = collect_incremental_with_budget(&mut s, u64::MAX, false);
    assert_eq!(s.phase, GCPhase::Compacting);
    let sw = r.sweep.unwrap();
    assert_eq!(sw.collected, vec![1, 2]);
    assert_eq!(sw.bytes_collected, 80);
    assert_eq!(s.heap, vec![0, 3]);
    assert!(r.recorded);
    assert_eq!(s.pauses.pause_count, 1);
    assert_eq!(s.pauses.pause_records[0].phase, GCPhase::Sweeping);
    assert_eq!(s.pauses.pause_records[0].objects_processed, 4);
    assert_eq!(s.pauses.pause_records[0].bytes_collected, 80);
    let r = collect_incremental_with_budget(&mut s, u64::MAX, false);
    assert!(!r.complete);
    assert_eq!(s.phase, GCPhase::Compacting);
    assert!(r.notices.is_empty());
    let r = collect_incremental_with_budget(&mut s, u64::MAX, true);
    assert!(r.complete);
    assert_eq!(s.phase, GCPhase::Idle);
    assert!(s.marked.is_empty());
    assert!(s.remembered.is_empty());
    assert_eq!(s.pauses.pause_count, 2);
    assert_eq!(r.notices, vec![GcNotice::End(GCPhase::Compacting)]);
}

#[test]
fn concurrent_phases_are_left_alone() {
    let mut s = young_state();
    s.phase = GCPhase::ConcurrentMarking;
    let r = collect_incremental_with_budget(&mut s, u64::MAX, true);
    assert!(!r.complete);
    assert!(r.notices.is_empty());
    assert_eq!(s.phase, GCPhase::ConcurrentMarking);
}
