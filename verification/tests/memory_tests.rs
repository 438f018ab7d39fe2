use typescript::memory::{
    AllocationStrategy, AllocatorFactory, BuddyAllocator, DefaultAllocator, ManagedAllocator, MemoryPool,
    ObjectPool, PoolAllocation, LARGE_BLOCK_SIZE, NUM_SIZE_CLASSES,
};

#[test]
fn pool_rounds_requests_to_size_classes() {
    let pool = MemoryPool::new();
    assert_eq!(pool.round_up_block_size(0), 8);
    assert_eq!(pool.round_up_block_size(1), 8);
    assert_eq!(pool.round_up_block_size(8), 8);
    assert_eq!(pool.round_up_block_size(9), 16);
    assert_eq!(pool.round_up_block_size(100), 128);
    assert_eq!(pool.round_up_block_size(2049), 4096);
    assert_eq!(pool.round_up_block_size(4096), 4096);
    assert_eq!(pool.round_up_block_size(4097), 8192);
    assert_eq!(pool.round_up_block_size(10000), 12288);
}

#[test]
fn empty_pool_asks_for_fresh_blocks() {
    let mut pool = MemoryPool::new();
    assert_eq!(pool.allocate(24), PoolAllocation::Fresh(32));
    assert_eq!(pool.allocate(5000), PoolAllocation::Fresh(8192));
    let st = pool.stats();
    assert_eq!(st.total_allocated, 0);
    assert_eq!(st.total_used, 0);
}

#[test]
fn huge_request_is_refused() {
    let mut pool = MemoryPool::new();
    let size = usize::MAX - LARGE_BLOCK_SIZE;
    assert_eq!(pool.allocate(size), PoolAllocation::Refused);
}

#[test]
fn freed_block_is_reused_last_in_first_out() {
    let mut pool = MemoryPool::new();
    assert_eq!(pool.allocate(20), PoolAllocation::Fresh(32));
    pool.record_fresh(32);
    pool.record_fresh(32);
    assert_eq!(pool.deallocate(0x1000, 20), None);
    assert_eq!(pool.deallocate(0x2000, 30), None);
    assert_eq!(pool.allocate(17), PoolAllocation::Reused(0x2000));
    assert_eq!(pool.allocate(32), PoolAllocation::Reused(0x1000));
    assert_eq!(pool.allocate(32), PoolAllocation::Fresh(32));
    let st = pool.stats();
    assert_eq!(st.total_allocated, 64);
    assert_eq!(st.total_used, 64);
}

#[test]
fn free_then_reuse_law_on_values() {
    let mut pool = MemoryPool::new();
    pool.record_fresh(64);
    assert_eq!(pool.deallocate(0xabc0, 50), None);
    assert_eq!(pool.allocate(50), PoolAllocation::Reused(0xabc0));
    assert_eq!(pool.stats().free_blocks.get(&64), Some(&0));
}

#[test]
fn large_blocks_go_back_to_the_system() {
    let mut pool = MemoryPool::new();
    pool.record_fresh(8192);
    assert_eq!(pool.deallocate(0x10000, 5000), Some(8192));
    let st = pool.stats();
    assert_eq!(st.total_allocated, 0);
    assert_eq!(st.total_used, 0);
}

#[test]
fn cleanup_releases_every_pooled_block() {
    let mut pool = MemoryPool::new();
    pool.record_fresh(8);
    pool.record_fresh(128);
    pool.deallocate(0x100, 8);
    pool.deallocate(0x200, 100);
    let released = pool.cleanup();
    assert_eq!(released.len(), 2);
    assert!(released.contains(&(0x100, 8)));
    assert!(released.contains(&(0x200, 128)));
    let st = pool.stats();
    assert_eq!(st.total_allocated, 0);
    for (_, count) in st.free_blocks.iter() {
        assert_eq!(*count, 0);
    }
    assert_eq!(st.free_blocks.len(), NUM_SIZE_CLASSES);
}

#[test]
fn stats_total_free_is_allocated_minus_used() {
    let mut pool = MemoryPool::new();
    pool.record_fresh(256);
    pool.record_fresh(256);
    pool.deallocate(0x400, 256);
    let st = pool.stats();
    assert_eq!(st.total_allocated, 512);
    assert_eq!(st.total_used, 256);
    assert_eq!(st.total_free(), 256);
}

#[test]
fn object_pool_reuses_and_resets() {
    let mut pool = ObjectPool::new(2, || vec![0u8; 4], |v: &mut Vec<u8>| v.clear());
    let mut a = pool.acquire();
    assert_eq!(a.len(), 4);
    a.push(9);
    pool.release(a);
    assert_eq!(pool.free_count(), 1);
    let b = pool.acquire();
    assert_eq!(b.len(), 0);
    assert_eq!(pool.free_count(), 0);
}

#[test]
fn object_pool_drops_beyond_capacity() {
    let mut pool = ObjectPool::new(1, || 7u32, |x: &mut u32| *x = 0);
    pool.release(1);
    pool.release(2);
    assert_eq!(pool.free_count(), 1);
    assert_eq!(pool.acquire(), 0);
    assert_eq!(pool.acquire(), 7);
    pool.release(3);
    pool.clear();
    assert_eq!(pool.free_count(), 0);
}

#[test]
fn next_power_of_two_rounds_up() {
    assert_eq!(BuddyAllocator::next_power_of_two(1), 1);
    assert_eq!(BuddyAllocator::next_power_of_two(5), 8);
    assert_eq!(BuddyAllocator::next_power_of_two(8), 8);
    assert_eq!(BuddyAllocator::next_power_of_two(1000), 1024);
    assert_eq!(BuddyAllocator::next_power_of_two(4097), 8192);
}

#[test]
fn buddy_levels_and_buddies() {
    let b = BuddyAllocator::new(16, 1024, 0x10000);
    assert_eq!(b.get_level(1), 0);
    assert_eq!(b.get_level(16), 0);
    assert_eq!(b.get_level(17), 1);
    assert_eq!(b.get_level(1024), 6);
    assert_eq!(b.find_buddy(0x10000, 512), 0x10200);
    assert_eq!(b.find_buddy(0x10200, 512), 0x10000);
    assert!(b.is_buddy_free(0x10000, 6));
    assert!(!b.is_buddy_free(0x10000, 5));
}

#[test]
fn buddy_splits_and_merges_back() {
    let mut b = BuddyAllocator::new(16, 256, 0x1000);
    let st = b.stats();
    assert_eq!(st.total_allocated, 256);
    assert_eq!(st.total_used, 0);
    assert_eq!(st.free_blocks.get(&256), Some(&1));
    let a = b.allocate(20).unwrap();
    assert_eq!(a, 0x1000);
    let st = b.stats();
    assert_eq!(st.total_used, 32);
    assert_eq!(st.free_blocks.get(&32), Some(&1));
    assert_eq!(st.free_blocks.get(&64), Some(&1));
    assert_eq!(st.free_blocks.get(&128), Some(&1));
    assert_eq!(st.free_blocks.get(&256), Some(&0));
    assert!(b.is_buddy_free(0x1020, 1));
    b.deallocate(a, 20);
    let st = b.stats();
    assert_eq!(st.total_used, 0);
    assert_eq!(st.free_blocks.get(&256), Some(&1));
    assert_eq!(st.free_blocks.get(&32), Some(&0));
}

#[test]
fn buddy_runs_out() {
    let mut b = BuddyAllocator::new(64, 128, 0x2000);
    assert_eq!(b.allocate(64), Some(0x2000));
    assert_eq!(b.allocate(64), Some(0x2040));
    assert_eq!(b.allocate(64), None);
    assert_eq!(b.allocate(1), None);
}

#[test]
fn factory_builds_by_strategy() {
    match AllocatorFactory::create(AllocationStrategy::Default, 0) {
        ManagedAllocator::Default(d) => assert_eq!(d.pool.stats().total_allocated, 0),
        ManagedAllocator::Buddy(_) => panic!("expected the pool"),
    }
    match AllocatorFactory::create(AllocationStrategy::Buddy, 0x4000) {
        ManagedAllocator::Buddy(b) => {
            let st = b.stats();
            assert_eq!(st.total_allocated, 4096);
            assert_eq!(st.free_blocks.get(&4096), Some(&1));
            assert_eq!(st.free_blocks.get(&8), Some(&0));
        }
        ManagedAllocator::Default(_) => panic!("expected the buddy allocator"),
    }
    let d = DefaultAllocator::new();
    assert_eq!(d.pool.stats().total_used, 0);
}
