//! Memory management: a size-class memory pool, an object pool, usage
//! statistics and a buddy allocator.
//!
//! Addresses are plain `usize` values. Obtaining fresh memory from the
//! system and handing memory back to it happens outside this crate: the
//! pool tells its caller when that is needed and what size is involved.

use vstd::prelude::*;
use std::collections::HashMap;

verus! {

broadcast use vstd::std_specs::hash::group_hash_axioms;

/// Number of size classes the memory pool keeps free lists for.
pub const NUM_SIZE_CLASSES: usize = 10;

/// Granularity used for requests larger than the largest size class.
pub const LARGE_BLOCK_SIZE: usize = 4096;

/// The size of size class `i` (8, 16, ..., 4096 bytes).
pub open spec fn class_size(i: int) -> int
    recommends
        0 <= i < NUM_SIZE_CLASSES,
{
    if i == 0 { 8 }
    else if i == 1 { 16 }
    else if i == 2 { 32 }
    else if i == 3 { 64 }
    else if i == 4 { 128 }
    else if i == 5 { 256 }
    else if i == 6 { 512 }
    else if i == 7 { 1024 }
    else if i == 8 { 2048 }
    else { 4096 }
}

/// The index of the smallest size class that holds `size` bytes
/// (meaningful for `size <= 4096`).
pub open spec fn class_index(size: int) -> int {
    if size <= 8 { 0 }
    else if size <= 16 { 1 }
    else if size <= 32 { 2 }
    else if size <= 64 { 3 }
    else if size <= 128 { 4 }
    else if size <= 256 { 5 }
    else if size <= 512 { 6 }
    else if size <= 1024 { 7 }
    else if size <= 2048 { 8 }
    else { 9 }
}

/// The block size a request of `size` bytes is served with: the smallest
/// size class that holds it, or, beyond the largest class, `size` rounded
/// up to a multiple of 4096.
pub open spec fn block_size_for(size: int) -> int {
    if size <= LARGE_BLOCK_SIZE {
        class_size(class_index(size))
    } else {
        ((size + LARGE_BLOCK_SIZE - 1) / (LARGE_BLOCK_SIZE as int)) * LARGE_BLOCK_SIZE
    }
}

/// Whether `bs` is one of the pool's size classes.
pub open spec fn is_class_size(bs: int) -> bool {
    exists|i: int| 0 <= i < NUM_SIZE_CLASSES && class_size(i) == bs
}

/// The size of class `index`, computed.
fn class_size_of(index: usize) -> (bs: usize)
    requires
        index < NUM_SIZE_CLASSES,
    ensures
        bs == class_size(index as int),
{
    if index == 0 { 8 }
    else if index == 1 { 16 }
    else if index == 2 { 32 }
    else if index == 3 { 64 }
    else if index == 4 { 128 }
    else if index == 5 { 256 }
    else if index == 6 { 512 }
    else if index == 7 { 1024 }
    else if index == 8 { 2048 }
    else { 4096 }
}

/// The class index of a block size that is a size class.
fn class_index_of(bs: usize) -> (r: Option<usize>)
    ensures
        match r {
            Some(i) => i < NUM_SIZE_CLASSES && class_size(i as int) == bs,
            None => !is_class_size(bs as int),
        },
{
    let mut i: usize = 0;
    while i < NUM_SIZE_CLASSES
        invariant
            i <= NUM_SIZE_CLASSES,
            forall|j: int| 0 <= j < i ==> class_size(j) != bs,
        decreases NUM_SIZE_CLASSES - i,
    {
        if class_size_of(i) == bs {
            return Some(i);
        }
        i = i + 1;
    }
    None
}

/// What the pool decided for an allocation request.
#[derive(Debug, Clone, Copy, PartialEq, Eq)]
pub enum PoolAllocation {
    /// A pooled free block at this address was handed out.
    Reused(usize),
    /// No pooled block was free: the caller obtains a fresh block of this
    /// many bytes, aligned to 8, and reports it with `record_fresh`.
    Fresh(usize),
    /// The block size cannot be described by a valid layout; the request fails.
    Refused,
}

/// Memory pool: keeps a free list of addresses for each size class.
pub struct MemoryPool {
    /// Free addresses by block size (one entry per size class).
    free_blocks: HashMap<usize, Vec<usize>>,
    /// Bytes obtained from the system and not yet returned to it.
    total_allocated: usize,
    /// Bytes currently handed out.
    total_used: usize,
}

impl MemoryPool {
    /// The free lists of all size classes.
    pub closed spec fn lists(&self) -> Seq<Seq<usize>> {
        Seq::new(NUM_SIZE_CLASSES as nat, |i: int| self.free_blocks@[class_size(i) as usize]@)
    }

    /// The free list of size class `i`.
    pub open spec fn free_list(&self, i: int) -> Seq<usize> {
        self.lists()[i]
    }

    /// Bytes obtained from the system and not yet returned to it.
    pub closed spec fn allocated(&self) -> usize {
        self.total_allocated
    }

    /// Bytes currently handed out.
    pub closed spec fn used(&self) -> usize {
        self.total_used
    }

    /// The pool holds one free list per size class.
    pub closed spec fn wf(&self) -> bool {
        forall|i: int| 0 <= i < NUM_SIZE_CLASSES ==> #[trigger] self.free_blocks@.contains_key(class_size(i) as usize)
    }

    /// Creates a pool with empty free lists and zero counters.
    pub fn new() -> (pool: Self)
        ensures
            pool.wf(),
            pool.allocated() == 0,
            pool.used() == 0,
            forall|i: int| 0 <= i < NUM_SIZE_CLASSES ==> #[trigger] pool.free_list(i).len() == 0,
    {
        let mut free_blocks: HashMap<usize, Vec<usize>> = HashMap::new();
        let mut i: usize = 0;
        while i < NUM_SIZE_CLASSES
            invariant
                i <= NUM_SIZE_CLASSES,
                forall|j: int| 0 <= j < i ==> #[trigger] free_blocks@.contains_key(class_size(j) as usize),
                forall|j: int| 0 <= j < i ==> (#[trigger] free_blocks@[class_size(j) as usize])@.len() == 0,
            decreases NUM_SIZE_CLASSES - i,
        {
            let bs = class_size_of(i);
            free_blocks.insert(bs, Vec::new());
            assert forall|j: int| 0 <= j < i + 1 implies (#[trigger] free_blocks@[class_size(j) as usize])@.len() == 0 by {
                if j < i { assert(class_size(j) != class_size(i as int)); }
            }
            i = i + 1;
        }
        MemoryPool { free_blocks, total_allocated: 0, total_used: 0 }
    }

    /// The length of class `i`'s free list.
    fn list_len(&self, i: usize) -> (n: usize)
        requires
            self.wf(),
            i < NUM_SIZE_CLASSES,
        ensures
            n == self.free_list(i as int).len(),
    {
        let bs = class_size_of(i);
        match self.free_blocks.get(&bs) {
            Some(v) => v.len(),
            None => 0,
        }
    }

    /// The address at position `k` of class `i`'s free list.
    fn list_at(&self, i: usize, k: usize) -> (a: usize)
        requires
            self.wf(),
            i < NUM_SIZE_CLASSES,
            k < self.free_list(i as int).len(),
        ensures
            a == self.free_list(i as int)[k as int],
    {
        let bs = class_size_of(i);
        match self.free_blocks.get(&bs) {
            Some(v) => v[k],
            None => 0,
        }
    }

    /// Takes class `i`'s free list out of the map.
    fn list_take(&mut self, i: usize) -> (l: Vec<usize>)
        requires
            old(self).wf(),
            i < NUM_SIZE_CLASSES,
        ensures
            l@ == old(self).free_list(i as int),
            final(self).free_blocks@ == old(self).free_blocks@.remove(class_size(i as int) as usize),
            final(self).total_allocated == old(self).total_allocated,
            final(self).total_used == old(self).total_used,
    {
        let bs = class_size_of(i);
        match self.free_blocks.remove(&bs) {
            Some(v) => v,
            None => Vec::new(),
        }
    }

    /// A map that holds `l` for class `i` and the other classes' lists as
    /// before is a well-formed pool with that one list replaced.
    proof fn lemma_put_back(before: MemoryPool, after: MemoryPool, i: int, l: Seq<usize>)
        requires
            before.wf(),
            0 <= i < NUM_SIZE_CLASSES,
            after.free_blocks@.contains_key(class_size(i) as usize),
            after.free_blocks@[class_size(i) as usize]@ == l,
            forall|j: int| 0 <= j < NUM_SIZE_CLASSES && j != i ==>
                after.free_blocks@.contains_key(class_size(j) as usize)
                && #[trigger] after.free_blocks@[class_size(j) as usize] == before.free_blocks@[class_size(j) as usize],
        ensures
            after.wf(),
            after.lists() == before.lists().update(i, l),
    {
        assert forall|j: int| 0 <= j < NUM_SIZE_CLASSES implies #[trigger] after.free_blocks@.contains_key(class_size(j) as usize) by {
            if j != i {
                assert(after.free_blocks@[class_size(j) as usize] == before.free_blocks@[class_size(j) as usize]);
            }
        }
        assert(after.lists() =~= before.lists().update(i, l));
    }

    /// Pushes `addr` onto class `i`'s free list.
    fn list_push(&mut self, i: usize, addr: usize)
        requires
            old(self).wf(),
            i < NUM_SIZE_CLASSES,
        ensures
            final(self).wf(),
            final(self).lists() == old(self).lists().update(i as int, old(self).free_list(i as int).push(addr)),
            final(self).total_allocated == old(self).total_allocated,
            final(self).total_used == old(self).total_used,
    {
        let mut l = self.list_take(i);
        l.push(addr);
        let bs = class_size_of(i);
        self.free_blocks.insert(bs, l);
        proof {
            assert forall|j: int| 0 <= j < NUM_SIZE_CLASSES && j != i implies
                self.free_blocks@.contains_key(class_size(j) as usize)
                && #[trigger] self.free_blocks@[class_size(j) as usize] == old(self).free_blocks@[class_size(j) as usize] by {
                assert(class_size(j) != class_size(i as int));
            }
            Self::lemma_put_back(*old(self), *self, i as int, old(self).free_list(i as int).push(addr));
        }
    }

    /// Pops the last address off class `i`'s free list, if any.
    fn list_pop(&mut self, i: usize) -> (r: Option<usize>)
        requires
            old(self).wf(),
            i < NUM_SIZE_CLASSES,
        ensures
            final(self).wf(),
            final(self).total_allocated == old(self).total_allocated,
            final(self).total_used == old(self).total_used,
            old(self).free_list(i as int).len() > 0 ==> {
                &&& r == Some(old(self).free_list(i as int).last())
                &&& final(self).lists() == old(self).lists().update(i as int, old(self).free_list(i as int).drop_last())
            },
            old(self).free_list(i as int).len() == 0 ==> r is None && *final(self) == *old(self),
    {
        if self.list_len(i) == 0 {
            return None;
        }
        let mut l = self.list_take(i);
        let a = l.pop().unwrap();
        let bs = class_size_of(i);
        self.free_blocks.insert(bs, l);
        proof {
            assert forall|j: int| 0 <= j < NUM_SIZE_CLASSES && j != i implies
                self.free_blocks@.contains_key(class_size(j) as usize)
                && #[trigger] self.free_blocks@[class_size(j) as usize] == old(self).free_blocks@[class_size(j) as usize] by {
                assert(class_size(j) != class_size(i as int));
            }
            Self::lemma_put_back(*old(self), *self, i as int, old(self).free_list(i as int).drop_last());
        }
        Some(a)
    }

    /// Empties class `i`'s free list.
    fn list_clear(&mut self, i: usize)
        requires
            old(self).wf(),
            i < NUM_SIZE_CLASSES,
        ensures
            final(self).wf(),
            final(self).lists() == old(self).lists().update(i as int, Seq::<usize>::empty()),
            final(self).total_allocated == old(self).total_allocated,
            final(self).total_used == old(self).total_used,
    {
        let _ = self.list_take(i);
        let bs = class_size_of(i);
        self.free_blocks.insert(bs, Vec::new());
        proof {
            assert forall|j: int| 0 <= j < NUM_SIZE_CLASSES && j != i implies
                self.free_blocks@.contains_key(class_size(j) as usize)
                && #[trigger] self.free_blocks@[class_size(j) as usize] == old(self).free_blocks@[class_size(j) as usize] by {
                assert(class_size(j) != class_size(i as int));
            }
            Self::lemma_put_back(*old(self), *self, i as int, Seq::<usize>::empty());
        }
    }

    /// Rounds a request up to the block size that serves it.
    pub fn round_up_block_size(&self, size: usize) -> (bs: usize)
        requires
            size <= usize::MAX - LARGE_BLOCK_SIZE,
        ensures
            bs == block_size_for(size as int),
    {
        let mut i: usize = 0;
        while i < NUM_SIZE_CLASSES
            invariant
                i <= NUM_SIZE_CLASSES,
                forall|j: int| 0 <= j < i ==> size > #[trigger] class_size(j),
            decreases NUM_SIZE_CLASSES - i,
        {
            let bs = class_size_of(i);
            if size <= bs {
                if i > 0 {
                    assert(size > class_size(i - 1));
                }
                assert(class_index(size as int) == i as int);
                return bs;
            }
            i = i + 1;
        }
        assert(size > 4096) by {
            assert(size > class_size(9));
        }
        ((size + LARGE_BLOCK_SIZE - 1) / LARGE_BLOCK_SIZE) * LARGE_BLOCK_SIZE
    }

    /// Serves a request of `size` bytes. A free pooled block of the request's
    /// block size is handed out (the one freed last) and counted as used;
    /// otherwise the caller is told to obtain a fresh block of that size, or,
    /// when no valid layout exists for it, that the request fails.
    pub fn allocate(&mut self, size: usize) -> (r: PoolAllocation)
        requires
            old(self).wf(),
            size <= usize::MAX - LARGE_BLOCK_SIZE,
        ensures
            final(self).wf(),
            ({
                let bs = block_size_for(size as int);
                let reuse = bs <= LARGE_BLOCK_SIZE && old(self).free_list(class_index(bs)).len() > 0;
                if reuse {
                    let fl = old(self).free_list(class_index(bs));
                    &&& r == PoolAllocation::Reused(fl.last())
                    &&& final(self).free_list(class_index(bs)) == fl.drop_last()
                    &&& forall|i: int| 0 <= i < NUM_SIZE_CLASSES && i != class_index(bs)
                        ==> #[trigger] final(self).free_list(i) == old(self).free_list(i)
                    &&& final(self).used() == vstd::wrapping::usize_specs::wrapping_add(old(self).used(), bs as usize)
                    &&& final(self).allocated() == old(self).allocated()
                } else {
                    &&& r == (if bs <= isize::MAX { PoolAllocation::Fresh(bs as usize) } else { PoolAllocation::Refused })
                    &&& *final(self) == *old(self)
                }
            }),
    {
        let bs = self.round_up_block_size(size);
        if bs <= LARGE_BLOCK_SIZE {
            let idx = class_index_of(bs);
            assert(class_size(class_index(bs as int)) == bs);
            match idx {
                Some(i) => {
                    assert(i == class_index(bs as int));
                    if let Some(addr) = self.list_pop(i) {
                        self.total_used = self.total_used.wrapping_add(bs);
                        return PoolAllocation::Reused(addr);
                    }
                }
                None => {
                    assert(is_class_size(bs as int));
                }
            }
        }
        if bs <= isize::MAX as usize {
            PoolAllocation::Fresh(bs)
        } else {
            PoolAllocation::Refused
        }
    }

    /// Counts a fresh block of `bs` bytes, obtained after `allocate`
    /// answered `Fresh(bs)`, as allocated and used.
    pub fn record_fresh(&mut self, bs: usize)
        ensures
            final(self).lists() == old(self).lists(),
            old(self).wf() ==> final(self).wf(),
            final(self).allocated() == vstd::wrapping::usize_specs::wrapping_add(old(self).allocated(), bs),
            final(self).used() == vstd::wrapping::usize_specs::wrapping_add(old(self).used(), bs),
    {
        self.total_allocated = self.total_allocated.wrapping_add(bs);
        self.total_used = self.total_used.wrapping_add(bs);
    }

    /// Takes back the block at `addr` that served a request of `size` bytes.
    /// A block of a size class goes on that class's free list; any other
    /// block is returned to the system: the result is then `Some(bs)`, the
    /// caller releases `bs` bytes at `addr` (aligned to 8), and the block no
    /// longer counts as allocated.
    pub fn deallocate(&mut self, addr: usize, size: usize) -> (release: Option<usize>)
        requires
            old(self).wf(),
            size <= usize::MAX - LARGE_BLOCK_SIZE,
            !is_class_size(block_size_for(size as int)) ==> block_size_for(size as int) <= isize::MAX,
        ensures
            final(self).wf(),
            ({
                let bs = block_size_for(size as int);
                if is_class_size(bs) {
                    &&& release is None
                    &&& final(self).free_list(class_index(bs)) == old(self).free_list(class_index(bs)).push(addr)
                    &&& forall|i: int| 0 <= i < NUM_SIZE_CLASSES && i != class_index(bs)
                        ==> #[trigger] final(self).free_list(i) == old(self).free_list(i)
                    &&& final(self).used() == vstd::wrapping::usize_specs::wrapping_sub(old(self).used(), bs as usize)
                    &&& final(self).allocated() == old(self).allocated()
                } else {
                    &&& release == Some(bs as usize)
                    &&& final(self).lists() == old(self).lists()
                    &&& final(self).used() == vstd::wrapping::usize_specs::wrapping_sub(old(self).used(), bs as usize)
                    &&& final(self).allocated() == vstd::wrapping::usize_specs::wrapping_sub(old(self).allocated(), bs as usize)
                }
            }),
    {
        let bs = self.round_up_block_size(size);
        match class_index_of(bs) {
            Some(i) => {
                proof { lemma_class_index_of_size(i as int); }
                self.list_push(i, addr);
                self.total_used = self.total_used.wrapping_sub(bs);
                None
            }
            None => {
                self.total_allocated = self.total_allocated.wrapping_sub(bs);
                self.total_used = self.total_used.wrapping_sub(bs);
                Some(bs)
            }
        }
    }

    /// Empties every free list. The result lists each released block as
    /// `(address, size)`; the caller returns them to the system, and they no
    /// longer count as allocated.
    pub fn cleanup(&mut self) -> (released: Vec<(usize, usize)>)
        requires
            old(self).wf(),
        ensures
            final(self).wf(),
            released@ == pooled_blocks(old(self).lists(), NUM_SIZE_CLASSES as int),
            forall|i: int| 0 <= i < NUM_SIZE_CLASSES ==> #[trigger] final(self).free_list(i).len() == 0,
            final(self).used() == old(self).used(),
            final(self).allocated() as int
                == wrap_usize(old(self).allocated() - pooled_bytes(old(self).lists(), NUM_SIZE_CLASSES as int)),
    {
        let ghost lists0 = self.lists();
        let ghost alloc0 = self.total_allocated as int;
        let mut released: Vec<(usize, usize)> = Vec::new();
        let mut i: usize = 0;
        proof {
            vstd::arithmetic::div_mod::lemma_small_mod(alloc0 as nat, (usize::MAX as int + 1) as nat);
        }
        while i < NUM_SIZE_CLASSES
            invariant
                self.wf(),
                i <= NUM_SIZE_CLASSES,
                lists0.len() == NUM_SIZE_CLASSES,
                released@ == pooled_blocks(lists0, i as int),
                self.total_allocated as int == wrap_usize(alloc0 - pooled_bytes(lists0, i as int)),
                self.total_used == old(self).total_used,
                forall|j: int| 0 <= j < i ==> #[trigger] self.free_list(j).len() == 0,
                forall|j: int| i <= j < NUM_SIZE_CLASSES ==> #[trigger] self.free_list(j) == lists0[j],
            decreases NUM_SIZE_CLASSES - i,
        {
            let bs = class_size_of(i);
            let ghost start = released@;
            let ghost lb = self.lists();
            let ghost acc0 = alloc0 - pooled_bytes(lists0, i as int);
            assert(self.free_list(i as int) == lists0[i as int]);
            assert forall|j: int| 0 <= j < i implies #[trigger] lb[j].len() == 0 by {
                assert(self.free_list(j).len() == 0);
            }
            assert forall|j: int| i <= j < NUM_SIZE_CLASSES implies #[trigger] lb[j] == lists0[j] by {
                assert(self.free_list(j) == lists0[j]);
            }
            let n = self.list_len(i);
            let mut k: usize = 0;
            while k < n
                invariant
                    self.wf(),
                    i < NUM_SIZE_CLASSES,
                    lists0.len() == NUM_SIZE_CLASSES,
                    bs == class_size(i as int),
                    n == lists0[i as int].len(),
                    k <= n,
                    self.lists() == lb,
                    lb[i as int] == lists0[i as int],
                    released@ == start + lists0[i as int].take(k as int).map_values(|a: usize| (a, bs)),
                    self.total_allocated as int == wrap_usize(acc0 - k * bs),
                    self.total_used == old(self).total_used,
                decreases n - k,
            {
                let a = self.list_at(i, k);
                assert(a == lb[i as int][k as int]);
                released.push((a, bs));
                proof {
                    lemma_wrapping_sub_mod(acc0 - k * bs, self.total_allocated, bs);
                    assert(lists0[i as int].take(k + 1) == lists0[i as int].take(k as int).push(a));
                }
                self.total_allocated = self.total_allocated.wrapping_sub(bs);
                k = k + 1;
                proof {
                    assert(acc0 - (k - 1) * bs - bs == acc0 - k * bs) by (nonlinear_arith);
                }
            }
            self.list_clear(i);
            proof {
                assert(self.lists() =~= lb.update(i as int, Seq::<usize>::empty()));
                assert(lists0[i as int].take(n as int) == lists0[i as int]);
                assert(pooled_blocks(lists0, i + 1) == pooled_blocks(lists0, i as int)
                    + lists0[i as int].map_values(|a: usize| (a, class_size(i as int) as usize)));
                assert(acc0 - n * bs == alloc0 - pooled_bytes(lists0, i + 1)) by {
                    assert(pooled_bytes(lists0, i + 1) == pooled_bytes(lists0, i as int) + n * bs);
                }
                assert forall|j: int| 0 <= j < i + 1 implies #[trigger] self.free_list(j).len() == 0 by {
                    if j < i {
                        assert(lb[j] == self.free_list(j));
                        assert(lb[j].len() == 0);
                    }
                }
                assert forall|j: int| i + 1 <= j < NUM_SIZE_CLASSES implies #[trigger] self.free_list(j) == lists0[j] by {
                    assert(lb[j] == self.free_list(j));
                    assert(lb[j] == lists0[j]);
                }
            }
            i = i + 1;
        }
        released
    }

    /// Usage statistics: the byte counters and, for each size class, the
    /// number of free pooled blocks.
    pub fn stats(&self) -> (st: MemoryStats)
        requires
            self.wf(),
        ensures
            st.total_allocated == self.allocated(),
            st.total_used == self.used(),
            st.free_blocks@.dom() == Set::new(|bs: usize| is_class_size(bs as int)),
            forall|i: int| 0 <= i < NUM_SIZE_CLASSES
                ==> #[trigger] st.free_blocks@[class_size(i) as usize] == self.free_list(i).len(),
    {
        let mut free_blocks: HashMap<usize, usize> = HashMap::new();
        let mut i: usize = 0;
        while i < NUM_SIZE_CLASSES
            invariant
                self.wf(),
                i <= NUM_SIZE_CLASSES,
                free_blocks@.dom() == Set::new(|bs: usize| exists|j: int| 0 <= j < i && class_size(j) == bs),
                forall|j: int| 0 <= j < i ==> #[trigger] free_blocks@[class_size(j) as usize] == self.free_list(j).len(),
            decreases NUM_SIZE_CLASSES - i,
        {
            let bs = class_size_of(i);
            let ghost before = free_blocks@;
            free_blocks.insert(bs, self.list_len(i));
            proof {
                assert forall|j: int| 0 <= j < i + 1 implies #[trigger] free_blocks@[class_size(j) as usize]
                    == self.free_list(j).len() by {
                    if j < i {
                        assert(class_size(j) != class_size(i as int));
                    }
                }
                assert(free_blocks@.dom() =~= Set::new(|b: usize| exists|j: int| 0 <= j < i + 1 && class_size(j) == b)) by {
                    assert forall|b: usize| #[trigger] free_blocks@.dom().contains(b)
                        implies exists|j: int| 0 <= j < i + 1 && class_size(j) == b by {
                        if b == bs {
                            assert(class_size(i as int) == b);
                        } else {
                            assert(before.dom().contains(b));
                        }
                    }
                }
            }
            i = i + 1;
        }
        MemoryStats {
            total_allocated: self.total_allocated,
            total_used: self.total_used,
            free_blocks,
        }
    }
}

/// The pool's byte accounting: the bytes obtained and not handed out are
/// exactly the bytes of the pooled free blocks.
pub open spec fn accounts(p: MemoryPool) -> bool {
    &&& p.used() <= p.allocated()
    &&& p.allocated() - p.used() == pooled_bytes(p.lists(), NUM_SIZE_CLASSES as int)
}

/// Replacing one free list changes the pooled bytes by the change of its
/// length times its class size.
proof fn lemma_pooled_bytes_update(lists: Seq<Seq<usize>>, i: int, l: Seq<usize>, k: int)
    requires
        0 <= i < lists.len(),
        0 <= k <= lists.len(),
    ensures
        pooled_bytes(lists.update(i, l), k) == pooled_bytes(lists, k)
            + (if i < k { (l.len() - lists[i].len()) * class_size(i) } else { 0 }),
    decreases k,
{
    if k > 0 {
        lemma_pooled_bytes_update(lists, i, l, k - 1);
        if i == k - 1 {
            assert((l.len() * class_size(i)) == lists[i].len() * class_size(i) + (l.len() - lists[i].len()) * class_size(i)) by (nonlinear_arith);
        }
    }
}

/// Empty free lists pool no bytes.
proof fn lemma_pooled_bytes_empty(lists: Seq<Seq<usize>>, k: int)
    requires
        0 <= k <= lists.len(),
        forall|i: int| 0 <= i < k ==> #[trigger] lists[i].len() == 0,
    ensures
        pooled_bytes(lists, k) == 0,
    decreases k,
{
    if k > 0 {
        lemma_pooled_bytes_empty(lists, k - 1);
    }
}

/// The free lists of a well-formed pool, one per size class.
proof fn lemma_lists_shape(p: MemoryPool)
    requires
        p.wf(),
    ensures
        p.lists().len() == NUM_SIZE_CLASSES,
        forall|i: int| 0 <= i < NUM_SIZE_CLASSES ==> #[trigger] p.lists()[i] == p.free_list(i),
{
}

/// A new pool accounts for its bytes.
pub proof fn lemma_new_accounts(p: MemoryPool)
    requires
        p.wf(),
        p.allocated() == 0,
        p.used() == 0,
        forall|i: int| 0 <= i < NUM_SIZE_CLASSES ==> #[trigger] p.free_list(i).len() == 0,
    ensures
        accounts(p),
{
    lemma_lists_shape(p);
    assert forall|i: int| 0 <= i < NUM_SIZE_CLASSES implies #[trigger] p.lists()[i].len() == 0 by {
        assert(p.free_list(i).len() == 0);
    }
    lemma_pooled_bytes_empty(p.lists(), NUM_SIZE_CLASSES as int);
}

/// Taking a block of class `c` off its free list and counting it as used
/// keeps the accounting, as long as the used count does not wrap.
pub proof fn lemma_reuse_accounts(before: MemoryPool, after: MemoryPool, c: int)
    requires
        before.wf(),
        accounts(before),
        0 <= c < NUM_SIZE_CLASSES,
        before.free_list(c).len() > 0,
        after.wf(),
        after.free_list(c) == before.free_list(c).drop_last(),
        forall|i: int| 0 <= i < NUM_SIZE_CLASSES && i != c ==> #[trigger] after.free_list(i) == before.free_list(i),
        after.allocated() == before.allocated(),
        after.used() == vstd::wrapping::usize_specs::wrapping_add(before.used(), class_size(c) as usize),
    ensures
        accounts(after),
{
    lemma_class_index_of_size(c);
    lemma_lists_shape(before);
    lemma_lists_shape(after);
    lemma_pooled_bytes_update(before.lists(), c, before.free_list(c).drop_last(), NUM_SIZE_CLASSES as int);
    assert forall|i: int| 0 <= i < NUM_SIZE_CLASSES implies #[trigger] after.lists()[i]
        == before.lists().update(c, before.free_list(c).drop_last())[i] by {
        assert(after.free_list(i) == after.lists()[i]);
    }
    assert(after.lists() =~= before.lists().update(c, before.free_list(c).drop_last()));
    lemma_pooled_bytes_nonneg(after.lists(), NUM_SIZE_CLASSES as int);
}

/// Pooled bytes are never negative.
proof fn lemma_pooled_bytes_nonneg(lists: Seq<Seq<usize>>, k: int)
    requires
        0 <= k <= lists.len(),
    ensures
        pooled_bytes(lists, k) >= 0,
    decreases k,
{
    if k > 0 {
        lemma_pooled_bytes_nonneg(lists, k - 1);
        assert(class_size(k - 1) > 0);
        assert(lists[k - 1].len() * class_size(k - 1) >= 0) by (nonlinear_arith)
            requires
                class_size(k - 1) > 0,
        ;
    }
}

/// Counting a fresh block as allocated and used keeps the accounting, as
/// long as neither count wraps.
pub proof fn lemma_fresh_accounts(before: MemoryPool, after: MemoryPool, bs: usize)
    requires
        accounts(before),
        after.lists() == before.lists(),
        before.allocated() + bs <= usize::MAX,
        after.allocated() == vstd::wrapping::usize_specs::wrapping_add(before.allocated(), bs),
        after.used() == vstd::wrapping::usize_specs::wrapping_add(before.used(), bs),
    ensures
        accounts(after),
{
}

/// Filing a freed block of class `c` keeps the accounting, as long as the
/// block was counted as used.
pub proof fn lemma_free_accounts(before: MemoryPool, after: MemoryPool, c: int, addr: usize)
    requires
        before.wf(),
        accounts(before),
        0 <= c < NUM_SIZE_CLASSES,
        class_size(c) <= before.used(),
        after.wf(),
        after.free_list(c) == before.free_list(c).push(addr),
        forall|i: int| 0 <= i < NUM_SIZE_CLASSES && i != c ==> #[trigger] after.free_list(i) == before.free_list(i),
        after.allocated() == before.allocated(),
        after.used() == vstd::wrapping::usize_specs::wrapping_sub(before.used(), class_size(c) as usize),
    ensures
        accounts(after),
{
    lemma_class_index_of_size(c);
    lemma_lists_shape(before);
    lemma_lists_shape(after);
    lemma_pooled_bytes_update(before.lists(), c, before.free_list(c).push(addr), NUM_SIZE_CLASSES as int);
    assert forall|i: int| 0 <= i < NUM_SIZE_CLASSES implies #[trigger] after.lists()[i]
        == before.lists().update(c, before.free_list(c).push(addr))[i] by {
        assert(after.free_list(i) == after.lists()[i]);
    }
    assert(after.lists() =~= before.lists().update(c, before.free_list(c).push(addr)));
}

/// Returning every pooled block to the system leaves nothing pooled and
/// the allocated bytes equal to the used bytes.
pub proof fn lemma_cleanup_accounts(before: MemoryPool, after: MemoryPool)
    requires
        before.wf(),
        accounts(before),
        after.wf(),
        forall|i: int| 0 <= i < NUM_SIZE_CLASSES ==> #[trigger] after.free_list(i).len() == 0,
        after.used() == before.used(),
        after.allocated() as int == wrap_usize(before.allocated() - pooled_bytes(before.lists(), NUM_SIZE_CLASSES as int)),
    ensures
        accounts(after),
        after.allocated() == after.used(),
{
    lemma_lists_shape(after);
    assert forall|i: int| 0 <= i < NUM_SIZE_CLASSES implies #[trigger] after.lists()[i].len() == 0 by {
        assert(after.free_list(i).len() == 0);
    }
    lemma_pooled_bytes_empty(after.lists(), NUM_SIZE_CLASSES as int);
    let v = before.allocated() - pooled_bytes(before.lists(), NUM_SIZE_CLASSES as int);
    assert(0 <= v <= usize::MAX);
    vstd::arithmetic::div_mod::lemma_small_mod(v as nat, (usize::MAX as int + 1) as nat);
}

/// Returning a freed block of another size to the system keeps the
/// accounting, as long as the block was counted as used.
pub proof fn lemma_release_accounts(before: MemoryPool, after: MemoryPool, bs: int)
    requires
        accounts(before),
        0 <= bs <= before.used(),
        after.lists() == before.lists(),
        after.used() == vstd::wrapping::usize_specs::wrapping_sub(before.used(), bs as usize),
        after.allocated() == vstd::wrapping::usize_specs::wrapping_sub(before.allocated(), bs as usize),
    ensures
        accounts(after),
{
}

/// A call on a memory pool.
pub enum PoolCall {
    /// `allocate(size)`.
    Allocate(usize),
    /// `record_fresh(bs)`.
    RecordFresh(usize),
    /// `deallocate(addr, size)`.
    Deallocate(usize, usize),
    /// `cleanup()`.
    Cleanup,
}

/// Whether `after` is what the contract of `call` allows from `before`.
pub open spec fn pool_step(before: MemoryPool, after: MemoryPool, call: PoolCall) -> bool {
    match call {
        PoolCall::Allocate(size) => {
            let bs = block_size_for(size as int);
            &&& size <= usize::MAX - LARGE_BLOCK_SIZE
            &&& after.wf()
            &&& if bs <= LARGE_BLOCK_SIZE && before.free_list(class_index(bs)).len() > 0 {
                &&& after.free_list(class_index(bs)) == before.free_list(class_index(bs)).drop_last()
                &&& forall|i: int| 0 <= i < NUM_SIZE_CLASSES && i != class_index(bs)
                    ==> #[trigger] after.free_list(i) == before.free_list(i)
                &&& after.used() == vstd::wrapping::usize_specs::wrapping_add(before.used(), bs as usize)
                &&& after.allocated() == before.allocated()
            } else {
                after == before
            }
        },
        PoolCall::RecordFresh(bs) => {
            &&& after.lists() == before.lists()
            &&& (before.wf() ==> after.wf())
            &&& after.allocated() == vstd::wrapping::usize_specs::wrapping_add(before.allocated(), bs)
            &&& after.used() == vstd::wrapping::usize_specs::wrapping_add(before.used(), bs)
        },
        PoolCall::Deallocate(addr, size) => {
            let bs = block_size_for(size as int);
            &&& size <= usize::MAX - LARGE_BLOCK_SIZE
            &&& after.wf()
            &&& if is_class_size(bs) {
                &&& after.free_list(class_index(bs)) == before.free_list(class_index(bs)).push(addr)
                &&& forall|i: int| 0 <= i < NUM_SIZE_CLASSES && i != class_index(bs)
                    ==> #[trigger] after.free_list(i) == before.free_list(i)
                &&& after.used() == vstd::wrapping::usize_specs::wrapping_sub(before.used(), bs as usize)
                &&& after.allocated() == before.allocated()
            } else {
                &&& after.lists() == before.lists()
                &&& after.used() == vstd::wrapping::usize_specs::wrapping_sub(before.used(), bs as usize)
                &&& after.allocated() == vstd::wrapping::usize_specs::wrapping_sub(before.allocated(), bs as usize)
            }
        },
        PoolCall::Cleanup => {
            &&& after.wf()
            &&& forall|i: int| 0 <= i < NUM_SIZE_CLASSES ==> #[trigger] after.free_list(i).len() == 0
            &&& after.used() == before.used()
            &&& after.allocated() as int == wrap_usize(before.allocated() - pooled_bytes(before.lists(), NUM_SIZE_CLASSES as int))
        },
    }
}

/// Whether `call` is made as the pool is meant to be used: a fresh block
/// is counted without overflowing the allocated bytes, and a freed block
/// is one that is counted as used.
pub open spec fn in_use(before: MemoryPool, call: PoolCall) -> bool {
    match call {
        PoolCall::RecordFresh(bs) => before.allocated() + bs <= usize::MAX,
        PoolCall::Deallocate(_, size) => block_size_for(size as int) <= before.used(),
        _ => true,
    }
}

/// The pool's byte accounting holds of every pool reached from a new pool
/// by calls made as the pool is meant to be used: the used bytes never
/// exceed the allocated bytes, and the difference is the bytes of the
/// pooled free blocks.
pub proof fn lemma_accounts_over_calls(pools: Seq<MemoryPool>, calls: Seq<PoolCall>)
    requires
        pools.len() == calls.len() + 1,
        pools[0].wf(),
        pools[0].allocated() == 0,
        pools[0].used() == 0,
        forall|i: int| 0 <= i < NUM_SIZE_CLASSES ==> #[trigger] pools[0].free_list(i).len() == 0,
        forall|k: int| 0 <= k < calls.len() ==> pool_step(pools[k], #[trigger] pools[k + 1], calls[k]),
        forall|k: int| 0 <= k < calls.len() ==> in_use(#[trigger] pools[k], calls[k]),
    ensures
        forall|k: int| 0 <= k < pools.len() ==> #[trigger] pools[k].wf() && accounts(pools[k]),
    decreases calls.len(),
{
    if calls.len() == 0 {
        lemma_new_accounts(pools[0]);
    } else {
        let n = calls.len() - 1;
        let ps = pools.drop_last();
        let cs = calls.drop_last();
        assert forall|k: int| 0 <= k < cs.len() implies pool_step(ps[k], #[trigger] ps[k + 1], cs[k]) by {
            assert(pool_step(pools[k], pools[k + 1], calls[k]));
        }
        assert forall|k: int| 0 <= k < cs.len() implies in_use(#[trigger] ps[k], cs[k]) by {
            assert(in_use(pools[k], calls[k]));
        }
        lemma_accounts_over_calls(ps, cs);
        let before = pools[n];
        let after = pools[n + 1];
        assert(ps[n] == before);
        assert(before.wf() && accounts(before));
        assert(pool_step(before, after, calls[n]));
        assert(in_use(before, calls[n]));
        match calls[n] {
            PoolCall::Allocate(size) => {
                let bs = block_size_for(size as int);
                if bs <= LARGE_BLOCK_SIZE && before.free_list(class_index(bs)).len() > 0 {
                    let c = class_index(bs);
                    assert(0 <= c < NUM_SIZE_CLASSES);
                    assert(class_size(c) == bs);
                    lemma_reuse_accounts(before, after, c);
                }
            },
            PoolCall::RecordFresh(bs) => {
                lemma_fresh_accounts(before, after, bs);
            },
            PoolCall::Deallocate(addr, size) => {
                let bs = block_size_for(size as int);
                if is_class_size(bs) {
                    let i = choose|i: int| 0 <= i < NUM_SIZE_CLASSES && class_size(i) == bs;
                    lemma_class_index_of_size(i);
                    lemma_free_accounts(before, after, i, addr);
                } else {
                    lemma_release_accounts(before, after, bs);
                }
            },
            PoolCall::Cleanup => {
                lemma_cleanup_accounts(before, after);
            },
        }
        assert forall|k: int| 0 <= k < pools.len() implies #[trigger] pools[k].wf() && accounts(pools[k]) by {
            if k < pools.len() - 1 {
                assert(ps[k] == pools[k]);
            }
        }
    }
}

/// A block handed back to the pool is the block the next request of the
/// same size gets: after `deallocate(addr, size)` files it, `allocate(size)`
/// answers `Reused(addr)` and leaves that free list as it was before.
pub proof fn lemma_free_then_reuse(before: MemoryPool, freed: MemoryPool, addr: usize, size: usize)
    requires
        before.wf(),
        freed.wf(),
        is_class_size(block_size_for(size as int)),
        freed.free_list(class_index(block_size_for(size as int)))
            == before.free_list(class_index(block_size_for(size as int))).push(addr),
    ensures
        block_size_for(size as int) <= LARGE_BLOCK_SIZE,
        freed.free_list(class_index(block_size_for(size as int))).len() > 0,
        freed.free_list(class_index(block_size_for(size as int))).last() == addr,
        freed.free_list(class_index(block_size_for(size as int))).drop_last()
            == before.free_list(class_index(block_size_for(size as int))),
{
    let bs = block_size_for(size as int);
    let i = choose|i: int| 0 <= i < NUM_SIZE_CLASSES && class_size(i) == bs;
    lemma_class_index_of_size(i);
    let fl = before.free_list(class_index(bs));
    assert(fl.push(addr).drop_last() =~= fl);
}

/// Memory usage statistics.
#[derive(Debug, Clone)]
pub struct MemoryStats {
    /// Bytes obtained from the system.
    pub total_allocated: usize,
    /// Bytes handed out.
    pub total_used: usize,
    /// Number of free blocks per block size.
    pub free_blocks: HashMap<usize, usize>,
}

impl MemoryStats {
    /// Bytes obtained but not handed out (zero when more is used than allocated).
    pub fn total_free(&self) -> (free: usize)
        ensures
            free == (if self.total_allocated >= self.total_used {
                (self.total_allocated - self.total_used) as usize
            } else {
                0
            }),
    {
        self.total_allocated.saturating_sub(self.total_used)
    }
}

/// `v` reduced modulo `usize::MAX + 1`: what wrapping `usize` arithmetic yields.
pub open spec fn wrap_usize(v: int) -> int {
    v % (usize::MAX as int + 1)
}

/// The blocks on the free lists of classes `0..k`, each with its class
/// size, class by class and within a class in list order.
pub open spec fn pooled_blocks(lists: Seq<Seq<usize>>, k: int) -> Seq<(usize, usize)>
    decreases k,
{
    if k <= 0 {
        Seq::empty()
    } else {
        pooled_blocks(lists, k - 1) + lists[k - 1].map_values(|a: usize| (a, class_size(k - 1) as usize))
    }
}

/// Total bytes of the blocks on the free lists of classes `0..k`.
pub open spec fn pooled_bytes(lists: Seq<Seq<usize>>, k: int) -> int
    decreases k,
{
    if k <= 0 {
        0
    } else {
        pooled_bytes(lists, k - 1) + lists[k - 1].len() * class_size(k - 1)
    }
}

/// Wrapping subtraction on `usize` is subtraction modulo `usize::MAX + 1`.
proof fn lemma_wrapping_sub_mod(acc: int, x: usize, b: usize)
    requires
        x as int == wrap_usize(acc),
    ensures
        vstd::wrapping::usize_specs::wrapping_sub(x, b) as int == wrap_usize(acc - b),
{
    let m = usize::MAX as int + 1;
    vstd::arithmetic::div_mod::lemma_sub_mod_noop(acc, b as int, m);
    vstd::arithmetic::div_mod::lemma_small_mod(b as nat, m as nat);
    if x - b < 0 {
        vstd::arithmetic::div_mod::lemma_mod_add_multiples_vanish(x - b, m);
        vstd::arithmetic::div_mod::lemma_small_mod((x - b + m) as nat, m as nat);
    } else {
        vstd::arithmetic::div_mod::lemma_small_mod((x - b) as nat, m as nat);
    }
}

/// The class index of a class size is the class itself.
proof fn lemma_class_index_of_size(i: int)
    requires
        0 <= i < NUM_SIZE_CLASSES,
    ensures
        class_index(class_size(i)) == i,
        class_size(i) <= LARGE_BLOCK_SIZE,
        block_size_for(class_size(i)) == class_size(i),
{
}

/// Object pool: caches released objects for reuse, up to a capacity.
#[verifier::reject_recursive_types(T)]
pub struct ObjectPool<T, F, R> where F: Fn() -> T, R: Fn(&mut T) {
    /// Cached objects, the most recently released last.
    free_objects: Vec<T>,
    /// Maximum number of cached objects.
    capacity: usize,
    /// Creates a new object when the pool is empty.
    factory: F,
    /// Resets a cached object before it is handed out again.
    reset: R,
}

impl<T, F, R> ObjectPool<T, F, R> where F: Fn() -> T, R: Fn(&mut T) {
    /// The cached objects, the most recently released last.
    pub closed spec fn cached(&self) -> Seq<T> {
        self.free_objects@
    }

    /// Maximum number of cached objects.
    pub closed spec fn max_cached(&self) -> usize {
        self.capacity
    }

    /// The pool never caches more than its capacity.
    pub open spec fn within_capacity(&self) -> bool {
        self.cached().len() <= self.max_cached()
    }

    /// Every pool caches at most its capacity.
    #[verifier::type_invariant]
    closed spec fn capacity_bound(self) -> bool {
        self.free_objects@.len() <= self.capacity
    }


    /// The reset function.
    pub closed spec fn reset_fn(&self) -> R {
        self.reset
    }

    /// The factory function.
    pub closed spec fn factory_fn(&self) -> F {
        self.factory
    }

    /// Creates an empty pool.
    pub fn new(capacity: usize, factory: F, reset: R) -> (pool: Self)
        ensures
            pool.within_capacity(),
            pool.cached().len() == 0,
            pool.max_cached() == capacity,
            pool.factory_fn() == factory,
            pool.reset_fn() == reset,
    {
        ObjectPool { free_objects: Vec::new(), capacity, factory, reset }
    }

    /// Hands out the most recently released object, reset, or a new one
    /// from the factory when none is cached.
    #[verifier::spinoff_prover]
    pub fn acquire(&mut self) -> (obj: T)
        requires
            old(self).cached().len() > 0 ==> forall|o: &mut T| *o == old(self).cached().last()
                ==> call_requires(old(self).reset_fn(), (o,)),
            old(self).cached().len() == 0 ==> call_requires(old(self).factory_fn(), ()),
        ensures
            final(self).within_capacity(),
            final(self).max_cached() == old(self).max_cached(),
            final(self).factory_fn() == old(self).factory_fn(),
            final(self).reset_fn() == old(self).reset_fn(),
            old(self).cached().len() > 0 ==> final(self).cached() == old(self).cached().drop_last(),
            old(self).cached().len() > 0 ==> exists|m: &mut T| *m == old(self).cached().last() && *final(m) == obj
                && call_ensures(old(self).reset_fn(), (m,), ()),
            old(self).cached().len() == 0 ==> final(self).cached() == old(self).cached()
                && call_ensures(old(self).factory_fn(), (), obj),
    {
        proof {
            use_type_invariant(&*self);
        }
        let mut objects: Vec<T> = Vec::new();
        std::mem::swap(&mut objects, &mut self.free_objects);
        let popped = objects.pop();
        std::mem::swap(&mut objects, &mut self.free_objects);
        let obj = match popped {
            Some(mut obj) => {
                (self.reset)(&mut obj);
                obj
            }
            None => (self.factory)(),
        };
        proof {
            use_type_invariant(&*self);
        }
        obj
    }

    /// Caches `obj` for reuse when fewer than `capacity` objects are cached;
    /// otherwise drops it.
    pub fn release(&mut self, obj: T)
        ensures
            final(self).within_capacity(),
            final(self).max_cached() == old(self).max_cached(),
            final(self).factory_fn() == old(self).factory_fn(),
            final(self).reset_fn() == old(self).reset_fn(),
            final(self).cached() == (if old(self).cached().len() < old(self).max_cached() {
                old(self).cached().push(obj)
            } else {
                old(self).cached()
            }),
    {
        proof {
            use_type_invariant(&*self);
        }
        if self.free_objects.len() < self.capacity {
            let mut objects: Vec<T> = Vec::new();
            std::mem::swap(&mut objects, &mut self.free_objects);
            objects.push(obj);
            std::mem::swap(&mut objects, &mut self.free_objects);
        }
        proof {
            use_type_invariant(&*self);
        }
    }

    /// Number of cached objects.
    pub fn free_count(&self) -> (n: usize)
        ensures
            n == self.cached().len(),
            n <= self.max_cached(),
    {
        proof {
            use_type_invariant(self);
        }
        self.free_objects.len()
    }

    /// Drops every cached object.
    pub fn clear(&mut self)
        ensures
            final(self).within_capacity(),
            final(self).cached().len() == 0,
            final(self).max_cached() == old(self).max_cached(),
            final(self).factory_fn() == old(self).factory_fn(),
            final(self).reset_fn() == old(self).reset_fn(),
    {
        let mut objects: Vec<T> = Vec::new();
        std::mem::swap(&mut objects, &mut self.free_objects);
    }
}

/// `x` with every bit below its highest set bit switched on, as far as the
/// five shift-and-or steps `1, 2, 4, 8, 16` reach.
pub open spec fn smear(x: usize) -> usize {
    let a = x | (x >> 1usize);
    let b = a | (a >> 2usize);
    let c = b | (b >> 4usize);
    let d = c | (c >> 8usize);
    d | (d >> 16usize)
}

/// Whether `x` is a power of two.
pub open spec fn is_pow2(x: usize) -> bool {
    x != 0 && x & ((x - 1) as usize) == 0
}

/// Facts about `smear` on values of at most 32 significant bits whose
/// smear is not all ones: one less than a power of two, at least the
/// value, and at most twice it.
proof fn lemma_smear_small(x: usize)
    requires
        (x >> 16usize) >> 16usize == 0,
        smear(x) < usize::MAX,
    ensures
        is_pow2((smear(x) + 1) as usize),
        smear(x) >= x,
        ((smear(x) + 1) as usize) >> 1usize <= x,
{
    assert(((smear(x) + 1) as usize & smear(x)) == 0usize && smear(x) >= x && ((smear(x) + 1) as usize) >> 1usize <= x
        && (smear(x) + 1) as usize != 0usize) by (bit_vector)
        requires
            (x >> 16usize) >> 16usize == 0,
            (smear(x) + 1) as usize != 0usize,
    ;
}

/// `smear` never lowers its argument.
proof fn lemma_smear_ge(x: usize)
    ensures
        smear(x) >= x,
{
    assert(smear(x) >= x) by (bit_vector);
}

/// The bits below bit `e`.
pub open spec fn low_mask(e: usize) -> usize {
    ((1usize << e) - 1) as usize
}

/// The upper half of a block aligned to `2^(e+1)` is aligned to `2^e` and
/// lies in the same `2^top`-aligned region.
proof fn lemma_split_half(a: usize, e: usize, top: usize)
    requires
        e < top,
        top < usize::BITS,
        a & low_mask((e + 1) as usize) == 0,
    ensures
        (a ^ (1usize << e)) & low_mask(e) == 0,
        (a ^ (1usize << e)) >> top == a >> top,
        a & low_mask(e) == 0,
{
    assert((a ^ (1usize << e)) & low_mask(e) == 0 && (a ^ (1usize << e)) >> top == a >> top
        && a & low_mask(e) == 0) by (bit_vector)
        requires
            e < top,
            top < usize::BITS,
            a & low_mask((e + 1) as usize) == 0,
    ;
}

/// Merging: the lower of a block and its buddy is aligned to twice the
/// size and lies in the same region.
proof fn lemma_merge_half(a: usize, e: usize, top: usize)
    requires
        e < top,
        top < usize::BITS,
        a & low_mask(e) == 0,
    ensures
        ({
            let b = a ^ (1usize << e);
            let m = if a < b { a } else { b };
            &&& m & low_mask((e + 1) as usize) == 0
            &&& m >> top == a >> top
            &&& b & low_mask(e) == 0
            &&& b >> top == a >> top
        }),
{
    let b = a ^ (1usize << e);
    assert(b == a ^ (1usize << e));
    assert((if a < (a ^ (1usize << e)) { a } else { a ^ (1usize << e) }) & low_mask((e + 1) as usize) == 0
        && (if a < (a ^ (1usize << e)) { a } else { a ^ (1usize << e) }) >> top == a >> top
        && (a ^ (1usize << e)) & low_mask(e) == 0
        && (a ^ (1usize << e)) >> top == a >> top) by (bit_vector)
        requires
            e < top,
            top < usize::BITS,
            a & low_mask(e) == 0,
    ;
}

/// A block in a nonzero `2^top`-aligned region differs from every size
/// below `2^top`.
proof fn lemma_block_not_size(a: usize, r: usize, e: usize, top: usize)
    requires
        e < top,
        top < usize::BITS,
        r != 0,
        r & low_mask(top) == 0,
        a >> top == r >> top,
    ensures
        a ^ (1usize << e) != 0,
        a >= (1usize << top),
{
    assert(a ^ (1usize << e) != 0 && a >= (1usize << top)) by (bit_vector)
        requires
            e < top,
            top < usize::BITS,
            r != 0,
            r & low_mask(top) == 0,
            a >> top == r >> top,
    ;
}

/// The result of rounding `size` up with the shift-and-or sequence:
/// `smear(size - 1) + 1`.
pub open spec fn npot(size: usize) -> int {
    smear((size - 1) as usize) + 1
}

/// Whether rounding `size` up to a power of two stays within `usize`.
pub open spec fn npot_defined(size: usize) -> bool {
    size >= 1 && smear((size - 1) as usize) < usize::MAX
}

/// A power of two is one shifted by its number of trailing zeros.
pub proof fn lemma_pow2_shift(n: usize)
    requires
        is_pow2(n),
    ensures
        (vstd::std_specs::bits::u64_trailing_zeros(n as u64) as usize) < usize::BITS,
        n == 1usize << (vstd::std_specs::bits::u64_trailing_zeros(n as u64) as usize),
{
    lemma_tz_pow2(n);
}

/// A power of two is one shifted by its number of trailing zeros.
proof fn lemma_tz_pow2(n: usize)
    requires
        is_pow2(n),
    ensures
        (vstd::std_specs::bits::u64_trailing_zeros(n as u64) as usize) < usize::BITS,
        n == 1usize << (vstd::std_specs::bits::u64_trailing_zeros(n as u64) as usize),
{
    let y = n as u64;
    vstd::std_specs::bits::axiom_u64_trailing_zeros(y);
    let t = vstd::std_specs::bits::u64_trailing_zeros(y);
    assert(y != 0) by (bit_vector)
        requires
            n != 0,
            y == n as u64,
    ;
    assert((y >> (t as u64)) & 1u64 == 1u64);
    let tt = t as u64;
    assert((tt as usize) < usize::BITS && n == 1usize << (tt as usize)) by (bit_vector)
        requires
            n != 0,
            n & ((n - 1) as usize) == 0,
            y == n as u64,
            tt < 64,
            (y >> tt) & 1u64 == 1u64,
    ;
}

/// One shifted by `e` has `e` trailing zeros.
proof fn lemma_tz_shift(e: usize)
    requires
        e < usize::BITS,
    ensures
        vstd::std_specs::bits::u64_trailing_zeros((1usize << e) as u64) as usize == e,
        is_pow2(1usize << e),
{
    let n = 1usize << e;
    assert(n != 0 && n & ((n - 1) as usize) == 0) by (bit_vector)
        requires
            e < usize::BITS,
            n == 1usize << e,
    ;
    lemma_tz_pow2(n);
    let t = vstd::std_specs::bits::u64_trailing_zeros(n as u64) as usize;
    assert(t == e) by (bit_vector)
        requires
            e < usize::BITS,
            t < usize::BITS,
            n == 1usize << e,
            n == 1usize << t,
    ;
}

/// Buddy allocator over one region of `max_block_size` bytes, aligned to
/// its size. Free blocks are kept in one list per level; level `i` holds
/// blocks of `min_block_size << i` bytes.
pub struct BuddyAllocator {
    /// Free block addresses per level.
    free_lists: Vec<Vec<usize>>,
    /// Bytes managed.
    total_allocated: usize,
    /// Bytes handed out.
    total_used: usize,
    /// Size of the smallest block (a power of two).
    min_block_size: usize,
    /// Size of the whole region (a power of two).
    max_block_size: usize,
    /// Start of the managed region.
    region: Ghost<usize>,
    /// `log2(min_block_size)`.
    min_shift: Ghost<usize>,
}

impl BuddyAllocator {
    /// Number of levels.
    pub closed spec fn levels(&self) -> int {
        self.free_lists@.len() as int
    }

    /// The free lists of all levels.
    pub closed spec fn lists(&self) -> Seq<Seq<usize>> {
        self.free_lists@.map_values(|v: Vec<usize>| v@)
    }

    /// Start of the managed region.
    pub closed spec fn region_start(&self) -> usize {
        self.region@
    }

    /// `log2` of the smallest block size.
    pub closed spec fn min_log(&self) -> usize {
        self.min_shift@
    }

    /// `log2` of the region size.
    pub open spec fn top_log(&self) -> usize {
        (self.min_log() + self.levels() - 1) as usize
    }

    /// `log2` of the block size of level `i`.
    pub open spec fn level_log(&self, i: int) -> usize {
        (self.min_log() + i) as usize
    }

    /// Block size of level `i`.
    pub open spec fn level_size(&self, i: int) -> usize {
        1usize << self.level_log(i)
    }

    /// Size of the smallest block.
    pub closed spec fn min_block(&self) -> usize {
        self.min_block_size
    }

    /// Size of the region.
    pub closed spec fn max_block(&self) -> usize {
        self.max_block_size
    }

    /// Bytes managed.
    pub closed spec fn allocated(&self) -> usize {
        self.total_allocated
    }

    /// Bytes handed out.
    pub closed spec fn used(&self) -> usize {
        self.total_used
    }

    /// A block of level `i` at `a`: aligned to its size, inside the region.
    pub open spec fn block_ok(&self, a: usize, i: int) -> bool {
        &&& a & low_mask(self.level_log(i)) == 0
        &&& a >> self.top_log() == self.region_start() >> self.top_log()
    }

    /// The allocator's invariant: power-of-two sizes, one list per level,
    /// an aligned nonzero region, and every free block a proper block of
    /// its level.
    pub closed spec fn wf(&self) -> bool {
        &&& self.levels() >= 1
        &&& self.min_log() + self.levels() - 1 < usize::BITS
        &&& self.min_block_size == 1usize << self.min_log()
        &&& self.max_block_size == 1usize << self.top_log()
        &&& self.region_start() != 0
        &&& self.region_start() & low_mask(self.top_log()) == 0
        &&& self.region_start() <= usize::MAX - self.max_block_size
        &&& forall|i: int, k: int| 0 <= i < self.levels() && 0 <= k < self.lists()[i].len()
            ==> #[trigger] self.block_ok(self.lists()[i][k], i)
    }

    /// Rounds `size` up with the shift-and-or sequence. Below `2^32` (one
    /// more than that included) this is the smallest power of two that is
    /// at least `size`.
    pub fn next_power_of_two(size: usize) -> (r: usize)
        requires
            npot_defined(size),
        ensures
            r == npot(size),
            r >= size,
            ((size - 1) as usize >> 16usize) >> 16usize == 0 ==> is_pow2(r) && r / 2 < size,
    {
        let mut size = size - 1;
        let ghost x = size;
        size |= size >> 1;
        size |= size >> 2;
        size |= size >> 4;
        size |= size >> 8;
        size |= size >> 16;
        assert(size == smear(x));
        proof {
            lemma_smear_ge(x);
            if (x >> 16usize) >> 16usize == 0 {
                lemma_smear_small(x);
                let r = (smear(x) + 1) as usize;
                assert(r >> 1usize == r / 2) by (bit_vector);
            }
        }
        size + 1
    }

    /// The block size a request of `size` bytes is rounded to before its
    /// level is computed.
    pub open spec fn normalized(&self, size: usize) -> usize {
        if size < self.min_block() { self.min_block() } else { npot(size) as usize }
    }

    /// The level computed for a request of `size` bytes: the trailing zeros
    /// of its normalized size minus those of the smallest block size.
    pub open spec fn level_of(&self, size: usize) -> int {
        vstd::std_specs::bits::u64_trailing_zeros(self.normalized(size) as u64) - self.min_log()
    }

    /// Whether `level_of(size)` is defined: the rounding stays within
    /// `usize` and does not lead below level zero.
    pub open spec fn level_defined(&self, size: usize) -> bool {
        (size < self.min_block() || npot_defined(size)) && self.level_of(size) >= 0
    }

    /// The level of a request of `size` bytes.
    pub fn get_level(&self, size: usize) -> (level: usize)
        requires
            self.wf(),
            self.level_defined(size),
        ensures
            level == self.level_of(size),
            is_pow2(self.normalized(size)) ==> (level as int) < usize::BITS
                && self.level_size(level as int) == self.normalized(size),
    {
        proof {
            assert(self.min_log() < usize::BITS);
            lemma_tz_shift(self.min_log());
        }
        let normalized_size = if size < self.min_block_size {
            self.min_block_size
        } else {
            Self::next_power_of_two(size)
        };
        let a = (normalized_size as u64).trailing_zeros();
        let b = (self.min_block_size as u64).trailing_zeros();
        proof {
            if is_pow2(normalized_size) {
                lemma_tz_pow2(normalized_size);
            }
        }
        (a - b) as usize
    }

    /// The buddy of the block at `addr` of `size` bytes: `addr ^ size`.
    pub fn find_buddy(&self, addr: usize, size: usize) -> (buddy: usize)
        requires
            addr ^ size != 0,
        ensures
            buddy == addr ^ size,
    {
        addr ^ size
    }

    /// Whether the block at `buddy` is on the free list of `level`.
    pub fn is_buddy_free(&self, buddy: usize, level: usize) -> (free: bool)
        requires
            self.wf(),
            level < self.levels(),
        ensures
            free == self.lists()[level as int].contains(buddy),
    {
        let list = &self.free_lists[level];
        assert(list@ == self.lists()[level as int]);
        let mut k: usize = 0;
        while k < list.len()
            invariant
                k <= list@.len(),
                list@ == self.lists()[level as int],
                forall|j: int| 0 <= j < k ==> list@[j] != buddy,
            decreases list@.len() - k,
        {
            if list[k] == buddy {
                assert(list@[k as int] == buddy);
                return true;
            }
            k = k + 1;
        }
        false
    }

    /// Creates an allocator for the region at `region_start`, obtained from
    /// the system with `max_block_size` rounded up to a power of two as
    /// both size and alignment. Both block sizes are rounded up to powers
    /// of two; the whole region starts out as one free block.
    pub fn new(min_block_size: usize, max_block_size: usize, region_start: usize) -> (b: Self)
        requires
            npot_defined(min_block_size),
            npot_defined(max_block_size),
            is_pow2(npot(min_block_size) as usize),
            is_pow2(npot(max_block_size) as usize),
            npot(min_block_size) <= npot(max_block_size) <= isize::MAX,
            region_start != 0,
            region_start % (npot(max_block_size) as usize) == 0,
            region_start <= usize::MAX - npot(max_block_size),
        ensures
            b.wf(),
            b.min_block() == npot(min_block_size),
            b.max_block() == npot(max_block_size),
            b.region_start() == region_start,
            b.allocated() == b.max_block(),
            b.used() == 0,
            b.level_size(b.levels() - 1) == b.max_block(),
            forall|i: int| 0 <= i < b.levels() - 1 ==> #[trigger] b.lists()[i].len() == 0,
            b.lists()[b.levels() - 1] == seq![region_start],
    {
        let min_block_size = Self::next_power_of_two(min_block_size);
        let max_block_size = Self::next_power_of_two(max_block_size);
        proof {
            lemma_tz_pow2(min_block_size);
            lemma_tz_pow2(max_block_size);
        }
        let tz_max = (max_block_size as u64).trailing_zeros();
        let tz_min = (min_block_size as u64).trailing_zeros();
        proof {
            assert(tz_max >= tz_min) by {
                if tz_max < tz_min {
                    lemma_shift_lt(tz_max as usize, tz_min as usize);
                }
            }
        }
        let levels = (tz_max - tz_min + 1) as usize;
        let mut free_lists: Vec<Vec<usize>> = Vec::new();
        let mut i: usize = 0;
        while i < levels
            invariant
                i <= levels,
                free_lists@.len() == i,
                forall|j: int| 0 <= j < i ==> (#[trigger] free_lists@[j])@.len() == 0,
            decreases levels - i,
        {
            free_lists.push(Vec::new());
            i = i + 1;
        }
        let max_level = free_lists.len() - 1;
        let mut top: Vec<usize> = Vec::new();
        top.push(region_start);
        free_lists.set(max_level, top);
        let b = BuddyAllocator {
            free_lists,
            total_allocated: max_block_size,
            total_used: 0,
            min_block_size,
            max_block_size,
            region: Ghost(region_start),
            min_shift: Ghost(tz_min as usize),
        };
        proof {
            let t = b.top_log();
            assert(t == tz_max as usize);
            lemma_mod_pow2_mask(region_start, t);
            assert forall|i: int, k: int| 0 <= i < b.levels() && 0 <= k < b.lists()[i].len()
                implies #[trigger] b.block_ok(b.lists()[i][k], i) by {
                assert(i == b.levels() - 1);
                assert(b.lists()[i][k] == region_start);
            }
        }
        b
    }
}

impl BuddyAllocator {
    /// The normalized size of a request of `size` bytes: the block size the
    /// allocator serves it with.
    pub open spec fn required_size(&self, size: usize) -> usize {
        self.normalized(size)
    }

    /// Whether a request of `size` bytes is processed without a panic: its
    /// rounding and its level are defined.
    pub open spec fn request_ok(&self, size: usize) -> bool {
        &&& (size < self.min_block() || npot_defined(size))
        &&& self.level_defined(self.required_size(size))
    }

    /// The level searched first for a request of `size` bytes.
    pub open spec fn request_level(&self, size: usize) -> int {
        self.level_of(self.required_size(size))
    }

    /// The first level at or above `k` whose free list is not empty, or
    /// the number of levels when there is none.
    pub open spec fn first_free_level(lists: Seq<Seq<usize>>, k: int) -> int
        decreases lists.len() - k,
    {
        if k < 0 || k >= lists.len() {
            lists.len() as int
        } else if lists[k].len() > 0 {
            k
        } else {
            Self::first_free_level(lists, k + 1)
        }
    }

    /// The level a block taken from level `i` is split down to for a
    /// request of `req` bytes: halving stops at the first level whose block
    /// size is at most `req`.
    pub open spec fn landing_level(&self, i: int, req: int) -> int {
        landing_level(self.min_log(), i, req)
    }

    /// The free lists after the last block of level `i` was taken and split
    /// down to level `land`: each level from `land` to just below `i` gains
    /// the upper half split off at that level.
    pub open spec fn split_lists(&self, lists: Seq<Seq<usize>>, i: int, land: int, a: usize) -> Seq<Seq<usize>> {
        split_lists(self.min_log(), lists, i, land, a)
    }

    /// Allocates a block for a request of `size` bytes. The request is
    /// rounded to its required size; the first level at or above the
    /// request's level with a free block gives up its last free block,
    /// which is split in halves until its size is at most the required
    /// size, each upper half going to the free list of its level. The
    /// result is `None` when every such level is empty.
    pub fn allocate(&mut self, size: usize) -> (r: Option<usize>)
        requires
            old(self).wf(),
            old(self).request_ok(size),
        ensures
            final(self).wf(),
            final(self).min_block() == old(self).min_block(),
            final(self).max_block() == old(self).max_block(),
            final(self).region_start() == old(self).region_start(),
            final(self).levels() == old(self).levels(),
            final(self).allocated() == old(self).allocated(),
            ({
                let req = old(self).required_size(size);
                let i = Self::first_free_level(old(self).lists(), old(self).request_level(size));
                if i < old(self).levels() {
                    let a = old(self).lists()[i].last();
                    let land = old(self).landing_level(i, req as int);
                    &&& r == Some(a)
                    &&& final(self).lists() == old(self).split_lists(old(self).lists(), i, land, a)
                    &&& final(self).used() == vstd::wrapping::usize_specs::wrapping_add(old(self).used(), req)
                    &&& 0 <= land <= i
                    &&& old(self).block_ok(a, land)
                } else {
                    &&& r is None
                    &&& *final(self) == *old(self)
                }
            }),
    {
        let ghost old_lists = self.lists();
        let required_size = if size < self.min_block_size {
            self.min_block_size
        } else {
            Self::next_power_of_two(size)
        };
        proof {
            if size >= self.min_block_size {
                lemma_smear_ge((size - 1) as usize);
            }
        }
        let level = self.get_level(required_size);
        let n = self.free_lists.len();
        let mut i = level;
        while i < n
            invariant
                self.wf(),
                *self == *old(self),
                n == self.levels(),
                level == old(self).request_level(size),
                level <= i,
                required_size == old(self).required_size(size),
                required_size >= old(self).min_block(),
                Self::first_free_level(old_lists, level as int) == Self::first_free_level(old_lists, i as int),
                old_lists == old(self).lists(),
            decreases n - i,
        {
            if self.free_blocks_nonempty(i) {
                return self.take_and_split(i, required_size, Ghost(size));
            }
            i = i + 1;
        }
        assert(Self::first_free_level(old_lists, i as int) == old_lists.len());
        None
    }
}

impl BuddyAllocator {
    /// Whether the free list of `level` is not empty.
    fn free_blocks_nonempty(&self, level: usize) -> (r: bool)
        requires
            self.wf(),
            level < self.levels(),
        ensures
            r == (self.lists()[level as int].len() > 0),
    {
        assert(self.free_lists@[level as int]@ == self.lists()[level as int]);
        self.free_lists[level].len() > 0
    }

    /// Takes the last free block of level `i` and splits it down for a
    /// request whose required size is `required`.
    fn take_and_split(&mut self, i: usize, required: usize, Ghost(size): Ghost<usize>) -> (r: Option<usize>)
        requires
            old(self).wf(),
            i < old(self).levels(),
            old(self).lists()[i as int].len() > 0,
            required == old(self).required_size(size),
            required >= old(self).min_block(),
        ensures
            final(self).wf(),
            final(self).min_block() == old(self).min_block(),
            final(self).max_block() == old(self).max_block(),
            final(self).region_start() == old(self).region_start(),
            final(self).levels() == old(self).levels(),
            final(self).min_log() == old(self).min_log(),
            final(self).allocated() == old(self).allocated(),
            ({
                let a = old(self).lists()[i as int].last();
                let land = old(self).landing_level(i as int, required as int);
                &&& r == Some(a)
                &&& final(self).lists() == old(self).split_lists(old(self).lists(), i as int, land, a)
                &&& final(self).used() == vstd::wrapping::usize_specs::wrapping_add(old(self).used(), required)
                &&& 0 <= land <= i
                &&& old(self).block_ok(a, land)
            }),
    {
        let ghost old_lists = self.lists();
        let ghost top = self.top_log();
        let ghost last = old_lists[i as int].len() - 1;
        assert(old(self).block_ok(old_lists[i as int][last], i as int));
        assert(self.free_lists@[i as int]@ == old_lists[i as int]);
        let block = self.free_lists[i].pop().unwrap();
        assert(block == old_lists[i as int][last]);
        assert(self.lists() =~= self.split_lists(old_lists, i as int, i as int, block));
        assert(self.levels() == old(self).levels());
        assert(self.block_ok(block, i as int));
        proof {
            assert forall|j: int, k: int| 0 <= j < self.levels() && 0 <= k < self.lists()[j].len()
                implies #[trigger] self.block_ok(self.lists()[j][k], j) by {
                assert(self.lists()[j][k] == old_lists[j][k]);
                assert(old(self).block_ok(old_lists[j][k], j));
            }
            lemma_shift_add(self.min_log(), i);
            lemma_shift_lt_or_eq(self.min_log(), self.min_log());
        }
        let mut current_size = self.min_block_size << i;
        let mut current_level = i;
        while current_size > required
            invariant
                self.wf(),
                self.min_block_size == old(self).min_block_size,
                self.max_block_size == old(self).max_block_size,
                self.region == old(self).region,
                self.min_shift == old(self).min_shift,
                self.total_allocated == old(self).total_allocated,
                self.total_used == old(self).total_used,
                self.levels() == old(self).levels(),
                top == self.top_log(),
                current_level <= i,
                i < self.levels(),
                current_size == self.level_size(current_level as int),
                required >= self.level_size(0),
                self.block_ok(block, current_level as int),
                0 <= last < old_lists[i as int].len(),
                block == old_lists[i as int][last],
                self.landing_level(i as int, required as int) == self.landing_level(current_level as int, required as int),
                self.lists() == self.split_lists(old_lists, i as int, current_level as int, block),
                old_lists == old(self).lists(),
            decreases current_level,
        {
            assert(current_level > 0);
            let ghost e = self.level_log(current_level - 1);
            assert(self.level_log(current_level as int) == (e + 1) as usize);
            assert(self.landing_level(current_level as int, required as int)
                == self.landing_level(current_level - 1, required as int));
            proof {
                lemma_half_shift(e);
                lemma_split_half(block, e, top);
                lemma_block_not_size(block, self.region_start(), e, top);
            }
            current_size = current_size / 2;
            let buddy = self.find_buddy(block, current_size);
            current_level = current_level - 1;
            let ghost pre = *self;
            let ghost before = self.lists();
            self.free_lists[current_level].push(buddy);
            proof {
                assert(self.lists() =~= before.update(current_level as int, before[current_level as int].push(buddy)));
                assert(self.lists() =~= self.split_lists(old_lists, i as int, current_level as int, block));
                assert(self.levels() == pre.levels());
                assert(self.block_ok(buddy, current_level as int));
                assert forall|j: int, k: int| 0 <= j < self.levels() && 0 <= k < self.lists()[j].len()
                    implies #[trigger] self.block_ok(self.lists()[j][k], j) by {
                    if j == current_level && k == self.lists()[j].len() - 1 {
                        assert(self.lists()[j][k] == buddy);
                    } else {
                        assert(self.lists()[j][k] == before[j][k]);
                        assert(pre.block_ok(before[j][k], j));
                    }
                }
            }
        }
        let ghost pre = *self;
        self.total_used = self.total_used.wrapping_add(required);
        proof {
            assert(self.lists() == pre.lists());
            assert forall|j: int, k: int| 0 <= j < self.levels() && 0 <= k < self.lists()[j].len()
                implies #[trigger] self.block_ok(self.lists()[j][k], j) by {
                assert(pre.block_ok(pre.lists()[j][k], j));
            }
        }
        Some(block)
    }
}

/// Shifting one left by `m`, then by `i`, is shifting it by `m + i`.
proof fn lemma_shift_add(m: usize, i: usize)
    requires
        m + i < usize::BITS,
    ensures
        (1usize << m) << i == 1usize << ((m + i) as usize),
{
    assert((1usize << m) << i == 1usize << ((m + i) as usize)) by (bit_vector)
        requires
            m + i < usize::BITS,
    ;
}

/// Halving `2^(e+1)` gives `2^e`.
proof fn lemma_half_shift(e: usize)
    requires
        e + 1 < usize::BITS,
    ensures
        (1usize << ((e + 1) as usize)) / 2 == 1usize << e,
{
    assert((1usize << ((e + 1) as usize)) / 2 == 1usize << e) by (bit_vector)
        requires
            e + 1 < usize::BITS,
    ;
}

/// Shifting one by a larger amount never gives less.
proof fn lemma_shift_lt_or_eq(a: usize, b: usize)
    requires
        a <= b < usize::BITS,
    ensures
        (1usize << a) <= (1usize << b),
{
    assert((1usize << a) <= (1usize << b)) by (bit_vector)
        requires
            a <= b < usize::BITS,
    ;
}

/// Block size of level `i` when the smallest block is `2^m`.
pub open spec fn level_size_from(m: usize, i: int) -> usize {
    1usize << ((m + i) as usize)
}

/// The level a block of level `i` is split down to for a request of `req`
/// bytes, the smallest block being `2^m`.
pub open spec fn landing_level(m: usize, i: int, req: int) -> int
    decreases i,
{
    if i <= 0 || level_size_from(m, i) <= req {
        i
    } else {
        landing_level(m, i - 1, req)
    }
}

/// The free lists after the last block of level `i` was taken and split
/// down to level `land`, the smallest block being `2^m`.
pub open spec fn split_lists(m: usize, lists: Seq<Seq<usize>>, i: int, land: int, a: usize) -> Seq<Seq<usize>> {
    Seq::new(lists.len(), |j: int|
        if j == i {
            lists[j].drop_last()
        } else if land <= j < i {
            lists[j].push(a ^ level_size_from(m, j))
        } else {
            lists[j]
        })
}

/// The free lists after the block at `cur` of level `level` is given
/// back: while the block is below the top level and its buddy is free, the
/// buddy leaves its list (its first occurrence) and the two merge into the
/// lower of the two addresses one level up; the final block joins the end
/// of its level's list. The smallest block is `2^m`.
pub open spec fn merged(m: usize, lists: Seq<Seq<usize>>, level: int, cur: usize) -> Seq<Seq<usize>>
    decreases lists.len() - level,
{
    if level < 0 || level >= lists.len() {
        lists
    } else {
        let buddy = cur ^ level_size_from(m, level);
        if level >= lists.len() - 1 || !lists[level].contains(buddy) {
            lists.update(level, lists[level].push(cur))
        } else {
            merged(m, lists.update(level, lists[level].remove_value(buddy)), level + 1,
                if cur < buddy { cur } else { buddy })
        }
    }
}

/// Whether giving back the block at `cur` of level `level` merges all the
/// way up to the top level.
pub open spec fn merge_reaches_top(m: usize, lists: Seq<Seq<usize>>, level: int, cur: usize) -> bool
    decreases lists.len() - level,
{
    if level < 0 || level >= lists.len() {
        false
    } else if level >= lists.len() - 1 {
        true
    } else {
        let buddy = cur ^ level_size_from(m, level);
        if !lists[level].contains(buddy) {
            false
        } else {
            merge_reaches_top(m, lists.update(level, lists[level].remove_value(buddy)), level + 1,
                if cur < buddy { cur } else { buddy })
        }
    }
}

/// The only block of the top level is the region itself.
proof fn lemma_top_block(a: usize, r: usize, top: usize)
    requires
        top < usize::BITS,
        a & low_mask(top) == 0,
        r & low_mask(top) == 0,
        a >> top == r >> top,
    ensures
        a == r,
{
    assert(a == r) by (bit_vector)
        requires
            top < usize::BITS,
            a & low_mask(top) == 0,
            r & low_mask(top) == 0,
            a >> top == r >> top,
    ;
}

impl BuddyAllocator {
    /// Gives back the block at `ptr` that served a request of `size` bytes
    /// and merges it with free buddies (see `merged`).
    pub fn deallocate(&mut self, ptr: usize, size: usize)
        requires
            old(self).wf(),
            old(self).request_ok(size),
            is_pow2(old(self).required_size(size)),
            old(self).request_level(size) < old(self).levels(),
            old(self).block_ok(ptr, old(self).request_level(size)),
            merge_reaches_top(old(self).min_log(), old(self).lists(), old(self).request_level(size), ptr)
                ==> old(self).region_start() != old(self).max_block(),
        ensures
            final(self).wf(),
            final(self).min_block() == old(self).min_block(),
            final(self).max_block() == old(self).max_block(),
            final(self).region_start() == old(self).region_start(),
            final(self).levels() == old(self).levels(),
            final(self).allocated() == old(self).allocated(),
            final(self).lists() == merged(old(self).min_log(), old(self).lists(), old(self).request_level(size), ptr),
            final(self).used() == vstd::wrapping::usize_specs::wrapping_sub(old(self).used(), old(self).required_size(size)),
    {
        let ghost m = self.min_log();
        let ghost top = self.top_log();
        let ghost target = merged(m, self.lists(), self.request_level(size), ptr);
        let ghost reaches = merge_reaches_top(m, self.lists(), self.request_level(size), ptr);
        let required_size = if size < self.min_block_size {
            self.min_block_size
        } else {
            Self::next_power_of_two(size)
        };
        proof {
            if size >= self.min_block_size {
                lemma_smear_ge((size - 1) as usize);
            }
            lemma_npot_pow2(required_size);
        }
        let mut level = self.get_level(required_size);
        let mut current_block = ptr;
        let mut current_size = required_size;
        let n = self.free_lists.len();
        loop
            invariant_except_break
                self.wf(),
                self.min_block_size == old(self).min_block_size,
                self.max_block_size == old(self).max_block_size,
                self.region == old(self).region,
                self.min_shift == old(self).min_shift,
                self.total_allocated == old(self).total_allocated,
                self.total_used == old(self).total_used,
                self.levels() == old(self).levels(),
                n == self.levels(),
                m == self.min_log(),
                top == self.top_log(),
                level < n,
                current_size == self.level_size(level as int),
                self.block_ok(current_block, level as int),
                merged(m, self.lists(), level as int, current_block) == target,
                merge_reaches_top(m, self.lists(), level as int, current_block) == reaches,
                reaches ==> self.region_start() != self.max_block(),
            ensures
                self.wf(),
                self.min_block_size == old(self).min_block_size,
                self.max_block_size == old(self).max_block_size,
                self.region == old(self).region,
                self.min_shift == old(self).min_shift,
                self.total_allocated == old(self).total_allocated,
                self.total_used == old(self).total_used,
                self.levels() == old(self).levels(),
                self.lists() == target,
            decreases n - level,
        {
            let ghost e = self.level_log(level as int);
            proof {
                if level + 1 < n {
                    lemma_block_not_size(current_block, self.region_start(), e, top);
                    lemma_merge_half(current_block, e, top);
                } else {
                    lemma_top_block(current_block, self.region_start(), top);
                    lemma_xor_ne(self.region_start(), self.max_block());
                }
            }
            let buddy = self.find_buddy(current_block, current_size);
            let ghost lists = self.lists();
            if level >= n - 1 || !self.is_buddy_free(buddy, level) {
                let ghost pre = *self;
                self.free_lists[level].push(current_block);
                proof {
                    assert(self.lists() =~= lists.update(level as int, lists[level as int].push(current_block)));
                    assert(self.levels() == pre.levels());
                    assert forall|j: int, k: int| 0 <= j < self.levels() && 0 <= k < self.lists()[j].len()
                        implies #[trigger] self.block_ok(self.lists()[j][k], j) by {
                        if j == level && k == self.lists()[j].len() - 1 {
                            assert(self.lists()[j][k] == current_block);
                        } else {
                            assert(self.lists()[j][k] == lists[j][k]);
                            assert(pre.block_ok(lists[j][k], j));
                        }
                    }
                }
                break;
            }
            let index = self.buddy_index(buddy, level);
            let ghost pre = *self;
            self.free_lists[level].remove(index);
            proof {
                assert(self.lists() =~= lists.update(level as int, lists[level as int].remove_value(buddy)));
                assert(self.levels() == pre.levels());
                assert forall|j: int, k: int| 0 <= j < self.levels() && 0 <= k < self.lists()[j].len()
                    implies #[trigger] self.block_ok(self.lists()[j][k], j) by {
                    if j == level {
                        if k < index {
                            assert(self.lists()[j][k] == lists[j][k]);
                            assert(pre.block_ok(lists[j][k], j));
                        } else {
                            assert(self.lists()[j][k] == lists[j][k + 1]);
                            assert(pre.block_ok(lists[j][k + 1], j));
                        }
                    } else {
                        assert(self.lists()[j][k] == lists[j][k]);
                        assert(pre.block_ok(lists[j][k], j));
                    }
                }
                assert(self.level_log(level + 1) == (e + 1) as usize);
                lemma_double_shift(e);
            }
            current_block = if current_block < buddy { current_block } else { buddy };
            current_size = current_size * 2;
            level = level + 1;
        }
        let ghost pre = *self;
        self.total_used = self.total_used.wrapping_sub(required_size);
        proof {
            assert(self.lists() == pre.lists());
            assert forall|j: int, k: int| 0 <= j < self.levels() && 0 <= k < self.lists()[j].len()
                implies #[trigger] self.block_ok(self.lists()[j][k], j) by {
                assert(pre.block_ok(pre.lists()[j][k], j));
            }
        }
    }

    /// The index of the first occurrence of `buddy` on the free list of
    /// `level`, which holds it.
    fn buddy_index(&self, buddy: usize, level: usize) -> (index: usize)
        requires
            self.wf(),
            level < self.levels(),
            self.lists()[level as int].contains(buddy),
        ensures
            self.lists()[level as int].index_of_first(buddy) == Some(index as int),
            index < self.lists()[level as int].len(),
            self.lists()[level as int].remove_value(buddy) == self.lists()[level as int].remove(index as int),
    {
        let list = &self.free_lists[level];
        assert(list@ == self.lists()[level as int]);
        proof { list@.index_of_first_ensures(buddy); }
        let ghost first = list@.index_of_first(buddy).unwrap();
        let mut k: usize = 0;
        while k < list.len()
            invariant
                k <= first,
                list@.index_of_first(buddy) == Some(first),
                level < self.levels(),
                list@ == self.lists()[level as int],
                0 <= first < list@.len(),
                list@[first] == buddy,
                forall|j: int| 0 <= j < first ==> list@[j] != buddy,
            decreases list@.len() - k,
        {
            if list[k] == buddy {
                assert(k == first);
                return k;
            }
            k = k + 1;
        }
        0
    }
}

/// Rounding a power of two up to a power of two gives it back.
proof fn lemma_npot_pow2(r: usize)
    requires
        is_pow2(r),
    ensures
        npot_defined(r),
        npot(r) == r,
{
    assert(smear((r - 1) as usize) == (r - 1) as usize) by (bit_vector)
        requires
            r != 0,
            r & ((r - 1) as usize) == 0,
    ;
}

/// Distinct values have a nonzero exclusive or.
proof fn lemma_xor_ne(a: usize, b: usize)
    requires
        a != b,
    ensures
        a ^ b != 0,
{
    assert(a ^ b != 0) by (bit_vector)
        requires
            a != b,
    ;
}

/// Doubling `2^e` gives `2^(e+1)`.
proof fn lemma_double_shift(e: usize)
    requires
        e + 1 < usize::BITS,
    ensures
        (1usize << e) * 2 == 1usize << ((e + 1) as usize),
{
    assert((1usize << e) * 2 == 1usize << ((e + 1) as usize)) by (bit_vector)
        requires
            e + 1 < usize::BITS,
    ;
}

/// A smaller shift of one gives a smaller power of two.
proof fn lemma_shift_lt(a: usize, b: usize)
    requires
        a < b < usize::BITS,
    ensures
        (1usize << a) < (1usize << b),
{
    assert((1usize << a) < (1usize << b)) by (bit_vector)
        requires
            a < b < usize::BITS,
    ;
}

/// Divisibility by a power of two is masking by the bits below it.
pub proof fn lemma_mod_pow2_mask(x: usize, e: usize)
    requires
        e < usize::BITS,
    ensures
        (x % (1usize << e) == 0) == (x & low_mask(e) == 0),
{
    vstd::bits::lemma_usize_pow2_no_overflow(e as nat);
    vstd::bits::lemma_usize_shl_is_mul(1, e);
    vstd::bits::lemma_usize_low_bits_mask_is_mod(x, e as nat);
    assert(low_mask(e) == vstd::bits::low_bits_mask(e as nat) as usize);
}

/// A block aligned to `2^ei` has bit `ej` clear for `ej < ei`, so it is
/// the lower of itself and its buddy at level `ej`.
proof fn lemma_lower_buddy(a: usize, ej: usize, ei: usize)
    requires
        ej < ei < usize::BITS,
        a & low_mask(ei) == 0,
    ensures
        a < (a ^ (1usize << ej)),
{
    assert(a < (a ^ (1usize << ej))) by (bit_vector)
        requires
            ej < ei < usize::BITS,
            a & low_mask(ei) == 0,
    ;
}

/// Splitting stops at the level whose block size equals the request when
/// that request is a level size: larger levels have larger blocks.
proof fn lemma_landing_exact(m: usize, i: int, lv: int, req: int)
    requires
        0 <= lv <= i,
        m + i < usize::BITS,
        level_size_from(m, lv) == req,
    ensures
        landing_level(m, i, req) == lv,
    decreases i - lv,
{
    if i > lv {
        lemma_shift_lt((m + lv) as usize, (m + i) as usize);
        lemma_landing_exact(m, i - 1, lv, req);
    }
}

/// Giving back the block just taken from level `i` and split down to level
/// `j` restores the free lists, provided the levels from `j` up to `i` were
/// empty and the block's buddy at level `i` (below the top) is not free.
proof fn lemma_merge_undoes_split(m: usize, lists: Seq<Seq<usize>>, i: int, j: int, a: usize)
    requires
        0 <= j <= i < lists.len(),
        m + lists.len() - 1 < usize::BITS,
        lists[i].len() > 0,
        a == lists[i].last(),
        a & low_mask((m + i) as usize) == 0,
        forall|k: int| j <= k < i ==> #[trigger] lists[k].len() == 0,
        i < lists.len() - 1 ==> !lists[i].drop_last().contains(a ^ level_size_from(m, i)),
    ensures
        merged(m, split_lists(m, lists, i, j, a), j, a) == lists,
    decreases i - j,
{
    let sl = split_lists(m, lists, i, j, a);
    if j == i {
        assert(sl[i] == lists[i].drop_last());
        assert(sl.update(i, sl[i].push(a)) =~= lists) by {
            assert(lists[i].drop_last().push(a) =~= lists[i]);
        }
    } else {
        let buddy = a ^ level_size_from(m, j);
        assert(sl[j] =~= seq![buddy]);
        assert(sl[j].contains(buddy)) by {
            assert(sl[j][0] == buddy);
        }
        assert(j < lists.len() - 1);
        sl[j].index_of_first_ensures(buddy);
        assert(sl[j].remove_value(buddy) =~= Seq::<usize>::empty());
        let next = sl.update(j, sl[j].remove_value(buddy));
        assert(next =~= split_lists(m, lists, i, j + 1, a)) by {
            assert(lists[j] =~= Seq::<usize>::empty());
        }
        lemma_lower_buddy(a, (m + j) as usize, (m + i) as usize);
        lemma_merge_undoes_split(m, lists, i, j + 1, a);
    }
}

impl BuddyAllocator {
    /// Freeing a block right after allocating it gives back the free
    /// lists and the used-byte count, when the request's size is a power of
    /// two and the taken block's buddy (below the top level) was not free.
    pub proof fn lemma_free_undoes_allocate(&self, size: usize)
        requires
            self.wf(),
            self.request_ok(size),
            is_pow2(self.required_size(size)),
            ({
                let i = Self::first_free_level(self.lists(), self.request_level(size));
                &&& i < self.levels()
                &&& (i < self.levels() - 1 ==> !self.lists()[i].drop_last().contains(
                    self.lists()[i].last() ^ self.level_size(i)))
            }),
        ensures
            ({
                let lists = self.lists();
                let lv = self.request_level(size);
                let req = self.required_size(size);
                let i = Self::first_free_level(lists, lv);
                let a = lists[i].last();
                let land = self.landing_level(i, req as int);
                &&& land == lv
                &&& self.block_ok(a, land)
                &&& merged(self.min_log(), self.split_lists(lists, i, land, a), land, a) == lists
                &&& vstd::wrapping::usize_specs::wrapping_sub(
                    vstd::wrapping::usize_specs::wrapping_add(self.used(), req), req) == self.used()
            }),
    {
        let lists = self.lists();
        let lv = self.request_level(size);
        let req = self.required_size(size);
        let m = self.min_log();
        let i = Self::first_free_level(lists, lv);
        let a = lists[i].last();
        lemma_npot_pow2(req);
        assert(self.min_log() < usize::BITS);
        if size >= self.min_block() {
            lemma_smear_ge((size - 1) as usize);
        }
        assert(req >= self.min_block());
        assert(self.normalized(req) == req);
        lemma_tz_shift(self.min_log());
        lemma_tz_pow2(req);
        assert(0 <= lv);
        lemma_first_free_level(lists, lv);
        assert(self.level_size(lv) == req);
        lemma_landing_exact(m, i, lv, req as int);
        assert(self.block_ok(a, i)) by {
            assert(self.block_ok(lists[i][lists[i].len() - 1], i));
        }
        lemma_merge_undoes_split(m, lists, i, lv, a);
        lemma_split_aligned(a, (m + lv) as usize, (m + i) as usize);
    }
}

/// The first nonempty level at or above `k`: every level in between is
/// empty, and it is at least `k`.
proof fn lemma_first_free_level(lists: Seq<Seq<usize>>, k: int)
    requires
        0 <= k,
    ensures
        k <= BuddyAllocator::first_free_level(lists, k) <= lists.len() || k > lists.len(),
        forall|j: int| k <= j < BuddyAllocator::first_free_level(lists, k) ==> #[trigger] lists[j].len() == 0,
        BuddyAllocator::first_free_level(lists, k) < lists.len()
            ==> lists[BuddyAllocator::first_free_level(lists, k)].len() > 0,
    decreases lists.len() - k,
{
    if k < lists.len() && lists[k].len() == 0 {
        lemma_first_free_level(lists, k + 1);
    }
}

/// A block aligned to `2^ei` is aligned to every smaller power of two.
proof fn lemma_split_aligned(a: usize, ej: usize, ei: usize)
    requires
        ej <= ei < usize::BITS,
        a & low_mask(ei) == 0,
    ensures
        a & low_mask(ej) == 0,
{
    assert(a & low_mask(ej) == 0) by (bit_vector)
        requires
            ej <= ei < usize::BITS,
            a & low_mask(ei) == 0,
    ;
}

impl BuddyAllocator {
    /// Usage statistics: the byte counters and, for each level's block
    /// size, the number of free blocks.
    pub fn stats(&self) -> (st: MemoryStats)
        requires
            self.wf(),
        ensures
            st.total_allocated == self.allocated(),
            st.total_used == self.used(),
            st.free_blocks@.dom() == Set::new(|bs: usize| exists|i: int| 0 <= i < self.levels() && self.level_size(i) == bs),
            forall|i: int| 0 <= i < self.levels()
                ==> #[trigger] st.free_blocks@[self.level_size(i)] == self.lists()[i].len(),
    {
        let mut free_blocks: HashMap<usize, usize> = HashMap::new();
        let n = self.free_lists.len();
        let mut i: usize = 0;
        while i < n
            invariant
                self.wf(),
                n == self.levels(),
                i <= n,
                free_blocks@.dom() == Set::new(|bs: usize| exists|j: int| 0 <= j < i && self.level_size(j) == bs),
                forall|j: int| 0 <= j < i ==> #[trigger] free_blocks@[self.level_size(j)] == self.lists()[j].len(),
            decreases n - i,
        {
            proof { lemma_shift_add(self.min_log(), i); }
            let block_size = self.min_block_size << i;
            let ghost before = free_blocks@;
            assert(self.free_lists@[i as int]@ == self.lists()[i as int]);
            free_blocks.insert(block_size, self.free_lists[i].len());
            proof {
                assert forall|j: int| 0 <= j < i + 1 implies #[trigger] free_blocks@[self.level_size(j)]
                    == self.lists()[j].len() by {
                    if j < i {
                        lemma_shift_lt((self.min_log() + j) as usize, (self.min_log() + i) as usize);
                    }
                }
                assert(free_blocks@.dom() =~= Set::new(|b: usize| exists|j: int| 0 <= j < i + 1 && self.level_size(j) == b)) by {
                    assert forall|b: usize| #[trigger] free_blocks@.dom().contains(b)
                        implies exists|j: int| 0 <= j < i + 1 && self.level_size(j) == b by {
                        if b == block_size {
                            assert(self.level_size(i as int) == b);
                        } else {
                            assert(before.dom().contains(b));
                        }
                    }
                }
            }
            i = i + 1;
        }
        MemoryStats { total_allocated: self.total_allocated, total_used: self.total_used, free_blocks }
    }
}

/// Memory allocation strategy.
#[derive(Debug, Clone, Copy, PartialEq, Eq)]
pub enum AllocationStrategy {
    /// The size-class memory pool.
    Default,
    /// The buddy allocator.
    Buddy,
}

/// The default allocator: a memory pool.
pub struct DefaultAllocator {
    /// The pool that serves every request.
    pub pool: MemoryPool,
}

impl DefaultAllocator {
    /// Creates an allocator over an empty pool.
    pub fn new() -> (a: Self)
        ensures
            a.pool.wf(),
            a.pool.allocated() == 0,
            a.pool.used() == 0,
            forall|i: int| 0 <= i < NUM_SIZE_CLASSES ==> #[trigger] a.pool.free_list(i).len() == 0,
    {
        DefaultAllocator { pool: MemoryPool::new() }
    }
}

/// Smallest block size of the buddy allocator the factory creates.
pub const FACTORY_BUDDY_MIN_BLOCK: usize = 8;

/// Region size of the buddy allocator the factory creates.
pub const FACTORY_BUDDY_MAX_BLOCK: usize = 4096;

/// An allocator chosen by strategy.
pub enum ManagedAllocator {
    /// A memory pool.
    Default(DefaultAllocator),
    /// A buddy allocator.
    Buddy(BuddyAllocator),
}

/// Creates allocators by strategy.
pub struct AllocatorFactory;

impl AllocatorFactory {
    /// Creates the allocator of `strategy`: an empty memory pool, or a buddy
    /// allocator with blocks from 8 to 4096 bytes over the 4096-byte region
    /// at `buddy_region` (obtained by the caller with size and alignment
    /// 4096; unused for the pool).
    pub fn create(strategy: AllocationStrategy, buddy_region: usize) -> (a: ManagedAllocator)
        requires
            strategy == AllocationStrategy::Buddy ==> buddy_region != 0 && buddy_region % FACTORY_BUDDY_MAX_BLOCK == 0
                && buddy_region <= usize::MAX - FACTORY_BUDDY_MAX_BLOCK,
        ensures
            match a {
                ManagedAllocator::Default(d) => strategy == AllocationStrategy::Default && d.pool.wf()
                    && d.pool.allocated() == 0 && d.pool.used() == 0
                    && forall|i: int| 0 <= i < NUM_SIZE_CLASSES ==> #[trigger] d.pool.free_list(i).len() == 0,
                ManagedAllocator::Buddy(b) => strategy == AllocationStrategy::Buddy && b.wf()
                    && b.min_block() == FACTORY_BUDDY_MIN_BLOCK && b.max_block() == FACTORY_BUDDY_MAX_BLOCK
                    && b.region_start() == buddy_region && b.used() == 0 && b.allocated() == FACTORY_BUDDY_MAX_BLOCK
                    && b.levels() == 10
                    && (forall|i: int| 0 <= i < 10 ==> #[trigger] b.level_size(i) == 1usize << ((3 + i) as usize))
                    && b.lists()[b.levels() - 1] == seq![buddy_region]
                    && forall|i: int| 0 <= i < b.levels() - 1 ==> #[trigger] b.lists()[i].len() == 0,
            },
    {
        match strategy {
            AllocationStrategy::Default => ManagedAllocator::Default(DefaultAllocator::new()),
            AllocationStrategy::Buddy => {
                proof {
                    assert(smear(7usize) == 7usize) by (bit_vector);
                    assert(smear(4095usize) == 4095usize) by (bit_vector);
                    assert(is_pow2(8usize)) by (bit_vector);
                    assert(is_pow2(4096usize)) by (bit_vector);
                }
                let b = BuddyAllocator::new(FACTORY_BUDDY_MIN_BLOCK, FACTORY_BUDDY_MAX_BLOCK, buddy_region);
                proof {
                    let m = b.min_log();
                    let t = b.top_log();
                    assert(m < 64 && (1usize << m) == 8usize ==> m == 3) by (bit_vector);
                    assert(t < 64 && (1usize << t) == 4096usize ==> t == 12) by (bit_vector);
                    assert(m == 3);
                    assert(t == 12);
                    assert(b.levels() == 10);
                }
                ManagedAllocator::Buddy(b)
            }
        }
    }
}

impl Default for MemoryPool {
    /// The same pool as `new`.
    fn default() -> (pool: Self)
        ensures
            pool.wf(),
            pool.allocated() == 0,
            pool.used() == 0,
            forall|i: int| 0 <= i < NUM_SIZE_CLASSES ==> #[trigger] pool.free_list(i).len() == 0,
    {
        MemoryPool::new()
    }
}

impl Default for DefaultAllocator {
    /// The same allocator as `new`.
    fn default() -> (a: Self)
        ensures
            a.pool.wf(),
            a.pool.allocated() == 0,
            a.pool.used() == 0,
            forall|i: int| 0 <= i < NUM_SIZE_CLASSES ==> #[trigger] a.pool.free_list(i).len() == 0,
    {
        DefaultAllocator::new()
    }
}

} // verus!
