//! Foreign-function support: a bounded pool of reusable values and the
//! status codes and value types of the Node.js native API.

pub mod napi;
pub mod value;

use vstd::prelude::*;

verus! {

/// A bounded pool of reusable values: values handed back are kept, up to
/// `max_size`, and handed out again, the last one kept first.
pub struct ObjectPool<T> {
    pool: Vec<T>,
    max_size: usize,
}

impl<T> ObjectPool<T> {
    /// The values kept, the next one handed out last.
    pub closed spec fn items(&self) -> Seq<T> {
        self.pool@
    }

    /// How many values the pool keeps at most.
    pub closed spec fn capacity(&self) -> usize {
        self.max_size
    }

    /// The pool never keeps more than its capacity.
    pub open spec fn wf(&self) -> bool {
        self.items().len() <= self.capacity()
    }

    /// An empty pool keeping up to `max_size` values.
    pub fn new(max_size: usize) -> (p: Self)
        ensures
            p.wf(),
            p.items().len() == 0,
            p.capacity() == max_size,
    {
        ObjectPool { pool: Vec::new(), max_size }
    }

    /// The last value kept, removed from the pool; a value made by
    /// `default` when the pool is empty.
    pub fn get<F>(&mut self, default: F) -> (v: T)
        where
            F: Fn() -> T,
        requires
            old(self).wf(),
            old(self).items().len() == 0 ==> default.requires(()),
        ensures
            final(self).wf(),
            final(self).capacity() == old(self).capacity(),
            old(self).items().len() > 0 ==> {
                &&& v == old(self).items().last()
                &&& final(self).items() == old(self).items().drop_last()
            },
            old(self).items().len() == 0 ==> {
                &&& default.ensures((), v)
                &&& final(self).items() == old(self).items()
            },
    {
        match self.pool.pop() {
            Some(v) => v,
            None => default(),
        }
    }

    /// Keeps `item` when the pool is below its capacity; drops it
    /// otherwise.
    pub fn put(&mut self, item: T)
        requires
            old(self).wf(),
        ensures
            final(self).wf(),
            final(self).capacity() == old(self).capacity(),
            final(self).items() == if old(self).items().len() < old(self).capacity() {
                old(self).items().push(item)
            } else {
                old(self).items()
            },
    {
        if self.pool.len() < self.max_size {
            self.pool.push(item);
        }
    }
}

/// A value handed back to a pool with room is the next one handed out,
/// and handing it out leaves the pool as it was before.
pub proof fn lemma_put_then_get<T>(
    pool: ObjectPool<T>,
    after_put: ObjectPool<T>,
    after_get: ObjectPool<T>,
    item: T,
    got: T,
)
    requires
        pool.wf(),
        pool.items().len() < pool.capacity(),
        after_put.items() == pool.items().push(item),
        got == after_put.items().last(),
        after_get.items() == after_put.items().drop_last(),
    ensures
        got == item,
        after_get.items() == pool.items(),
{
    assert(pool.items().push(item).drop_last() =~= pool.items());
}

} // verus!
