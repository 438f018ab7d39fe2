//! The work queue of parallel marking: owners take from the front,
//! thieves from the back. Objects are named by their addresses.

use vstd::prelude::*;
use std::collections::VecDeque;

verus! {

/// A double-ended queue of object addresses waiting to be marked.
#[derive(Debug)]
pub struct WorkStealingQueue {
    queue: VecDeque<usize>,
}

impl WorkStealingQueue {
    /// The queued addresses, front first.
    pub closed spec fn items(&self) -> Seq<usize> {
        self.queue@
    }

    /// An empty queue.
    pub fn new() -> (q: Self)
        ensures
            q.items().len() == 0,
    {
        WorkStealingQueue { queue: VecDeque::new() }
    }

    /// Queues `item` at the back.
    pub fn push(&mut self, item: usize)
        ensures
            final(self).items() == old(self).items().push(item),
    {
        self.queue.push_back(item);
    }

    /// Takes the front item, if any.
    pub fn pop(&mut self) -> (r: Option<usize>)
        ensures
            old(self).items().len() == 0 ==> r is None && final(self).items() == old(self).items(),
            old(self).items().len() > 0 ==> r == Some(old(self).items()[0])
                && final(self).items() == old(self).items().drop_first(),
    {
        self.queue.pop_front()
    }

    /// Takes the back item for another worker, but only when more than one
    /// item is queued.
    pub fn steal(&mut self) -> (r: Option<usize>)
        ensures
            old(self).items().len() <= 1 ==> r is None && final(self).items() == old(self).items(),
            old(self).items().len() > 1 ==> r == Some(old(self).items().last())
                && final(self).items() == old(self).items().drop_last(),
    {
        if self.queue.len() > 1 {
            self.queue.pop_back()
        } else {
            None
        }
    }

    /// Whether nothing is queued.
    pub fn is_empty(&self) -> (b: bool)
        ensures
            b == (self.items().len() == 0),
    {
        self.queue.len() == 0
    }

    /// How many items are queued.
    pub fn len(&self) -> (n: usize)
        ensures
            n == self.items().len(),
    {
        self.queue.len()
    }

    /// Drops every item.
    pub fn clear(&mut self)
        ensures
            final(self).items().len() == 0,
    {
        self.queue.clear();
    }

    /// Queues `items` at the back, in order.
    pub fn extend(&mut self, items: Vec<usize>)
        ensures
            final(self).items() == old(self).items() + items@,
    {
        let mut i: usize = 0;
        while i < items.len()
            invariant
                i <= items@.len(),
                self.queue@ == old(self).items() + items@.subrange(0, i as int),
            decreases items@.len() - i,
        {
            self.queue.push_back(items[i]);
            proof {
                assert(old(self).items() + items@.subrange(0, i + 1)
                    =~= (old(self).items() + items@.subrange(0, i as int)).push(items@[i as int]));
            }
            i = i + 1;
        }
        proof {
            assert(items@.subrange(0, items@.len() as int) =~= items@);
        }
    }

    /// Takes up to `count` items from the front, in queue order.
    pub fn pop_multiple(&mut self, count: usize) -> (taken: Vec<usize>)
        ensures
            ({
                let n = if count < old(self).items().len() { count as int } else { old(self).items().len() as int };
                &&& taken@ == old(self).items().take(n)
                &&& final(self).items() == old(self).items().skip(n)
            }),
    {
        let actual = if count < self.queue.len() { count } else { self.queue.len() };
        let mut taken: Vec<usize> = Vec::new();
        let mut i: usize = 0;
        while i < actual
            invariant
                i <= actual,
                actual <= old(self).items().len(),
                taken@ == old(self).items().take(i as int),
                self.queue@ == old(self).items().skip(i as int),
            decreases actual - i,
        {
            let item = self.queue.pop_front();
            match item {
                Some(x) => {
                    proof {
                        assert(old(self).items().take(i + 1) =~= old(self).items().take(i as int).push(x));
                        assert(old(self).items().skip(i as int).drop_first() =~= old(self).items().skip(i + 1));
                    }
                    taken.push(x);
                },
                None => {},
            }
            i = i + 1;
        }
        taken
    }
}

impl Default for WorkStealingQueue {
    fn default() -> (q: Self)
        ensures
            q.items().len() == 0,
    {
        Self::new()
    }
}

/// Taking items in batches loses none: what is taken followed by what is
/// left is what was queued.
pub proof fn lemma_pop_multiple_partitions(items: Seq<usize>, n: int)
    requires
        0 <= n <= items.len(),
    ensures
        items.take(n) + items.skip(n) == items,
{
    assert(items.take(n) + items.skip(n) =~= items);
}

} // verus!
