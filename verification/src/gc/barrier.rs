//! Write barrier: a card table of dirty heap regions and a batched,
//! de-duplicated buffer of old-to-young references.

use vstd::prelude::*;
use std::collections::HashSet;
use crate::time::{instant_now, millis_since};

verus! {

broadcast use vstd::std_specs::hash::group_hash_axioms;

/// Kind of write barrier.
#[derive(Debug, Clone, Copy, PartialEq, Eq, Structural)]
pub enum WriteBarrierType {
    /// No barrier.
    NoBarrier,
    /// Card-table barrier.
    CardTable,
    /// Snapshot-at-the-beginning barrier.
    SnapshotAtTheBeginning,
}

/// A reference from an old-generation object to a young one, by address.
#[derive(Debug, Clone, Copy, PartialEq, Eq, Structural)]
pub struct RememberedSetEntry {
    /// Address of the old-generation object.
    pub old_obj: usize,
    /// Address of the young-generation object.
    pub young_obj: usize,
}

impl RememberedSetEntry {
    /// An entry for the reference from `old_obj` to `young_obj`.
    pub fn new(old_obj: usize, young_obj: usize) -> (e: Self)
        ensures
            e == (RememberedSetEntry { old_obj, young_obj }),
    {
        RememberedSetEntry { old_obj, young_obj }
    }

    /// The de-duplication key of the entry: both addresses in one number.
    pub open spec fn key(self) -> u128 {
        ((self.old_obj as u128) * 0x1_0000_0000_0000_0000u128 + (self.young_obj as u128)) as u128
    }

    /// The de-duplication key, computed.
    pub fn dedup_key(&self) -> (k: u128)
        ensures
            k == self.key(),
    {
        (self.old_obj as u128) * 0x1_0000_0000_0000_0000u128 + (self.young_obj as u128)
    }
}

/// Distinct entries have distinct keys.
pub proof fn lemma_key_injective(a: RememberedSetEntry, b: RememberedSetEntry)
    ensures
        a.key() == b.key() ==> a == b,
{
    let m = 0x1_0000_0000_0000_0000int;
    assert((a.old_obj as int) * m + (a.young_obj as int) < 0x1_0000_0000_0000_0000_0000_0000_0000_0000int) by (nonlinear_arith)
        requires
            a.old_obj < m,
            a.young_obj < m,
            m == 0x1_0000_0000_0000_0000int,
    ;
    assert((b.old_obj as int) * m + (b.young_obj as int) < 0x1_0000_0000_0000_0000_0000_0000_0000_0000int) by (nonlinear_arith)
        requires
            b.old_obj < m,
            b.young_obj < m,
            m == 0x1_0000_0000_0000_0000int,
    ;
    if a.key() == b.key() {
        assert(a.old_obj == b.old_obj && a.young_obj == b.young_obj) by (nonlinear_arith)
            requires
                (a.old_obj as int) * m + (a.young_obj as int) == (b.old_obj as int) * m + (b.young_obj as int),
                0 <= a.young_obj < m,
                0 <= b.young_obj < m,
                0 <= a.old_obj,
                0 <= b.old_obj,
                m == 0x1_0000_0000_0000_0000int,
        ;
    }
}

/// Number of nonzero (dirty) cards.
pub open spec fn dirty_cards(cards: Seq<u8>) -> nat
    decreases cards.len(),
{
    if cards.len() == 0 {
        0
    } else {
        dirty_cards(cards.drop_last()) + if cards.last() != 0 { 1nat } else { 0nat }
    }
}

/// Making a clean card dirty adds one dirty card.
proof fn lemma_dirty_cards_set(cards: Seq<u8>, i: int, v: u8)
    requires
        0 <= i < cards.len(),
        cards[i] == 0,
        v != 0,
    ensures
        dirty_cards(cards.update(i, v)) == dirty_cards(cards) + 1,
    decreases cards.len(),
{
    let u = cards.update(i, v);
    if i == cards.len() - 1 {
        assert(u.drop_last() =~= cards.drop_last());
    } else {
        lemma_dirty_cards_set(cards.drop_last(), i, v);
        assert(u.drop_last() =~= cards.drop_last().update(i, v));
    }
}

/// A table of clean cards has no dirty card.
proof fn lemma_dirty_cards_clean(cards: Seq<u8>)
    requires
        forall|i: int| 0 <= i < cards.len() ==> cards[i] == 0,
    ensures
        dirty_cards(cards) == 0,
    decreases cards.len(),
{
    if cards.len() > 0 {
        lemma_dirty_cards_clean(cards.drop_last());
    }
}

/// Size of one card in bytes.
pub const CARD_SIZE: usize = 256;

/// Write barrier: card table plus batched remembered-set updates.
pub struct WriteBarrier {
    /// Kind of barrier.
    barrier_type: WriteBarrierType,
    /// One byte per card; nonzero means dirty.
    card_table: Vec<u8>,
    /// Bytes per card.
    card_size: usize,
    /// Number of dirty cards.
    dirty_card_count: usize,
    /// Whether entries are batched.
    batch_update_enabled: bool,
    /// Entries waiting to be flushed.
    batch_buffer: Vec<RememberedSetEntry>,
    /// Buffer length that triggers a flush.
    batch_threshold: usize,
    /// When the buffer was last flushed.
    last_batch_update: std::time::Instant,
    /// Milliseconds since the last flush that trigger a flush.
    batch_time_threshold: u64,
    /// Keys of the entries buffered since the last flush.
    seen_entries: HashSet<u128>,
    /// Whether duplicate entries are dropped.
    deduplication_enabled: bool,
}

impl WriteBarrier {
    /// The card table.
    pub closed spec fn cards(&self) -> Seq<u8> {
        self.card_table@
    }

    /// Bytes per card.
    pub closed spec fn card_bytes(&self) -> usize {
        self.card_size
    }

    /// The recorded number of dirty cards.
    pub closed spec fn dirty_count(&self) -> usize {
        self.dirty_card_count
    }

    /// The kind of barrier.
    pub closed spec fn kind(&self) -> WriteBarrierType {
        self.barrier_type
    }

    /// The buffered entries.
    pub closed spec fn buffer(&self) -> Seq<RememberedSetEntry> {
        self.batch_buffer@
    }

    /// The keys seen since the last flush.
    pub closed spec fn seen(&self) -> Set<u128> {
        self.seen_entries@
    }

    /// Batching, de-duplication and thresholds.
    pub closed spec fn batching(&self) -> (bool, bool, usize, u64) {
        (self.batch_update_enabled, self.deduplication_enabled, self.batch_threshold, self.batch_time_threshold)
    }

    /// The barrier's invariant: cards are nonempty, and the dirty count is
    /// the number of dirty cards.
    pub closed spec fn wf(&self) -> bool {
        &&& self.card_size > 0
        &&& self.dirty_card_count == dirty_cards(self.card_table@)
    }

    /// The card holding `address`.
    pub open spec fn card_of(&self, address: usize) -> int {
        address as int / self.card_bytes() as int
    }

    /// Whether the card holding `address` exists and is dirty.
    pub open spec fn dirty_at(&self, address: usize) -> bool {
        let i = self.card_of(address);
        i < self.cards().len() && self.cards()[i] != 0
    }

    /// A card-table barrier with 256-byte cards, an empty table, batching
    /// and de-duplication on, a flush threshold of 100 entries and 1 ms.
    pub fn new() -> (b: Self)
        ensures
            b.wf(),
            b.kind() == WriteBarrierType::CardTable,
            b.card_bytes() == CARD_SIZE,
            b.cards().len() == 0,
            b.dirty_count() == 0,
            b.buffer().len() == 0,
            b.seen().is_empty(),
            b.batching() == (true, true, 100usize, 1u64),
    {
        WriteBarrier {
            barrier_type: WriteBarrierType::CardTable,
            card_table: Vec::new(),
            card_size: CARD_SIZE,
            dirty_card_count: 0,
            batch_update_enabled: true,
            batch_buffer: Vec::with_capacity(200),
            batch_threshold: 100,
            last_batch_update: instant_now(),
            batch_time_threshold: 1,
            seen_entries: HashSet::with_capacity(100),
            deduplication_enabled: true,
        }
    }

    /// The default barrier, of kind `barrier_type`.
    pub fn with_type(barrier_type: WriteBarrierType) -> (b: Self)
        ensures
            b.wf(),
            b.kind() == barrier_type,
            b.card_bytes() == CARD_SIZE,
            b.cards().len() == 0,
            b.dirty_count() == 0,
            b.buffer().len() == 0,
            b.seen().is_empty(),
            b.batching() == (true, true, 100usize, 1u64),
    {
        let mut b = Self::new();
        b.barrier_type = barrier_type;
        b
    }

    /// Sizes the card table for a heap of `heap_size` bytes (one card per
    /// started 256 bytes), all clean.
    pub fn init_card_table(&mut self, heap_size: usize)
        requires
            old(self).wf(),
            heap_size + old(self).card_bytes() <= usize::MAX,
        ensures
            final(self).wf(),
            final(self).cards() == Seq::new(
                ((heap_size + old(self).card_bytes() - 1) / (old(self).card_bytes() as int)) as nat, |i: int| 0u8),
            final(self).dirty_count() == 0,
            final(self).card_bytes() == old(self).card_bytes(),
            final(self).kind() == old(self).kind(),
            final(self).buffer() == old(self).buffer(),
            final(self).seen() == old(self).seen(),
            final(self).batching() == old(self).batching(),
    {
        let card_count = (heap_size + self.card_size - 1) / self.card_size;
        self.card_table = vec![0u8; card_count];
        self.dirty_card_count = 0;
        proof {
            assert(self.card_table@ =~= Seq::new(card_count as nat, |i: int| 0u8));
            lemma_dirty_cards_clean(self.card_table@);
        }
    }

    /// Marks the card holding `address` dirty, for a card-table barrier,
    /// when that card exists and was clean.
    pub fn mark_card_dirty(&mut self, address: usize)
        requires
            old(self).wf(),
        ensures
            final(self).wf(),
            ({
                let i = old(self).card_of(address);
                if old(self).kind() == WriteBarrierType::CardTable && i < old(self).cards().len()
                    && old(self).cards()[i] == 0 {
                    &&& final(self).cards() == old(self).cards().update(i, 1u8)
                    &&& final(self).dirty_count() == old(self).dirty_count() + 1
                } else {
                    &&& final(self).cards() == old(self).cards()
                    &&& final(self).dirty_count() == old(self).dirty_count()
                }
            }),
            final(self).card_bytes() == old(self).card_bytes(),
            final(self).kind() == old(self).kind(),
            final(self).buffer() == old(self).buffer(),
            final(self).seen() == old(self).seen(),
            final(self).batching() == old(self).batching(),
    {
        if self.barrier_type != WriteBarrierType::CardTable {
            return;
        }
        let card_index = address / self.card_size;
        if card_index < self.card_table.len() && self.card_table[card_index] == 0 {
            proof {
                lemma_dirty_cards_set(self.card_table@, card_index as int, 1u8);
                lemma_dirty_cards_bound(self.card_table@.update(card_index as int, 1u8));
            }
            self.card_table.set(card_index, 1);
            self.dirty_card_count += 1;
        }
    }

    /// Whether the card holding `address` exists and is dirty.
    pub fn is_card_dirty(&self, address: usize) -> (b: bool)
        requires
            self.wf(),
        ensures
            b == self.dirty_at(address),
    {
        let card_index = address / self.card_size;
        card_index < self.card_table.len() && self.card_table[card_index] != 0
    }

    /// Cleans every card.
    pub fn clear_dirty_cards(&mut self)
        requires
            old(self).wf(),
        ensures
            final(self).wf(),
            final(self).cards() == Seq::new(old(self).cards().len(), |i: int| 0u8),
            final(self).dirty_count() == 0,
            final(self).card_bytes() == old(self).card_bytes(),
            final(self).kind() == old(self).kind(),
            final(self).buffer() == old(self).buffer(),
            final(self).seen() == old(self).seen(),
            final(self).batching() == old(self).batching(),
    {
        let n = self.card_table.len();
        let mut i: usize = 0;
        while i < n
            invariant
                n == self.card_table@.len(),
                n == old(self).card_table@.len(),
                i <= n,
                forall|j: int| 0 <= j < i ==> self.card_table@[j] == 0,
                self.card_size == old(self).card_size,
                self.barrier_type == old(self).barrier_type,
                self.batch_buffer == old(self).batch_buffer,
                self.seen_entries == old(self).seen_entries,
                self.batch_update_enabled == old(self).batch_update_enabled,
                self.deduplication_enabled == old(self).deduplication_enabled,
                self.batch_threshold == old(self).batch_threshold,
                self.batch_time_threshold == old(self).batch_time_threshold,
                self.card_size > 0,
            decreases n - i,
        {
            self.card_table.set(i, 0);
            i = i + 1;
        }
        self.dirty_card_count = 0;
        proof {
            assert(self.card_table@ =~= Seq::new(n as nat, |i: int| 0u8));
            lemma_dirty_cards_clean(self.card_table@);
        }
    }

    /// Number of dirty cards.
    pub fn dirty_card_count(&self) -> (n: usize)
        ensures
            n == self.dirty_count(),
    {
        self.dirty_card_count
    }

    /// Records an old-to-young reference. Without batching the entry comes
    /// straight back. With de-duplication, an entry already buffered since
    /// the last flush is dropped (`None`). Otherwise it is buffered, and
    /// when the buffer reaches its threshold or the time threshold has
    /// passed since the last flush, the whole buffer is flushed and
    /// returned.
    pub fn add_remembered_entry(&mut self, entry: RememberedSetEntry) -> (r: Option<Vec<RememberedSetEntry>>)
        requires
            old(self).wf(),
        ensures
            final(self).wf(),
            ({
                let (batch, dedup, threshold, _) = old(self).batching();
                if !batch {
                    (r matches Some(v) && v@ == seq![entry]) && final(self).buffer() == old(self).buffer()
                        && final(self).seen() == old(self).seen()
                } else if dedup && old(self).seen().contains(entry.key()) {
                    r is None && final(self).buffer() == old(self).buffer() && final(self).seen() == old(self).seen()
                } else {
                    let buffered = old(self).buffer().push(entry);
                    let seen = if dedup { old(self).seen().insert(entry.key()) } else { old(self).seen() };
                    match r {
                        Some(flushed) => flushed@ == buffered && final(self).buffer().len() == 0
                            && final(self).seen().is_empty(),
                        None => buffered.len() < threshold && final(self).buffer() == buffered
                            && final(self).seen() == seen,
                    }
                }
            }),
            final(self).cards() == old(self).cards(),
            final(self).dirty_count() == old(self).dirty_count(),
            final(self).card_bytes() == old(self).card_bytes(),
            final(self).kind() == old(self).kind(),
            final(self).batching() == old(self).batching(),
    {
        if !self.batch_update_enabled {
            return Some(vec![entry]);
        }
        if self.deduplication_enabled {
            let key = entry.dedup_key();
            if self.seen_entries.contains(&key) {
                return None;
            }
            self.seen_entries.insert(key);
        }
        self.batch_buffer.push(entry);
        let elapsed = millis_since(&self.last_batch_update);
        self.flush_if_due(elapsed)
    }

    /// Flushes the buffer when it has reached its threshold or when
    /// `elapsed_ms` milliseconds since the last flush reach the time
    /// threshold; the flush time becomes now.
    pub fn flush_if_due(&mut self, elapsed_ms: u64) -> (r: Option<Vec<RememberedSetEntry>>)
        requires
            old(self).wf(),
        ensures
            final(self).wf(),
            ({
                let (_, _, threshold, time_threshold) = old(self).batching();
                if old(self).buffer().len() >= threshold || elapsed_ms >= time_threshold {
                    &&& r is Some
                    &&& final(self).buffer().len() == 0
                    &&& final(self).seen().is_empty()
                } else {
                    &&& r is None
                    &&& final(self).buffer() == old(self).buffer()
                    &&& final(self).seen() == old(self).seen()
                }
            }),
            r matches Some(v) ==> v@ == old(self).buffer(),
            final(self).cards() == old(self).cards(),
            final(self).dirty_count() == old(self).dirty_count(),
            final(self).card_bytes() == old(self).card_bytes(),
            final(self).kind() == old(self).kind(),
            final(self).batching() == old(self).batching(),
    {
        if self.batch_buffer.len() >= self.batch_threshold || elapsed_ms >= self.batch_time_threshold {
            let result = Some(self.flush_batch_buffer());
            self.last_batch_update = instant_now();
            result
        } else {
            None
        }
    }

    /// Empties the buffer and the de-duplication set, returning the
    /// buffered entries.
    pub fn flush_batch_buffer(&mut self) -> (entries: Vec<RememberedSetEntry>)
        requires
            old(self).wf(),
        ensures
            final(self).wf(),
            entries@ == old(self).buffer(),
            final(self).buffer().len() == 0,
            final(self).seen().is_empty(),
            final(self).cards() == old(self).cards(),
            final(self).dirty_count() == old(self).dirty_count(),
            final(self).card_bytes() == old(self).card_bytes(),
            final(self).kind() == old(self).kind(),
            final(self).batching() == old(self).batching(),
    {
        let result = self.batch_buffer.clone();
        self.batch_buffer.clear();
        self.seen_entries.clear();
        result
    }

    /// Sets the kind of barrier.
    pub fn set_barrier_type(&mut self, barrier_type: WriteBarrierType)
        requires
            old(self).wf(),
        ensures
            final(self).wf(),
            final(self).kind() == barrier_type,
            final(self).cards() == old(self).cards(),
            final(self).dirty_count() == old(self).dirty_count(),
            final(self).card_bytes() == old(self).card_bytes(),
            final(self).buffer() == old(self).buffer(),
            final(self).seen() == old(self).seen(),
            final(self).batching() == old(self).batching(),
    {
        self.barrier_type = barrier_type;
    }

    /// The kind of barrier.
    pub fn barrier_type(&self) -> (t: WriteBarrierType)
        ensures
            t == self.kind(),
    {
        self.barrier_type
    }

    /// Turns batching on or off.
    pub fn set_batch_update_enabled(&mut self, enabled: bool)
        requires
            old(self).wf(),
        ensures
            final(self).wf(),
            final(self).batching() == (enabled, old(self).batching().1, old(self).batching().2, old(self).batching().3),
            final(self).kind() == old(self).kind(),
            final(self).cards() == old(self).cards(),
            final(self).dirty_count() == old(self).dirty_count(),
            final(self).card_bytes() == old(self).card_bytes(),
            final(self).buffer() == old(self).buffer(),
            final(self).seen() == old(self).seen(),
    {
        self.batch_update_enabled = enabled;
    }

    /// Sets the buffer length that triggers a flush.
    pub fn set_batch_threshold(&mut self, threshold: usize)
        requires
            old(self).wf(),
        ensures
            final(self).wf(),
            final(self).batching() == (old(self).batching().0, old(self).batching().1, threshold, old(self).batching().3),
            final(self).kind() == old(self).kind(),
            final(self).cards() == old(self).cards(),
            final(self).dirty_count() == old(self).dirty_count(),
            final(self).card_bytes() == old(self).card_bytes(),
            final(self).buffer() == old(self).buffer(),
            final(self).seen() == old(self).seen(),
    {
        self.batch_threshold = threshold;
    }

    /// Sets the milliseconds since the last flush that trigger a flush.
    pub fn set_batch_time_threshold(&mut self, threshold_ms: u64)
        requires
            old(self).wf(),
        ensures
            final(self).wf(),
            final(self).batching() == (old(self).batching().0, old(self).batching().1, old(self).batching().2, threshold_ms),
            final(self).kind() == old(self).kind(),
            final(self).cards() == old(self).cards(),
            final(self).dirty_count() == old(self).dirty_count(),
            final(self).card_bytes() == old(self).card_bytes(),
            final(self).buffer() == old(self).buffer(),
            final(self).seen() == old(self).seen(),
    {
        self.batch_time_threshold = threshold_ms;
    }

    /// Turns de-duplication on or off.
    pub fn set_deduplication_enabled(&mut self, enabled: bool)
        requires
            old(self).wf(),
        ensures
            final(self).wf(),
            final(self).batching() == (old(self).batching().0, enabled, old(self).batching().2, old(self).batching().3),
            final(self).kind() == old(self).kind(),
            final(self).cards() == old(self).cards(),
            final(self).dirty_count() == old(self).dirty_count(),
            final(self).card_bytes() == old(self).card_bytes(),
            final(self).buffer() == old(self).buffer(),
            final(self).seen() == old(self).seen(),
    {
        self.deduplication_enabled = enabled;
    }

    /// Whether de-duplication is on.
    pub fn deduplication_enabled(&self) -> (b: bool)
        ensures
            b == self.batching().1,
    {
        self.deduplication_enabled
    }
}

/// After marking the card of an address inside the table of a card-table
/// barrier, that card reads dirty, whatever it was before.
pub proof fn lemma_mark_then_dirty(before: WriteBarrier, after: WriteBarrier, address: usize)
    requires
        before.wf(),
        before.kind() == WriteBarrierType::CardTable,
        before.card_of(address) < before.cards().len(),
        after.card_bytes() == before.card_bytes(),
        ({
            let i = before.card_of(address);
            if before.cards()[i] == 0 {
                after.cards() == before.cards().update(i, 1u8)
            } else {
                after.cards() == before.cards()
            }
        }),
    ensures
        after.dirty_at(address),
{
    let i = before.card_of(address);
    assert(i >= 0) by (nonlinear_arith)
        requires
            i == address as int / before.card_bytes() as int,
            before.card_bytes() > 0,
    ;
    assert(after.card_of(address) == i);
}

/// Every barrier operation keeps the dirty count equal to the number of
/// dirty cards: a well-formed barrier's count never exceeds its cards.
pub proof fn lemma_dirty_count_bounded(b: WriteBarrier)
    requires
        b.wf(),
    ensures
        b.dirty_count() <= b.cards().len(),
{
    lemma_dirty_cards_bound(b.cards());
}

/// There are never more dirty cards than cards.
proof fn lemma_dirty_cards_bound(cards: Seq<u8>)
    ensures
        dirty_cards(cards) <= cards.len(),
    decreases cards.len(),
{
    if cards.len() > 0 {
        lemma_dirty_cards_bound(cards.drop_last());
    }
}

impl Default for WriteBarrier {
    /// The same barrier as `new`.
    fn default() -> (b: Self)
        ensures
            b.wf(),
            b.kind() == WriteBarrierType::CardTable,
            b.card_bytes() == CARD_SIZE,
            b.cards().len() == 0,
            b.dirty_count() == 0,
            b.buffer().len() == 0,
            b.seen().is_empty(),
            b.batching() == (true, true, 100usize, 1u64),
    {
        WriteBarrier::new()
    }
}

} // verus!
