//! The header that prefixes every heap object managed by the collector.

use vstd::prelude::*;

verus! {

/// The smallest age at which an object counts as tenured (old generation).
pub const TENURE_AGE: u8 = 3;

/// Object header: the metadata the collector keeps for every heap object.
#[derive(Debug, Clone, Copy)]
pub struct ObjectHeader {
    /// Mark bit of the mark-and-sweep algorithm.
    pub mark: bool,
    /// Number of collections the object has survived.
    pub age: u8,
    /// Size of the object in bytes.
    pub size: usize,
    /// Reference count.
    pub ref_count: usize,
    /// Type tag of the object.
    pub type_id: u8,
}

impl ObjectHeader {
    /// A fresh header: unmarked, age and reference count zero.
    pub open spec fn fresh(size: usize, type_id: u8) -> ObjectHeader {
        ObjectHeader { mark: false, age: 0, size, ref_count: 0, type_id }
    }

    /// The header with one more reference.
    pub open spec fn with_ref_added(self) -> ObjectHeader {
        ObjectHeader { ref_count: (self.ref_count + 1) as usize, ..self }
    }

    /// The header with one reference fewer, not going below zero.
    pub open spec fn with_ref_dropped(self) -> ObjectHeader {
        ObjectHeader { ref_count: if self.ref_count > 0 { (self.ref_count - 1) as usize } else { 0 }, ..self }
    }

    /// The header one collection older, saturating at `u8::MAX`.
    pub open spec fn aged(self) -> ObjectHeader {
        ObjectHeader { age: if self.age < u8::MAX { (self.age + 1) as u8 } else { u8::MAX }, ..self }
    }

    /// Creates a fresh, unmarked header of age and reference count zero.
    pub fn new(size: usize, type_id: u8) -> (h: Self)
        ensures
            h == ObjectHeader::fresh(size, type_id),
    {
        Self { mark: false, age: 0, size, ref_count: 0, type_id }
    }

    /// Adds one to the reference count.
    pub fn increment_ref_count(&mut self)
        requires
            old(self).ref_count < usize::MAX,
        ensures
            *final(self) == old(self).with_ref_added(),
    {
        self.ref_count += 1;
    }

    /// Subtracts one from the reference count unless it is already zero,
    /// and returns the new count.
    pub fn decrement_ref_count(&mut self) -> (count: usize)
        ensures
            *final(self) == old(self).with_ref_dropped(),
            count == final(self).ref_count,
    {
        if self.ref_count > 0 {
            self.ref_count -= 1;
        }
        self.ref_count
    }

    /// Adds one to the age, saturating at `u8::MAX`.
    pub fn increment_age(&mut self)
        ensures
            *final(self) == old(self).aged(),
    {
        if self.age < u8::MAX {
            self.age += 1;
        }
    }

    /// Whether the object has reached the tenured (old-generation) age.
    pub fn is_tenured(&self) -> (b: bool)
        ensures
            b == (self.age >= TENURE_AGE),
    {
        self.age >= TENURE_AGE
    }
}

/// Adding a reference and then dropping one gives back the header.
pub proof fn lemma_ref_add_then_drop(h: ObjectHeader)
    requires
        h.ref_count < usize::MAX,
    ensures
        h.with_ref_added().with_ref_dropped() == h,
{
}

/// Ageing never makes an object younger, and a tenured object stays
/// tenured.
pub proof fn lemma_aging_monotone(h: ObjectHeader)
    ensures
        h.aged().age >= h.age,
        h.age >= TENURE_AGE ==> h.aged().age >= TENURE_AGE,
{
}

/// An object aged `TENURE_AGE` times from a fresh header is tenured.
pub proof fn lemma_fresh_tenured_after_three(size: usize, type_id: u8)
    ensures
        ObjectHeader::fresh(size, type_id).aged().aged().aged().age >= TENURE_AGE,
{
}

} // verus!
