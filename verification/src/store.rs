//! The value store: one owned buffer of values, addressed by slot.

use vstd::prelude::*;

verus! {

/// A fixed-size buffer of values. Slot `i` of the store is element `i` of its
/// view; every slot holds a value from construction on.
pub struct Store<V> {
    values: Vec<V>,
}

impl<V> View for Store<V> {
    type V = Seq<V>;

    closed spec fn view(&self) -> Seq<V> {
        self.values@
    }
}

impl<V> Store<V> {
    /// The number of slots.
    pub open spec fn spec_len(&self) -> nat {
        self@.len()
    }

    /// Takes over `values` as the buffer, slot by slot.
    pub fn new(values: Vec<V>) -> (store: Self)
        ensures
            store@ == values@,
    {
        Store { values }
    }

    /// The number of slots.
    pub fn len(&self) -> (n: usize)
        ensures
            n == self.spec_len(),
    {
        self.values.len()
    }

    /// The value at slot `idx`, or nothing when `idx` is not a slot.
    pub fn get_value(&self, idx: usize) -> (value: Option<&V>)
        ensures
            idx < self.spec_len() ==> value == Some(&self@[idx as int]),
            idx >= self.spec_len() ==> value is None,
    {
        if idx >= self.values.len() {
            None
        } else {
            Some(&self.values[idx])
        }
    }

    /// Exclusive access to the value at slot `idx`, or nothing when `idx` is
    /// not a slot. What the caller writes through the reference becomes the
    /// value at that slot; no other slot changes.
    pub fn get_mut_value(&mut self, idx: usize) -> (value: Option<&mut V>)
        ensures
            idx < old(self).spec_len() ==> value is Some
                && *value.unwrap() == old(self)@[idx as int]
                && final(self)@ == old(self)@.update(idx as int, *final(value.unwrap())),
            idx >= old(self).spec_len() ==> value is None && *final(self) == *old(self),
        no_unwind
    {
        if idx >= self.values.len() {
            None
        } else {
            Some(&mut self.values[idx])
        }
    }
}

} // verus!
