//! A buffer that is filled slot by slot, in any order, before it is read.

use vstd::prelude::*;

verus! {

/// A buffer of a fixed number of slots, each empty or filled. The view gives
/// each slot as an `Option`: `None` while nothing was written to it.
pub struct InitVec<T> {
    slots: Vec<Option<T>>,
}

impl<T> View for InitVec<T> {
    type V = Seq<Option<T>>;

    closed spec fn view(&self) -> Seq<Option<T>> {
        self.slots@
    }
}

impl<T> InitVec<T> {
    /// Every slot is filled.
    pub open spec fn is_full(&self) -> bool {
        forall|i: int| 0 <= i < self@.len() ==> (#[trigger] self@[i]) is Some
    }

    /// A buffer of `len` empty slots.
    pub fn new(len: usize) -> (buf: Self)
        ensures
            buf@.len() == len,
            forall|i: int| 0 <= i < len ==> (#[trigger] buf@[i]) is None,
    {
        let mut slots: Vec<Option<T>> = Vec::new();
        let mut i: usize = 0;
        while i < len
            invariant
                i <= len,
                slots@.len() == i,
                forall|j: int| 0 <= j < i ==> (#[trigger] slots@[j]) is None,
            decreases len - i,
        {
            slots.push(None);
            i += 1;
        }
        InitVec { slots }
    }

    /// The number of slots.
    pub fn len(&self) -> (n: usize)
        ensures
            n == self@.len(),
    {
        self.slots.len()
    }

    /// Whether slot `idx` is filled; `false` when `idx` is not a slot.
    pub fn is_filled(&self, idx: usize) -> (filled: bool)
        ensures
            filled == (idx < self@.len() && self@[idx as int] is Some),
    {
        idx < self.slots.len() && self.slots[idx].is_some()
    }

    /// Writes `el` to slot `idx`, over what was there. No other slot changes.
    pub fn push(&mut self, idx: usize, el: T)
        requires
            idx < old(self)@.len(),
        ensures
            final(self)@ == old(self)@.update(idx as int, Some(el)),
    {
        self.slots[idx] = Some(el);
    }

    /// The contents in slot order, once every slot is filled.
    pub fn into_vec(self) -> (out: Vec<T>)
        requires
            self.is_full(),
        ensures
            out@.len() == self@.len(),
            forall|i: int| 0 <= i < out@.len() ==> Some(#[trigger] out@[i]) == self@[i],
    {
        let mut slots = self.slots;
        let n = slots.len();
        let ghost filled = slots@;
        let mut out: Vec<T> = Vec::new();
        let mut i: usize = 0;
        while i < n
            invariant
                i <= n,
                n == slots@.len(),
                n == filled.len(),
                out@.len() == i,
                forall|j: int| 0 <= j < n ==> (#[trigger] filled[j]) is Some,
                forall|j: int| i <= j < n ==> #[trigger] slots@[j] == filled[j],
                forall|j: int| 0 <= j < i ==> Some(#[trigger] out@[j]) == filled[j],
            decreases n - i,
        {
            let el = slots[i].take();
            out.push(el.unwrap());
            i += 1;
        }
        out
    }
}

} // verus!
