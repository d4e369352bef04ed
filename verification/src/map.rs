//! The frozen map: an index over the keys and a store of the values, both in
//! the slot order that one perfect-hash function assigns.

use crate::index::{texts, FrozenIndex, KeyStorage, VerifiedIndex, WithKeys};
use crate::init_vec::InitVec;
use crate::oracle::{build, built, probe, slots, Mphf};
use crate::placement::{lemma_onto, pairing, places_each, seats_each};
use crate::store::Store;
use vstd::prelude::*;

verus! {

/// An immutable map from text keys to values. Keys are fixed at
/// construction; a value can be replaced in place.
pub struct FrozenMap<V> {
    index: VerifiedIndex,
    store: Store<V>,
}

impl<V> View for FrozenMap<V> {
    type V = Map<Seq<char>, V>;

    /// The pairs that the map answers with: the keys it holds, each with the
    /// value at its slot.
    open spec fn view(&self) -> Map<Seq<char>, V> {
        Map::new(
            |k: Seq<char>| self.lookup(k) is Some,
            |k: Seq<char>| self.lookup(k).unwrap(),
        )
    }
}

impl<V> FrozenMap<V> {
    #[verifier::type_invariant]
    spec fn inv(self) -> bool {
        self.wf()
    }

    /// The index of the map.
    pub closed spec fn spec_index(&self) -> VerifiedIndex {
        self.index
    }

    /// The keys in slot order.
    pub open spec fn keys(&self) -> Seq<Seq<char>> {
        self.spec_index().keys@
    }

    /// The values in slot order.
    pub closed spec fn values(&self) -> Seq<V> {
        self.store@
    }

    /// Keys and values fill the same slots, and slot `i` holds the key that
    /// the perfect-hash function resolves to `i`.
    pub open spec fn wf(&self) -> bool {
        &&& self.spec_index().wf()
        &&& self.values().len() == self.keys().len()
    }

    /// The number of pairs.
    pub open spec fn spec_len(&self) -> nat {
        self.keys().len()
    }

    /// What a read of `key` gives: the value at the slot that `key` resolves
    /// to, when the key kept at that slot is `key` itself.
    pub open spec fn lookup(&self, key: Seq<char>) -> Option<V> {
        match self.spec_index().slot_of(key) {
            Some(s) => if self.keys()[s] == key && s < self.values().len() {
                Some(self.values()[s])
            } else {
                None
            },
            None => None,
        }
    }

    /// Builds the map of the pairs `(keys[i], values[i])`: a perfect-hash
    /// function is built over the keys, and the pairs are seated in its slot
    /// order. The map is made exactly when a function is built over the keys
    /// and gives every key a slot of its own below their number; otherwise
    /// nothing is made. With a key that occurs twice that is always so.
    pub fn init(keys: Vec<String>, values: Vec<V>) -> (made: Option<Self>)
        requires
            keys.len() == values.len(),
        ensures
            made is Some <==> (built(texts(keys@)) matches Some(given) && seats_each(
                given,
                texts(keys@),
            )),
            made matches Some(m) ==> {
                &&& m.wf()
                &&& built(texts(keys@)) == Some(slots(m.spec_index().mphf))
                &&& places_each(m.spec_index().mphf, texts(keys@))
                &&& texts(keys@).no_duplicates()
                &&& m.spec_len() == keys.len()
                &&& m@ == pairing(texts(keys@), values@)
                &&& forall|i: int|
                    0 <= i < keys.len() ==> m.lookup(#[trigger] texts(keys@)[i]) == Some(values@[i])
                &&& forall|k: Seq<char>| !texts(keys@).contains(k) ==> m.lookup(k) is None
            },
    {
        match build(&keys) {
            Some(mphf) => Self::assemble(mphf, keys, values),
            None => None,
        }
    }

    /// Seats the pairs `(keys[i], values[i])` in the slot order that `mphf`
    /// assigns. A map is made exactly when `mphf` gives every key a slot of
    /// its own below the number of keys; otherwise nothing is made.
    pub fn assemble(mphf: Mphf, keys: Vec<String>, values: Vec<V>) -> (made: Option<Self>)
        requires
            keys.len() == values.len(),
        ensures
            made is Some <==> places_each(mphf, texts(keys@)),
            made matches Some(m) ==> {
                &&& m.wf()
                &&& m.spec_index().mphf == mphf
                &&& texts(keys@).no_duplicates()
                &&& m.spec_len() == keys.len()
                &&& m@ == pairing(texts(keys@), values@)
                &&& forall|i: int|
                    0 <= i < keys.len() ==> {
                        let slot = slots(mphf)[#[trigger] texts(keys@)[i]] as int;
                        m.keys()[slot] == texts(keys@)[i] && m.values()[slot] == values@[i]
                    }
                &&& forall|i: int|
                    0 <= i < keys.len() ==> m.lookup(#[trigger] texts(keys@)[i]) == Some(values@[i])
                &&& forall|k: Seq<char>| !texts(keys@).contains(k) ==> m.lookup(k) is None
            },
    {
        let n = keys.len();
        let ghost ks = texts(keys@);
        let ghost vs = values@;
        let mut rest_keys = keys;
        let mut rest_values = values;
        let mut key_buf: InitVec<String> = InitVec::new(n);
        let mut val_buf: InitVec<V> = InitVec::new(n);
        let mut left: usize = n;
        while left > 0
            invariant
                left <= n,
                ks == texts(keys@),
                vs == values@,
                n == ks.len(),
                n == vs.len(),
                rest_keys@.len() == left,
                rest_values@.len() == left,
                forall|j: int| 0 <= j < left ==> (#[trigger] rest_keys@[j])@ == ks[j],
                forall|j: int| 0 <= j < left ==> #[trigger] rest_values@[j] == vs[j],
                key_buf@.len() == n,
                val_buf@.len() == n,
                forall|i: int|
                    left <= i < n ==> {
                        &&& slots(mphf).contains_key(#[trigger] ks[i])
                        &&& slots(mphf)[ks[i]] < n
                        &&& key_buf@[slots(mphf)[ks[i]] as int] is Some
                        &&& key_buf@[slots(mphf)[ks[i]] as int].unwrap()@ == ks[i]
                        &&& val_buf@[slots(mphf)[ks[i]] as int] == Some(vs[i])
                    },
                forall|i: int, j: int|
                    left <= i < j < n ==> slots(mphf)[#[trigger] ks[i]] != slots(mphf)[#[trigger] ks[j]],
                forall|s: int|
                    0 <= s < n && (#[trigger] key_buf@[s]) is Some ==> exists|i: int|
                        left <= i < n && slots(mphf)[#[trigger] ks[i]] == s,
                forall|s: int|
                    0 <= s < n ==> ((#[trigger] key_buf@[s]) is Some <==> val_buf@[s] is Some),
            ensures
                left == 0,
            decreases left,
        {
            let k = rest_keys.pop().unwrap();
            let v = rest_values.pop().unwrap();
            left -= 1;
            assert(k@ == ks[left as int]);
            match probe(&mphf, &k) {
                None => {
                    assert(!places_each(mphf, ks));
                    return None;
                },
                Some(s) => {
                    if s >= n as u64 {
                        assert(!places_each(mphf, ks));
                        return None;
                    }
                    let idx = s as usize;
                    if key_buf.is_filled(idx) {
                        proof {
                            let i = choose|i: int|
                                left < i < n && slots(mphf)[#[trigger] ks[i]] == idx;
                            assert(slots(mphf)[ks[left as int]] == slots(mphf)[ks[i]]);
                            assert(!places_each(mphf, ks));
                        }
                        return None;
                    }
                    key_buf.push(idx, k);
                    val_buf.push(idx, v);
                },
            }
        }
        let ghost kb = key_buf@;
        let ghost vb = val_buf@;
        proof {
            assert(places_each(mphf, ks));
            assert forall|s: int| 0 <= s < n implies (#[trigger] kb[s]) is Some by {
                lemma_onto(mphf, ks, s);
            }
            assert forall|s: int| 0 <= s < n implies (#[trigger] vb[s]) is Some by {
                assert(kb[s] is Some);
            }
        }
        let slot_keys = key_buf.into_vec();
        let slot_values = val_buf.into_vec();
        let index = FrozenIndex { mphf, keys: WithKeys::new(slot_keys) };
        let store = Store::new(slot_values);
        proof {
            assert forall|s: int| 0 <= s < n implies index.slot_of(#[trigger] index.keys@[s])
                == Some(s) by {
                assert(kb[s] is Some);
                let i = choose|i: int| 0 <= i < n && slots(mphf)[#[trigger] ks[i]] == s;
                assert(Some(slot_keys@[s]) == kb[s]);
                assert(slot_keys@[s]@ == ks[i]);
            }
            assert forall|i: int| 0 <= i < n implies {
                let slot = slots(mphf)[#[trigger] ks[i]] as int;
                index.keys@[slot] == ks[i] && store@[slot] == vs[i]
            } by {
                let slot = slots(mphf)[ks[i]] as int;
                assert(Some(slot_keys@[slot]) == kb[slot]);
                assert(Some(slot_values@[slot]) == vb[slot]);
            }
        }
        let made = FrozenMap { index, store };
        proof {
            made.lemma_pairs(ks, vs);
        }
        Some(made)
    }

    /// A map whose slots hold the pairs of `keys` and `values`, each at the
    /// slot of its key, answers with exactly those pairs.
    pub proof fn lemma_pairs(&self, keys: Seq<Seq<char>>, values: Seq<V>)
        requires
            self.wf(),
            keys.len() == values.len(),
            self.spec_len() == keys.len(),
            places_each(self.spec_index().mphf, keys),
            forall|i: int|
                0 <= i < keys.len() ==> {
                    let slot = slots(self.spec_index().mphf)[#[trigger] keys[i]] as int;
                    self.keys()[slot] == keys[i] && self.values()[slot] == values[i]
                },
        ensures
            keys.no_duplicates(),
            self@ == pairing(keys, values),
            forall|i: int| 0 <= i < keys.len() ==> self.lookup(#[trigger] keys[i]) == Some(values[i]),
            forall|k: Seq<char>| !keys.contains(k) ==> self.lookup(k) is None,
    {
        let f = self.spec_index().mphf;
        assert forall|i: int, j: int|
            0 <= i < keys.len() && 0 <= j < keys.len() && i != j implies keys[i] != keys[j] by {
            if i < j {
                assert(slots(f)[keys[i]] != slots(f)[keys[j]]);
            } else {
                assert(slots(f)[keys[j]] != slots(f)[keys[i]]);
            }
        }
        assert forall|k: Seq<char>| self@.contains_key(k) implies keys.contains(k) by {
            let s = self.spec_index().slot_of(k).unwrap();
            assert(self.keys()[s] == k);
            lemma_onto(f, keys, s);
            let i = choose|i: int| 0 <= i < keys.len() && slots(f)[#[trigger] keys[i]] == s;
            assert(keys[i] == k);
        }
        assert forall|k: Seq<char>| keys.contains(k) implies self@.contains_key(k) && self@[k]
            == pairing(keys, values)[k] by {
            let j = keys.index_of(k);
            assert(0 <= j < keys.len() && keys[j] == k);
            let s = slots(f)[keys[j]] as int;
            assert(self.keys()[s] == k);
        }
        assert(self@ =~= pairing(keys, values));
        assert forall|i: int| 0 <= i < keys.len() implies self.lookup(#[trigger] keys[i]) == Some(
            values[i],
        ) by {
            assert(keys.contains(keys[i]));
            assert(keys.index_of(keys[i]) == i);
        }
    }

    /// The keys that the map answers for are the keys it holds, no others.
    pub proof fn lemma_domain(&self)
        requires
            self.wf(),
        ensures
            forall|k: Seq<char>| self@.contains_key(k) <==> self.keys().contains(k),
    {
        assert forall|k: Seq<char>| self.keys().contains(k) implies self@.contains_key(k) by {
            let i = self.keys().index_of(k);
            assert(self.spec_index().slot_of(self.keys()[i]) == Some(i));
        }
        assert forall|k: Seq<char>| self@.contains_key(k) implies self.keys().contains(k) by {
            let s = self.spec_index().slot_of(k).unwrap();
            assert(self.keys()[s] == k);
        }
    }

    /// No key is held at two slots.
    pub proof fn lemma_keys_distinct(&self)
        requires
            self.wf(),
        ensures
            self.keys().no_duplicates(),
    {
        assert forall|i: int, j: int|
            0 <= i < self.keys().len() && 0 <= j < self.keys().len() && i != j implies self.keys()[i]
            != self.keys()[j] by {
            assert(self.spec_index().slot_of(self.keys()[i]) == Some(i));
            assert(self.spec_index().slot_of(self.keys()[j]) == Some(j));
        }
    }

    /// The value paired with `key`, or nothing when the map does not hold
    /// `key`.
    pub fn get(&self, key: &String) -> (value: Option<&V>)
        ensures
            match value {
                Some(v) => self.lookup(key@) == Some(*v),
                None => self.lookup(key@) is None,
            },
            match value {
                Some(v) => self@.contains_key(key@) && self@[key@] == *v,
                None => !self@.contains_key(key@),
            },
            value is Some <==> self.keys().contains(key@),
            self.wf(),
    {
        proof {
            use_type_invariant(self);
            self.lemma_domain();
        }
        match self.index.get_index(key) {
            Some(idx) => {
                if *self.index.keys.get(idx) == *key {
                    self.store.get_value(idx)
                } else {
                    None
                }
            },
            None => None,
        }
    }

    /// `after` is `self` with the value at slot `slot` replaced by `value`.
    pub open spec fn written(&self, after: Self, slot: int, value: V) -> bool {
        &&& after.spec_index() == self.spec_index()
        &&& after.values() == self.values().update(slot, value)
    }

    /// Replacing the value at the slot of a key that the map holds replaces
    /// the value of that key, and of no other.
    pub proof fn lemma_written(&self, after: Self, key: Seq<char>, value: V)
        requires
            self.lookup(key) is Some,
            self.written(after, self.spec_index().slot_of(key).unwrap(), value),
        ensures
            after@ == self@.insert(key, value),
    {
        assert(after@ =~= self@.insert(key, value));
    }

    /// Exclusive access to the value paired with `key`, or nothing when the
    /// map does not hold `key`. What the caller writes through the reference
    /// becomes the value of `key`; keys, and the values of all other keys,
    /// stay as they are.
    pub fn get_mut(&mut self, key: &String) -> (value: Option<&mut V>)
        ensures
            match value {
                Some(v) => old(self).lookup(key@) == Some(*v) && old(self).written(
                    *final(self),
                    old(self).spec_index().slot_of(key@).unwrap(),
                    *final(v),
                ) && final(self)@ == old(self)@.insert(key@, *final(v)),
                None => old(self).lookup(key@) is None && *final(self) == *old(self),
            },
            final(self).spec_len() == old(self).spec_len(),
            final(self).keys() == old(self).keys(),
            old(self).wf(),
            final(self).wf(),
    {
        let ghost before = *self;
        proof {
            use_type_invariant(&*self);
        }
        match self.index.get_index(key) {
            Some(idx) => {
                if *self.index.keys.get(idx) == *key {
                    proof {
                        assert forall|after: Self, value: V| #[trigger]
                            before.written(after, idx as int, value) && before.lookup(key@)
                                is Some implies after@ == before@.insert(key@, value) by {
                            before.lemma_written(after, key@, value);
                        }
                    }
                    self.store.get_mut_value(idx)
                } else {
                    None
                }
            },
            None => None,
        }
    }

    /// Whether the map holds `key`.
    pub fn contains(&self, key: &String) -> (found: bool)
        ensures
            found == self@.contains_key(key@),
            found == self.keys().contains(key@),
    {
        proof {
            use_type_invariant(self);
            self.lemma_domain();
        }
        self.index.contains_key(key)
    }

    /// Whether the map holds a value for `key`. Every key of the map has one,
    /// so this is whether the map holds `key`.
    pub fn contains_value(&self, key: &String) -> (found: bool)
        ensures
            found == self@.contains_key(key@),
            found == self.keys().contains(key@),
    {
        self.get(key).is_some()
    }

    /// A copy of the keys, in slot order.
    pub fn iter_keys(&self) -> (keys: Vec<String>)
        ensures
            texts(keys@) == self.keys(),
    {
        self.index.keys.get_keys()
    }

    /// The number of pairs.
    pub fn len(&self) -> (n: usize)
        ensures
            n == self.spec_len(),
            self.wf(),
    {
        proof {
            use_type_invariant(self);
        }
        self.index.keys.len()
    }
}

} // verus!
