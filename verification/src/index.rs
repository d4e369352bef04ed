//! The index: the perfect-hash function together with the key storage.

use crate::oracle::{probe, slots, Mphf};
use vstd::prelude::*;

verus! {

/// The texts of a sequence of keys, position by position.
pub open spec fn texts(keys: Seq<String>) -> Seq<Seq<char>> {
    Seq::new(keys.len(), |i: int| keys[i]@)
}

/// What an index keeps of the keys it was built over.
pub trait KeyStorage {
    /// Whether the keys themselves are kept, so that one can be read back.
    spec fn retains_keys(&self) -> bool;

    /// The number of slots.
    spec fn slot_count(&self) -> nat;

    /// The text of the key kept at slot `idx`.
    spec fn key_at(&self, idx: int) -> Seq<char>;

    /// The key kept at slot `idx`. Only a storage that keeps its keys can
    /// be asked.
    fn get(&self, idx: usize) -> (key: &String)
        requires
            self.retains_keys(),
            idx < self.slot_count(),
        ensures
            key@ == self.key_at(idx as int),
    ;

    /// The number of slots.
    fn len(&self) -> (n: usize)
        ensures
            n == self.slot_count(),
    ;
}

/// Key storage that keeps every key, in slot order.
pub struct WithKeys {
    keys: Vec<String>,
}

impl View for WithKeys {
    type V = Seq<Seq<char>>;

    closed spec fn view(&self) -> Seq<Seq<char>> {
        texts(self.keys@)
    }
}

impl WithKeys {
    /// Keeps `keys` as they are ordered: key `i` at slot `i`.
    pub fn new(keys: Vec<String>) -> (storage: Self)
        ensures
            storage@ == texts(keys@),
    {
        WithKeys { keys }
    }

    /// A copy of the keys, in slot order.
    pub fn get_keys(&self) -> (keys: Vec<String>)
        ensures
            texts(keys@) == self@,
    {
        let n = self.keys.len();
        let mut out: Vec<String> = Vec::new();
        let mut i: usize = 0;
        while i < n
            invariant
                i <= n,
                n == self.keys@.len(),
                out@.len() == i,
                forall|j: int| 0 <= j < i ==> (#[trigger] out@[j])@ == self.keys@[j]@,
            decreases n - i,
        {
            out.push(self.keys[i].clone());
            i += 1;
        }
        assert(texts(out@) =~= self@);
        out
    }
}

impl KeyStorage for WithKeys {
    open spec fn retains_keys(&self) -> bool {
        true
    }

    open spec fn slot_count(&self) -> nat {
        self@.len()
    }

    open spec fn key_at(&self, idx: int) -> Seq<char> {
        self@[idx]
    }

    fn get(&self, idx: usize) -> (key: &String) {
        &self.keys[idx]
    }

    fn len(&self) -> (n: usize) {
        self.keys.len()
    }
}

/// Key storage that keeps only the number of keys.
pub struct NoKeys {
    len: usize,
}

impl NoKeys {
    /// Storage for `len` keys, none of which is kept.
    pub fn new(len: usize) -> (storage: Self)
        ensures
            storage.slot_count() == len,
            !storage.retains_keys(),
    {
        NoKeys { len }
    }
}

impl KeyStorage for NoKeys {
    open spec fn retains_keys(&self) -> bool {
        false
    }

    closed spec fn slot_count(&self) -> nat {
        self.len as nat
    }

    open spec fn key_at(&self, idx: int) -> Seq<char> {
        Seq::empty()
    }

    /// Never to be called: this storage keeps no key to give.
    fn get(&self, idx: usize) -> (key: &String) {
        vstd::pervasive::unreached()
    }

    fn len(&self) -> (n: usize) {
        self.len
    }
}

/// A perfect-hash function paired with the storage of its keys.
pub struct FrozenIndex<S: KeyStorage> {
    pub mphf: Mphf,
    pub keys: S,
}

/// An index that can confirm that a slot belongs to the key asked for.
pub type VerifiedIndex = FrozenIndex<WithKeys>;

/// An index that trusts every key asked for to be one it was built over.
pub type UnverifiedIndex = FrozenIndex<NoKeys>;

impl<S: KeyStorage> FrozenIndex<S> {
    /// The slot that the function gives `key`, when it gives one and that
    /// one is a slot of the storage.
    pub open spec fn slot_of(&self, key: Seq<char>) -> Option<int> {
        if slots(self.mphf).contains_key(key) && slots(self.mphf)[key] < self.keys.slot_count() {
            Some(slots(self.mphf)[key] as int)
        } else {
            None
        }
    }

    /// Resolves `key` to its slot. A slot that comes back is below `len()`,
    /// whether or not the index was built over `key`.
    pub fn get_index(&self, key: &String) -> (slot: Option<usize>)
        ensures
            match slot {
                Some(s) => self.slot_of(key@) == Some(s as int) && s < self.keys.slot_count(),
                None => self.slot_of(key@) is None,
            },
    {
        let n = self.keys.len();
        match probe(&self.mphf, key) {
            Some(s) => {
                if s < n as u64 {
                    Some(s as usize)
                } else {
                    None
                }
            },
            None => None,
        }
    }

    /// The number of slots.
    pub fn len(&self) -> (n: usize)
        ensures
            n == self.keys.slot_count(),
    {
        self.keys.len()
    }
}

impl FrozenIndex<WithKeys> {
    /// Slot `i` holds the key that the function resolves to `i`.
    pub open spec fn wf(&self) -> bool {
        forall|i: int|
            0 <= i < self.keys@.len() ==> self.slot_of(#[trigger] self.keys@[i]) == Some(i)
    }

    /// `key` resolves to a slot, and that slot holds `key` itself.
    pub open spec fn holds(&self, key: Seq<char>) -> bool {
        match self.slot_of(key) {
            Some(s) => self.keys@[s] == key,
            None => false,
        }
    }

    /// In a well-formed index the keys held are the keys kept, no others.
    pub proof fn lemma_holds_kept(&self, key: Seq<char>)
        requires
            self.wf(),
        ensures
            self.holds(key) <==> self.keys@.contains(key),
    {
        if self.keys@.contains(key) {
            let i = self.keys@.index_of(key);
            assert(self.slot_of(self.keys@[i]) == Some(i));
        }
        if self.holds(key) {
            let s = self.slot_of(key).unwrap();
            assert(self.keys@[s] == key);
        }
    }

    /// Whether the index holds `key`: the key resolves to a slot and the key
    /// kept there is equal to it.
    pub fn contains_key(&self, key: &String) -> (found: bool)
        ensures
            found == self.holds(key@),
    {
        match self.get_index(key) {
            Some(idx) => *self.keys.get(idx) == *key,
            None => false,
        }
    }
}

} // verus!
