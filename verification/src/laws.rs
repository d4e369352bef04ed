//! What holds of every frozen map, stated over the map's view and `lookup`.

use crate::index::{FrozenIndex, KeyStorage};
use crate::map::FrozenMap;
use crate::placement::pairing;
use vstd::prelude::*;

verus! {

/// A read answers with the pair of the view: the value of `key` when the view
/// holds `key`, nothing otherwise.
pub proof fn law_lookup_is_view<V>(m: FrozenMap<V>, key: Seq<char>)
    ensures
        m.lookup(key) == if m@.contains_key(key) {
            Some(m@[key])
        } else {
            None::<V>
        },
{
}

/// Round trip: a map that answers with the pairs of `keys` and `values`,
/// the keys pairwise distinct, gives for each `keys[i]` the value
/// `values[i]`.
pub proof fn law_round_trip<V>(m: FrozenMap<V>, keys: Seq<Seq<char>>, values: Seq<V>, i: int)
    requires
        keys.no_duplicates(),
        keys.len() == values.len(),
        m@ == pairing(keys, values),
        0 <= i < keys.len(),
    ensures
        m.lookup(keys[i]) == Some(values[i]),
{
    assert(keys.contains(keys[i]));
    assert(pairing(keys, values).contains_key(keys[i]));
    assert(m@.contains_key(keys[i]));
    assert(keys.index_of(keys[i]) == i);
    assert(m@[keys[i]] == values[i]);
}

/// Foreign keys are rejected: a map that answers with the pairs of `keys`
/// and `values` gives nothing for a key that is not among `keys`.
pub proof fn law_foreign_key_rejected<V>(
    m: FrozenMap<V>,
    keys: Seq<Seq<char>>,
    values: Seq<V>,
    key: Seq<char>,
)
    requires
        m@ == pairing(keys, values),
        !keys.contains(key),
    ensures
        m.lookup(key) is None,
        !m@.contains_key(key),
{
    assert(!pairing(keys, values).contains_key(key));
}

/// A read never gives the value of another key: what is read for `key` sits
/// at a slot whose own key is `key`.
pub proof fn law_no_borrowed_value<V>(m: FrozenMap<V>, key: Seq<char>)
    requires
        m.lookup(key) is Some,
    ensures
        m.keys().contains(key),
        m.spec_index().slot_of(key) matches Some(s) && m.keys()[s] == key && m.lookup(key)
            == Some(m.values()[s]),
{
    let s = m.spec_index().slot_of(key).unwrap();
    assert(m.keys()[s] == key);
}

/// Bounds safety: a slot that a key resolves to, whether the index was built
/// over the key or not, is a slot of the storage.
pub proof fn law_slot_in_bounds<S: KeyStorage>(index: FrozenIndex<S>, key: Seq<char>)
    ensures
        index.slot_of(key) matches Some(s) ==> 0 <= s < index.keys.slot_count(),
{
}

/// Reads repeat: two reads of one key from one map give the same.
pub proof fn law_reads_repeat<V>(m: FrozenMap<V>, key: Seq<char>, first: Option<V>, second: Option<V>)
    requires
        first == m.lookup(key),
        second == m.lookup(key),
    ensures
        first == second,
{
}

/// Mutation is isolated: after the value of a key that the map holds was
/// replaced, a read of that key gives the new value, a read of any other key
/// gives what it gave before, and the map holds the same keys.
pub proof fn law_write_isolated<V>(
    before: FrozenMap<V>,
    after: FrozenMap<V>,
    key: Seq<char>,
    value: V,
    other: Seq<char>,
)
    requires
        before.lookup(key) is Some,
        before.written(after, before.spec_index().slot_of(key).unwrap(), value),
    ensures
        after@ == before@.insert(key, value),
        after.lookup(key) == Some(value),
        other != key ==> after.lookup(other) == before.lookup(other),
        after.keys() == before.keys(),
        before.wf() ==> after.wf(),
{
    before.lemma_written(after, key, value);
    assert(after@.contains_key(key));
    if other != key {
        assert(after@.contains_key(other) == before@.contains_key(other));
    }
}

/// The length is kept: replacing a value leaves the number of pairs as it
/// was.
pub proof fn law_len_kept<V>(before: FrozenMap<V>, after: FrozenMap<V>, slot: int, value: V)
    requires
        before.written(after, slot, value),
    ensures
        after.spec_len() == before.spec_len(),
{
}

/// The length is the number of pairs given: a well-formed map that answers
/// with the pairs of `keys` and `values`, the keys pairwise distinct, has
/// as many slots as there are keys.
pub proof fn law_len_is_input_len<V>(m: FrozenMap<V>, keys: Seq<Seq<char>>, values: Seq<V>)
    requires
        m.wf(),
        keys.no_duplicates(),
        m@ == pairing(keys, values),
    ensures
        m.spec_len() == keys.len(),
{
    m.lemma_domain();
    m.lemma_keys_distinct();
    assert(m.keys().to_set() =~= keys.to_set());
    m.keys().unique_seq_to_set();
    keys.unique_seq_to_set();
}

} // verus!
