//! What it is for a perfect-hash function to place a list of keys, and what
//! follows from it.

use crate::oracle::{slots, Mphf};
use vstd::prelude::*;

verus! {

/// The map that pairs `keys[i]` with `values[i]` for every position `i`. For
/// a text that occurs more than once, one of its positions is taken.
pub open spec fn pairing<V>(keys: Seq<Seq<char>>, values: Seq<V>) -> Map<Seq<char>, V> {
    Map::new(|k: Seq<char>| keys.contains(k), |k: Seq<char>| values[keys.index_of(k)])
}

/// The slots `given` hold, for every key of `keys`, a slot below their
/// number, and for no two positions the same slot.
pub open spec fn seats_each(given: Map<Seq<char>, u64>, keys: Seq<Seq<char>>) -> bool {
    &&& forall|i: int|
        0 <= i < keys.len() ==> given.contains_key(#[trigger] keys[i]) && given[keys[i]]
            < keys.len()
    &&& forall|i: int, j: int|
        0 <= i < j < keys.len() ==> given[#[trigger] keys[i]] != given[#[trigger] keys[j]]
}

/// The function `f` gives every key of `keys` a slot below their number, and
/// no two positions the same slot.
pub open spec fn places_each(f: Mphf, keys: Seq<Seq<char>>) -> bool {
    seats_each(slots(f), keys)
}

/// A function that places each of `n` keys in a slot of its own below `n`
/// leaves no slot below `n` without a key.
pub proof fn lemma_onto(f: Mphf, keys: Seq<Seq<char>>, slot: int)
    requires
        places_each(f, keys),
        0 <= slot < keys.len(),
    ensures
        exists|i: int| 0 <= i < keys.len() && slots(f)[#[trigger] keys[i]] == slot,
{
    let n = keys.len() as int;
    let image = Set::new(|s: int| exists|i: int| 0 <= i < n && slots(f)[#[trigger] keys[i]] == s);
    lemma_image_len(f, keys, n);
    vstd::set_lib::lemma_int_range(0, n);
    assert(image_upto(f, keys, n) =~= image);
    assert(image.subset_of(vstd::set_lib::set_int_range(0, n)));
    vstd::set_lib::lemma_subset_equality(image, vstd::set_lib::set_int_range(0, n));
    assert(vstd::set_lib::set_int_range(0, n).contains(slot));
    assert(image.contains(slot));
}

/// The slots of the first `upto` keys.
spec fn image_upto(f: Mphf, keys: Seq<Seq<char>>, upto: int) -> Set<int> {
    Set::new(|s: int| exists|i: int| 0 <= i < upto && slots(f)[#[trigger] keys[i]] == s)
}

/// Keys placed in slots of their own take as many slots as there are keys.
proof fn lemma_image_len(f: Mphf, keys: Seq<Seq<char>>, upto: int)
    requires
        places_each(f, keys),
        0 <= upto <= keys.len(),
    ensures
        image_upto(f, keys, upto).finite(),
        image_upto(f, keys, upto).len() == upto,
    decreases upto,
{
    if upto == 0 {
        assert(image_upto(f, keys, upto) =~= Set::empty());
    } else {
        lemma_image_len(f, keys, upto - 1);
        let last = slots(f)[keys[upto - 1]] as int;
        let before = image_upto(f, keys, upto - 1);
        assert(!before.contains(last)) by {
            if before.contains(last) {
                let i = choose|i: int| 0 <= i < upto - 1 && slots(f)[#[trigger] keys[i]] == last;
                assert(slots(f)[keys[i]] != slots(f)[keys[upto - 1]]);
            }
        }
        assert(image_upto(f, keys, upto) =~= before.insert(last)) by {
            assert forall|s: int| before.insert(last).contains(s) implies image_upto(
                f,
                keys,
                upto,
            ).contains(s) by {
                if s == last {
                    assert(slots(f)[keys[upto - 1]] == s);
                } else {
                    let i = choose|i: int| 0 <= i < upto - 1 && slots(f)[#[trigger] keys[i]] == s;
                    assert(0 <= i < upto && slots(f)[keys[i]] == s);
                }
            }
        }
    }
}

} // verus!
