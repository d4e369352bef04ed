//! The perfect-hash function of the `ph` crate, and what is believed of it.

use crate::index::texts;
use vstd::prelude::*;

verus! {

/// The fingerprint-based minimal perfect hash function of `ph`.
#[verifier::external_type_specification]
#[verifier::external_body]
#[verifier::reject_recursive_types(S)]
pub struct ExFunction<S>(ph::fmph::Function<S>);

/// The seeded hasher family of `ph` over a hasher builder of std.
#[verifier::external_type_specification]
#[verifier::external_body]
#[verifier::reject_recursive_types(BH)]
pub struct ExSeedable<BH: std::hash::BuildHasher + Clone>(ph::Seedable<BH>);

/// The hasher builder of std that makes each hasher by its `Default`.
#[verifier::external_type_specification]
#[verifier::external_body]
#[verifier::reject_recursive_types(H)]
pub struct ExBuildHasherDefault<H>(std::hash::BuildHasherDefault<H>);

/// The perfect-hash function with the default seeded hasher.
pub type Mphf = ph::fmph::Function;

/// The slot that `f` gives each text key it answers for.
pub uninterp spec fn slots(f: Mphf) -> Map<Seq<char>, u64>;

/// Calls `ph::fmph::Function::get`. Believed: the answer depends on the
/// function and on the text of the key alone, so that asking again gives the
/// same answer. Nothing is believed about which keys are answered or with
/// which number.
#[verifier::external_body]
pub(crate) fn probe(f: &Mphf, key: &String) -> (slot: Option<u64>)
    ensures
        slot == (if slots(*f).contains_key(key@) {
            Some(slots(*f)[key@])
        } else {
            None
        }),
{
    f.get(key)
}

/// What building over the keys with these texts, in this order, comes to:
/// the slots of the function built, or nothing where none is built.
pub uninterp spec fn built(keys: Seq<Seq<char>>) -> Option<Map<Seq<char>, u64>>;

/// Calls `ph::fmph::Function::try_with_conf_stats` on the keys with the
/// default configuration. Believed: whether a function is built, and what
/// it then answers, depends on the texts of the keys and their order alone;
/// the number of threads at work does not enter. Nothing is believed about
/// when a function is built or about its slots: its user checks them one
/// by one.
#[verifier::external_body]
pub(crate) fn build(keys: &Vec<String>) -> (made: Option<Mphf>)
    ensures
        match made {
            Some(f) => built(texts(keys@)) == Some(slots(f)),
            None => built(texts(keys@)) is None,
        },
{
    ph::fmph::Function::try_with_conf_stats(
        ph::fmph::keyset::SliceSourceWithRefs::<_, u8>::new(keys.as_slice()),
        ph::fmph::BuildConf::default(),
        &mut (),
    )
}

} // verus!
