use frozen_map::{FrozenIndex, KeyStorage, NoKeys, UnverifiedIndex, VerifiedIndex, WithKeys};

fn word(s: &str) -> String {
    String::from(s)
}

fn words(prefix: &str, n: usize) -> Vec<String> {
    (0..n).map(|i| format!("{}-{}", prefix, i)).collect()
}

/// The keys in the slot order of the function built over them.
fn in_slot_order(keys: &[String]) -> Vec<String> {
    let mphf = ph::fmph::Function::from(keys);
    let mut seated = vec![String::new(); keys.len()];
    for key in keys {
        seated[mphf.get(key).expect("a key of the function") as usize] = key.clone();
    }
    seated
}

fn verified(keys: &[String]) -> VerifiedIndex {
    FrozenIndex { mphf: ph::fmph::Function::from(keys), keys: WithKeys::new(in_slot_order(keys)) }
}

fn unverified(keys: &[String]) -> UnverifiedIndex {
    FrozenIndex { mphf: ph::fmph::Function::from(keys), keys: NoKeys::new(keys.len()) }
}

#[test]
fn with_keys_keeps_keys_in_order() {
    let storage = WithKeys::new(vec![word("x"), word("y"), word("z")]);
    assert_eq!(storage.len(), 3);
    assert_eq!(storage.get(0), &word("x"));
    assert_eq!(storage.get(1), &word("y"));
    assert_eq!(storage.get(2), &word("z"));
    assert_eq!(storage.get_keys(), vec![word("x"), word("y"), word("z")]);
}

#[test]
fn with_keys_of_nothing() {
    let storage = WithKeys::new(Vec::new());
    assert_eq!(storage.len(), 0);
    assert!(storage.get_keys().is_empty());
}

#[test]
fn no_keys_keeps_the_count() {
    assert_eq!(NoKeys::new(0).len(), 0);
    assert_eq!(NoKeys::new(7).len(), 7);
    assert_eq!(NoKeys::new(usize::MAX).len(), usize::MAX);
}

#[test]
fn slots_of_members_are_a_bijection() {
    for n in [1usize, 2, 3, 10, 100, 1000] {
        let keys = words("key", n);
        let index = unverified(&keys);
        assert_eq!(index.len(), n);
        let mut seen = vec![false; n];
        for key in &keys {
            let slot = index.get_index(key).expect("a key of the index");
            assert!(slot < n);
            assert!(!seen[slot]);
            seen[slot] = true;
        }
        assert!(seen.iter().all(|hit| *hit));
    }
}

#[test]
fn slots_are_within_bounds_for_any_key() {
    for n in [0usize, 1, 5, 64, 500] {
        let keys = words("key", n);
        let index = verified(&keys);
        for key in keys.iter().chain(words("stranger", 2000).iter()) {
            if let Some(slot) = index.get_index(key) {
                assert!(slot < index.len());
            }
        }
    }
}

#[test]
fn a_slot_beyond_the_storage_is_no_slot() {
    let keys = words("key", 100);
    let index = FrozenIndex { mphf: ph::fmph::Function::from(keys.as_slice()), keys: NoKeys::new(10) };
    let mut resolved = 0usize;
    for key in &keys {
        if let Some(slot) = index.get_index(key) {
            assert!(slot < 10);
            resolved += 1;
        }
    }
    assert_eq!(resolved, 10);
}

#[test]
fn resolving_repeats() {
    let keys = words("key", 50);
    let index = unverified(&keys);
    for key in keys.iter().chain(words("stranger", 50).iter()) {
        assert_eq!(index.get_index(key), index.get_index(key));
    }
}

#[test]
fn verified_index_tells_members_from_strangers() {
    let keys = words("key", 300);
    let index = verified(&keys);
    assert_eq!(index.len(), 300);
    for key in &keys {
        assert!(index.contains_key(key));
    }
    for key in &words("stranger", 5000) {
        assert!(!index.contains_key(key));
    }
}

#[test]
fn verified_index_resolves_to_the_slot_of_the_key() {
    let keys = words("key", 300);
    let index = verified(&keys);
    for key in &keys {
        let slot = index.get_index(key).expect("a key of the index");
        assert_eq!(index.keys.get(slot), key);
    }
}

#[test]
fn empty_index_holds_nothing() {
    let index = verified(&[]);
    assert_eq!(index.len(), 0);
    assert_eq!(index.get_index(&word("a")), None);
    assert!(!index.contains_key(&word("a")));
    let bare = unverified(&[]);
    assert_eq!(bare.len(), 0);
    assert_eq!(bare.get_index(&word("a")), None);
}
