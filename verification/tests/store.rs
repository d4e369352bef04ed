use frozen_map::{InitVec, Store};

#[test]
fn store_reads_by_slot() {
    let store = Store::new(vec![10, 20, 30]);
    assert_eq!(store.len(), 3);
    assert_eq!(store.get_value(0), Some(&10));
    assert_eq!(store.get_value(1), Some(&20));
    assert_eq!(store.get_value(2), Some(&30));
}

#[test]
fn store_gives_nothing_out_of_bounds() {
    let mut store = Store::new(vec![10, 20, 30]);
    assert_eq!(store.get_value(3), None);
    assert_eq!(store.get_value(usize::MAX), None);
    assert!(store.get_mut_value(3).is_none());
    assert!(store.get_mut_value(usize::MAX).is_none());
    assert_eq!(store.len(), 3);
}

#[test]
fn empty_store_gives_nothing() {
    let mut store: Store<u8> = Store::new(Vec::new());
    assert_eq!(store.len(), 0);
    assert_eq!(store.get_value(0), None);
    assert!(store.get_mut_value(0).is_none());
}

#[test]
fn store_writes_one_slot() {
    let mut store = Store::new(vec![String::from("a"), String::from("b"), String::from("c")]);
    let slot = store.get_mut_value(1).expect("slot 1 of 3");
    assert_eq!(slot.as_str(), "b");
    slot.push('!');
    assert_eq!(store.get_value(0).map(|s| s.as_str()), Some("a"));
    assert_eq!(store.get_value(1).map(|s| s.as_str()), Some("b!"));
    assert_eq!(store.get_value(2).map(|s| s.as_str()), Some("c"));
    assert_eq!(store.len(), 3);
}

#[test]
fn init_vec_starts_empty() {
    let buf: InitVec<u8> = InitVec::new(4);
    assert_eq!(buf.len(), 4);
    for idx in 0..4 {
        assert!(!buf.is_filled(idx));
    }
    assert!(!buf.is_filled(4));
    assert!(!buf.is_filled(usize::MAX));
}

#[test]
fn init_vec_fills_in_any_order() {
    let mut buf = InitVec::new(4);
    buf.push(2, 'c');
    assert!(buf.is_filled(2));
    assert!(!buf.is_filled(0));
    buf.push(0, 'a');
    buf.push(3, 'd');
    buf.push(1, 'b');
    assert_eq!(buf.into_vec(), vec!['a', 'b', 'c', 'd']);
}

#[test]
fn init_vec_keeps_the_last_write() {
    let mut buf = InitVec::new(2);
    buf.push(0, 1);
    buf.push(1, 2);
    buf.push(0, 3);
    assert_eq!(buf.len(), 2);
    assert_eq!(buf.into_vec(), vec![3, 2]);
}

#[test]
fn init_vec_of_nothing() {
    let buf: InitVec<String> = InitVec::new(0);
    assert_eq!(buf.len(), 0);
    assert!(buf.into_vec().is_empty());
}
