use storage_vec::{element_key, len_key, StorageVec};

fn fresh() -> StorageVec {
    StorageVec::new(b":vec".to_vec())
}

#[test]
fn empty_collection_reads_defaults() {
    let v = fresh();
    assert_eq!(v.count(), 0);
    assert_eq!(v.item(0), 0);
    assert_eq!(v.item(12345), 0);
    assert_eq!(v.items(), Vec::<u64>::new());
}

#[test]
fn push_then_read_back() {
    let mut v = fresh();
    v.push(69);
    assert_eq!(v.count(), 1);
    assert_eq!(v.item(0), 69);
    v.push(69426942);
    assert_eq!(v.count(), 2);
    assert_eq!(v.item(1), 69426942);
    assert_eq!(v.items(), vec![69, 69426942]);
}

#[test]
fn pushes_from_nonzero_count() {
    let mut v = fresh();
    v.set_count(3);
    v.push(7);
    v.push(8);
    v.push(9);
    assert_eq!(v.count(), 6);
    assert_eq!(v.items(), vec![0, 0, 0, 7, 8, 9]);
}

#[test]
fn shrink_clears_and_grow_keeps_default() {
    let mut v = fresh();
    v.set_items(&vec![1, 2, 3, 4]);
    v.set_count(1);
    assert_eq!(v.count(), 1);
    assert_eq!(v.item(1), 0);
    assert_eq!(v.item(3), 0);
    v.set_count(4);
    assert_eq!(v.items(), vec![1, 0, 0, 0]);
}

#[test]
fn set_item_at_count_is_rejected() {
    let mut v = fresh();
    v.push(5);
    v.set_item(1, 42);
    assert_eq!(v.count(), 1);
    assert_eq!(v.item(1), 0);
    v.set_item(0, 42);
    assert_eq!(v.item(0), 42);
}

#[test]
fn set_item_into_lazily_grown_slot() {
    let mut v = fresh();
    v.set_count(10);
    v.set_item(7, 3);
    assert_eq!(v.item(7), 3);
    assert_eq!(v.item(6), 0);
    assert_eq!(v.count(), 10);
}

#[test]
fn set_items_replaces_longer_contents() {
    let mut v = fresh();
    v.set_items(&vec![9, 9, 9, 9, 9]);
    v.set_items(&vec![1, 2]);
    assert_eq!(v.count(), 2);
    assert_eq!(v.items(), vec![1, 2]);
    assert_eq!(v.item(4), 0);
    let mut w = fresh();
    w.push(1);
    w.push(2);
    assert_eq!(w.items(), v.items());
}

#[test]
fn set_items_empty_clears_everything() {
    let mut v = fresh();
    v.set_items(&vec![4, 5]);
    v.set_items(&Vec::new());
    assert_eq!(v.count(), 0);
    assert_eq!(v.item(0), 0);
}

#[test]
fn clear_item_twice_same_as_once() {
    let mut v = fresh();
    v.set_items(&vec![10, 20, 30]);
    v.clear_item(1);
    let once = v.items();
    v.clear_item(1);
    assert_eq!(v.items(), once);
    assert_eq!(once, vec![10, 0, 30]);
    assert_eq!(v.count(), 3);
}

#[test]
fn clear_item_out_of_range_is_no_op() {
    let mut v = fresh();
    v.push(1);
    v.clear_item(1);
    v.clear_item(100);
    assert_eq!(v.items(), vec![1]);
}

#[test]
fn keys_are_derived_from_prefix() {
    let prefix = b":vec".to_vec();
    assert_eq!(element_key(&prefix, 0x01020304), b":vec\x04\x03\x02\x01".to_vec());
    assert_eq!(element_key(&prefix, 0), b":vec\x00\x00\x00\x00".to_vec());
    assert_eq!(len_key(&prefix), b":veclen".to_vec());
    let v = fresh();
    assert_eq!(v.slot_key(5), b":vec\x05\x00\x00\x00".to_vec());
    assert_eq!(v.count_key(), b":veclen".to_vec());
}
