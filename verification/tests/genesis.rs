//! The storage of the genesis block.

use full_node::genesis::{same_bytes, GenesisStorage};

fn storage() -> GenesisStorage {
    GenesisStorage::new(vec![
        (vec![3], vec![30]),
        (vec![1, 2], vec![12]),
        (vec![1], vec![10]),
        (vec![1, 2, 0], vec![]),
        (vec![255], vec![99, 98]),
    ])
}

#[test]
fn values_are_found_by_key() {
    let storage = storage();
    assert_eq!(storage.value(&[1, 2]), Some(&[12u8][..]));
    assert_eq!(storage.value(&[1, 2, 0]), Some(&[][..]));
    assert_eq!(storage.value(&[255]), Some(&[99u8, 98][..]));
    assert_eq!(storage.value(&[2]), None);
    assert_eq!(storage.value(&[]), None);
    assert_eq!(GenesisStorage::new(vec![]).value(&[1]), None);
}

#[test]
fn the_first_of_two_items_with_one_key_counts() {
    let storage = GenesisStorage::new(vec![(vec![1], vec![10]), (vec![1], vec![11])]);
    assert_eq!(storage.value(&[1]), Some(&[10u8][..]));
}

#[test]
fn items_keep_their_order() {
    let storage = storage();
    assert_eq!(storage.len(), 5);
    assert_eq!(storage.item(0), (&[3u8][..], &[30u8][..]));
    assert_eq!(storage.item(4), (&[255u8][..], &[99u8, 98][..]));
}

#[test]
fn next_key_is_the_first_one_behind() {
    let storage = storage();
    assert_eq!(storage.next_key(&[], false, &[]), Some(vec![1]));
    assert_eq!(storage.next_key(&[1], false, &[]), Some(vec![1, 2]));
    assert_eq!(storage.next_key(&[1], true, &[]), Some(vec![1]));
    assert_eq!(storage.next_key(&[1, 2], false, &[]), Some(vec![1, 2, 0]));
    assert_eq!(storage.next_key(&[1, 3], true, &[]), Some(vec![3]));
    assert_eq!(storage.next_key(&[255], false, &[]), None);
    assert_eq!(storage.next_key(&[255], true, &[]), Some(vec![255]));
}

#[test]
fn next_key_stays_under_the_prefix() {
    let storage = storage();
    assert_eq!(storage.next_key(&[], false, &[1, 2]), Some(vec![1, 2]));
    assert_eq!(storage.next_key(&[1, 2], false, &[1, 2]), Some(vec![1, 2, 0]));
    assert_eq!(storage.next_key(&[1, 2, 0], false, &[1, 2]), None);
    assert_eq!(storage.next_key(&[], false, &[2]), None);
    assert_eq!(storage.next_key(&[], true, &[1, 2, 0, 0]), None);
}

#[test]
fn walking_from_key_to_key_visits_all_in_order() {
    let storage = storage();
    let mut keys = Vec::new();
    let mut key = Vec::new();
    while let Some(next) = storage.next_key(&key, false, &[]) {
        keys.push(next.clone());
        key = next;
    }
    assert_eq!(
        keys,
        vec![vec![1], vec![1, 2], vec![1, 2, 0], vec![3], vec![255]]
    );
}

#[test]
fn bytes_are_compared() {
    assert!(same_bytes(&[], &[]));
    assert!(same_bytes(&[1, 2], &[1, 2]));
    assert!(!same_bytes(&[1, 2], &[1, 3]));
    assert!(!same_bytes(&[1, 2], &[1]));
}
