use peer_discovery::bytes::{array_eq, array_lt};
use peer_discovery::key_map::KeyMap;

fn key(first: u8, last: u8) -> [u8; 96] {
    let mut bytes = [0u8; 96];
    bytes[0] = first;
    bytes[95] = last;
    bytes
}

#[test]
fn entries_are_walked_in_ascending_order_of_their_keys() {
    let mut map = KeyMap::new();
    assert!(map.is_empty());
    for (k, v) in [(key(5, 0), 'e'), (key(1, 9), 'b'), (key(9, 0), 'z'), (key(1, 0), 'a'), (key(5, 1), 'f')] {
        map.insert(k, v);
    }
    assert_eq!(map.len(), 5);
    let keys: Vec<[u8; 96]> = (0..map.len()).map(|i| *map.key_at(i)).collect();
    assert_eq!(keys, vec![key(1, 0), key(1, 9), key(5, 0), key(5, 1), key(9, 0)]);
    let values: Vec<char> = (0..map.len()).map(|i| *map.value_at(i)).collect();
    assert_eq!(values, vec!['a', 'b', 'e', 'f', 'z']);
}

#[test]
fn insert_under_a_stored_key_replaces_the_value() {
    let mut map = KeyMap::new();
    map.insert(key(2, 0), 1);
    map.insert(key(1, 0), 2);
    map.insert(key(2, 0), 3);
    assert_eq!(map.len(), 2);
    assert_eq!(map.get(&key(2, 0)), Some(&3));
    assert_eq!(map.get(&key(1, 0)), Some(&2));
    assert_eq!(map.get(&key(3, 0)), None);
    assert_eq!(map.get(&key(0, 0)), None);
    assert_eq!(map.get(&key(1, 1)), None);
    assert!(map.contains_key(&key(1, 0)));
    assert!(!map.contains_key(&key(1, 1)));
}

#[test]
fn maps_with_the_same_entries_are_equal_whatever_the_order_of_insertion() {
    let mut one = KeyMap::new();
    one.insert(key(1, 0), 10);
    one.insert(key(2, 0), 20);
    let mut other = KeyMap::new();
    other.insert(key(2, 0), 0);
    other.insert(key(1, 0), 10);
    other.insert(key(2, 0), 20);
    assert_eq!(one, other);
}

#[test]
fn byte_strings_are_ordered_by_their_first_difference() {
    assert!(array_lt(&[1u8, 2, 3], &[1, 3, 0]));
    assert!(!array_lt(&[1u8, 3, 0], &[1, 2, 3]));
    assert!(!array_lt(&[1u8, 2, 3], &[1, 2, 3]));
    assert!(array_lt(&[0u8, 255, 255], &[1, 0, 0]));
    assert!(array_lt(&[1u8, 2, 3], &[1, 2, 4]));
    assert!(array_eq(&[1u8, 2, 3], &[1, 2, 3]));
    assert!(!array_eq(&[1u8, 2, 3], &[1, 2, 4]));
    assert!(!array_eq(&[0u8, 2, 3], &[1, 2, 3]));
    assert!(array_eq::<0>(&[], &[]));
    assert!(!array_lt::<0>(&[], &[]));
}
