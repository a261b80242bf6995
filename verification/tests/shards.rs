use shardmap::route::{hash_key, shard_index};
use shardmap::shard::{MapShard, SetShard};
use std::collections::hash_map::DefaultHasher;
use std::hash::{Hash, Hasher};

#[test]
fn hash_key_is_default_hasher_over_le_bytes() {
    for key in [0u64, 1, 42, 0xdead_beef, u64::MAX] {
        let mut h = DefaultHasher::new();
        h.write(&key.to_le_bytes());
        assert_eq!(hash_key(key), h.finish());
    }
}

#[test]
fn hash_key_matches_hashing_the_key() {
    // On a little-endian machine, `u64::hash` feeds the same bytes.
    for key in [0u64, 7, 123_456_789, u64::MAX] {
        let mut h = DefaultHasher::new();
        key.hash(&mut h);
        assert_eq!(hash_key(key), h.finish());
    }
}

#[test]
fn hash_key_is_deterministic() {
    assert_eq!(hash_key(99), hash_key(99));
    assert_ne!(hash_key(1), hash_key(2));
}

#[test]
fn shard_index_is_in_range_and_stable() {
    for n in [1usize, 2, 3, 16, 64] {
        for key in 0u64..200 {
            let i = shard_index(key, n);
            assert!(i < n);
            assert_eq!(i, shard_index(key, n));
            assert_eq!(i, (hash_key(key) as usize) % n);
        }
    }
}

#[test]
fn single_shard_takes_every_key() {
    for key in 0u64..50 {
        assert_eq!(shard_index(key, 1), 0);
    }
}

#[test]
fn shard_index_spreads_keys() {
    let n = 16;
    let mut used = vec![false; n];
    for key in 0u64..1000 {
        used[shard_index(key, n)] = true;
    }
    assert!(used.iter().all(|u| *u));
}

fn key_for(shard: usize, count: usize, from: u64) -> u64 {
    let mut k = from;
    while shard_index(k, count) != shard {
        k += 1;
    }
    k
}

#[test]
fn map_shard_new_is_empty() {
    let s: MapShard<i32> = MapShard::new(2, 4);
    assert_eq!(s.id(), 2);
    assert_eq!(s.count(), 4);
    assert!(!s.contains_key(key_for(2, 4, 0)));
    assert_eq!(s.get_cloned(key_for(2, 4, 0)), None);
}

#[test]
fn map_shard_insert_returns_previous() {
    let mut s: MapShard<i32> = MapShard::new(0, 1);
    assert_eq!(s.insert(5, 10), None);
    assert_eq!(s.insert(5, 11), Some(10));
    assert_eq!(s.get_cloned(5), Some(11));
    assert!(s.contains_key(5));
    assert!(!s.contains_key(6));
}

#[test]
fn map_shard_remove() {
    let mut s: MapShard<String> = MapShard::new(0, 1);
    s.insert(1, "one".to_string());
    assert_eq!(s.remove(1), Some("one".to_string()));
    assert_eq!(s.remove(1), None);
    assert!(!s.contains_key(1));
    assert_eq!(s.get_cloned(1), None);
}

#[test]
fn map_shard_keeps_other_keys() {
    let k1 = key_for(1, 3, 0);
    let k2 = key_for(1, 3, k1 + 1);
    let mut s: MapShard<i32> = MapShard::new(1, 3);
    s.insert(k1, 1);
    s.insert(k2, 2);
    s.remove(k1);
    assert_eq!(s.get_cloned(k2), Some(2));
    assert_eq!(s.get_cloned(k1), None);
}

#[test]
fn map_shard_get_calls_closure_only_when_present() {
    let mut s: MapShard<i32> = MapShard::new(0, 1);
    s.insert(3, 30);
    let mut seen = None;
    assert!(s.get(3, |v| seen = Some(*v)));
    assert_eq!(seen, Some(30));
    let mut called = false;
    assert!(!s.get(4, |_| called = true));
    assert!(!called);
}

#[test]
fn map_shard_map_applies_function() {
    let mut s: MapShard<i32> = MapShard::new(0, 1);
    s.insert(3, 30);
    assert_eq!(s.map(3, |v| *v * 2), Some(60));
    assert_eq!(s.map(4, |v| *v * 2), None);
    assert_eq!(s.get_cloned(3), Some(30));
}

#[test]
fn map_shard_get_mut_changes_in_place() {
    let mut s: MapShard<Vec<i32>> = MapShard::new(0, 1);
    s.insert(1, vec![1]);
    assert!(s.get_mut(1, |v| v.push(2)));
    assert_eq!(s.get_cloned(1), Some(vec![1, 2]));
    assert!(!s.get_mut(9, |v| v.push(3)));
    assert!(!s.contains_key(9));
}

#[test]
fn map_shard_get_mut_then_clone_returns_new_value() {
    let mut s: MapShard<i32> = MapShard::new(0, 1);
    s.insert(1, 5);
    assert_eq!(s.get_mut_then_clone(1, |v| *v += 10), Some(15));
    assert_eq!(s.get_cloned(1), Some(15));
    assert_eq!(s.get_mut_then_clone(2, |v| *v += 10), None);
    assert!(!s.contains_key(2));
}

#[test]
fn set_shard_insert_contains_remove() {
    let mut s = SetShard::new(0, 1);
    assert_eq!(s.id(), 0);
    assert_eq!(s.count(), 1);
    assert!(!s.contains(7));
    assert!(s.insert(7));
    assert!(!s.insert(7));
    assert!(s.contains(7));
    assert!(s.remove(7));
    assert!(!s.remove(7));
    assert!(!s.contains(7));
}

#[test]
fn set_shard_routes_by_index() {
    let k = key_for(3, 5, 100);
    let mut s = SetShard::new(3, 5);
    assert!(s.insert(k));
    assert!(s.contains(k));
}

#[test]
fn map_shard_get_passes_stored_value_once() {
    let mut s: MapShard<i32> = MapShard::new(0, 1);
    assert_eq!(s.insert(1, 10), None);
    let mut seen = vec![];
    assert!(s.get(1, |v| seen.push(*v)));
    assert_eq!(seen, vec![10]);
    assert_eq!(s.get_cloned(1), Some(10));
}

#[test]
fn fresh_map_shards_are_numbered_and_empty() {
    let shards: Vec<MapShard<i32>> = shardmap::shard::fresh_map_shards(4);
    assert_eq!(shards.len(), 4);
    for (i, s) in shards.iter().enumerate() {
        assert_eq!(s.id(), i);
        assert_eq!(s.count(), 4);
        assert!(!s.contains_key(0));
    }
    assert!(shardmap::shard::fresh_map_shards::<i32>(0).is_empty());
}

#[test]
fn fresh_set_shards_are_numbered_and_empty() {
    let shards = shardmap::shard::fresh_set_shards(3);
    assert_eq!(shards.len(), 3);
    for (i, s) in shards.iter().enumerate() {
        assert_eq!(s.id(), i);
        assert_eq!(s.count(), 3);
        assert!(!s.contains(5));
    }
}

#[test]
fn map_shard_map_into_flattens_options() {
    let mut s: MapShard<i32> = MapShard::new(0, 1);
    assert_eq!(s.insert(1, 10), None);
    let big = |v: &i32| if *v > 100 { Some(*v) } else { None };
    assert_eq!(s.map_into(1, big), None::<i32>);
    let small = |v: &i32| if *v < 100 { Some(*v + 1) } else { None };
    assert_eq!(s.map_into(1, small), Some::<i32>(11));
    assert_eq!(s.map_into(2, small), None::<i32>);
    let plain = |v: &i32| *v * 3;
    assert_eq!(s.map_into::<_, i32, i32>(1, plain), Some(30));
    assert_eq!(s.get_cloned(1), Some(10));
}
