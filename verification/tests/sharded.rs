use shardmap::mutex::ShardMap as MutexShardMap;
use shardmap::mutex_set::ShardSet as MutexShardSet;
use shardmap::route::shard_index;
use shardmap::rwlock::{ShardMap as RwLockShardMap, ShardSet as RwLockShardSet};

fn m_insert<V>(m: &MutexShardMap<V>, key: u64, value: V) -> Option<V> {
    let i = m.get_shard_index(key);
    let mut shard = m.shard(i).blocking_lock();
    assert_eq!((shard.id(), shard.count()), (i, m.num_shards()));
    shard.insert(key, value)
}

fn m_get<V: Clone>(m: &MutexShardMap<V>, key: u64) -> Option<V> {
    let i = m.get_shard_index(key);
    let shard = m.shard(i).blocking_lock();
    shard.get_cloned(key)
}

fn m_remove<V>(m: &MutexShardMap<V>, key: u64) -> Option<V> {
    let i = m.get_shard_index(key);
    let mut shard = m.shard(i).blocking_lock();
    shard.remove(key)
}

fn m_contains<V>(m: &MutexShardMap<V>, key: u64) -> bool {
    let i = m.get_shard_index(key);
    let shard = m.shard(i).blocking_lock();
    shard.contains_key(key)
}

#[test]
fn new_makes_requested_shards() {
    let m: MutexShardMap<i32> = MutexShardMap::new(16);
    assert_eq!(m.num_shards(), 16);
    for i in 0..16 {
        let shard = m.shard(i).blocking_lock();
        assert_eq!(shard.id(), i);
        assert_eq!(shard.count(), 16);
    }
}

#[test]
fn new_with_zero_shards() {
    let m: MutexShardMap<i32> = MutexShardMap::new(0);
    assert_eq!(m.num_shards(), 0);
}

#[test]
fn get_shard_index_matches_routing() {
    let m: MutexShardMap<i32> = MutexShardMap::new(64);
    for key in 0u64..100 {
        assert_eq!(m.get_shard_index(key), shard_index(key, 64));
    }
}

#[test]
fn mutex_map_read_after_write() {
    let m = MutexShardMap::new(8);
    for k in 0u64..500 {
        assert_eq!(m_insert(&m, k, k * 10), None);
    }
    for k in 0u64..500 {
        assert_eq!(m_get(&m, k), Some(k * 10));
        assert!(m_contains(&m, k));
    }
    assert_eq!(m_get(&m, 500), None);
}

#[test]
fn mutex_map_insert_returns_previous() {
    let m = MutexShardMap::new(4);
    assert_eq!(m_insert(&m, 1, "a".to_string()), None);
    assert_eq!(m_insert(&m, 1, "b".to_string()), Some("a".to_string()));
    assert_eq!(m_get(&m, 1), Some("b".to_string()));
}

#[test]
fn mutex_map_remove_then_get() {
    let m = MutexShardMap::new(4);
    m_insert(&m, 3, 30);
    m_insert(&m, 4, 40);
    assert_eq!(m_remove(&m, 3), Some(30));
    assert_eq!(m_remove(&m, 3), None);
    assert_eq!(m_get(&m, 3), None);
    assert!(!m_contains(&m, 3));
    assert_eq!(m_get(&m, 4), Some(40));
}

#[test]
fn mutex_map_keys_live_in_one_shard() {
    let m = MutexShardMap::new(8);
    for k in 0u64..100 {
        m_insert(&m, k, k);
    }
    for k in 0u64..100 {
        let mut holders = 0;
        for i in 0..8 {
            if m.shard(i).blocking_lock().contains_key(k) {
                holders += 1;
                assert_eq!(i, m.get_shard_index(k));
            }
        }
        assert_eq!(holders, 1);
    }
}

#[test]
fn mutex_map_remove_undoes_insert() {
    let m = MutexShardMap::new(4);
    m_insert(&m, 1, 1);
    m_insert(&m, 2, 2);
    assert_eq!(m_insert(&m, 9, 9), None);
    assert_eq!(m_remove(&m, 9), Some(9));
    assert_eq!(m_get(&m, 9), None);
    assert_eq!(m_get(&m, 1), Some(1));
    assert_eq!(m_get(&m, 2), Some(2));
}

#[test]
fn mutex_set_insert_contains_remove() {
    let s = MutexShardSet::new(4);
    assert_eq!(s.num_shards(), 4);
    for k in 0u64..50 {
        let i = s.get_shard_index(k);
        let mut shard = s.shard(i).blocking_lock();
        assert_eq!(shard.id(), i);
        assert!(shard.insert(k));
        assert!(!shard.insert(k));
    }
    for k in 0u64..50 {
        let i = s.get_shard_index(k);
        assert!(s.shard(i).blocking_lock().contains(k));
    }
    let i = s.get_shard_index(10);
    assert!(s.shard(i).blocking_lock().remove(10));
    assert!(!s.shard(i).blocking_lock().contains(10));
    assert!(!s.shard(i).blocking_lock().remove(10));
}

#[test]
fn rwlock_map_operations() {
    let m: RwLockShardMap<i32> = RwLockShardMap::new(64);
    assert_eq!(m.num_shards(), 64);
    let i = m.get_shard_index(7);
    {
        let mut shard = m.shard(i).blocking_write();
        assert_eq!(shard.id(), i);
        assert_eq!(shard.insert(7, 1), None);
    }
    {
        let shard = m.shard(i).blocking_read();
        let mut seen = 0;
        assert!(shard.get(7, |v| seen = *v));
        assert_eq!(seen, 1);
        assert_eq!(shard.map(7, |v| Some(*v + 1)), Some(Some(2)));
        assert_eq!(shard.get_cloned(7), Some(1));
        assert!(shard.contains_key(7));
    }
    {
        let mut shard = m.shard(i).blocking_write();
        assert!(shard.get_mut(7, |v| *v = 5));
        assert_eq!(shard.get_mut_then_clone(7, |v| *v *= 2), Some(10));
        assert_eq!(shard.remove(7), Some(10));
        assert!(!shard.contains_key(7));
    }
}

#[test]
fn rwlock_set_operations() {
    let s = RwLockShardSet::new(3);
    let i = s.get_shard_index(11);
    assert!(s.shard(i).blocking_write().insert(11));
    assert!(s.shard(i).blocking_read().contains(11));
    assert!(s.shard(i).blocking_write().remove(11));
    assert!(!s.shard(i).blocking_read().contains(11));
}

#[test]
fn fresh_map_reads_nothing() {
    let m: MutexShardMap<i32> = MutexShardMap::new(5);
    for k in 0u64..100 {
        assert_eq!(m_get(&m, k), None);
        assert!(!m_contains(&m, k));
    }
}

#[test]
fn inserts_of_different_keys_commute() {
    let a = MutexShardMap::new(4);
    let b = MutexShardMap::new(4);
    m_insert(&a, 1, 10);
    m_insert(&a, 2, 20);
    m_insert(&b, 2, 20);
    m_insert(&b, 1, 10);
    for k in 0u64..4 {
        assert_eq!(m_get(&a, k), m_get(&b, k));
    }
    for i in 0..4 {
        let sa = a.shard(i).blocking_lock();
        let sb = b.shard(i).blocking_lock();
        for k in 0u64..4 {
            assert_eq!(sa.get_cloned(k), sb.get_cloned(k));
        }
    }
}

#[test]
fn shard_count_is_not_observable() {
    let a = MutexShardMap::new(1);
    let b = MutexShardMap::new(7);
    let c: RwLockShardMap<u64> = RwLockShardMap::new(64);
    let c_insert = |k: u64, v: u64| {
        let i = c.get_shard_index(k);
        c.shard(i).blocking_write().insert(k, v)
    };
    let c_remove = |k: u64| {
        let i = c.get_shard_index(k);
        c.shard(i).blocking_write().remove(k)
    };
    let c_get = |k: u64| {
        let i = c.get_shard_index(k);
        c.shard(i).blocking_read().get_cloned(k)
    };
    for k in 0u64..60 {
        let r = m_insert(&a, k % 20, k);
        assert_eq!(r, m_insert(&b, k % 20, k));
        assert_eq!(r, c_insert(k % 20, k));
        if k % 7 == 0 {
            let r = m_remove(&a, k % 13);
            assert_eq!(r, m_remove(&b, k % 13));
            assert_eq!(r, c_remove(k % 13));
        }
    }
    for k in 0u64..25 {
        assert_eq!(m_get(&a, k), m_get(&b, k));
        assert_eq!(m_get(&a, k), c_get(k));
        assert_eq!(m_contains(&a, k), m_contains(&b, k));
    }
}
