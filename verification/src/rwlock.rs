//! A sharded map and a sharded set whose shards each sit behind a `tokio`
//! read-write lock, so that readers of one shard do not exclude each other.
use crate::locks::new_rwlock;
use crate::route::{shard_index, shard_of};
use crate::shard::{fresh_map_shards, fresh_set_shards, MapShard, SetShard};
use std::sync::Arc;
use tokio::sync::RwLock;
use vstd::prelude::*;

verus! {

/// A map from `u64` keys to values, split into shards that are each guarded
/// by a read-write lock of their own.
///
/// An operation on a key computes the key's shard with
/// [`ShardMap::get_shard_index`], locks that shard (see [`ShardMap::shard`])
/// and runs the matching [`MapShard`] operation on it.
#[verifier::reject_recursive_types(V)]
pub struct ShardMap<V> {
    shards: Vec<Arc<RwLock<MapShard<V>>>>,
    num_shards: usize,
}

impl<V> ShardMap<V> {
    /// The number of shards.
    pub closed spec fn shard_count(&self) -> nat {
        self.num_shards as nat
    }

    /// The shard locks, the one of shard `i` at index `i`.
    pub closed spec fn locks(&self) -> Seq<Arc<RwLock<MapShard<V>>>> {
        self.shards@
    }

    /// One lock per shard.
    #[verifier::type_invariant]
    spec fn wf(&self) -> bool {
        self.shards@.len() == self.shard_count()
    }

    /// A map with `num_shards` shards. The lock at index `i` is made to hold
    /// the shard at index `i` of `fresh_map_shards(num_shards)`; what a lock
    /// holds is opaque to Verus, so the contract states only the counts.
    pub fn new(num_shards: usize) -> (map: Self)
        ensures
            map.shard_count() == num_shards,
            map.locks().len() == num_shards,
    {
        let fresh = fresh_map_shards(num_shards);
        let mut shards: Vec<Arc<RwLock<MapShard<V>>>> = Vec::with_capacity(num_shards);
        for shard in it: fresh.into_iter()
            invariant
                it.seq().len() == num_shards,
                shards@.len() == it.index(),
        {
            shards.push(Arc::new(new_rwlock(shard)));
        }
        ShardMap { shards, num_shards }
    }

    /// The number of shards.
    pub fn num_shards(&self) -> (n: usize)
        ensures
            n == self.shard_count(),
    {
        self.num_shards
    }

    /// The index of the shard that holds `key`.
    pub fn get_shard_index(&self, key: u64) -> (index: usize)
        requires
            self.shard_count() > 0,
        ensures
            index == shard_of(key, self.shard_count()),
            index < self.shard_count(),
    {
        shard_index(key, self.num_shards)
    }

    /// The lock of the shard at `index`.
    pub fn shard(&self, index: usize) -> (lock: &Arc<RwLock<MapShard<V>>>)
        requires
            index < self.shard_count(),
        ensures
            self.locks().len() == self.shard_count(),
            *lock == self.locks()[index as int],
    {
        proof {
            use_type_invariant(self);
        }
        &self.shards[index]
    }
}


/// A set of `u64` keys, split into shards that are each guarded by a
/// read-write lock of their own.
///
/// An operation on a key computes the key's shard with
/// [`ShardSet::get_shard_index`], locks that shard (see [`ShardSet::shard`])
/// and runs the matching [`SetShard`] operation on it.
pub struct ShardSet {
    shards: Vec<Arc<RwLock<SetShard>>>,
    num_shards: usize,
}

impl ShardSet {
    /// The number of shards.
    pub closed spec fn shard_count(&self) -> nat {
        self.num_shards as nat
    }

    /// The shard locks, the one of shard `i` at index `i`.
    pub closed spec fn locks(&self) -> Seq<Arc<RwLock<SetShard>>> {
        self.shards@
    }

    /// One lock per shard.
    #[verifier::type_invariant]
    spec fn wf(&self) -> bool {
        self.shards@.len() == self.shard_count()
    }

    /// A set with `num_shards` shards. The lock at index `i` is made to hold
    /// the shard at index `i` of `fresh_set_shards(num_shards)`; what a lock
    /// holds is opaque to Verus, so the contract states only the counts.
    pub fn new(num_shards: usize) -> (map: Self)
        ensures
            map.shard_count() == num_shards,
            map.locks().len() == num_shards,
    {
        let fresh = fresh_set_shards(num_shards);
        let mut shards: Vec<Arc<RwLock<SetShard>>> = Vec::with_capacity(num_shards);
        for shard in it: fresh.into_iter()
            invariant
                it.seq().len() == num_shards,
                shards@.len() == it.index(),
        {
            shards.push(Arc::new(new_rwlock(shard)));
        }
        ShardSet { shards, num_shards }
    }

    /// The number of shards.
    pub fn num_shards(&self) -> (n: usize)
        ensures
            n == self.shard_count(),
    {
        self.num_shards
    }

    /// The index of the shard that holds `key`.
    pub fn get_shard_index(&self, key: u64) -> (index: usize)
        requires
            self.shard_count() > 0,
        ensures
            index == shard_of(key, self.shard_count()),
            index < self.shard_count(),
    {
        shard_index(key, self.num_shards)
    }

    /// The lock of the shard at `index`.
    pub fn shard(&self, index: usize) -> (lock: &Arc<RwLock<SetShard>>)
        requires
            index < self.shard_count(),
        ensures
            self.locks().len() == self.shard_count(),
            *lock == self.locks()[index as int],
    {
        proof {
            use_type_invariant(self);
        }
        &self.shards[index]
    }
}

} // verus!
