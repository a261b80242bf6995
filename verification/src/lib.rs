//! Sharded key-value map and key set.
//!
//! Keys are spread over a fixed number of shards by hashing them with the
//! standard library's `DefaultHasher`; each shard is a hash map (or hash set)
//! of its own that sits behind its own lock, so that operations on keys of
//! different shards do not contend.
//!
//! The verified part of the crate is the routing of keys to shards, the
//! building of fresh shards, the operations on a single shard, and a model
//! of the shards' contents as a sequence, one entry per shard. Over that model
//! it is proved that calls carried out in their keys' home shards behave as
//! the same calls on one map or set. What a lock holds is opaque to Verus, so
//! nothing ties the locks of a `ShardMap` to that model: that a call reaches
//! the home shard rests on `get_shard_index` and the shard's own index, which
//! the caller checks after locking.

pub mod route;
pub mod shard;
pub mod model;
pub mod locks;
pub mod mutex;
pub mod mutex_set;
pub mod rwlock;
