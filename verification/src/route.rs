//! Routing of keys to shards.
use std::collections::hash_map::DefaultHasher;
use std::hash::Hasher;
use vstd::prelude::*;
use vstd::std_specs::hash::DefaultHasherAdditionalSpecFns;

verus! {

/// The bytes that are fed to the hasher for a key: its eight bytes, least
/// significant first.
pub open spec fn key_bytes(key: u64) -> Seq<u8> {
    seq![
        key as u8,
        (key >> 8u64) as u8,
        (key >> 16u64) as u8,
        (key >> 24u64) as u8,
        (key >> 32u64) as u8,
        (key >> 40u64) as u8,
        (key >> 48u64) as u8,
        (key >> 56u64) as u8,
    ]
}

/// The 64-bit digest of a key: a fresh `DefaultHasher` that has been given
/// the key's bytes in one write, finished.
pub open spec fn key_digest(key: u64) -> u64 {
    DefaultHasher::spec_finish(seq![key_bytes(key)])
}

/// The shard a key belongs to among `num_shards` shards: the digest, taken
/// as a `usize`, modulo the number of shards.
pub open spec fn shard_of(key: u64, num_shards: nat) -> nat {
    ((key_digest(key) as usize) as nat) % num_shards
}

/// Hashes a key with a fresh `DefaultHasher`.
pub fn hash_key(key: u64) -> (digest: u64)
    ensures
        digest == key_digest(key),
{
    let bytes: [u8; 8] = [
        key as u8,
        (key >> 8u64) as u8,
        (key >> 16u64) as u8,
        (key >> 24u64) as u8,
        (key >> 32u64) as u8,
        (key >> 40u64) as u8,
        (key >> 48u64) as u8,
        (key >> 56u64) as u8,
    ];
    assert(bytes@ =~= key_bytes(key));
    let mut hasher = DefaultHasher::new();
    hasher.write(bytes.as_slice());
    assert(hasher@ =~= seq![key_bytes(key)]);
    hasher.finish()
}

/// The index of the shard that holds `key` among `num_shards` shards.
pub fn shard_index(key: u64, num_shards: usize) -> (index: usize)
    requires
        num_shards > 0,
    ensures
        index == shard_of(key, num_shards as nat),
        index < num_shards,
{
    let digest = hash_key(key);
    (digest as usize) % num_shards
}

} // verus!
