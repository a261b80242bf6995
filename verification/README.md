# shardmap

A concurrent map (and set) from `u64` keys, split into shards that each sit
behind their own `tokio` lock, so that tasks working on keys of different
shards do not contend. Two flavours: shards behind mutexes (`mutex`,
`mutex_set`) and shards behind read-write locks (`rwlock`).

Layout:

- `src/` — the library, verified with Verus:
  - `route` — a key's shard: its `DefaultHasher` digest modulo the shard count;
  - `shard` — one shard (`MapShard`, `SetShard`): a hash map or set that holds
    only keys routed to it, with its operations (insert, read, read through a
    closure, change in place through a closure, remove);
  - `model` — the shards' contents as a sequence read as one map or set, and
    the proofs that routed calls on such shards answer as the same calls on
    one map or set, whatever the number of shards;
  - `mutex`, `mutex_set`, `rwlock` — the sharded structures: one lock per shard;
  - `locks` — the `tokio` lock types as Verus sees them.
- `app/` — the asynchronous operations (route, await the shard's lock, run the
  shard operation) and a benchmark program.
- `tests/` — tests of the library.
