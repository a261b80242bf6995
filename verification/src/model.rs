//! The sharded structures as one map and one set, and the laws that make the
//! shards behave as a single collection.
//!
//! A sharded map with `n` shards is modelled by the sequence of its shards'
//! contents, one map per shard index. It stands for the map that looks each
//! key up in the shard that the key routes to.
use crate::route::shard_of;
use crate::shard::{MapShard, SetShard};
use vstd::prelude::*;

verus! {

/// The shard index that `key` routes to among the shards of `shards`.
pub open spec fn home<T>(shards: Seq<T>, key: u64) -> int {
    shard_of(key, shards.len()) as int
}

/// Every shard holds only keys that route to it, and there is a shard.
pub open spec fn map_routed<V>(shards: Seq<Map<u64, V>>) -> bool {
    &&& shards.len() > 0
    &&& forall|i: int, k: u64|
        0 <= i < shards.len() && #[trigger] shards[i].contains_key(k) ==> home(shards, k) == i
}

/// The one map that the shards stand for: each key as its home shard maps it.
pub open spec fn merged_map<V>(shards: Seq<Map<u64, V>>) -> Map<u64, V> {
    Map::new(
        |k: u64| shards[home(shards, k)].contains_key(k),
        |k: u64| shards[home(shards, k)][k],
    )
}

/// Every shard holds only keys that route to it, and there is a shard.
pub open spec fn set_routed(shards: Seq<Set<u64>>) -> bool {
    &&& shards.len() > 0
    &&& forall|i: int, k: u64|
        0 <= i < shards.len() && #[trigger] shards[i].contains(k) ==> home(shards, k) == i
}

/// The one set that the shards stand for: each key as its home shard holds it.
pub open spec fn merged_set(shards: Seq<Set<u64>>) -> Set<u64> {
    Set::new(|k: u64| shards[home(shards, k)].contains(k))
}

/// The contents of a sequence of map shards.
pub open spec fn map_contents<V>(shards: Seq<MapShard<V>>) -> Seq<Map<u64, V>> {
    shards.map_values(|s: MapShard<V>| s@)
}

/// The contents of a sequence of set shards.
pub open spec fn set_contents(shards: Seq<SetShard>) -> Seq<Set<u64>> {
    shards.map_values(|s: SetShard| s@)
}

/// The shards of one sharded map: the shard at index `i` is well formed, has
/// index `i` and counts as many shards as there are.
pub open spec fn map_shards_consistent<V>(shards: Seq<MapShard<V>>) -> bool {
    &&& shards.len() > 0
    &&& forall|i: int|
        0 <= i < shards.len() ==> {
            &&& (#[trigger] shards[i]).wf()
            &&& shards[i].shard_id() == i
            &&& shards[i].shard_count() == shards.len()
        }
}

/// The shards of one sharded set, as for maps.
pub open spec fn set_shards_consistent(shards: Seq<SetShard>) -> bool {
    &&& shards.len() > 0
    &&& forall|i: int|
        0 <= i < shards.len() ==> {
            &&& (#[trigger] shards[i]).wf()
            &&& shards[i].shard_id() == i
            &&& shards[i].shard_count() == shards.len()
        }
}

/// Shards that are each well formed, each at its own index, hold only keys
/// that route to them.
pub proof fn lemma_map_shards_routed<V>(shards: Seq<MapShard<V>>)
    requires
        map_shards_consistent(shards),
    ensures
        map_routed(map_contents(shards)),
{
    let c = map_contents(shards);
    assert forall|i: int, k: u64| 0 <= i < c.len() && #[trigger] c[i].contains_key(k) implies home(
        c,
        k,
    ) == i by {
        assert(shards[i]@.contains_key(k));
    }
}

/// Set shards that are each well formed, each at its own index, hold only
/// keys that route to them.
pub proof fn lemma_set_shards_routed(shards: Seq<SetShard>)
    requires
        set_shards_consistent(shards),
    ensures
        set_routed(set_contents(shards)),
{
    let c = set_contents(shards);
    assert forall|i: int, k: u64| 0 <= i < c.len() && #[trigger] c[i].contains(k) implies home(
        c,
        k,
    ) == i by {
        assert(shards[i]@.contains(k));
    }
}

/// Among `n > 0` shards, a key routes to an index below `n`.
pub proof fn lemma_route_in_range(key: u64, n: nat)
    requires
        n > 0,
    ensures
        shard_of(key, n) < n,
{
}

/// Fresh empty shards stand for the empty map.
pub proof fn lemma_empty_map<V>(shards: Seq<Map<u64, V>>)
    requires
        shards.len() > 0,
        forall|i: int| 0 <= i < shards.len() ==> #[trigger] shards[i] == Map::<u64, V>::empty(),
    ensures
        map_routed(shards),
        merged_map(shards) == Map::<u64, V>::empty(),
{
    assert(merged_map(shards) =~= Map::<u64, V>::empty()) by {
        assert forall|k: u64| !#[trigger] merged_map(shards).contains_key(k) by {
            lemma_route_in_range(k, shards.len());
        }
    }
}

/// Keys live in one shard only: two different shards hold no common key.
pub proof fn lemma_map_shards_disjoint<V>(shards: Seq<Map<u64, V>>, i: int, j: int, k: u64)
    requires
        map_routed(shards),
        0 <= i < shards.len(),
        0 <= j < shards.len(),
        i != j,
    ensures
        !(shards[i].contains_key(k) && shards[j].contains_key(k)),
{
}

/// Looking a key up in its home shard is looking it up in the whole map; and
/// the whole map holds exactly the keys that some shard holds.
pub proof fn lemma_map_lookup<V>(shards: Seq<Map<u64, V>>, k: u64)
    requires
        map_routed(shards),
    ensures
        0 <= home(shards, k) < shards.len(),
        shards[home(shards, k)].get(k) == merged_map(shards).get(k),
        merged_map(shards).contains_key(k) <==> exists|i: int|
            0 <= i < shards.len() && #[trigger] shards[i].contains_key(k),
{
    lemma_route_in_range(k, shards.len());
}

/// Inserting into the key's home shard is inserting into the whole map: the
/// shards stay routed, the map gains exactly the new entry, and what the shard
/// held for the key is what the map held.
pub proof fn lemma_map_insert<V>(shards: Seq<Map<u64, V>>, k: u64, v: V)
    requires
        map_routed(shards),
    ensures
        ({
            let h = home(shards, k);
            let after = shards.update(h, shards[h].insert(k, v));
            &&& map_routed(after)
            &&& merged_map(after) == merged_map(shards).insert(k, v)
            &&& shards[h].get(k) == merged_map(shards).get(k)
        }),
{
    lemma_route_in_range(k, shards.len());
    let h = home(shards, k);
    let after = shards.update(h, shards[h].insert(k, v));
    assert(merged_map(after) =~= merged_map(shards).insert(k, v));
}

/// Removing from the key's home shard is removing from the whole map.
pub proof fn lemma_map_remove<V>(shards: Seq<Map<u64, V>>, k: u64)
    requires
        map_routed(shards),
    ensures
        ({
            let h = home(shards, k);
            let after = shards.update(h, shards[h].remove(k));
            &&& map_routed(after)
            &&& merged_map(after) == merged_map(shards).remove(k)
            &&& shards[h].get(k) == merged_map(shards).get(k)
        }),
{
    lemma_route_in_range(k, shards.len());
    let h = home(shards, k);
    let after = shards.update(h, shards[h].remove(k));
    assert(merged_map(after) =~= merged_map(shards).remove(k));
}

/// A read gives back the last write: after `v` is inserted for `k` through its
/// home shard, the home shard of `k` maps it to `v`, and every other key reads
/// as before.
pub proof fn lemma_map_read_after_write<V>(shards: Seq<Map<u64, V>>, k: u64, v: V, other: u64)
    requires
        map_routed(shards),
    ensures
        ({
            let after = shards.update(home(shards, k), shards[home(shards, k)].insert(k, v));
            &&& after[home(after, k)].get(k) == Some(v)
            &&& other != k ==> after[home(after, other)].get(other) == shards[home(
                shards,
                other,
            )].get(other)
        }),
{
    lemma_map_insert(shards, k, v);
    let after = shards.update(home(shards, k), shards[home(shards, k)].insert(k, v));
    lemma_map_lookup(after, k);
    lemma_map_lookup(after, other);
    lemma_map_lookup(shards, other);
}

/// A read after a removal finds nothing for the removed key, and every other
/// key reads as before.
pub proof fn lemma_map_read_after_remove<V>(shards: Seq<Map<u64, V>>, k: u64, other: u64)
    requires
        map_routed(shards),
    ensures
        ({
            let after = shards.update(home(shards, k), shards[home(shards, k)].remove(k));
            &&& after[home(after, k)].get(k) == None::<V>
            &&& other != k ==> after[home(after, other)].get(other) == shards[home(
                shards,
                other,
            )].get(other)
        }),
{
    lemma_map_remove(shards, k);
    let after = shards.update(home(shards, k), shards[home(shards, k)].remove(k));
    lemma_map_lookup(after, k);
    lemma_map_lookup(after, other);
    lemma_map_lookup(shards, other);
}

/// The sharded operation for a key touches only the key's home shard.
pub open spec fn insert_routed<V>(shards: Seq<Map<u64, V>>, k: u64, v: V) -> Seq<Map<u64, V>> {
    shards.update(home(shards, k), shards[home(shards, k)].insert(k, v))
}

/// Inserts of two different keys give the same shards in either order, so
/// writers of different keys need not be ordered; and where the two keys have
/// different home shards, each insert leaves the other key's shard untouched.
pub proof fn lemma_map_inserts_commute<V>(shards: Seq<Map<u64, V>>, k1: u64, v1: V, k2: u64, v2: V)
    requires
        map_routed(shards),
        k1 != k2,
    ensures
        insert_routed(insert_routed(shards, k1, v1), k2, v2) == insert_routed(
            insert_routed(shards, k2, v2),
            k1,
            v1,
        ),
        home(shards, k1) != home(shards, k2) ==> insert_routed(shards, k1, v1)[home(shards, k2)]
            == shards[home(shards, k2)],
{
    lemma_route_in_range(k1, shards.len());
    lemma_route_in_range(k2, shards.len());
    let a = insert_routed(insert_routed(shards, k1, v1), k2, v2);
    let b = insert_routed(insert_routed(shards, k2, v2), k1, v1);
    assert forall|i: int| 0 <= i < a.len() implies a[i] =~= b[i] by {}
    assert(a =~= b);
}

/// Removing a key that an insert has just added, where it was absent before,
/// gives back the map as it was.
pub proof fn lemma_map_remove_undoes_insert<V>(shards: Seq<Map<u64, V>>, k: u64, v: V)
    requires
        map_routed(shards),
        !merged_map(shards).contains_key(k),
    ensures
        ({
            let h = home(shards, k);
            let inserted = shards.update(h, shards[h].insert(k, v));
            let removed = inserted.update(h, inserted[h].remove(k));
            &&& removed == shards
            &&& merged_map(removed) == merged_map(shards)
        }),
{
    lemma_route_in_range(k, shards.len());
    let h = home(shards, k);
    let inserted = shards.update(h, shards[h].insert(k, v));
    let removed = inserted.update(h, inserted[h].remove(k));
    assert(removed[h] =~= shards[h]);
    assert(removed =~= shards);
}

/// Adding to the key's home shard is adding to the whole set; the shard's
/// answer to whether the key was new is the whole set's.
pub proof fn lemma_set_insert(shards: Seq<Set<u64>>, k: u64)
    requires
        set_routed(shards),
    ensures
        ({
            let h = home(shards, k);
            let after = shards.update(h, shards[h].insert(k));
            &&& set_routed(after)
            &&& merged_set(after) == merged_set(shards).insert(k)
            &&& shards[h].contains(k) == merged_set(shards).contains(k)
        }),
{
    lemma_route_in_range(k, shards.len());
    let h = home(shards, k);
    let after = shards.update(h, shards[h].insert(k));
    assert(merged_set(after) =~= merged_set(shards).insert(k));
}

/// Removing from the key's home shard is removing from the whole set.
pub proof fn lemma_set_remove(shards: Seq<Set<u64>>, k: u64)
    requires
        set_routed(shards),
    ensures
        ({
            let h = home(shards, k);
            let after = shards.update(h, shards[h].remove(k));
            &&& set_routed(after)
            &&& merged_set(after) == merged_set(shards).remove(k)
            &&& shards[h].contains(k) == merged_set(shards).contains(k)
        }),
{
    lemma_route_in_range(k, shards.len());
    let h = home(shards, k);
    let after = shards.update(h, shards[h].remove(k));
    assert(merged_set(after) =~= merged_set(shards).remove(k));
}

/// Fresh empty set shards stand for the empty set.
pub proof fn lemma_empty_set(shards: Seq<Set<u64>>)
    requires
        shards.len() > 0,
        forall|i: int| 0 <= i < shards.len() ==> #[trigger] shards[i] == Set::<u64>::empty(),
    ensures
        set_routed(shards),
        merged_set(shards) == Set::<u64>::empty(),
{
    assert(merged_set(shards) =~= Set::<u64>::empty()) by {
        assert forall|k: u64| !#[trigger] merged_set(shards).contains(k) by {
            lemma_route_in_range(k, shards.len());
        }
    }
}

/// In a consistent sequence of map shards, the home shard of every key is
/// the shard that accepts it, so `MapShard::insert` may always be called there.
pub proof fn lemma_map_home_routes<V>(shards: Seq<MapShard<V>>, k: u64)
    requires
        map_shards_consistent(shards),
    ensures
        0 <= home(shards, k) < shards.len(),
        shards[home(shards, k)].routes(k),
{
    lemma_route_in_range(k, shards.len());
}

/// Replacing the home shard of `k` by what `MapShard::insert` leaves keeps the
/// shards consistent and inserts into the map they stand for; the value that
/// the call returns is what that map held for `k`.
pub proof fn lemma_map_shard_insert<V>(shards: Seq<MapShard<V>>, k: u64, v: V, after: MapShard<V>)
    requires
        map_shards_consistent(shards),
        after.wf(),
        after.shard_id() == shards[home(shards, k)].shard_id(),
        after.shard_count() == shards[home(shards, k)].shard_count(),
        after@ == shards[home(shards, k)]@.insert(k, v),
    ensures
        ({
            let updated = shards.update(home(shards, k), after);
            &&& map_shards_consistent(updated)
            &&& merged_map(map_contents(updated)) == merged_map(map_contents(shards)).insert(k, v)
            &&& shards[home(shards, k)]@.get(k) == merged_map(map_contents(shards)).get(k)
        }),
{
    lemma_map_home_routes(shards, k);
    let h = home(shards, k);
    let updated = shards.update(h, after);
    lemma_map_shards_routed(shards);
    lemma_map_insert(map_contents(shards), k, v);
    assert(map_contents(updated) =~= map_contents(shards).update(h, shards[h]@.insert(k, v)));
}

/// Replacing the home shard of `k` by what `MapShard::remove` leaves keeps the
/// shards consistent and removes `k` from the map they stand for; the value
/// that the call returns is what that map held for `k`.
pub proof fn lemma_map_shard_remove<V>(shards: Seq<MapShard<V>>, k: u64, after: MapShard<V>)
    requires
        map_shards_consistent(shards),
        after.wf(),
        after.shard_id() == shards[home(shards, k)].shard_id(),
        after.shard_count() == shards[home(shards, k)].shard_count(),
        after@ == shards[home(shards, k)]@.remove(k),
    ensures
        ({
            let updated = shards.update(home(shards, k), after);
            &&& map_shards_consistent(updated)
            &&& merged_map(map_contents(updated)) == merged_map(map_contents(shards)).remove(k)
            &&& shards[home(shards, k)]@.get(k) == merged_map(map_contents(shards)).get(k)
        }),
{
    lemma_map_home_routes(shards, k);
    let h = home(shards, k);
    let updated = shards.update(h, after);
    lemma_map_shards_routed(shards);
    lemma_map_remove(map_contents(shards), k);
    assert(map_contents(updated) =~= map_contents(shards).update(h, shards[h]@.remove(k)));
}

/// Reading `k` from its home shard (`MapShard::contains_key`, `get_cloned`,
/// `get`, `map`) reads the map that a consistent sequence of shards stands for.
pub proof fn lemma_map_shard_lookup<V>(shards: Seq<MapShard<V>>, k: u64)
    requires
        map_shards_consistent(shards),
    ensures
        0 <= home(shards, k) < shards.len(),
        shards[home(shards, k)]@.get(k) == merged_map(map_contents(shards)).get(k),
{
    lemma_map_shards_routed(shards);
    lemma_map_lookup(map_contents(shards), k);
}

/// In a consistent sequence of set shards, the home shard of every key is the
/// shard that accepts it, so `SetShard::insert` may always be called there.
pub proof fn lemma_set_home_routes(shards: Seq<SetShard>, k: u64)
    requires
        set_shards_consistent(shards),
    ensures
        0 <= home(shards, k) < shards.len(),
        shards[home(shards, k)].routes(k),
{
    lemma_route_in_range(k, shards.len());
}

/// Replacing the home shard of `k` by what `SetShard::insert` leaves keeps the
/// shards consistent and adds `k` to the set they stand for; the call answers
/// `true` exactly where that set lacked `k`.
pub proof fn lemma_set_shard_insert(shards: Seq<SetShard>, k: u64, after: SetShard)
    requires
        set_shards_consistent(shards),
        after.wf(),
        after.shard_id() == shards[home(shards, k)].shard_id(),
        after.shard_count() == shards[home(shards, k)].shard_count(),
        after@ == shards[home(shards, k)]@.insert(k),
    ensures
        ({
            let updated = shards.update(home(shards, k), after);
            &&& set_shards_consistent(updated)
            &&& merged_set(set_contents(updated)) == merged_set(set_contents(shards)).insert(k)
            &&& shards[home(shards, k)]@.contains(k) == merged_set(set_contents(shards)).contains(k)
        }),
{
    lemma_set_home_routes(shards, k);
    let h = home(shards, k);
    let updated = shards.update(h, after);
    lemma_set_shards_routed(shards);
    lemma_set_insert(set_contents(shards), k);
    assert(set_contents(updated) =~= set_contents(shards).update(h, shards[h]@.insert(k)));
}

/// Replacing the home shard of `k` by what `SetShard::remove` leaves keeps the
/// shards consistent and removes `k` from the set they stand for; the call
/// answers `true` exactly where that set held `k`.
pub proof fn lemma_set_shard_remove(shards: Seq<SetShard>, k: u64, after: SetShard)
    requires
        set_shards_consistent(shards),
        after.wf(),
        after.shard_id() == shards[home(shards, k)].shard_id(),
        after.shard_count() == shards[home(shards, k)].shard_count(),
        after@ == shards[home(shards, k)]@.remove(k),
    ensures
        ({
            let updated = shards.update(home(shards, k), after);
            &&& set_shards_consistent(updated)
            &&& merged_set(set_contents(updated)) == merged_set(set_contents(shards)).remove(k)
            &&& shards[home(shards, k)]@.contains(k) == merged_set(set_contents(shards)).contains(k)
        }),
{
    lemma_set_home_routes(shards, k);
    let h = home(shards, k);
    let updated = shards.update(h, after);
    lemma_set_shards_routed(shards);
    lemma_set_remove(set_contents(shards), k);
    assert(set_contents(updated) =~= set_contents(shards).update(h, shards[h]@.remove(k)));
}

/// Fresh map shards, as `fresh_map_shards` builds them, are consistent and
/// stand for the empty map.
pub proof fn lemma_fresh_map_shards<V>(shards: Seq<MapShard<V>>)
    requires
        shards.len() > 0,
        forall|i: int|
            0 <= i < shards.len() ==> {
                &&& (#[trigger] shards[i]).wf()
                &&& shards[i].shard_id() == i
                &&& shards[i].shard_count() == shards.len()
                &&& shards[i]@ == Map::<u64, V>::empty()
            },
    ensures
        map_shards_consistent(shards),
        merged_map(map_contents(shards)) == Map::<u64, V>::empty(),
{
    let c = map_contents(shards);
    assert forall|i: int| 0 <= i < c.len() implies #[trigger] c[i] == Map::<u64, V>::empty() by {
        assert(shards[i]@ == Map::<u64, V>::empty());
    }
    lemma_empty_map(c);
}

/// Fresh set shards, as `fresh_set_shards` builds them, are consistent and
/// stand for the empty set.
pub proof fn lemma_fresh_set_shards(shards: Seq<SetShard>)
    requires
        shards.len() > 0,
        forall|i: int|
            0 <= i < shards.len() ==> {
                &&& (#[trigger] shards[i]).wf()
                &&& shards[i].shard_id() == i
                &&& shards[i].shard_count() == shards.len()
                &&& shards[i]@ == Set::<u64>::empty()
            },
    ensures
        set_shards_consistent(shards),
        merged_set(set_contents(shards)) == Set::<u64>::empty(),
{
    let c = set_contents(shards);
    assert forall|i: int| 0 <= i < c.len() implies #[trigger] c[i] == Set::<u64>::empty() by {
        assert(shards[i]@ == Set::<u64>::empty());
    }
    lemma_empty_set(c);
}

/// On the shards that `fresh_set_shards` builds, every key's home shard
/// accepts the key and does not hold it: `SetShard::contains` answers `false`,
/// the first `SetShard::insert` answers `true` (the key is new) and
/// `SetShard::remove` answers `false`, for every key and every shard count.
pub proof fn lemma_fresh_set_first_calls(shards: Seq<SetShard>, k: u64)
    requires
        shards.len() > 0,
        forall|i: int|
            0 <= i < shards.len() ==> {
                &&& (#[trigger] shards[i]).wf()
                &&& shards[i].shard_id() == i
                &&& shards[i].shard_count() == shards.len()
                &&& shards[i]@ == Set::<u64>::empty()
            },
    ensures
        0 <= home(shards, k) < shards.len(),
        shards[home(shards, k)].routes(k),
        !shards[home(shards, k)]@.contains(k),
        !merged_set(set_contents(shards)).contains(k),
{
    lemma_fresh_set_shards(shards);
    lemma_set_home_routes(shards, k);
}

/// On the shards that `fresh_map_shards` builds, every key's home shard
/// accepts the key and maps nothing for it: `MapShard::insert` answers `None`
/// (no previous value), `get_cloned` and `remove` answer `None` and
/// `contains_key` answers `false`, for every key and every shard count.
pub proof fn lemma_fresh_map_first_calls<V>(shards: Seq<MapShard<V>>, k: u64)
    requires
        shards.len() > 0,
        forall|i: int|
            0 <= i < shards.len() ==> {
                &&& (#[trigger] shards[i]).wf()
                &&& shards[i].shard_id() == i
                &&& shards[i].shard_count() == shards.len()
                &&& shards[i]@ == Map::<u64, V>::empty()
            },
    ensures
        0 <= home(shards, k) < shards.len(),
        shards[home(shards, k)].routes(k),
        shards[home(shards, k)]@.get(k) == None::<V>,
        !shards[home(shards, k)]@.contains_key(k),
        merged_map(map_contents(shards)).get(k) == None::<V>,
{
    lemma_fresh_map_shards(shards);
    lemma_map_home_routes(shards, k);
}

/// A call on a sharded map: the key it is about and what it does.
pub enum MapCall<V> {
    /// `insert(key, value)`.
    Insert(u64, V),
    /// `remove(key)`.
    Remove(u64),
    /// `get(key)` (or `get_cloned(key)`): the value that `key` maps to.
    Get(u64),
    /// `contains_key(key)`.
    ContainsKey(u64),
}

/// What a call on a sharded map answers.
pub enum MapReply<V> {
    /// The previous or removed value, or the value read.
    Value(Option<V>),
    /// Whether the key was present.
    Present(bool),
}

/// One call on the shards, carried out in the key's home shard: the shards
/// afterwards and the answer.
pub open spec fn shards_step<V>(shards: Seq<Map<u64, V>>, call: MapCall<V>) -> (Seq<Map<u64, V>>, MapReply<V>) {
    match call {
        MapCall::Insert(k, v) => (
            shards.update(home(shards, k), shards[home(shards, k)].insert(k, v)),
            MapReply::Value(shards[home(shards, k)].get(k)),
        ),
        MapCall::Remove(k) => (
            shards.update(home(shards, k), shards[home(shards, k)].remove(k)),
            MapReply::Value(shards[home(shards, k)].get(k)),
        ),
        MapCall::Get(k) => (shards, MapReply::Value(shards[home(shards, k)].get(k))),
        MapCall::ContainsKey(k) => (shards, MapReply::Present(shards[home(shards, k)].contains_key(k))),
    }
}

/// One call on a single, unsharded map: the map afterwards and the answer.
pub open spec fn map_step<V>(m: Map<u64, V>, call: MapCall<V>) -> (Map<u64, V>, MapReply<V>) {
    match call {
        MapCall::Insert(k, v) => (m.insert(k, v), MapReply::Value(m.get(k))),
        MapCall::Remove(k) => (m.remove(k), MapReply::Value(m.get(k))),
        MapCall::Get(k) => (m, MapReply::Value(m.get(k))),
        MapCall::ContainsKey(k) => (m, MapReply::Present(m.contains_key(k))),
    }
}

/// A sequence of calls on the shards, in order: the shards afterwards and the
/// answers.
pub open spec fn shards_run<V>(shards: Seq<Map<u64, V>>, calls: Seq<MapCall<V>>) -> (Seq<Map<u64, V>>, Seq<MapReply<V>>)
    decreases calls.len(),
{
    if calls.len() == 0 {
        (shards, Seq::empty())
    } else {
        let (next, reply) = shards_step(shards, calls[0]);
        let (last, replies) = shards_run(next, calls.drop_first());
        (last, seq![reply] + replies)
    }
}

/// A sequence of calls on a single map, in order: the map afterwards and the
/// answers.
pub open spec fn map_run<V>(m: Map<u64, V>, calls: Seq<MapCall<V>>) -> (Map<u64, V>, Seq<MapReply<V>>)
    decreases calls.len(),
{
    if calls.len() == 0 {
        (m, Seq::empty())
    } else {
        let (next, reply) = map_step(m, calls[0]);
        let (last, replies) = map_run(next, calls.drop_first());
        (last, seq![reply] + replies)
    }
}

/// One call carried out in its key's home shard answers as the same call on
/// the one map, and leaves shards that are routed and stand for that map after
/// the call.
pub proof fn lemma_shards_step<V>(shards: Seq<Map<u64, V>>, call: MapCall<V>)
    requires
        map_routed(shards),
    ensures
        map_routed(shards_step(shards, call).0),
        shards_step(shards, call).0.len() == shards.len(),
        merged_map(shards_step(shards, call).0) == map_step(merged_map(shards), call).0,
        shards_step(shards, call).1 == map_step(merged_map(shards), call).1,
{
    match call {
        MapCall::Insert(k, v) => {
            lemma_map_insert(shards, k, v);
        },
        MapCall::Remove(k) => {
            lemma_map_remove(shards, k);
        },
        MapCall::Get(k) => {
            lemma_map_lookup(shards, k);
        },
        MapCall::ContainsKey(k) => {
            lemma_map_lookup(shards, k);
        },
    }
}

/// Any sequence of calls on a sharded map, each carried out in its key's home
/// shard, gives the answers of the same calls on one unsharded map, and
/// leaves shards that stand for that map's final state.
pub proof fn lemma_shards_run<V>(shards: Seq<Map<u64, V>>, calls: Seq<MapCall<V>>)
    requires
        map_routed(shards),
    ensures
        map_routed(shards_run(shards, calls).0),
        merged_map(shards_run(shards, calls).0) == map_run(merged_map(shards), calls).0,
        shards_run(shards, calls).1 == map_run(merged_map(shards), calls).1,
    decreases calls.len(),
{
    if calls.len() > 0 {
        lemma_shards_step(shards, calls[0]);
        lemma_shards_run(shards_step(shards, calls[0]).0, calls.drop_first());
    }
}

/// The number of shards is not observable: two sharded maps, with any shard
/// counts, that stand for the same map answer every sequence of calls alike
/// and still stand for the same map afterwards. This holds of the mutex map
/// and of the read-write-lock map alike, whose calls are the same shard
/// operations; in particular, fresh maps of any two shard counts behave the same.
pub proof fn lemma_shard_count_unobservable<V>(
    a: Seq<Map<u64, V>>,
    b: Seq<Map<u64, V>>,
    calls: Seq<MapCall<V>>,
)
    requires
        map_routed(a),
        map_routed(b),
        merged_map(a) == merged_map(b),
    ensures
        shards_run(a, calls).1 == shards_run(b, calls).1,
        merged_map(shards_run(a, calls).0) == merged_map(shards_run(b, calls).0),
{
    lemma_shards_run(a, calls);
    lemma_shards_run(b, calls);
}

/// Fresh sharded maps of any two shard counts answer every sequence of calls
/// alike.
pub proof fn lemma_fresh_maps_agree<V>(a: Seq<MapShard<V>>, b: Seq<MapShard<V>>, calls: Seq<MapCall<V>>)
    requires
        a.len() > 0,
        b.len() > 0,
        forall|i: int|
            0 <= i < a.len() ==> {
                &&& (#[trigger] a[i]).wf()
                &&& a[i].shard_id() == i
                &&& a[i].shard_count() == a.len()
                &&& a[i]@ == Map::<u64, V>::empty()
            },
        forall|i: int|
            0 <= i < b.len() ==> {
                &&& (#[trigger] b[i]).wf()
                &&& b[i].shard_id() == i
                &&& b[i].shard_count() == b.len()
                &&& b[i]@ == Map::<u64, V>::empty()
            },
    ensures
        shards_run(map_contents(a), calls).1 == shards_run(map_contents(b), calls).1,
{
    lemma_fresh_map_shards(a);
    lemma_fresh_map_shards(b);
    lemma_map_shards_routed(a);
    lemma_map_shards_routed(b);
    lemma_shard_count_unobservable(map_contents(a), map_contents(b), calls);
}

} // verus!
