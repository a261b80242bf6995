//! A single shard: the keys of one shard index and what they map to.
use crate::route::shard_of;
use std::collections::hash_map::Entry;
use std::collections::{HashMap, HashSet};
use vstd::prelude::*;
use vstd::std_specs::convert::IntoSpec;

verus! {

/// One shard of a sharded map: a hash map that holds exactly the entries
/// whose keys route to this shard's index.
pub struct MapShard<V> {
    map: HashMap<u64, V>,
    id: usize,
    count: usize,
}

impl<V> View for MapShard<V> {
    type V = Map<u64, V>;

    closed spec fn view(&self) -> Map<u64, V> {
        self.map@
    }
}

impl<V> MapShard<V> {
    /// The index of this shard.
    pub closed spec fn shard_id(&self) -> nat {
        self.id as nat
    }

    /// The number of shards that this shard is one of.
    pub closed spec fn shard_count(&self) -> nat {
        self.count as nat
    }

    /// Whether `key` routes to this shard.
    pub open spec fn routes(&self, key: u64) -> bool {
        shard_of(key, self.shard_count()) == self.shard_id()
    }

    /// Well-formedness: the index is in range and every key held routes here.
    pub open spec fn wf(&self) -> bool {
        &&& self.shard_id() < self.shard_count()
        &&& forall|k: u64| #[trigger] self@.contains_key(k) ==> self.routes(k)
    }

    /// An empty shard with index `id` among `count` shards.
    pub fn new(id: usize, count: usize) -> (shard: Self)
        requires
            id < count,
        ensures
            shard.wf(),
            shard@ == Map::<u64, V>::empty(),
            shard.shard_id() == id,
            shard.shard_count() == count,
    {
        MapShard { map: HashMap::new(), id, count }
    }

    /// The index of this shard.
    pub fn id(&self) -> (id: usize)
        ensures
            id == self.shard_id(),
    {
        self.id
    }

    /// The number of shards that this shard is one of.
    pub fn count(&self) -> (count: usize)
        ensures
            count == self.shard_count(),
    {
        self.count
    }

    /// Maps `key` to `value`; returns the value that `key` mapped to before,
    /// if any.
    pub fn insert(&mut self, key: u64, value: V) -> (previous: Option<V>)
        requires
            old(self).wf(),
            old(self).routes(key),
        ensures
            final(self).wf(),
            final(self).shard_id() == old(self).shard_id(),
            final(self).shard_count() == old(self).shard_count(),
            final(self)@ == old(self)@.insert(key, value),
            previous == old(self)@.get(key),
    {
        self.map.insert(key, value)
    }

    /// Removes `key`; returns the value that it mapped to, if any.
    pub fn remove(&mut self, key: u64) -> (removed: Option<V>)
        requires
            old(self).wf(),
        ensures
            final(self).wf(),
            final(self).shard_id() == old(self).shard_id(),
            final(self).shard_count() == old(self).shard_count(),
            final(self)@ == old(self)@.remove(key),
            removed == old(self)@.get(key),
    {
        self.map.remove(&key)
    }

    /// Whether `key` is mapped.
    pub fn contains_key(&self, key: u64) -> (found: bool)
        ensures
            found == self@.contains_key(key),
    {
        self.map.contains_key(&key)
    }

    /// A clone of the value that `key` maps to, if any.
    pub fn get_cloned(&self, key: u64) -> (value: Option<V>)
        where
            V: Clone,
        ensures
            match value {
                Some(v) => self@.contains_key(key) && cloned(self@[key], v),
                None => !self@.contains_key(key),
            },
    {
        match self.map.get(&key) {
            Some(v) => Some(v.clone()),
            None => None,
        }
    }

    /// Calls `f` on the value that `key` maps to, if any, and changes the value
    /// in place; returns whether `key` was mapped.
    pub fn get_mut<F>(&mut self, key: u64, f: F) -> (found: bool)
        where
            F: FnOnce(&mut V),
        requires
            old(self).wf(),
            old(self)@.contains_key(key) ==> forall|r: &mut V|
                *r == old(self)@[key] ==> #[trigger] f.requires((r,)),
        ensures
            final(self).wf(),
            final(self).shard_id() == old(self).shard_id(),
            final(self).shard_count() == old(self).shard_count(),
            found == old(self)@.contains_key(key),
            found ==> exists|r: &mut V|
                *r == old(self)@[key] && #[trigger] f.ensures((r,), ())
                    && final(self)@ == old(self)@.insert(key, *final(r)),
            !found ==> final(self)@ == old(self)@,
    {
        match self.map.entry(key) {
            Entry::Occupied(mut e) => {
                let r = e.get_mut();
                f(r);
                true
            },
            Entry::Vacant(_) => false,
        }
    }

    /// Calls `f` on the value that `key` maps to, changes it in place and
    /// returns a clone of the changed value; `None` where `key` is not mapped.
    pub fn get_mut_then_clone<F>(&mut self, key: u64, f: F) -> (changed: Option<V>)
        where
            F: FnOnce(&mut V),
            V: Clone,
        requires
            old(self).wf(),
            old(self)@.contains_key(key) ==> forall|r: &mut V|
                *r == old(self)@[key] ==> #[trigger] f.requires((r,)),
        ensures
            final(self).wf(),
            final(self).shard_id() == old(self).shard_id(),
            final(self).shard_count() == old(self).shard_count(),
            match changed {
                Some(c) => {
                    &&& old(self)@.contains_key(key)
                    &&& exists|r: &mut V|
                        *r == old(self)@[key] && #[trigger] f.ensures((r,), ())
                            && final(self)@ == old(self)@.insert(key, *final(r))
                    &&& cloned(final(self)@[key], c)
                },
                None => !old(self)@.contains_key(key) && final(self)@ == old(self)@,
            },
    {
        match self.map.entry(key) {
            Entry::Occupied(mut e) => {
                let r = e.get_mut();
                f(r);
                Some(r.clone())
            },
            Entry::Vacant(_) => None,
        }
    }

    /// Calls `f` on the value that `key` maps to, if any; returns whether
    /// `key` was mapped.
    pub fn get<F>(&self, key: u64, f: F) -> (found: bool)
        where
            F: FnOnce(&V),
        requires
            self@.contains_key(key) ==> f.requires((&self@[key],)),
        ensures
            found == self@.contains_key(key),
            found ==> f.ensures((&self@[key],), ()),
    {
        match self.map.get(&key) {
            Some(v) => {
                f(v);
                true
            },
            None => false,
        }
    }

    /// What `f` gives for the value that `key` maps to, converted into an
    /// `Option`; `None` where `key` is not mapped. An `f` that gives an
    /// `Option` has its answer passed on as it is, so that `Some(None)` never
    /// comes out.
    pub fn map_into<F, U, R>(&self, key: u64, f: F) -> (out: Option<R>)
        where
            F: FnOnce(&V) -> U,
            U: Into<Option<R>>,
        requires
            self@.contains_key(key) ==> f.requires((&self@[key],)),
        ensures
            !self@.contains_key(key) ==> out is None,
            self@.contains_key(key) ==> exists|u: U|
                #[trigger] f.ensures((&self@[key],), u) && call_ensures(U::into, (u,), out)
                    && (U::obeys_into_spec() ==> out == u.into_spec()),
    {
        match self.map.get(&key) {
            Some(v) => f(v).into(),
            None => None,
        }
    }

    /// What `f` gives for the value that `key` maps to; `None` where `key` is
    /// not mapped.
    pub fn map<F, U>(&self, key: u64, f: F) -> (out: Option<U>)
        where
            F: FnOnce(&V) -> U,
        requires
            self@.contains_key(key) ==> f.requires((&self@[key],)),
        ensures
            match out {
                Some(u) => self@.contains_key(key) && f.ensures((&self@[key],), u),
                None => !self@.contains_key(key),
            },
    {
        match self.map.get(&key) {
            Some(v) => Some(f(v)),
            None => None,
        }
    }
}

/// One shard of a sharded set: a hash set that holds exactly the keys that
/// route to this shard's index.
pub struct SetShard {
    set: HashSet<u64>,
    id: usize,
    count: usize,
}

impl View for SetShard {
    type V = Set<u64>;

    closed spec fn view(&self) -> Set<u64> {
        self.set@
    }
}

impl SetShard {
    /// The index of this shard.
    pub closed spec fn shard_id(&self) -> nat {
        self.id as nat
    }

    /// The number of shards that this shard is one of.
    pub closed spec fn shard_count(&self) -> nat {
        self.count as nat
    }

    /// Whether `key` routes to this shard.
    pub open spec fn routes(&self, key: u64) -> bool {
        shard_of(key, self.shard_count()) == self.shard_id()
    }

    /// Well-formedness: the index is in range and every key held routes here.
    pub open spec fn wf(&self) -> bool {
        &&& self.shard_id() < self.shard_count()
        &&& forall|k: u64| #[trigger] self@.contains(k) ==> self.routes(k)
    }

    /// An empty shard with index `id` among `count` shards.
    pub fn new(id: usize, count: usize) -> (shard: Self)
        requires
            id < count,
        ensures
            shard.wf(),
            shard@ == Set::<u64>::empty(),
            shard.shard_id() == id,
            shard.shard_count() == count,
    {
        SetShard { set: HashSet::new(), id, count }
    }

    /// The index of this shard.
    pub fn id(&self) -> (id: usize)
        ensures
            id == self.shard_id(),
    {
        self.id
    }

    /// The number of shards that this shard is one of.
    pub fn count(&self) -> (count: usize)
        ensures
            count == self.shard_count(),
    {
        self.count
    }

    /// Adds `key`; returns whether it was absent before.
    pub fn insert(&mut self, key: u64) -> (added: bool)
        requires
            old(self).wf(),
            old(self).routes(key),
        ensures
            final(self).wf(),
            final(self).shard_id() == old(self).shard_id(),
            final(self).shard_count() == old(self).shard_count(),
            final(self)@ == old(self)@.insert(key),
            added == !old(self)@.contains(key),
    {
        let ghost before = self@;
        let added = self.set.insert(key);
        assert forall|k: u64| #[trigger] self@.contains(k) implies self.routes(k) by {
            if k != key {
                assert(before.contains(k));
            }
        }
        added
    }

    /// Whether `key` is present.
    pub fn contains(&self, key: u64) -> (found: bool)
        ensures
            found == self@.contains(key),
    {
        self.set.contains(&key)
    }

    /// Removes `key`; returns whether it was present.
    pub fn remove(&mut self, key: u64) -> (removed: bool)
        requires
            old(self).wf(),
        ensures
            final(self).wf(),
            final(self).shard_id() == old(self).shard_id(),
            final(self).shard_count() == old(self).shard_count(),
            final(self)@ == old(self)@.remove(key),
            removed == old(self)@.contains(key),
    {
        let ghost before = self@;
        let removed = self.set.remove(&key);
        assert forall|k: u64| #[trigger] self@.contains(k) implies self.routes(k) by {
            assert(before.contains(k));
        }
        removed
    }
}

/// The empty shards of a sharded map with `count` shards: the shard at index
/// `i` is `MapShard::new(i, count)`.
pub fn fresh_map_shards<V>(count: usize) -> (shards: Vec<MapShard<V>>)
    ensures
        shards@.len() == count,
        forall|i: int|
            0 <= i < count ==> {
                &&& (#[trigger] shards@[i]).wf()
                &&& shards@[i].shard_id() == i
                &&& shards@[i].shard_count() == count
                &&& shards@[i]@ == Map::<u64, V>::empty()
            },
{
    let mut shards: Vec<MapShard<V>> = Vec::with_capacity(count);
    let mut i: usize = 0;
    while i < count
        invariant
            i <= count,
            shards@.len() == i,
            forall|j: int|
                0 <= j < i ==> {
                    &&& (#[trigger] shards@[j]).wf()
                    &&& shards@[j].shard_id() == j
                    &&& shards@[j].shard_count() == count
                    &&& shards@[j]@ == Map::<u64, V>::empty()
                },
        decreases count - i,
    {
        shards.push(MapShard::new(i, count));
        i = i + 1;
    }
    shards
}

/// The empty shards of a sharded set with `count` shards: the shard at index
/// `i` is `SetShard::new(i, count)`.
pub fn fresh_set_shards(count: usize) -> (shards: Vec<SetShard>)
    ensures
        shards@.len() == count,
        forall|i: int|
            0 <= i < count ==> {
                &&& (#[trigger] shards@[i]).wf()
                &&& shards@[i].shard_id() == i
                &&& shards@[i].shard_count() == count
                &&& shards@[i]@ == Set::<u64>::empty()
            },
{
    let mut shards: Vec<SetShard> = Vec::with_capacity(count);
    let mut i: usize = 0;
    while i < count
        invariant
            i <= count,
            shards@.len() == i,
            forall|j: int|
                0 <= j < i ==> {
                    &&& (#[trigger] shards@[j]).wf()
                    &&& shards@[j].shard_id() == j
                    &&& shards@[j].shard_count() == count
                    &&& shards@[j]@ == Set::<u64>::empty()
                },
        decreases count - i,
    {
        shards.push(SetShard::new(i, count));
        i = i + 1;
    }
    shards
}

} // verus!
