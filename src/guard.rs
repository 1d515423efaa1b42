//! Guards that bind a held shard lock to one key. Each guard's view is what
//! its shard's map holds; the operations act on the bound key only.
use crate::primitives::{exclusive_target, exclusive_view, shared_target, ExclusiveGuard, SharedGuard};
use std::collections::hash_map::Entry;
use std::collections::HashMap as StdHashMap;
use std::hash::{BuildHasher, Hash};
use vstd::pervasive::strictly_cloned;
use vstd::prelude::*;
use vstd::std_specs::hash::{builds_valid_hashers, obeys_key_model, EntrySpecFns};

verus! {

broadcast use vstd::std_specs::hash::group_hash_axioms;

/// The key and hash builder types of `map` behave as std's map model expects.
pub open spec fn model_holds<K, V, S>(map: &StdHashMap<K, V, S>) -> bool {
    obeys_key_model::<K>() && builds_valid_hashers::<S>()
}

/// A clone of a key is that same key.
pub open spec fn clone_is_identity<K: Clone>() -> bool {
    forall|a: K, b: K| #[trigger] strictly_cloned(a, b) ==> a == b
}

/// What `get` returns for `key` in a map with view `m`.
pub open spec fn lookup<K, V>(m: Map<K, V>, key: K, r: Option<&V>) -> bool {
    match r {
        Some(v) => m.contains_key(key) && *v == m[key],
        None => !m.contains_key(key),
    }
}

/// After `insert(v)` on a guard, `get` on the same guard finds `v`.
pub proof fn lemma_insert_then_get<K, V>(m: Map<K, V>, key: K, v: V)
    ensures
        lookup(m.insert(key, v), key, Some(&v)),
{
}

/// A second `insert` on the bound key returns the first value, and the key
/// then holds the second.
pub proof fn lemma_insert_twice<K, V>(m: Map<K, V>, key: K, v1: V, v2: V)
    ensures
        m.insert(key, v1).contains_key(key),
        m.insert(key, v1)[key] == v1,
        lookup(m.insert(key, v1).insert(key, v2), key, Some(&v2)),
{
}

/// `remove` after `insert(v)` returns `v`, and the key is then absent; other
/// keys keep their entries.
pub proof fn lemma_insert_then_remove<K, V>(m: Map<K, V>, key: K, v: V, other: K)
    requires
        other != key,
    ensures
        m.insert(key, v).contains_key(key),
        m.insert(key, v)[key] == v,
        lookup(m.insert(key, v).remove(key), key, None),
        m.insert(key, v).remove(key).get(other) == m.get(other),
{
}

/// Relies on std's HashMap::get_key_value: the stored key and value for `key`.
#[verifier::external_body]
fn map_get_key_value<'b, K: Eq + Hash, V, S: BuildHasher>(
    map: &'b StdHashMap<K, V, S>,
    key: &K,
) -> (r: Option<(&'b K, &'b V)>)
    ensures
        model_holds(map) ==> match r {
            Some(p) => map@.contains_key(*key) && *p.0 == *key && *p.1 == map@[*key],
            None => !map@.contains_key(*key),
        },
{
    map.get_key_value(key)
}

/// Relies on std's HashMap::get_mut: a mutable reference to the value for
/// `key`; what is written through it is the key's value afterwards.
#[verifier::external_body]
fn map_get_mut<'b, K: Eq + Hash, V, S: BuildHasher>(
    map: &'b mut StdHashMap<K, V, S>,
    key: &K,
) -> (r: Option<&'b mut V>)
    ensures
        model_holds(&*old(map)) ==> {
            &&& r.is_some() == old(map)@.contains_key(*key)
            &&& r.is_some() ==> *r.unwrap() == old(map)@[*key] && final(map)@ == old(map)@.insert(*key, *final(r.unwrap()))
            &&& r.is_none() ==> final(map)@ == old(map)@
        },
{
    map.get_mut(key)
}

/// Relies on std's HashMap::remove_entry: takes out the stored key and value
/// for `key`.
#[verifier::external_body]
fn map_remove_entry<K: Eq + Hash, V, S: BuildHasher>(
    map: &mut StdHashMap<K, V, S>,
    key: &K,
) -> (r: Option<(K, V)>)
    ensures
        model_holds(&*old(map)) ==> final(map)@ == old(map)@.remove(*key) && match r {
            Some(p) => old(map)@.contains_key(*key) && p.0 == *key && p.1 == old(map)@[*key],
            None => !old(map)@.contains_key(*key),
        },
{
    map.remove_entry(key)
}

/// Shared access to the shard that holds `key`; the lock is released when
/// the guard is dropped.
#[verifier::reject_recursive_types(K)]
#[verifier::reject_recursive_types(V)]
#[verifier::reject_recursive_types(S)]
pub struct Readable<'a, K, V, S> {
    key: K,
    map: SharedGuard<'a, K, V, S>,
    shard: Ghost<nat>,
}

/// Exclusive access to the shard that holds `key`; the lock is released when
/// the guard is dropped.
#[verifier::reject_recursive_types(K)]
#[verifier::reject_recursive_types(V)]
#[verifier::reject_recursive_types(S)]
pub struct Writeable<'a, K, V, S> {
    key: K,
    map: ExclusiveGuard<'a, K, V, S>,
    shard: Ghost<nat>,
}

impl<'a, K, V, S> View for Readable<'a, K, V, S> {
    type V = Map<K, V>;

    /// What the guarded shard holds.
    closed spec fn view(&self) -> Map<K, V> {
        self.map@
    }
}

impl<'a, K, V, S> View for Writeable<'a, K, V, S> {
    type V = Map<K, V>;

    /// What the guarded shard holds.
    closed spec fn view(&self) -> Map<K, V> {
        self.map@
    }
}

impl<'a, K, V, S> Readable<'a, K, V, S> {
    /// The key and hash builder types behave as std's map model expects.
    pub open spec fn model_holds(&self) -> bool {
        obeys_key_model::<K>() && builds_valid_hashers::<S>()
    }

    /// The key that this guard is bound to.
    pub closed spec fn bound_key(&self) -> K {
        self.key
    }

    /// The index of the shard whose lock this guard holds.
    pub closed spec fn shard_index(&self) -> nat {
        self.shard@
    }

    pub(crate) fn bind(key: K, map: SharedGuard<'a, K, V, S>, shard: Ghost<nat>) -> (r: Self)
        ensures
            r.bound_key() == key,
            r.shard_index() == shard@,
            r@ == map@,
    {
        Readable { key, map, shard }
    }
}

impl<'a, K, V, S> Writeable<'a, K, V, S> {
    /// The key and hash builder types behave as std's map model expects.
    pub open spec fn model_holds(&self) -> bool {
        obeys_key_model::<K>() && builds_valid_hashers::<S>()
    }

    /// The key that this guard is bound to.
    pub closed spec fn bound_key(&self) -> K {
        self.key
    }

    /// The index of the shard whose lock this guard holds.
    pub closed spec fn shard_index(&self) -> nat {
        self.shard@
    }

    pub(crate) fn bind(key: K, map: ExclusiveGuard<'a, K, V, S>, shard: Ghost<nat>) -> (r: Self)
        ensures
            r.bound_key() == key,
            r.shard_index() == shard@,
            r@ == map@,
    {
        Writeable { key, map, shard }
    }
}

impl<'a, K: Eq + Hash, V, S: BuildHasher> Readable<'a, K, V, S> {
    /// The value stored for the bound key, if any.
    pub fn get(&self) -> (r: Option<&V>)
        ensures
            self.model_holds() ==> lookup(self@, self.bound_key(), r),
    {
        shared_target(&self.map).get(&self.key)
    }

    /// The stored key and value for the bound key, if any.
    pub fn get_key_value(&self) -> (r: Option<(&K, &V)>)
        ensures
            self.model_holds() ==> match r {
                Some(p) => self@.contains_key(self.bound_key()) && *p.0 == self.bound_key() && *p.1
                    == self@[self.bound_key()],
                None => !self@.contains_key(self.bound_key()),
            },
    {
        map_get_key_value(shared_target(&self.map), &self.key)
    }

    /// Whether the shard holds a value for the bound key.
    pub fn contains_key(&self) -> (r: bool)
        ensures
            self.model_holds() ==> r == self@.contains_key(self.bound_key()),
    {
        shared_target(&self.map).contains_key(&self.key)
    }
}

impl<'a, K: Eq + Hash, V, S: BuildHasher> Writeable<'a, K, V, S> {
    /// The value stored for the bound key, if any.
    pub fn get(&self) -> (r: Option<&V>)
        ensures
            self.model_holds() ==> lookup(self@, self.bound_key(), r),
    {
        exclusive_view(&self.map).get(&self.key)
    }

    /// The stored key and value for the bound key, if any.
    pub fn get_key_value(&self) -> (r: Option<(&K, &V)>)
        ensures
            self.model_holds() ==> match r {
                Some(p) => self@.contains_key(self.bound_key()) && *p.0 == self.bound_key() && *p.1
                    == self@[self.bound_key()],
                None => !self@.contains_key(self.bound_key()),
            },
    {
        map_get_key_value(exclusive_view(&self.map), &self.key)
    }

    /// Whether the shard holds a value for the bound key.
    pub fn contains_key(&self) -> (r: bool)
        ensures
            self.model_holds() ==> r == self@.contains_key(self.bound_key()),
    {
        exclusive_view(&self.map).contains_key(&self.key)
    }

    /// A mutable reference to the value stored for the bound key, if any;
    /// what is written through it becomes the key's value.
    pub fn get_mut(&mut self) -> (r: Option<&mut V>)
        ensures
            final(self).bound_key() == old(self).bound_key(),
            final(self).shard_index() == old(self).shard_index(),
            old(self).model_holds() ==> {
                &&& r.is_some() == old(self)@.contains_key(old(self).bound_key())
                &&& r.is_some() ==> *r.unwrap() == old(self)@[old(self).bound_key()] && final(self)@ == old(self)@.insert(old(self).bound_key(), *final(r.unwrap()))
                &&& r.is_none() ==> final(self)@ == old(self)@
            },
    {
        map_get_mut(exclusive_target(&mut self.map), &self.key)
    }

    /// Stores `value` for the bound key and returns the value it replaces, if
    /// any. A key already stored is kept; only its value is overwritten.
    pub fn insert(&mut self, value: V) -> (r: Option<V>)
        where K: Clone
        ensures
            final(self).bound_key() == old(self).bound_key(),
            final(self).shard_index() == old(self).shard_index(),
            old(self).model_holds() && clone_is_identity::<K>() ==> {
                &&& final(self)@ == old(self)@.insert(old(self).bound_key(), value)
                &&& match r {
                    Some(v) => old(self)@.contains_key(old(self).bound_key()) && v == old(self)@[old(self).bound_key()],
                    None => !old(self)@.contains_key(old(self).bound_key()),
                }
            },
    {
        let key = self.key.clone();
        proof {
            assert(strictly_cloned(self.key, key));
        }
        exclusive_target(&mut self.map).insert(key, value)
    }

    /// Removes the bound key and returns its value, if it was present.
    pub fn remove(&mut self) -> (r: Option<V>)
        ensures
            final(self).bound_key() == old(self).bound_key(),
            final(self).shard_index() == old(self).shard_index(),
            old(self).model_holds() ==> {
                &&& final(self)@ == old(self)@.remove(old(self).bound_key())
                &&& match r {
                    Some(v) => old(self)@.contains_key(old(self).bound_key()) && v == old(self)@[old(self).bound_key()],
                    None => !old(self)@.contains_key(old(self).bound_key()),
                }
            },
    {
        exclusive_target(&mut self.map).remove(&self.key)
    }

    /// The entry of the bound key, for in-place manipulation.
    pub fn entry(&mut self) -> (r: Entry<'_, K, V>)
        where K: Clone
        ensures
            final(self).bound_key() == old(self).bound_key(),
            final(self).shard_index() == old(self).shard_index(),
            old(self).model_holds() && clone_is_identity::<K>() ==> {
                &&& r.key() == old(self).bound_key()
                &&& r.value() == old(self)@.get(old(self).bound_key())
                &&& final(self)@ == match r.final_value() {
                    Some(v) => old(self)@.insert(old(self).bound_key(), v),
                    None => old(self)@.remove(old(self).bound_key()),
                }
            },
    {
        let key = self.key.clone();
        proof {
            assert(strictly_cloned(self.key, key));
        }
        exclusive_target(&mut self.map).entry(key)
    }

    /// Removes the bound key and returns the stored key and value, if present.
    pub fn remove_entry(&mut self) -> (r: Option<(K, V)>)
        ensures
            final(self).bound_key() == old(self).bound_key(),
            final(self).shard_index() == old(self).shard_index(),
            old(self).model_holds() ==> {
                &&& final(self)@ == old(self)@.remove(old(self).bound_key())
                &&& match r {
                    Some(p) => old(self)@.contains_key(old(self).bound_key()) && p.0 == old(self).bound_key() && p.1 == old(self)@[old(self).bound_key()],
                    None => !old(self)@.contains_key(old(self).bound_key()),
                }
            },
    {
        map_remove_entry(exclusive_target(&mut self.map), &self.key)
    }
}

} // verus!
