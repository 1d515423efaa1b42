//! A sharded concurrent hash map: keys are spread over a fixed, power-of-two
//! number of shards, each an ordinary map behind its own read-write lock, so
//! that unrelated keys can be reached in parallel.
pub mod guard;
pub mod primitives;
pub mod routing;

pub use guard::{Readable, Writeable};

use crate::primitives::{available_parallelism, random_state, digest_of, empty_map, lock_exclusive, lock_shared, new_lock};
use crate::routing::{
    capacity_per_shard, is_least_pow2_at_least, per_shard_capacity, route, route_digest, shard_layout,
    shard_target, DIGEST_BITS, MAX_PARALLELISM,
};
use std::collections::hash_map::RandomState;
use std::collections::HashMap as StdHashMap;
use std::hash::{BuildHasher, Hash};
use vstd::arithmetic::power2::pow2;
use vstd::prelude::*;

verus! {

/// A map whose keys are partitioned over independently locked shards.
///
/// The number of shards is a power of two fixed at construction; a key always
/// routes to the same shard of a given map.
#[verifier::reject_recursive_types(K)]
#[verifier::reject_recursive_types(V)]
#[verifier::reject_recursive_types(S)]
pub struct HashMap<K, V, S = RandomState> {
    hasher: S,
    log2: u32,
    capacity_request: Ghost<nat>,
    shards: Vec<parking_lot::RwLock<StdHashMap<K, V, S>>>,
}

impl<K, V, S> HashMap<K, V, S> {
    /// Well-formedness: the shard count is `2^log2`, within bounds.
    pub closed spec fn wf(&self) -> bool {
        &&& self.log2 < DIGEST_BITS
        &&& pow2(self.log2 as nat) <= usize::MAX
        &&& self.shards@.len() == pow2(self.log2 as nat)
    }

    /// The number of shards.
    pub closed spec fn shard_count(&self) -> nat {
        self.shards@.len()
    }

    /// The base-two logarithm of the number of shards.
    pub closed spec fn shard_log2(&self) -> nat {
        self.log2 as nat
    }

    /// The shards, in routing order.
    pub closed spec fn shard_seq(&self) -> Seq<parking_lot::RwLock<StdHashMap<K, V, S>>> {
        self.shards@
    }

    /// The capacity that each shard's map was created with room for.
    pub closed spec fn shard_capacity(&self) -> nat {
        self.capacity_request@
    }

    /// The hash builder that routes keys and hashes within each shard.
    pub closed spec fn hash_builder(&self) -> S {
        self.hasher
    }

    /// The shard count of a well-formed map is `2^shard_log2`, a power of two.
    pub proof fn lemma_shard_count(&self)
        requires
            self.wf(),
        ensures
            self.shard_count() == pow2(self.shard_log2()),
            self.shard_log2() < DIGEST_BITS,
            self.shard_count() >= 1,
    {
        vstd::arithmetic::power2::lemma_pow2_pos(self.log2 as nat);
    }
}

impl<K, V> HashMap<K, V> {
    /// An empty map with a randomly seeded hash builder and no capacity
    /// reserved.
    pub fn new() -> (r: Self)
        ensures
            r.wf(),
            r.shard_count() >= 4,
            exists|parallelism: nat|
                parallelism >= 1 && is_least_pow2_at_least(
                    r.shard_count(),
                    r.shard_log2(),
                    shard_target(parallelism),
                ),
    {
        Self::with_hasher(random_state())
    }

    /// An empty map with a randomly seeded hash builder and room for at least
    /// `capacity` entries in all.
    pub fn with_capacity(capacity: usize) -> (r: Self)
        ensures
            r.wf(),
            r.shard_count() >= 4,
            exists|parallelism: nat|
                parallelism >= 1 && is_least_pow2_at_least(
                    r.shard_count(),
                    r.shard_log2(),
                    shard_target(parallelism),
                ),
    {
        Self::with_capacity_and_hasher(capacity, random_state())
    }
}

impl<K, V, S: Clone> HashMap<K, V, S> {
    /// An empty map with `2^k` shards, the least power of two at least
    /// `SHARDS_PER_CORE` times `parallelism` (a hint above `MAX_PARALLELISM`,
    /// whose shard count would not fit in a `usize`, counts as
    /// `MAX_PARALLELISM`). A nonzero `capacity` is rounded up to a
    /// multiple of the shard count and spread evenly over the shards. Every
    /// shard hashes with a copy of `hasher`.
    pub fn with_parallelism(parallelism: usize, capacity: usize, hasher: S) -> (r: Self)
        ensures
            r.shard_capacity() == capacity_per_shard(capacity as nat, r.shard_count()),
            capacity == 0 ==> r.shard_capacity() == 0,
            r.wf(),
            is_least_pow2_at_least(
                r.shard_count(),
                r.shard_log2(),
                shard_target(parallelism as nat),
            ),
            r.hash_builder() == hasher,
    {
        let hint: usize = if parallelism > MAX_PARALLELISM {
            MAX_PARALLELISM
        } else {
            parallelism
        };
        let (count, log2) = shard_layout(hint);
        proof {
            vstd::arithmetic::power2::lemma_pow2_pos(log2 as nat);
        }
        let per_shard: usize = per_shard_capacity(capacity, count);
        let mut shards: Vec<parking_lot::RwLock<StdHashMap<K, V, S>>> = Vec::new();
        let mut i: usize = 0;
        while i < count
            invariant
                shards@.len() == i,
                i <= count,
            decreases count - i,
        {
            shards.push(new_lock(empty_map(per_shard, hasher.clone())));
            i = i + 1;
        }
        proof {
            if capacity == 0 {
                vstd::arithmetic::div_mod::lemma_fundamental_div_mod_converse(
                    count - 1,
                    count as int,
                    0,
                    count - 1,
                );
            }
        }
        HashMap { hasher, log2, capacity_request: Ghost(per_shard as nat), shards }
    }

    /// An empty map sized by the process's available parallelism (see
    /// `with_parallelism`), with room for at least `capacity` entries in all.
    pub fn with_capacity_and_hasher(capacity: usize, hasher: S) -> (r: Self)
        ensures
            r.wf(),
            r.shard_count() >= 4,
            exists|parallelism: nat|
                parallelism >= 1 && is_least_pow2_at_least(
                    r.shard_count(),
                    r.shard_log2(),
                    shard_target(parallelism),
                ),
            r.hash_builder() == hasher,
    {
        let parallelism: usize = available_parallelism();
        let r = Self::with_parallelism(parallelism, capacity, hasher);
        proof {
            let p = parallelism as nat;
            let c = r.shard_count();
            assert(c >= 4) by {
                if r.shard_log2() > 0 {
                    vstd::arithmetic::power2::lemma_pow2_pos((r.shard_log2() - 1) as nat);
                }
            }
            assert(p >= 1 && is_least_pow2_at_least(c, r.shard_log2(), shard_target(p)));
        }
        r
    }

    /// An empty map sized by the process's available parallelism, with no
    /// capacity reserved. A hash builder that is not randomly seeded leaves
    /// the map open to keys chosen to collide.
    pub fn with_hasher(hasher: S) -> (r: Self)
        ensures
            r.wf(),
            r.shard_count() >= 4,
            exists|parallelism: nat|
                parallelism >= 1 && is_least_pow2_at_least(
                    r.shard_count(),
                    r.shard_log2(),
                    shard_target(parallelism),
                ),
            r.hash_builder() == hasher,
    {
        Self::with_capacity_and_hasher(0, hasher)
    }

    /// The shards, in routing order.
    pub fn shards(&self) -> (r: &[parking_lot::RwLock<StdHashMap<K, V, S>>])
        ensures
            r@ == self.shard_seq(),
    {
        self.shards.as_slice()
    }
}

impl<K, V, S> HashMap<K, V, S> {
    /// The shard that a key with this digest belongs to: the top
    /// `shard_log2` bits of the digest once its top `TAG_BITS` bits are
    /// dropped.
    pub fn shard_idx_for_digest(&self, digest: u64) -> (r: usize)
        requires
            self.wf(),
        ensures
            r == route(digest, self.shard_log2()),
            r < self.shard_count(),
    {
        route_digest(digest, self.log2)
    }
}

impl<K: Hash, V, S: BuildHasher> HashMap<K, V, S> {
    /// The index of the shard that `key` belongs to: its digest under the
    /// map's hash builder, routed by `shard_idx_for_digest`.
    pub fn shard_idx(&self, key: &K) -> (r: usize)
        requires
            self.wf(),
        ensures
            r < self.shard_count(),
            exists|digest: u64| r == route(digest, self.shard_log2()),
    {
        let digest: u64 = digest_of(&self.hasher, key);
        self.shard_idx_for_digest(digest)
    }

    /// The lock and map of the shard that `key` belongs to.
    pub fn shard(&self, key: &K) -> (r: &parking_lot::RwLock<StdHashMap<K, V, S>>)
        requires
            self.wf(),
        ensures
            exists|digest: u64| *r == self.shard_seq()[route(digest, self.shard_log2()) as int],
    {
        let idx: usize = self.shard_idx(key);
        &self.shards[idx]
    }

    /// Shared access to the shard of `key`, bound to `key`. Blocks until no
    /// writer holds that shard.
    pub fn read(&self, key: K) -> (r: Readable<'_, K, V, S>)
        requires
            self.wf(),
        ensures
            r.bound_key() == key,
            r.shard_index() < self.shard_count(),
            exists|digest: u64| r.shard_index() == route(digest, self.shard_log2()),
    {
        let idx: usize = self.shard_idx(&key);
        let map = lock_shared(&self.shards[idx]);
        Readable::bind(key, map, Ghost(idx as nat))
    }

    /// Exclusive access to the shard of `key`, bound to `key`. Blocks until no
    /// other guard holds that shard.
    pub fn write(&self, key: K) -> (r: Writeable<'_, K, V, S>)
        requires
            self.wf(),
        ensures
            r.bound_key() == key,
            r.shard_index() < self.shard_count(),
            exists|digest: u64| r.shard_index() == route(digest, self.shard_log2()),
    {
        let idx: usize = self.shard_idx(&key);
        let map = lock_exclusive(&self.shards[idx]);
        Writeable::bind(key, map, Ghost(idx as nat))
    }
}

impl<K, V> Default for HashMap<K, V> {
    fn default() -> (r: Self)
        ensures
            r.wf(),
            r.shard_count() >= 4,
            exists|parallelism: nat|
                parallelism >= 1 && is_least_pow2_at_least(
                    r.shard_count(),
                    r.shard_log2(),
                    shard_target(parallelism),
                ),
    {
        Self::new()
    }
}

} // verus!
