//! The outside primitives that the container is built from: parking_lot's
//! read-write lock and its guards, the process's reported parallelism, and
//! std's hashing and map construction.
use parking_lot::lock_api;
use std::collections::hash_map::RandomState;
use std::collections::HashMap as StdHashMap;
use std::hash::{BuildHasher, Hash};
use vstd::prelude::*;

verus! {

#[verifier::external_type_specification]
#[verifier::external_body]
#[verifier::reject_recursive_types(R)]
#[verifier::reject_recursive_types(T)]
pub struct ExRwLock<R, T: ?Sized>(lock_api::RwLock<R, T>);

#[verifier::external_type_specification]
#[verifier::external_body]
pub struct ExRawRwLock(parking_lot::RawRwLock);

/// parking_lot's shared guard on a shard map.
#[verifier::external_body]
#[verifier::reject_recursive_types(T)]
pub struct RawSharedGuard<'a, T> {
    guard: parking_lot::RwLockReadGuard<'a, T>,
}

/// parking_lot's exclusive guard on a shard map.
#[verifier::external_body]
#[verifier::reject_recursive_types(T)]
pub struct RawExclusiveGuard<'a, T> {
    guard: parking_lot::RwLockWriteGuard<'a, T>,
}

/// Shared access to a shard map, held until dropped. Its view is what the
/// map holds while the lock is held: no writer can change it meanwhile.
#[verifier::reject_recursive_types(K)]
#[verifier::reject_recursive_types(V)]
#[verifier::reject_recursive_types(S)]
pub struct SharedGuard<'a, K, V, S> {
    raw: RawSharedGuard<'a, StdHashMap<K, V, S>>,
    contents: Ghost<Map<K, V>>,
}

/// Exclusive access to a shard map, held until dropped. Its view is what the
/// map holds: only this guard can change it while the lock is held.
#[verifier::reject_recursive_types(K)]
#[verifier::reject_recursive_types(V)]
#[verifier::reject_recursive_types(S)]
pub struct ExclusiveGuard<'a, K, V, S> {
    raw: RawExclusiveGuard<'a, StdHashMap<K, V, S>>,
    contents: Ghost<Map<K, V>>,
}

impl<'a, K, V, S> View for SharedGuard<'a, K, V, S> {
    type V = Map<K, V>;

    closed spec fn view(&self) -> Map<K, V> {
        self.contents@
    }
}

impl<'a, K, V, S> View for ExclusiveGuard<'a, K, V, S> {
    type V = Map<K, V>;

    closed spec fn view(&self) -> Map<K, V> {
        self.contents@
    }
}

/// Relies on num_cpus::get: the number of CPUs the process may run on, which
/// its documentation promises is at least one.
#[verifier::external_body]
pub(crate) fn available_parallelism() -> (r: usize)
    ensures
        r >= 1,
{
    num_cpus::get()
}

/// Relies on std's BuildHasher::hash_one: the 64-bit digest of `key` under
/// `hasher`. A randomly seeded hasher makes it differ between processes, so
/// nothing is promised of it.
#[verifier::external_body]
pub(crate) fn digest_of<K: Hash, S: BuildHasher>(hasher: &S, key: &K) -> u64 {
    hasher.hash_one(key)
}

/// Relies on std's RandomState::new: a randomly seeded hash builder, so
/// nothing is promised of it.
#[verifier::external_body]
pub(crate) fn random_state() -> RandomState {
    RandomState::new()
}

/// Relies on std's HashMap::with_capacity_and_hasher: an empty map room for
/// at least `capacity` entries.
#[verifier::external_body]
pub(crate) fn empty_map<K, V, S>(capacity: usize, hasher: S) -> (r: StdHashMap<
    K,
    V,
    S,
>)
    ensures
        r@ =~= Map::empty(),
{
    StdHashMap::with_capacity_and_hasher(capacity, hasher)
}

/// Relies on parking_lot's RwLock::new: an unlocked lock around `value`.
#[verifier::external_body]
pub(crate) fn new_lock<T>(value: T) -> parking_lot::RwLock<T> {
    parking_lot::RwLock::new(value)
}

/// Relies on parking_lot's RwLock::read: blocks until shared access is held.
/// What the map then holds is not known in advance; the guard's view stands
/// for it.
#[verifier::external_body]
pub(crate) fn lock_shared<K, V, S>(
    lock: &parking_lot::RwLock<StdHashMap<K, V, S>>,
) -> SharedGuard<'_, K, V, S> {
    SharedGuard { raw: RawSharedGuard { guard: lock.read() }, contents: Ghost(arbitrary()) }
}

/// Relies on parking_lot's RwLock::write: blocks until exclusive access is
/// held. What the map then holds is not known in advance; the guard's view
/// stands for it.
#[verifier::external_body]
pub(crate) fn lock_exclusive<K, V, S>(
    lock: &parking_lot::RwLock<StdHashMap<K, V, S>>,
) -> ExclusiveGuard<'_, K, V, S> {
    ExclusiveGuard { raw: RawExclusiveGuard { guard: lock.write() }, contents: Ghost(arbitrary()) }
}

/// Relies on parking_lot's shared guard dereferencing to the guarded map.
#[verifier::external_body]
pub(crate) fn shared_target<'b, 'a, K, V, S>(guard: &'b SharedGuard<'a, K, V, S>) -> (r: &'b StdHashMap<
    K,
    V,
    S,
>)
    ensures
        r@ == guard@,
{
    &*guard.raw.guard
}

/// Relies on parking_lot's exclusive guard dereferencing to the guarded map.
#[verifier::external_body]
pub(crate) fn exclusive_view<'b, 'a, K, V, S>(guard: &'b ExclusiveGuard<'a, K, V, S>) -> (r: &'b StdHashMap<
    K,
    V,
    S,
>)
    ensures
        r@ == guard@,
{
    &*guard.raw.guard
}

/// Relies on parking_lot's exclusive guard dereferencing mutably to the
/// guarded map: what is done through the reference is what the map holds
/// afterwards.
#[verifier::external_body]
pub(crate) fn exclusive_target<'b, 'a, K, V, S>(guard: &'b mut ExclusiveGuard<'a, K, V, S>) -> (r: &'b mut StdHashMap<
    K,
    V,
    S,
>)
    ensures
        r@ == old(guard)@,
        final(r)@ == final(guard)@,
{
    &mut *guard.raw.guard
}

} // verus!
