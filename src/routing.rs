//! Shard sizing and key routing: pure arithmetic on digests and counts.
use vstd::arithmetic::power2::{
    is_pow2, lemma2_to64, lemma_pow2_adds, lemma_pow2_pos, lemma_pow2_strictly_increases,
    lemma_pow2_unfold, pow2,
};
use vstd::arithmetic::div_mod::{lemma_fundamental_div_mod, lemma_fundamental_div_mod_converse};
use vstd::arithmetic::power2::lemma2_to64_rest;
use vstd::bits::lemma_u64_shr_is_div;
use vstd::prelude::*;

verus! {

/// Bit width of a digest and of a shard index.
pub const DIGEST_BITS: u64 = 64;

/// Number of high digest bits left out of routing.
pub const TAG_BITS: u64 = 7;

/// Largest parallelism hint whose shard count fits in a `usize`: four times
/// it is the highest power of two below `usize::MAX`.
pub const MAX_PARALLELISM: usize = usize::MAX / 8 + 1;

/// Shards per unit of available parallelism.
pub const SHARDS_PER_CORE: usize = 4;

/// The parallelism hint that sizing takes into account.
pub open spec fn effective_parallelism(parallelism: nat) -> nat {
    if parallelism > MAX_PARALLELISM {
        MAX_PARALLELISM as nat
    } else {
        parallelism
    }
}

/// The least shard count asked for by a parallelism hint.
pub open spec fn shard_target(parallelism: nat) -> nat {
    SHARDS_PER_CORE as nat * effective_parallelism(parallelism)
}

/// `count` is `2^log2`, the least power of two that is at least `target`.
pub open spec fn is_least_pow2_at_least(count: nat, log2: nat, target: nat) -> bool {
    &&& count == pow2(log2)
    &&& count >= target
    &&& (log2 == 0 || pow2((log2 - 1) as nat) < target)
}

/// The digest with its top `TAG_BITS` bits dropped and the rest moved up to the top.
pub open spec fn tagless(digest: u64) -> nat {
    (digest as nat % pow2((DIGEST_BITS - TAG_BITS) as nat)) * pow2(TAG_BITS as nat)
}

/// The shard that a digest routes to when there are `2^log2` shards: the top
/// `log2` bits of the tagless digest.
pub open spec fn route(digest: u64, log2: nat) -> nat {
    if log2 == 0 {
        0
    } else {
        tagless(digest) / pow2((DIGEST_BITS - log2) as nat)
    }
}

/// The capacity of each of `shards` shards when `capacity` is rounded up to a
/// multiple of `shards` and spread evenly.
pub open spec fn capacity_per_shard(capacity: nat, shards: nat) -> nat
    recommends
        shards > 0,
{
    (capacity + shards - 1) as nat / shards
}

/// The number of shards for a parallelism hint, with its base-two logarithm:
/// the least power of two at least `SHARDS_PER_CORE * parallelism`.
pub fn shard_layout(parallelism: usize) -> (r: (usize, u32))
    requires
        parallelism <= MAX_PARALLELISM,
    ensures
        is_least_pow2_at_least(r.0 as nat, r.1 as nat, (SHARDS_PER_CORE * parallelism) as nat),
        r.1 < DIGEST_BITS,
{
    let target: usize = parallelism * SHARDS_PER_CORE;
    let mut count: usize = 1;
    let mut log2: u32 = 0;
    proof {
        lemma2_to64();
        lemma2_to64_rest();
        assert(usize::MAX == 0xffff_ffff || usize::MAX == 0xffff_ffff_ffff_ffff);
    }
    while count < target
        invariant
            target == SHARDS_PER_CORE * parallelism,
            2 * (target - 1) < usize::MAX,
            count == pow2(log2 as nat),
            count > 0,
            log2 == 0 || pow2((log2 - 1) as nat) < target,
            log2 < DIGEST_BITS,
            pow2(64) == 0x1_0000_0000_0000_0000,
            usize::MAX <= u64::MAX,
        decreases DIGEST_BITS - log2,
    {
        proof {
            lemma_pow2_unfold((log2 + 1) as nat);
            if log2 + 1 >= 64 {
                if log2 + 1 > 64 {
                    lemma_pow2_strictly_increases(64, (log2 + 1) as nat);
                }
                assert(false);
            }
        }
        count = count * 2;
        log2 = log2 + 1;
    }
    (count, log2)
}

/// What each shard is sized for: `capacity` rounded up to a multiple of
/// `shards`, divided by `shards`.
pub fn per_shard_capacity(capacity: usize, shards: usize) -> (r: usize)
    requires
        shards > 0,
    ensures
        r == capacity_per_shard(capacity as nat, shards as nat),
{
    let q: usize = capacity / shards;
    proof {
        lemma_fundamental_div_mod(capacity as int, shards as int);
        if capacity % shards != 0 {
            assert(q < usize::MAX) by (nonlinear_arith)
                requires
                    shards >= 2,
                    capacity == shards * q + capacity % shards,
                    capacity <= usize::MAX,
            ;
        }
    }
    let r: usize = if capacity % shards == 0 { q } else { q + 1 };
    proof {
        let c = capacity as int;
        let s = shards as int;
        lemma_fundamental_div_mod(c, s);
        if c % s == 0 {
            lemma_fundamental_div_mod_converse(c + s - 1, s, q as int, s - 1);
        } else {
            assert(c + s - 1 == (q + 1) * s + (c % s - 1)) by (nonlinear_arith)
                requires
                    c == s * q + c % s,
            ;
            lemma_fundamental_div_mod_converse(c + s - 1, s, q + 1, c % s - 1);
        }
    }
    r
}

/// Shifting left by `TAG_BITS` computes the tagless digest, which is below `2^DIGEST_BITS`.
proof fn lemma_tagless(digest: u64)
    ensures
        (digest << TAG_BITS) == tagless(digest),
        tagless(digest) < pow2(DIGEST_BITS as nat),
{
    lemma2_to64();
    lemma2_to64_rest();
    let shifted = digest << 7u64;
    assert(shifted == (digest % 0x200_0000_0000_0000) * 128) by (bit_vector)
        requires
            shifted == digest << 7u64,
    ;
    assert((digest % 0x200_0000_0000_0000) * 128 < 0x1_0000_0000_0000_0000) by (bit_vector);
}

/// Every digest routes to one of the `2^log2` shards.
pub proof fn lemma_route_in_range(digest: u64, log2: nat)
    requires
        log2 < DIGEST_BITS,
    ensures
        route(digest, log2) < pow2(log2),
{
    lemma2_to64();
    lemma2_to64_rest();
    if log2 > 0 {
        let shift = (DIGEST_BITS - log2) as nat;
        lemma_tagless(digest);
        lemma_pow2_adds(shift, log2);
        lemma_pow2_pos(shift);
        let a = pow2(shift) as int;
        let b = pow2(log2) as int;
        let t = tagless(digest) as int;
        assert(t / a < b) by (nonlinear_arith)
            requires
                0 <= t < a * b,
                a > 0,
        ;
    }
}

/// Every shard count is a power of two, at least one, and a capacity spread
/// over the shards gives each the same share, whose total is the least
/// multiple of the shard count that holds `capacity`.
pub proof fn lemma_capacity_distribution(parallelism: nat, capacity: nat, count: nat, log2: nat)
    requires
        is_least_pow2_at_least(count, log2, shard_target(parallelism)),
    ensures
        is_pow2(count as int),
        count >= 1,
        capacity_per_shard(capacity, count) * count >= capacity,
        capacity_per_shard(capacity, count) * count < capacity + count,
        (capacity_per_shard(capacity, count) * count) % count == 0,
{
    lemma_pow2_pos(log2);
    vstd::arithmetic::power2::is_pow2_equiv(count as int);
    vstd::arithmetic::power::lemma_pow_positive(2, log2);
    assert(vstd::arithmetic::power::pow(2, log2) == count as int);
    let c = capacity as int;
    let n = count as int;
    let q = capacity_per_shard(capacity, count) as int;
    lemma_fundamental_div_mod(c + n - 1, n);
    assert(q * n >= c && q * n < c + n) by (nonlinear_arith)
        requires
            n > 0,
            c + n - 1 == n * q + (c + n - 1) % n,
            0 <= (c + n - 1) % n < n,
    ;
    vstd::arithmetic::div_mod::lemma_mod_multiples_basic(q, n);
}

/// The shard index of `digest` among `2^log2` shards.
pub fn route_digest(digest: u64, log2: u32) -> (r: usize)
    requires
        log2 < DIGEST_BITS,
        pow2(log2 as nat) <= usize::MAX as nat + 1,
    ensures
        r == route(digest, log2 as nat),
        r < pow2(log2 as nat),
{
    if log2 == 0 {
        proof {
            lemma2_to64();
        }
        return 0;
    }
    let shifted: u64 = digest << TAG_BITS;
    let shift: u64 = DIGEST_BITS - log2 as u64;
    let idx: u64 = shifted >> shift;
    proof {
        lemma_tagless(digest);
        lemma_u64_shr_is_div(shifted, shift);
        lemma_route_in_range(digest, log2 as nat);
    }
    idx as usize
}

} // verus!
