use sharded_map::routing::{per_shard_capacity, route_digest, shard_layout, MAX_PARALLELISM};
use sharded_map::HashMap;
use std::collections::hash_map::Entry;
use std::hash::{BuildHasher, Hasher};

/// A hasher whose digest is the last integer written to it.
struct IdentityHasher(u64);

impl Hasher for IdentityHasher {
    fn finish(&self) -> u64 {
        self.0
    }

    fn write(&mut self, bytes: &[u8]) {
        for b in bytes {
            self.0 = (self.0 << 8) | u64::from(*b);
        }
    }

    fn write_u64(&mut self, n: u64) {
        self.0 = n;
    }
}

#[derive(Clone, Default)]
struct IdentityBuild;

impl BuildHasher for IdentityBuild {
    type Hasher = IdentityHasher;

    fn build_hasher(&self) -> IdentityHasher {
        IdentityHasher(0)
    }
}

fn four_shards() -> HashMap<u64, String, IdentityBuild> {
    HashMap::with_parallelism(1, 0, IdentityBuild)
}

/// A key whose digest routes to `shard` of four.
fn key_for_shard(shard: u64) -> u64 {
    shard << 55
}

#[test]
fn layout_values() {
    assert_eq!(shard_layout(0), (1, 0));
    assert_eq!(shard_layout(1), (4, 2));
    assert_eq!(shard_layout(2), (8, 3));
    assert_eq!(shard_layout(3), (16, 4));
    assert_eq!(shard_layout(5), (32, 5));
    assert_eq!(shard_layout(8), (32, 5));
    assert_eq!(shard_layout(1 << 21), (1 << 23, 23));
    assert_eq!(shard_layout((1 << 21) + 1), (1 << 24, 24));
    assert_eq!(shard_layout(MAX_PARALLELISM), (usize::MAX / 2 + 1, usize::BITS - 1));
}

#[test]
fn per_shard_capacity_values() {
    assert_eq!(per_shard_capacity(0, 16), 0);
    assert_eq!(per_shard_capacity(1, 16), 1);
    assert_eq!(per_shard_capacity(16, 16), 1);
    assert_eq!(per_shard_capacity(17, 16), 2);
    assert_eq!(per_shard_capacity(10, 4), 3);
    assert_eq!(per_shard_capacity(usize::MAX, 1), usize::MAX);
    assert_eq!(per_shard_capacity(usize::MAX, 2), usize::MAX / 2 + 1);
}

#[test]
fn route_digest_values() {
    assert_eq!(route_digest(u64::MAX, 2), 3);
    assert_eq!(route_digest(1 << 55, 2), 1);
    assert_eq!(route_digest(1 << 56, 2), 2);
    // the top seven bits take no part in routing
    assert_eq!(route_digest(0xFE00_0000_0000_0000, 2), 0);
    assert_eq!(route_digest(u64::MAX, 0), 0);
    assert_eq!(route_digest(u64::MAX, 22), (1 << 22) - 1);
    assert_eq!(route_digest(u64::MAX, 57), (1 << 57) - 1);
    assert_eq!(route_digest(u64::MAX, 60), ((1 << 57) - 1) << 3);
    assert_eq!(route_digest(0x0123_4567_89AB_CDEF, 5), 0x12);
}

#[test]
fn with_parallelism_sizes_shards() {
    let m = four_shards();
    assert_eq!(m.shards().len(), 4);
    let one: HashMap<u64, u64, IdentityBuild> = HashMap::with_parallelism(0, 7, IdentityBuild);
    assert_eq!(one.shards().len(), 1);
    assert_eq!(one.shard_idx(&u64::MAX), 0);
}

#[test]
fn capacity_gives_power_of_two_shards() {
    for capacity in [0usize, 1, 7, 100, 1000] {
        let m: HashMap<u64, u64> = HashMap::with_capacity(capacity);
        let n = m.shards().len();
        assert!(n.is_power_of_two());
        assert!(n >= 4);
        let per = per_shard_capacity(capacity, n);
        assert!(per * n >= capacity);
        assert!(per * n < capacity + n);
        assert_eq!((per * n) % n, 0);
    }
}

#[test]
fn constructors_give_power_of_two_shards() {
    let a: HashMap<u64, u64> = HashMap::new();
    let b: HashMap<u64, u64> = HashMap::default();
    let c: HashMap<u64, u64, IdentityBuild> = HashMap::with_hasher(IdentityBuild);
    let d: HashMap<u64, u64, IdentityBuild> = HashMap::with_capacity_and_hasher(64, IdentityBuild);
    for n in [a.shards().len(), b.shards().len(), c.shards().len(), d.shards().len()] {
        assert!(n.is_power_of_two());
        assert!(n >= 4);
    }
    assert_eq!(a.shards().len(), c.shards().len());
}

#[test]
fn shard_idx_is_deterministic() {
    let m: HashMap<u64, u64> = HashMap::new();
    for k in 0..1000u64 {
        assert_eq!(m.shard_idx(&k), m.shard_idx(&k));
    }
    let s: HashMap<String, u64> = HashMap::new();
    let key = String::from("alpha");
    assert_eq!(s.shard_idx(&key), s.shard_idx(&key.clone()));
}

#[test]
fn shard_idx_in_range() {
    let m: HashMap<u64, u64> = HashMap::new();
    let n = m.shards().len();
    for k in 0..1000u64 {
        assert!(m.shard_idx(&k) < n);
    }
}

#[test]
fn shard_idx_follows_digest() {
    let m = four_shards();
    for s in 0..4u64 {
        assert_eq!(m.shard_idx(&key_for_shard(s)), s as usize);
        assert_eq!(m.shard_idx_for_digest(key_for_shard(s)), s as usize);
    }
    assert_eq!(m.shard_idx(&u64::MAX), 3);
    let idx = m.shard_idx(&key_for_shard(2));
    assert!(std::ptr::eq(m.shard(&key_for_shard(2)), &m.shards()[idx]));
}

#[test]
fn round_trip() {
    let m: HashMap<u64, String> = HashMap::new();
    assert_eq!(m.write(7).insert(String::from("seven")), None);
    assert_eq!(m.read(7).get(), Some(&String::from("seven")));
    assert!(m.read(7).contains_key());
}

#[test]
fn update_returns_previous() {
    let m: HashMap<u64, u64> = HashMap::new();
    assert_eq!(m.write(1).insert(10), None);
    assert_eq!(m.write(1).insert(20), Some(10));
    assert_eq!(m.read(1).get(), Some(&20));
}

#[test]
fn fresh_map_is_empty() {
    let m: HashMap<u64, u64> = HashMap::new();
    for k in 0..100u64 {
        assert_eq!(m.read(k).get(), None);
        assert!(!m.read(k).contains_key());
        assert_eq!(m.read(k).get_key_value(), None);
    }
}

#[test]
fn removal() {
    let m: HashMap<u64, u64> = HashMap::new();
    m.write(3).insert(30);
    assert_eq!(m.write(3).remove(), Some(30));
    assert_eq!(m.read(3).get(), None);
    assert_eq!(m.write(3).remove(), None);
}

#[test]
fn four_shard_scenario() {
    let m = four_shards();
    let keys: Vec<u64> = (0..4).map(key_for_shard).collect();
    let values = ["a", "b", "c", "d"];
    for (k, v) in keys.iter().zip(values) {
        assert_eq!(m.write(*k).insert(String::from(v)), None);
    }
    for (k, v) in keys.iter().zip(values) {
        assert_eq!(m.read(*k).get(), Some(&String::from(v)));
    }
    assert_eq!(m.write(keys[1]).remove(), Some(String::from("b")));
    assert_eq!(m.read(keys[1]).get(), None);
    assert_eq!(m.read(keys[0]).get(), Some(&String::from("a")));
    assert_eq!(m.read(keys[2]).get(), Some(&String::from("c")));
    assert_eq!(m.read(keys[3]).get(), Some(&String::from("d")));
}

#[test]
fn writeable_accessors() {
    let m = four_shards();
    let mut w = m.write(5);
    assert_eq!(w.get(), None);
    assert!(!w.contains_key());
    assert_eq!(w.insert(String::from("x")), None);
    assert_eq!(w.get_key_value(), Some((&5, &String::from("x"))));
    if let Some(v) = w.get_mut() {
        v.push('y');
    }
    assert_eq!(w.get(), Some(&String::from("xy")));
    assert_eq!(w.remove_entry(), Some((5, String::from("xy"))));
    assert!(!w.contains_key());
    assert_eq!(w.remove_entry(), None);
}

#[test]
fn entry_in_place() {
    let m: HashMap<u64, u64> = HashMap::new();
    {
        let mut w = m.write(9);
        *w.entry().or_insert(0) += 1;
        *w.entry().or_insert(0) += 1;
        match w.entry() {
            Entry::Occupied(o) => assert_eq!(*o.get(), 2),
            Entry::Vacant(_) => panic!("entry should be occupied"),
        }
    }
    assert_eq!(m.read(9).get(), Some(&2));
}

#[test]
fn readers_share_a_shard() {
    let m = four_shards();
    m.write(key_for_shard(1)).insert(String::from("v"));
    let r1 = m.read(key_for_shard(1));
    let r2 = m.read(key_for_shard(1) + 1);
    assert_eq!(r1.get(), Some(&String::from("v")));
    assert_eq!(r2.get(), None);
    let w = m.write(key_for_shard(2));
    assert_eq!(w.get(), None);
}

