//! Sharded LRU cache of hot blocks: shard selection by the hash's first byte, a
//! per-shard capacity, and membership through the `lru` crate.
use vstd::prelude::*;

use crate::bytes32::Bytes32;

verus! {

#[verifier::external_type_specification]
#[verifier::external_body]
pub struct ExLruDefaultHasher(lru::DefaultHasher);

#[verifier::external_type_specification]
#[verifier::external_body]
#[verifier::reject_recursive_types(K)]
#[verifier::reject_recursive_types(V)]
#[verifier::reject_recursive_types(S)]
pub struct ExLruCache<K, V, S>(lru::LruCache<K, V, S>);

/// Entries an LRU shard currently holds, by key.
pub uninterp spec fn lru_entries(c: lru::LruCache<[u8; 32], dig_block::L2Block>) -> Map<[u8; 32], dig_block::L2Block>;

/// Keys an LRU shard holds, least recently used first.
pub uninterp spec fn lru_order(c: lru::LruCache<[u8; 32], dig_block::L2Block>) -> Seq<[u8; 32]>;

/// Capacity an LRU shard was made with.
pub uninterp spec fn lru_capacity(c: lru::LruCache<[u8; 32], dig_block::L2Block>) -> usize;

/// `order` without `key`.
pub open spec fn without_key(order: Seq<[u8; 32]>, key: [u8; 32]) -> Seq<[u8; 32]> {
    order.filter(|x: [u8; 32]| x != key)
}

/// `order` with `key` made the most recently used.
pub open spec fn touched(order: Seq<[u8; 32]>, key: [u8; 32]) -> Seq<[u8; 32]> {
    without_key(order, key).push(key)
}

/// How a shard's keys and recency order fit together: the order lists each held key
/// once, and the shard holds no more than its capacity.
pub open spec fn lru_consistent(c: lru::LruCache<[u8; 32], dig_block::L2Block>) -> bool {
    &&& lru_order(c).no_duplicates()
    &&& lru_order(c).to_set() == lru_entries(c).dom()
    &&& lru_order(c).len() == lru_entries(c).len()
    &&& lru_entries(c).dom().finite()
    &&& lru_entries(c).len() <= lru_capacity(c)
}

/// `lru::LruCache::new` with capacity `cap` (at least 1): an empty shard.
#[verifier::external_body]
fn lru_new(cap: usize) -> (r: lru::LruCache<[u8; 32], dig_block::L2Block>)
    requires
        cap >= 1,
    ensures
        lru_entries(r).dom() == Set::<[u8; 32]>::empty(),
        lru_order(r) == Seq::<[u8; 32]>::empty(),
        lru_capacity(r) == cap,
{
    lru::LruCache::new(std::num::NonZeroUsize::new(cap).unwrap())
}

/// `lru::LruCache::get` followed by `Clone::clone` of the block found (a field-by-field
/// copy, equal to the stored block): present exactly when the key is held; a held key
/// becomes the most recently used; the entries do not change.
#[verifier::external_body]
fn lru_get_clone(c: &mut lru::LruCache<[u8; 32], dig_block::L2Block>, key: &[u8; 32]) -> (r: Option<
    dig_block::L2Block,
>)
    ensures
        r == (if lru_entries(*old(c)).contains_key(*key) {
            Some(lru_entries(*old(c))[*key])
        } else {
            None
        }),
        lru_entries(*final(c)) == lru_entries(*old(c)),
        lru_order(*final(c)) == (if lru_entries(*old(c)).contains_key(*key) {
            touched(lru_order(*old(c)), *key)
        } else {
            lru_order(*old(c))
        }),
        lru_capacity(*final(c)) == lru_capacity(*old(c)),
        lru_consistent(*final(c)),
{
    c.get(key).cloned()
}

/// `lru::LruCache::put`: afterwards `key` maps to `block` and is the most recently used.
/// A key already held, or a shard below capacity, just gains or updates the entry; a full
/// shard first gives up its least recently used key.
#[verifier::external_body]
fn lru_put(c: &mut lru::LruCache<[u8; 32], dig_block::L2Block>, key: [u8; 32], block: dig_block::L2Block)
    ensures
        lru_capacity(*final(c)) == lru_capacity(*old(c)),
        lru_consistent(*final(c)),
        lru_entries(*old(c)).contains_key(key) ==> lru_entries(*final(c)) == lru_entries(*old(c)).insert(
            key,
            block,
        ) && lru_order(*final(c)) == touched(lru_order(*old(c)), key),
        !lru_entries(*old(c)).contains_key(key) && lru_entries(*old(c)).len() < lru_capacity(*old(c))
            ==> lru_entries(*final(c)) == lru_entries(*old(c)).insert(key, block) && lru_order(*final(c))
            == lru_order(*old(c)).push(key),
        !lru_entries(*old(c)).contains_key(key) && lru_entries(*old(c)).len() >= lru_capacity(*old(c))
            ==> lru_entries(*final(c)) == lru_entries(*old(c)).remove(lru_order(*old(c))[0]).insert(
            key,
            block,
        ) && lru_order(*final(c)) == lru_order(*old(c)).drop_first().push(key),
{
    let _ = c.put(key, block);
}

/// `lru::LruCache::pop`: afterwards the key is not held; every other entry and the order
/// of the others are unchanged.
#[verifier::external_body]
fn lru_pop(c: &mut lru::LruCache<[u8; 32], dig_block::L2Block>, key: &[u8; 32])
    ensures
        lru_entries(*final(c)) == lru_entries(*old(c)).remove(*key),
        lru_order(*final(c)) == without_key(lru_order(*old(c)), *key),
        lru_capacity(*final(c)) == lru_capacity(*old(c)),
        lru_consistent(*final(c)),
{
    let _ = c.pop(key);
}

/// Whether `n` is a power of two.
pub open spec fn power_of_two(n: usize) -> bool {
    n != 0 && n & ((n - 1) as usize) == 0
}

/// Shard holding `first_byte` among `num_shards` shards: the byte masked by
/// `num_shards - 1` when the count is a power of two, the byte modulo the count otherwise.
pub open spec fn shard_of(first_byte: u8, num_shards: usize) -> int {
    if power_of_two(num_shards) {
        (first_byte as usize & ((num_shards - 1) as usize)) as int
    } else {
        first_byte as int % num_shards as int
    }
}

proof fn lemma_shard_in_range(first_byte: u8, num_shards: usize)
    requires
        num_shards >= 1,
    ensures
        0 <= shard_of(first_byte, num_shards) < num_shards,
{
    if power_of_two(num_shards) {
        let b = first_byte as usize;
        let m = (num_shards - 1) as usize;
        assert(b & m <= m) by (bit_vector);
    }
}

/// Shard for a key, chosen by its first byte.
pub fn shard_index(key: &Bytes32, num_shards: usize) -> (r: usize)
    requires
        num_shards >= 1,
    ensures
        r == shard_of(key.bytes@[0], num_shards),
        r < num_shards,
{
    let b = key.bytes[0] as usize;
    if num_shards & (num_shards - 1) == 0 {
        let m = num_shards - 1;
        let r = b & m;
        assert(b & m <= m) by (bit_vector);
        r
    } else {
        b % num_shards
    }
}

/// Capacity of each shard: the total split evenly, at least 1.
pub fn per_shard_capacity(total_capacity: usize, num_shards: usize) -> (r: usize)
    requires
        num_shards >= 1,
    ensures
        r == if total_capacity / num_shards >= 1 { total_capacity / num_shards } else { 1 },
{
    let per = total_capacity / num_shards;
    if per >= 1 {
        per
    } else {
        1
    }
}

/// Sharded LRU for block bodies.
pub struct ShardedBlockCache {
    shards: Vec<lru::LruCache<[u8; 32], dig_block::L2Block>>,
    num_shards: usize,
}

impl ShardedBlockCache {
    /// Shard count, at least 1.
    pub closed spec fn spec_num_shards(&self) -> usize {
        self.num_shards
    }

    pub closed spec fn well_formed(&self) -> bool {
        &&& self.num_shards >= 1
        &&& self.shards@.len() == self.num_shards
        &&& forall|i: int| 0 <= i < self.shards@.len() ==> lru_consistent(#[trigger] self.shards@[i])
        &&& forall|i: int, k: [u8; 32]|
            0 <= i < self.shards@.len() && #[trigger] lru_entries(self.shards@[i]).contains_key(k)
                ==> shard_of(k@[0], self.num_shards) == i
    }

    /// How the shards partition the cached keys: shard `i` lists, without repeats and least
    /// recently used first, exactly the cached keys that fall in it, and its size is the
    /// length of that list.
    pub open spec fn shards_partition_keys(&self) -> bool {
        &&& forall|i: int|
            0 <= i < self.spec_num_shards() ==> #[trigger] self.shard_size(i) == self.recency(i).len()
                && self.recency(i).no_duplicates()
        &&& forall|i: int, j: int|
            0 <= i < self.spec_num_shards() && 0 <= j < self.recency(i).len() ==> shard_of(
                #[trigger] self.recency(i)[j]@[0],
                self.spec_num_shards(),
            ) == i
        &&& forall|k: Bytes32|
            #[trigger] self.holds(k) <==> self.recency(self.shard_for(k)).contains(k.bytes)
    }

    proof fn lemma_partition(&self)
        requires
            self.well_formed(),
        ensures
            self.shards_partition_keys(),
    {
        assert forall|i: int|
            0 <= i < self.spec_num_shards() implies #[trigger] self.shard_size(i) == self.recency(i).len()
            && self.recency(i).no_duplicates() by {
            assert(lru_consistent(self.shards@[i]));
        }
        assert forall|i: int, j: int|
            0 <= i < self.spec_num_shards() && 0 <= j < self.recency(i).len() implies shard_of(
            #[trigger] self.recency(i)[j]@[0],
            self.spec_num_shards(),
        ) == i by {
            let c = self.shards@[i];
            assert(lru_consistent(c));
            let k = lru_order(c)[j];
            assert(lru_order(c).to_set().contains(k));
            assert(lru_entries(c).contains_key(k));
        }
        assert forall|k: Bytes32| #[trigger] self.holds(k) <==> self.recency(self.shard_for(k)).contains(
            k.bytes,
        ) by {
            let s = self.shard_for(k);
            lemma_shard_in_range(k.bytes@[0], self.num_shards);
            let c = self.shards@[s];
            assert(lru_consistent(c));
            if lru_order(c).contains(k.bytes) {
                assert(lru_order(c).to_set().contains(k.bytes));
            }
            if lru_entries(c).contains_key(k.bytes) {
                assert(lru_order(c).to_set().contains(k.bytes));
            }
        }
    }

    /// Keys of shard `i`, least recently used first.
    pub closed spec fn recency(&self, i: int) -> Seq<[u8; 32]> {
        lru_order(self.shards@[i])
    }

    /// Number of blocks shard `i` holds.
    pub closed spec fn shard_size(&self, i: int) -> nat {
        lru_entries(self.shards@[i]).len()
    }

    /// Every shard holds at most its capacity.
    pub open spec fn within_capacity(&self) -> bool {
        forall|i: int| 0 <= i < self.spec_num_shards() ==> #[trigger] self.shard_size(i) <= self.shard_capacity(i)
    }

    /// Shard that `key` falls in.
    pub open spec fn shard_for(&self, key: Bytes32) -> int {
        shard_of(key.bytes@[0], self.spec_num_shards())
    }

    /// The block cached under `key`, if any.
    pub closed spec fn cached(&self, key: Bytes32) -> Option<dig_block::L2Block> {
        let i = shard_of(key.bytes@[0], self.num_shards);
        if 0 <= i < self.shards@.len() && lru_entries(self.shards@[i]).contains_key(key.bytes) {
            Some(lru_entries(self.shards@[i])[key.bytes])
        } else {
            None
        }
    }

    /// Whether a block is cached under `key`.
    pub open spec fn holds(&self, key: Bytes32) -> bool {
        self.cached(key) is Some
    }

    /// Capacity of every shard.
    pub closed spec fn shard_capacity(&self, i: int) -> usize {
        lru_capacity(self.shards@[i])
    }

    /// `num_shards` shards (at least 1), each holding `max(1, total_capacity / num_shards)` blocks; empty.
    pub fn new(total_capacity: usize, num_shards: usize) -> (r: ShardedBlockCache)
        ensures
            r.well_formed(),
            r.within_capacity(),
            r.shards_partition_keys(),
            r.spec_num_shards() == if num_shards >= 1 { num_shards } else { 1 },
            forall|k: Bytes32| !r.holds(k),
            forall|i: int|
                0 <= i < r.spec_num_shards() ==> #[trigger] r.recency(i) == Seq::<[u8; 32]>::empty()
                    && r.shard_size(i) == 0,
            forall|i: int|
                0 <= i < r.spec_num_shards() ==> #[trigger] r.shard_capacity(i) == per_shard_capacity_spec(
                    total_capacity,
                    r.spec_num_shards(),
                ),
    {
        let n = if num_shards >= 1 { num_shards } else { 1 };
        let per = per_shard_capacity(total_capacity, n);
        let mut shards: Vec<lru::LruCache<[u8; 32], dig_block::L2Block>> = Vec::new();
        let mut i: usize = 0;
        while i < n
            invariant
                0 <= i <= n,
                n >= 1,
                per == per_shard_capacity_spec(total_capacity, n),
                shards@.len() == i,
                forall|j: int| 0 <= j < i ==> lru_entries(#[trigger] shards@[j]) == Map::<
                    [u8; 32],
                    dig_block::L2Block,
                >::empty() && lru_order(shards@[j]) == Seq::<[u8; 32]>::empty() && lru_capacity(shards@[j])
                    == per && lru_consistent(shards@[j]),
            decreases n - i,
        {
            let c = lru_new(per);
            proof {
                assert(lru_order(c).to_set() =~= lru_entries(c).dom());
                assert(lru_entries(c) =~= Map::<[u8; 32], dig_block::L2Block>::empty());
            }
            shards.push(c);
            i = i + 1;
        }
        let r = ShardedBlockCache { shards, num_shards: n };
        proof {
            r.lemma_partition();
        }
        r
    }

    /// A clone of the block cached under `key`, if any; a cached key becomes the most
    /// recently used of its shard. What is cached does not change.
    pub fn get_clone(&mut self, key: &Bytes32) -> (r: Option<dig_block::L2Block>)
        requires
            old(self).well_formed(),
        ensures
            final(self).well_formed(),
            final(self).shards_partition_keys(),
            r == old(self).cached(*key),
            final(self).within_capacity(),
            forall|i: int|
                0 <= i < old(self).spec_num_shards() ==> #[trigger] final(self).shard_capacity(i)
                    == old(self).shard_capacity(i),
            forall|k: Bytes32| #[trigger] final(self).cached(k) == old(self).cached(k),
            forall|i: int|
                0 <= i < old(self).spec_num_shards() ==> #[trigger] final(self).recency(i) == (if i
                    == old(self).shard_for(*key) && old(self).holds(*key) {
                    touched(old(self).recency(i), key.bytes)
                } else {
                    old(self).recency(i)
                }),
            final(self).spec_num_shards() == old(self).spec_num_shards(),
    {
        let i = shard_index(key, self.num_shards);
        let ghost before = self.shards@;
        let mut shard = self.shards.remove(i);
        let r = lru_get_clone(&mut shard, &key.bytes);
        self.shards.insert(i, shard);
        proof {
            assert forall|j: int| 0 <= j < before.len() && j != i implies #[trigger] self.shards@[j]
                == before[j] by {}
            assert(self.shards@[i as int] == shard);
            assert forall|k: Bytes32| #[trigger] self.cached(k) == old(self).cached(k) by {
                let j = shard_of(k.bytes@[0], self.num_shards);
                if 0 <= j < before.len() && j != i {
                    assert(self.shards@[j] == before[j]);
                }
            }
            assert forall|j: int, k: [u8; 32]|
                0 <= j < self.shards@.len() && #[trigger] lru_entries(self.shards@[j]).contains_key(k)
                    implies shard_of(k@[0], self.num_shards) == j by {
                if j != i {
                    assert(self.shards@[j] == before[j]);
                }
                assert(lru_entries(before[j]).contains_key(k));
            }
            self.lemma_partition();
        }
        r
    }

    /// Cache `block` under `key`, as the most recently used key of its shard. When the key
    /// was not cached and its shard was full, the shard's least recently used key is
    /// dropped first; nothing else changes, and other shards are untouched.
    pub fn insert(&mut self, key: Bytes32, block: dig_block::L2Block)
        requires
            old(self).well_formed(),
        ensures
            final(self).well_formed(),
            final(self).shards_partition_keys(),
            final(self).cached(key) == Some(block),
            final(self).within_capacity(),
            forall|i: int|
                0 <= i < old(self).spec_num_shards() ==> #[trigger] final(self).shard_capacity(i)
                    == old(self).shard_capacity(i),
            ({
                let s = old(self).shard_for(key);
                let full = !old(self).holds(key) && old(self).shard_size(s) >= old(self).shard_capacity(s);
                &&& forall|k: Bytes32|
                    #[trigger] final(self).cached(k) == (if k.bytes == key.bytes {
                        Some(block)
                    } else if full && old(self).shard_for(k) == s && k.bytes == old(self).recency(s)[0] {
                        None
                    } else {
                        old(self).cached(k)
                    })
                &&& forall|i: int|
                    0 <= i < old(self).spec_num_shards() ==> #[trigger] final(self).recency(i) == (if i != s {
                        old(self).recency(i)
                    } else if old(self).holds(key) {
                        touched(old(self).recency(s), key.bytes)
                    } else if !full {
                        old(self).recency(s).push(key.bytes)
                    } else {
                        old(self).recency(s).drop_first().push(key.bytes)
                    })
            }),
            final(self).spec_num_shards() == old(self).spec_num_shards(),
    {
        let i = shard_index(&key, self.num_shards);
        let ghost before = self.shards@;
        let mut shard = self.shards.remove(i);
        lru_put(&mut shard, key.bytes, block);
        self.shards.insert(i, shard);
        proof {
            assert forall|j: int| 0 <= j < before.len() && j != i implies #[trigger] self.shards@[j]
                == before[j] by {}
            assert(self.shards@[i as int] == shard);
            assert forall|k: Bytes32| #[trigger] self.cached(k) == (if k.bytes == key.bytes {
                Some(block)
            } else if !old(self).holds(key) && old(self).shard_size(i as int) >= old(self).shard_capacity(i as int)
                && old(self).shard_for(k) == i && k.bytes == old(self).recency(i as int)[0] {
                None
            } else {
                old(self).cached(k)
            }) by {
                let j = shard_of(k.bytes@[0], self.num_shards);
                if 0 <= j < before.len() && j != i {
                    assert(self.shards@[j] == before[j]);
                }
            }
            assert forall|j: int, k: [u8; 32]|
                0 <= j < self.shards@.len() && #[trigger] lru_entries(self.shards@[j]).contains_key(k)
                    implies shard_of(k@[0], self.num_shards) == j by {
                if j != i {
                    assert(self.shards@[j] == before[j]);
                    assert(lru_entries(before[j]).contains_key(k));
                } else if k != key.bytes {
                    assert(lru_entries(before[j]).contains_key(k));
                }
            }
            self.lemma_partition();
        }
    }

    /// Drop the entry for `key`; afterwards it is not held, and every other entry and the
    /// recency order of the remaining keys are unchanged.
    pub fn remove(&mut self, key: &Bytes32)
        requires
            old(self).well_formed(),
        ensures
            final(self).well_formed(),
            final(self).shards_partition_keys(),
            !final(self).holds(*key),
            final(self).within_capacity(),
            forall|i: int|
                0 <= i < old(self).spec_num_shards() ==> #[trigger] final(self).shard_capacity(i)
                    == old(self).shard_capacity(i),
            forall|k: Bytes32| k.bytes != key.bytes ==> #[trigger] final(self).cached(k) == old(self).cached(k),
            forall|i: int|
                0 <= i < old(self).spec_num_shards() ==> #[trigger] final(self).recency(i) == (if i
                    == old(self).shard_for(*key) {
                    without_key(old(self).recency(i), key.bytes)
                } else {
                    old(self).recency(i)
                }),
            final(self).spec_num_shards() == old(self).spec_num_shards(),
    {
        let i = shard_index(key, self.num_shards);
        let ghost before = self.shards@;
        let mut shard = self.shards.remove(i);
        lru_pop(&mut shard, &key.bytes);
        self.shards.insert(i, shard);
        proof {
            assert forall|j: int| 0 <= j < before.len() && j != i implies #[trigger] self.shards@[j]
                == before[j] by {}
            assert(self.shards@[i as int] == shard);
            assert forall|k: Bytes32| k.bytes != key.bytes implies #[trigger] self.cached(k) == old(self).cached(k) by {
                let j = shard_of(k.bytes@[0], self.num_shards);
                if 0 <= j < before.len() && j != i {
                    assert(self.shards@[j] == before[j]);
                }
            }
            assert forall|j: int, k: [u8; 32]|
                0 <= j < self.shards@.len() && #[trigger] lru_entries(self.shards@[j]).contains_key(k)
                    implies shard_of(k@[0], self.num_shards) == j by {
                if j != i {
                    assert(self.shards@[j] == before[j]);
                }
                assert(lru_entries(before[j]).contains_key(k));
            }
            self.lemma_partition();
        }
    }
}

pub open spec fn per_shard_capacity_spec(total_capacity: usize, num_shards: usize) -> usize {
    if total_capacity / num_shards >= 1 { (total_capacity / num_shards) as usize } else { 1 }
}

} // verus!
