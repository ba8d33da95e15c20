//! A map keyed by 256-bit hashes. vstd specifies `BTreeMap` for keys whose
//! order it models, integers and tuples of them, but not for byte arrays, so
//! each hash is stored under its four 64-bit little-endian words.

use vstd::prelude::*;
use std::collections::BTreeMap;

verus! {

broadcast use vstd::std_specs::btree::group_btree_axioms, vstd::laws_cmp::group_laws_cmp;

/// A 256-bit hash, as its 32 bytes.
pub type H256 = [u8; 32];

/// Whether every byte of `h` is zero.
pub open spec fn is_zero_hash(h: H256) -> bool {
    forall|i: int| 0 <= i < 32 ==> h[i] == 0
}

/// The 64-bit word whose little-endian bytes are `b0` to `b7`.
pub open spec fn le_word(b0: u8, b1: u8, b2: u8, b3: u8, b4: u8, b5: u8, b6: u8, b7: u8) -> u64 {
    (b0 as u64) | ((b1 as u64) << 8u64) | ((b2 as u64) << 16u64) | ((b3 as u64) << 24u64)
        | ((b4 as u64) << 32u64) | ((b5 as u64) << 40u64) | ((b6 as u64) << 48u64) | ((b7 as u64) << 56u64)
}

/// The `w`-th 64-bit word of `h`, little-endian.
pub open spec fn hash_word(h: H256, w: int) -> u64 {
    le_word(h[8 * w], h[8 * w + 1], h[8 * w + 2], h[8 * w + 3], h[8 * w + 4], h[8 * w + 5], h[8 * w + 6], h[8 * w + 7])
}

/// The key under which `h` is stored: its four words.
pub open spec fn hash_key(h: H256) -> (u64, u64, u64, u64) {
    (hash_word(h, 0), hash_word(h, 1), hash_word(h, 2), hash_word(h, 3))
}

/// Eight bytes are determined by their word.
proof fn lemma_le_word_injective(
    a0: u8, a1: u8, a2: u8, a3: u8, a4: u8, a5: u8, a6: u8, a7: u8,
    b0: u8, b1: u8, b2: u8, b3: u8, b4: u8, b5: u8, b6: u8, b7: u8,
)
    by (bit_vector)
    requires
        le_word(a0, a1, a2, a3, a4, a5, a6, a7) == le_word(b0, b1, b2, b3, b4, b5, b6, b7),
    ensures
        a0 == b0 && a1 == b1 && a2 == b2 && a3 == b3 && a4 == b4 && a5 == b5 && a6 == b6 && a7 == b7,
{
}

/// Two hashes with the same `w`-th word agree on its eight bytes.
proof fn lemma_hash_word_injective(h1: H256, h2: H256, w: int)
    requires
        0 <= w < 4,
        hash_word(h1, w) == hash_word(h2, w),
    ensures
        h1[8 * w] == h2[8 * w],
        h1[8 * w + 1] == h2[8 * w + 1],
        h1[8 * w + 2] == h2[8 * w + 2],
        h1[8 * w + 3] == h2[8 * w + 3],
        h1[8 * w + 4] == h2[8 * w + 4],
        h1[8 * w + 5] == h2[8 * w + 5],
        h1[8 * w + 6] == h2[8 * w + 6],
        h1[8 * w + 7] == h2[8 * w + 7],
{
    lemma_le_word_injective(
        h1[8 * w], h1[8 * w + 1], h1[8 * w + 2], h1[8 * w + 3], h1[8 * w + 4], h1[8 * w + 5], h1[8 * w + 6], h1[8 * w + 7],
        h2[8 * w], h2[8 * w + 1], h2[8 * w + 2], h2[8 * w + 3], h2[8 * w + 4], h2[8 * w + 5], h2[8 * w + 6], h2[8 * w + 7],
    );
}

/// Distinct hashes have distinct keys.
proof fn lemma_hash_key_injective(h1: H256, h2: H256)
    requires
        hash_key(h1) == hash_key(h2),
    ensures
        h1 == h2,
{
    lemma_hash_word_injective(h1, h2, 0);
    lemma_hash_word_injective(h1, h2, 1);
    lemma_hash_word_injective(h1, h2, 2);
    lemma_hash_word_injective(h1, h2, 3);
    assert forall|i: int| 0 <= i < 32 implies h1[i] == h2[i] by {
        // Each of the 32 bytes lies in one of the four words.
        if i == 0 {} else if i == 1 {} else if i == 2 {} else if i == 3 {}
        else if i == 4 {} else if i == 5 {} else if i == 6 {} else if i == 7 {}
        else if i == 8 {} else if i == 9 {} else if i == 10 {} else if i == 11 {}
        else if i == 12 {} else if i == 13 {} else if i == 14 {} else if i == 15 {}
        else if i == 16 {} else if i == 17 {} else if i == 18 {} else if i == 19 {}
        else if i == 20 {} else if i == 21 {} else if i == 22 {} else if i == 23 {}
        else if i == 24 {} else if i == 25 {} else if i == 26 {} else if i == 27 {}
        else if i == 28 {} else if i == 29 {} else if i == 30 {} else {}
    }
    assert(h1 =~= h2);
}

/// The key under which `h` is stored.
fn hash_key_of(h: &H256) -> (k: (u64, u64, u64, u64))
    ensures
        k == hash_key(*h),
{
    let mut words: [u64; 4] = [0u64; 4];
    let mut w: usize = 0;
    while w < 4
        invariant
            w <= 4,
            forall|j: int| 0 <= j < w ==> words[j] == hash_word(*h, j),
        decreases 4 - w,
    {
        let b = 8 * w;
        words[w] = (h[b] as u64) | ((h[b + 1] as u64) << 8u64) | ((h[b + 2] as u64) << 16u64)
            | ((h[b + 3] as u64) << 24u64) | ((h[b + 4] as u64) << 32u64) | ((h[b + 5] as u64) << 40u64)
            | ((h[b + 6] as u64) << 48u64) | ((h[b + 7] as u64) << 56u64);
        w = w + 1;
    }
    (words[0], words[1], words[2], words[3])
}

/// A map from hashes to values.
pub struct HashIndexed<V> {
    map: BTreeMap<(u64, u64, u64, u64), V>,
}

impl<V> View for HashIndexed<V> {
    type V = Map<H256, V>;

    closed spec fn view(&self) -> Map<H256, V> {
        Map::new(|h: H256| self.map@.contains_key(hash_key(h)), |h: H256| self.map@[hash_key(h)])
    }
}

impl<V: Copy> HashIndexed<V> {
    /// An empty map.
    pub fn new() -> (m: Self)
        ensures
            m@ == Map::<H256, V>::empty(),
    {
        let m = HashIndexed { map: BTreeMap::new() };
        assert(m@ =~= Map::<H256, V>::empty());
        m
    }

    /// Sets `key` to `value`.
    pub fn insert(&mut self, key: H256, value: V)
        ensures
            final(self)@ == old(self)@.insert(key, value),
    {
        let k = hash_key_of(&key);
        self.map.insert(k, value);
        assert forall|h: H256| #[trigger] self@.contains_key(h) == old(self)@.insert(key, value).contains_key(h) by {
            if hash_key(h) == k {
                lemma_hash_key_injective(h, key);
            }
        }
        assert forall|h: H256| #[trigger] self@.contains_key(h) implies self@[h] == old(self)@.insert(key, value)[h] by {
            if hash_key(h) == k {
                lemma_hash_key_injective(h, key);
            }
        }
        assert(self@ =~= old(self)@.insert(key, value));
    }

    /// The value of `key`, if any.
    pub fn get(&self, key: &H256) -> (r: Option<V>)
        ensures
            r == (if self@.contains_key(*key) { Some(self@[*key]) } else { None::<V> }),
    {
        let k = hash_key_of(key);
        match self.map.get(&k) {
            Some(v) => Some(*v),
            None => None,
        }
    }

    /// Whether `key` has a value.
    pub fn contains_key(&self, key: &H256) -> (b: bool)
        ensures
            b == self@.contains_key(*key),
    {
        let k = hash_key_of(key);
        self.map.contains_key(&k)
    }
}

} // verus!
