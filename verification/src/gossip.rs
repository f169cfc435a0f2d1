//! Gossip primitives: a packed bloom filter for set reconciliation, a
//! priority queue of outgoing messages and per-peer exponential backoff.
//!
//! Protocol flow: a node sends the bloom filter of the hashes it holds; the
//! peer answers with the hashes the filter lacks; the node sends the records.

use std::time::Duration;
use std::time::Instant;
use vstd::prelude::*;

pub mod manager;
pub use manager::{GossipManager, GOSSIP_QUEUE_SIZE, MAX_RECENT_HASHES};
use crate::types::le_u64;
use crate::time::{duration_as_nanos, spec_millis};

verus! {

/// Number of bits in the bloom filter (1024 = 16 * 64).
pub const BLOOM_FILTER_BITS: usize = 1024;

/// Number of `u64` words in the bloom filter.
pub const BLOOM_FILTER_WORDS: usize = 16;

/// Number of hash functions of a default bloom filter.
pub const BLOOM_HASH_COUNT: usize = 3;

/// The first eight bytes of a hash, read as a little-endian `u64`.
pub open spec fn first_word(h: Seq<u8>) -> u64 {
    (h[0] as u64) | ((h[1] as u64) << 8u64) | ((h[2] as u64) << 16u64) | ((h[3] as u64) << 24u64)
        | ((h[4] as u64) << 32u64) | ((h[5] as u64) << 40u64) | ((h[6] as u64) << 48u64)
        | ((h[7] as u64) << 56u64)
}

/// The mixed 64-bit value of a hash for a given seed (multiply-xor mixing).
pub open spec fn mix(base: u64, seed: u64) -> u64 {
    let m = base.wrapping_mul(0x9e3779b97f4a7c15u64.wrapping_add(seed)).wrapping_add(seed);
    let m = m ^ (m >> 33u64);
    m.wrapping_mul(0xff51afd7ed558ccdu64)
}

/// The bit that the `seed`-th hash function selects for a hash.
pub open spec fn probe(h: Seq<u8>, seed: int, bit_count: usize) -> int {
    ((mix(first_word(h), seed as u64) as usize) % bit_count) as int
}

/// Whether bit `idx` is set in the packed words.
pub open spec fn bit_set(words: Seq<u64>, idx: int) -> bool {
    (words[idx / 64] >> ((idx % 64) as u64)) & 1u64 == 1u64
}

/// The words with bit `idx` set.
pub open spec fn set_bit(words: Seq<u64>, idx: int) -> Seq<u64> {
    words.update(idx / 64, words[idx / 64] | (1u64 << ((idx % 64) as u64)))
}

/// The words with the bits of the first `k` hash functions set for a hash.
pub open spec fn set_probes(words: Seq<u64>, h: Seq<u8>, k: int, bit_count: usize) -> Seq<u64>
    decreases k,
{
    if k <= 0 {
        words
    } else {
        set_bit(set_probes(words, h, k - 1, bit_count), probe(h, k - 1, bit_count))
    }
}

/// Whether the bits of the first `k` hash functions are all set for a hash.
pub open spec fn probes_set(words: Seq<u64>, h: Seq<u8>, k: int, bit_count: usize) -> bool {
    forall|i: int| 0 <= i < k ==> #[trigger] bit_set(words, probe(h, i, bit_count))
}

/// The bytes of packed words, each word little-endian.
pub open spec fn bytes_of_words(ws: Seq<u64>) -> Seq<u8> {
    Seq::new(ws.len() * 8, |i: int| ((ws[i / 8] >> (8 * (i % 8)) as u64) & 0xff) as u8)
}

/// The byte at position `i`, or zero beyond the end.
pub open spec fn byte_at(bytes: Seq<u8>, i: int) -> u8 {
    if 0 <= i < bytes.len() { bytes[i] } else { 0 }
}

/// The little-endian word of the eight bytes from `start`, missing bytes read as zero.
pub open spec fn word_from(bytes: Seq<u8>, start: int) -> u64 {
    (byte_at(bytes, start) as u64) | ((byte_at(bytes, start + 1) as u64) << 8u64)
        | ((byte_at(bytes, start + 2) as u64) << 16u64) | ((byte_at(bytes, start + 3) as u64) << 24u64)
        | ((byte_at(bytes, start + 4) as u64) << 32u64) | ((byte_at(bytes, start + 5) as u64) << 40u64)
        | ((byte_at(bytes, start + 6) as u64) << 48u64) | ((byte_at(bytes, start + 7) as u64) << 56u64)
}

/// The sixteen words that a byte sequence describes (at most its first 128 bytes count).
pub open spec fn words_of_bytes(bytes: Seq<u8>) -> Seq<u64> {
    Seq::new(16, |i: int| word_from(bytes, 8 * i))
}

proof fn lemma_or_bit(x: u64, b: u64, c: u64)
    requires
        b < 64,
        c < 64,
    ensures
        (((x | (1u64 << b)) >> c) & 1u64 == 1u64) == (((x >> c) & 1u64 == 1u64) || b == c),
{
    assert((((x | (1u64 << b)) >> c) & 1u64 == 1u64) == (((x >> c) & 1u64 == 1u64) || b == c))
        by (bit_vector)
        requires
            b < 64,
            c < 64,
    ;
}

proof fn lemma_zero_bit(c: u64)
    requires
        c < 64,
    ensures
        (0u64 >> c) & 1u64 != 1u64,
{
    assert((0u64 >> c) & 1u64 != 1u64) by (bit_vector);
}

/// Setting a bit keeps every set bit and sets exactly that one more.
proof fn lemma_set_bit(words: Seq<u64>, p: int, j: int)
    requires
        words.len() == 16,
        0 <= p < 1024,
        0 <= j < 1024,
    ensures
        set_bit(words, p).len() == 16,
        bit_set(set_bit(words, p), j) == (bit_set(words, j) || j == p),
{
    let w = set_bit(words, p);
    if j / 64 == p / 64 {
        lemma_or_bit(words[p / 64], (p % 64) as u64, (j % 64) as u64);
        assert(j == p <==> j % 64 == p % 64);
    } else {
        assert(w[j / 64] == words[j / 64]);
    }
}

/// Setting the probes of a hash keeps every set bit and sets exactly the probes.
proof fn lemma_set_probes(words: Seq<u64>, h: Seq<u8>, k: int, bc: usize, j: int)
    requires
        words.len() == 16,
        0 < bc <= 1024,
        0 <= k,
        0 <= j < 1024,
    ensures
        set_probes(words, h, k, bc).len() == 16,
        bit_set(set_probes(words, h, k, bc), j) == (bit_set(words, j) || exists|i: int|
            0 <= i < k && probe(h, i, bc) == j),
    decreases k,
{
    if k > 0 {
        lemma_set_probes(words, h, k - 1, bc, j);
        let prev = set_probes(words, h, k - 1, bc);
        let p = probe(h, k - 1, bc);
        lemma_set_bit(prev, p, j);
        if bit_set(set_probes(words, h, k, bc), j) && !bit_set(words, j) {
            if j != p {
                let i = choose|i: int| 0 <= i < k - 1 && probe(h, i, bc) == j;
                assert(0 <= i < k && probe(h, i, bc) == j);
            } else {
                assert(0 <= k - 1 < k && probe(h, k - 1, bc) == j);
            }
        }
        if exists|i: int| 0 <= i < k && probe(h, i, bc) == j {
            let i = choose|i: int| 0 <= i < k && probe(h, i, bc) == j;
            if i < k - 1 {
                assert(0 <= i < k - 1 && probe(h, i, bc) == j);
            }
        }
    }
}

/// Simple Bloom Filter for efficient set membership testing.
///
/// Bits are packed into sixteen `u64` words (128 bytes for 1024 bits).
/// A filter never answers `false` for a hash that was inserted since it was
/// last cleared; it may answer `true` for a hash that was not.
#[derive(Debug, Clone)]
pub struct BloomFilter {
    /// Packed bits using u64 words.
    bits: [u64; 16],
    /// Number of hash functions to use.
    hash_count: usize,
    /// Number of items inserted.
    item_count: usize,
    /// Total number of bits in use.
    bit_count: usize,
}

impl BloomFilter {
    /// The packed words of the filter.
    pub closed spec fn words(&self) -> Seq<u64> {
        self.bits@
    }

    /// The number of hash functions.
    pub closed spec fn spec_hash_count(&self) -> usize {
        self.hash_count
    }

    /// The number of bits in use.
    pub closed spec fn spec_bit_count(&self) -> usize {
        self.bit_count
    }

    /// The number of items inserted since creation or the last clear.
    pub closed spec fn spec_len(&self) -> usize {
        self.item_count
    }

    /// The filter's invariant: sixteen words, and at most 1024 bits in use.
    pub closed spec fn wf(&self) -> bool {
        self.bit_count <= 1024
    }

    /// Whether the filter can be probed: it has bits, or no hash functions.
    pub open spec fn probeable(&self) -> bool {
        self.spec_hash_count() == 0 || self.spec_bit_count() > 0
    }

    /// Whether the filter may contain a hash: all its probe bits are set.
    pub open spec fn spec_may_contain(&self, h: Seq<u8>) -> bool {
        probes_set(self.words(), h, self.spec_hash_count() as int, self.spec_bit_count())
    }

    /// Create a new bloom filter with 1024 bits and three hash functions.
    pub fn new() -> (f: Self)
        ensures
            f.wf(),
            f.words() == Seq::new(16, |i: int| 0u64),
            f.spec_hash_count() == BLOOM_HASH_COUNT,
            f.spec_bit_count() == BLOOM_FILTER_BITS,
            f.spec_len() == 0,
    {
        let f = BloomFilter { bits: [0u64; 16], hash_count: BLOOM_HASH_COUNT, item_count: 0, bit_count: BLOOM_FILTER_BITS };
        proof {
            assert(f.bits@ =~= Seq::new(16, |i: int| 0u64));
        }
        f
    }

    /// Create a bloom filter with `bits` bits rounded up to a multiple of 64
    /// (capped at 1024) and `hash_count` hash functions.
    pub fn with_capacity(bits: usize, hash_count: usize) -> (f: Self)
        ensures
            f.wf(),
            f.words() == Seq::new(16, |i: int| 0u64),
            f.spec_hash_count() == hash_count,
            f.spec_bit_count() == (if bits < BLOOM_FILTER_BITS { ((bits + 63) / 64) * 64 } else { BLOOM_FILTER_BITS as int }),
            f.spec_len() == 0,
    {
        let bit_count = if bits < BLOOM_FILTER_BITS { ((bits + 63) / 64) * 64 } else { BLOOM_FILTER_BITS };
        assert(bits < 1024 ==> ((bits + 63) / 64) * 64 <= 1024) by (nonlinear_arith);
        let f = BloomFilter { bits: [0u64; 16], hash_count, item_count: 0, bit_count };
        proof {
            assert(f.bits@ =~= Seq::new(16, |i: int| 0u64));
        }
        f
    }

    /// The bit that the `seed`-th hash function selects for a hash.
    fn hash_index(&self, hash: &crate::types::Hash, seed: usize) -> (idx: usize)
        requires
            self.wf(),
            self.bit_count > 0,
        ensures
            idx as int == probe(hash.0@, seed as int, self.bit_count),
            idx < self.bit_count,
    {
        let b = &hash.0;
        let base: u64 = (b[0] as u64) | ((b[1] as u64) << 8u64) | ((b[2] as u64) << 16u64)
            | ((b[3] as u64) << 24u64) | ((b[4] as u64) << 32u64) | ((b[5] as u64) << 40u64)
            | ((b[6] as u64) << 48u64) | ((b[7] as u64) << 56u64);
        let s = seed as u64;
        let mixed = base.wrapping_mul(0x9e3779b97f4a7c15u64.wrapping_add(s)).wrapping_add(s);
        let mixed = mixed ^ (mixed >> 33u64);
        let mixed = mixed.wrapping_mul(0xff51afd7ed558ccdu64);
        (mixed as usize) % self.bit_count
    }

    /// Insert a hash into the filter: the bits of its probes are set.
    pub fn insert(&mut self, hash: &crate::types::Hash)
        requires
            old(self).wf(),
            old(self).probeable(),
            old(self).spec_len() < usize::MAX,
        ensures
            final(self).wf(),
            final(self).words() == set_probes(old(self).words(), hash.0@,
                old(self).spec_hash_count() as int, old(self).spec_bit_count()),
            final(self).spec_hash_count() == old(self).spec_hash_count(),
            final(self).spec_bit_count() == old(self).spec_bit_count(),
            final(self).spec_len() == old(self).spec_len() + 1,
    {
        let mut i: usize = 0;
        while i < self.hash_count
            invariant
                self.wf(),
                self.probeable(),
                self.hash_count == old(self).hash_count,
                self.bit_count == old(self).bit_count,
                self.item_count == old(self).item_count,
                i <= self.hash_count,
                self.bits@ == set_probes(old(self).bits@, hash.0@, i as int, self.bit_count),
            decreases self.hash_count - i,
        {
            let index = self.hash_index(hash, i);
            let word_idx = index / 64;
            let bit_idx = index % 64;
            let w = self.bits[word_idx];
            self.bits[word_idx] = w | (1u64 << (bit_idx as u64));
            proof {
                assert(self.bits@ =~= set_bit(set_probes(old(self).bits@, hash.0@, i as int, self.bit_count), index as int));
            }
            i = i + 1;
        }
        self.item_count = self.item_count + 1;
    }

    /// Check if a hash might be in the filter (false positives are possible).
    pub fn may_contain(&self, hash: &crate::types::Hash) -> (res: bool)
        requires
            self.wf(),
            self.probeable(),
        ensures
            res == self.spec_may_contain(hash.0@),
    {
        let mut i: usize = 0;
        while i < self.hash_count
            invariant
                self.wf(),
                self.probeable(),
                i <= self.hash_count,
                probes_set(self.bits@, hash.0@, i as int, self.bit_count),
            decreases self.hash_count - i,
        {
            let index = self.hash_index(hash, i);
            let word_idx = index / 64;
            let bit_idx = index % 64;
            if (self.bits[word_idx] & (1u64 << (bit_idx as u64))) == 0 {
                proof {
                    let x = self.bits@[word_idx as int];
                    let c = bit_idx as u64;
                    assert((x & (1u64 << c)) == 0u64 ==> (x >> c) & 1u64 != 1u64) by (bit_vector)
                        requires c < 64;
                    assert(!bit_set(self.bits@, probe(hash.0@, i as int, self.bit_count)));
                }
                return false;
            }
            proof {
                let x = self.bits@[word_idx as int];
                let c = bit_idx as u64;
                assert((x & (1u64 << c)) != 0u64 ==> (x >> c) & 1u64 == 1u64) by (bit_vector)
                    requires c < 64;
                assert(bit_set(self.bits@, probe(hash.0@, i as int, self.bit_count)));
            }
            i = i + 1;
        }
        true
    }

    /// Clear the filter: no bit is set and no item is counted.
    pub fn clear(&mut self)
        requires
            old(self).wf(),
        ensures
            final(self).wf(),
            final(self).words() == Seq::new(16, |i: int| 0u64),
            final(self).spec_hash_count() == old(self).spec_hash_count(),
            final(self).spec_bit_count() == old(self).spec_bit_count(),
            final(self).spec_len() == 0,
    {
        self.bits = [0u64; 16];
        self.item_count = 0;
        proof {
            assert(self.bits@ =~= Seq::new(16, |i: int| 0u64));
        }
    }

    /// Get the number of items inserted.
    pub fn len(&self) -> (n: usize)
        ensures
            n == self.spec_len(),
    {
        self.item_count
    }

    /// Check if the filter is empty.
    pub fn is_empty(&self) -> (b: bool)
        ensures
            b == (self.spec_len() == 0),
    {
        self.item_count == 0
    }

    /// The number of hash functions.
    pub fn hash_count(&self) -> (k: usize)
        ensures
            k == self.spec_hash_count(),
    {
        self.hash_count
    }

    /// The number of bits in use.
    pub fn bit_count(&self) -> (m: usize)
        ensures
            m == self.spec_bit_count(),
    {
        self.bit_count
    }

    /// Convert to bytes for network transmission: the 16 words, each little-endian.
    pub fn to_bytes(&self) -> (bytes: Vec<u8>)
        requires
            self.wf(),
        ensures
            bytes@ == bytes_of_words(self.words()),
            bytes@.len() == 128,
    {
        let mut bytes: Vec<u8> = Vec::new();
        let mut w: usize = 0;
        while w < 16
            invariant
                w <= 16,
                bytes@ =~= bytes_of_words(self.bits@.subrange(0, w as int)),
            decreases 16 - w,
        {
            let ghost before = bytes@;
            crate::types::push_u64_le(&mut bytes, self.bits[w]);
            proof {
                let x = self.bits@[w as int];
                let pre = self.bits@.subrange(0, w as int + 1);
                assert forall|i: int| 0 <= i < pre.len() * 8 implies #[trigger] bytes@[i] == bytes_of_words(pre)[i] by {
                    if i < w * 8 {
                        assert(pre[i / 8] == self.bits@.subrange(0, w as int)[i / 8]);
                    } else {
                        assert(i / 8 == w);
                        assert(bytes@[i] == le_u64(x)[i - 8 * w]);
                        assert((i - 8 * w) == i % 8);
                    }
                }
                assert(bytes@ =~= bytes_of_words(pre));
            }
            w = w + 1;
        }
        proof {
            assert(self.bits@.subrange(0, 16) =~= self.bits@);
        }
        bytes
    }

    /// Create a filter from bytes received over the network: the words are
    /// read little-endian from the first 128 bytes (missing bytes read as
    /// zero); the filter has 1024 bits, three hash functions, and an unknown
    /// (zero) item count.
    pub fn from_bytes(bytes: &[u8]) -> (f: Self)
        ensures
            f.wf(),
            f.words() == words_of_bytes(bytes@),
            f.spec_hash_count() == BLOOM_HASH_COUNT,
            f.spec_bit_count() == BLOOM_FILTER_BITS,
            f.spec_len() == 0,
    {
        let mut bits = [0u64; 16];
        let mut i: usize = 0;
        while i < 16
            invariant
                i <= 16,
                forall|j: int| 0 <= j < i ==> bits@[j] == word_from(bytes@, 8 * j),
            decreases 16 - i,
        {
            let start = 8 * i;
            let b0 = if start < bytes.len() { bytes[start] } else { 0u8 };
            let b1 = if start + 1 < bytes.len() { bytes[start + 1] } else { 0u8 };
            let b2 = if start + 2 < bytes.len() { bytes[start + 2] } else { 0u8 };
            let b3 = if start + 3 < bytes.len() { bytes[start + 3] } else { 0u8 };
            let b4 = if start + 4 < bytes.len() { bytes[start + 4] } else { 0u8 };
            let b5 = if start + 5 < bytes.len() { bytes[start + 5] } else { 0u8 };
            let b6 = if start + 6 < bytes.len() { bytes[start + 6] } else { 0u8 };
            let b7 = if start + 7 < bytes.len() { bytes[start + 7] } else { 0u8 };
            bits[i] = (b0 as u64) | ((b1 as u64) << 8u64) | ((b2 as u64) << 16u64) | ((b3 as u64) << 24u64)
                | ((b4 as u64) << 32u64) | ((b5 as u64) << 40u64) | ((b6 as u64) << 48u64)
                | ((b7 as u64) << 56u64);
            i = i + 1;
        }
        let f = BloomFilter { bits, hash_count: BLOOM_HASH_COUNT, item_count: 0, bit_count: BLOOM_FILTER_BITS };
        proof {
            assert(f.bits@ =~= words_of_bytes(bytes@));
        }
        f
    }
}

/// A hash that was inserted is afterwards reported as possibly contained (no
/// false negatives), and every hash that was possibly contained before an
/// insertion still is after it.
pub proof fn lemma_insert_no_false_negatives(before: BloomFilter, after: BloomFilter, h: Seq<u8>, other: Seq<u8>)
    requires
        before.wf(),
        before.probeable(),
        after.words() == set_probes(before.words(), h, before.spec_hash_count() as int, before.spec_bit_count()),
        after.spec_hash_count() == before.spec_hash_count(),
        after.spec_bit_count() == before.spec_bit_count(),
    ensures
        after.spec_may_contain(h),
        before.spec_may_contain(other) ==> after.spec_may_contain(other),
{

    let k = before.spec_hash_count() as int;
    let bc = before.spec_bit_count();
    if k > 0 {
        assert forall|i: int| 0 <= i < k implies #[trigger] bit_set(after.words(), probe(h, i, bc)) by {
            let p = probe(h, i, bc);
            lemma_set_probes(before.words(), h, k, bc, p);
        }
        if before.spec_may_contain(other) {
            assert forall|i: int| 0 <= i < k implies #[trigger] bit_set(after.words(), probe(other, i, bc)) by {
                let p = probe(other, i, bc);
                assert(bit_set(before.words(), p));
                lemma_set_probes(before.words(), h, k, bc, p);
            }
        }
    }
}

/// The words after inserting the hashes `hs`, in order, each with `k` hash
/// functions over `bit_count` bits.
pub open spec fn insert_all(words: Seq<u64>, hs: Seq<Seq<u8>>, k: int, bit_count: usize) -> Seq<u64>
    decreases hs.len(),
{
    if hs.len() == 0 {
        words
    } else {
        set_probes(insert_all(words, hs.drop_last(), k, bit_count), hs.last(), k, bit_count)
    }
}

/// Inserting one hash sets its probes and keeps the probes of every other
/// hash that were set.
proof fn lemma_set_probes_keeps(words: Seq<u64>, h2: Seq<u8>, k: int, bc: usize, h: Seq<u8>)
    requires
        words.len() == 16,
        0 <= k,
        k == 0 || 0 < bc <= 1024,
    ensures
        set_probes(words, h2, k, bc).len() == 16,
        probes_set(set_probes(words, h2, k, bc), h2, k, bc),
        probes_set(words, h, k, bc) ==> probes_set(set_probes(words, h2, k, bc), h, k, bc),
{
    if k == 0 {
        assert(set_probes(words, h2, k, bc) == words);
    } else {
        lemma_set_probes(words, h2, k, bc, 0);
        assert forall|i: int| 0 <= i < k implies #[trigger] bit_set(set_probes(words, h2, k, bc), probe(h2, i, bc)) by {
            lemma_set_probes(words, h2, k, bc, probe(h2, i, bc));
        }
        if probes_set(words, h, k, bc) {
            assert forall|i: int| 0 <= i < k implies #[trigger] bit_set(set_probes(words, h2, k, bc), probe(h, i, bc)) by {
                assert(bit_set(words, probe(h, i, bc)));
                lemma_set_probes(words, h2, k, bc, probe(h, i, bc));
            }
        }
    }
}

/// No false negatives over any run of insertions: every inserted hash is
/// possibly contained at the end, and so is every hash that was possibly
/// contained before them.
pub proof fn lemma_inserts_keep_members(words: Seq<u64>, hs: Seq<Seq<u8>>, k: int, bc: usize, h: Seq<u8>)
    requires
        words.len() == 16,
        0 <= k,
        k == 0 || 0 < bc <= 1024,
    ensures
        insert_all(words, hs, k, bc).len() == 16,
        probes_set(words, h, k, bc) ==> probes_set(insert_all(words, hs, k, bc), h, k, bc),
        forall|i: int| 0 <= i < hs.len() ==> probes_set(insert_all(words, hs, k, bc), #[trigger] hs[i], k, bc),
    decreases hs.len(),
{
    if hs.len() > 0 {
        let prev = insert_all(words, hs.drop_last(), k, bc);
        lemma_inserts_keep_members(words, hs.drop_last(), k, bc, h);
        lemma_set_probes_keeps(prev, hs.last(), k, bc, h);
        assert forall|i: int| 0 <= i < hs.len() implies probes_set(insert_all(words, hs, k, bc), #[trigger] hs[i], k, bc) by {
            if i < hs.len() - 1 {
                assert(hs.drop_last()[i] == hs[i]);
                lemma_inserts_keep_members(words, hs.drop_last(), k, bc, hs[i]);
                lemma_set_probes_keeps(prev, hs.last(), k, bc, hs[i]);
            }
        }
    }
}

/// After clearing, a filter with hash functions reports no hash as possibly contained.
pub proof fn lemma_cleared_contains_nothing(f: BloomFilter, h: Seq<u8>)
    requires
        f.wf(),
        f.probeable(),
        f.spec_hash_count() > 0,
        f.words() == Seq::new(16, |i: int| 0u64),
    ensures
        !f.spec_may_contain(h),
{
    let bc = f.spec_bit_count();
    let p = probe(h, 0, bc);
    assert(0 <= p < 1024) by {

    }
    lemma_zero_bit((p % 64) as u64);
    assert(!bit_set(f.words(), p));
}

/// Serialising the sixteen words to bytes and reading them back gives the same words.
pub proof fn lemma_bytes_round_trip(ws: Seq<u64>)
    requires
        ws.len() == 16,
    ensures
        bytes_of_words(ws).len() == 128,
        words_of_bytes(bytes_of_words(ws)) == ws,
{
    let bs = bytes_of_words(ws);
    assert forall|i: int| 0 <= i < 16 implies #[trigger] word_from(bs, 8 * i) == ws[i] by {
        let x = ws[i];
        assert forall|j: int| 0 <= j < 8 implies #[trigger] byte_at(bs, 8 * i + j) == ((x >> (8 * j) as u64) & 0xff) as u8 by {
            assert((8 * i + j) / 8 == i);
            assert((8 * i + j) % 8 == j);
        }
        let b0 = byte_at(bs, 8 * i);
        let b1 = byte_at(bs, 8 * i + 1);
        let b2 = byte_at(bs, 8 * i + 2);
        let b3 = byte_at(bs, 8 * i + 3);
        let b4 = byte_at(bs, 8 * i + 4);
        let b5 = byte_at(bs, 8 * i + 5);
        let b6 = byte_at(bs, 8 * i + 6);
        let b7 = byte_at(bs, 8 * i + 7);
        assert((8 * i + 0) == 8 * i);
        assert(b0 == ((x >> 0u64) & 0xff) as u8);
        assert(b1 == ((x >> 8u64) & 0xff) as u8);
        assert(b2 == ((x >> 16u64) & 0xff) as u8);
        assert(b3 == ((x >> 24u64) & 0xff) as u8);
        assert(b4 == ((x >> 32u64) & 0xff) as u8);
        assert(b5 == ((x >> 40u64) & 0xff) as u8);
        assert(b6 == ((x >> 48u64) & 0xff) as u8);
        assert(b7 == ((x >> 56u64) & 0xff) as u8);
        assert((b0 as u64) | ((b1 as u64) << 8u64) | ((b2 as u64) << 16u64) | ((b3 as u64) << 24u64)
            | ((b4 as u64) << 32u64) | ((b5 as u64) << 40u64) | ((b6 as u64) << 48u64)
            | ((b7 as u64) << 56u64) == x) by (bit_vector)
            requires
                b0 == ((x >> 0u64) & 0xff) as u8,
                b1 == ((x >> 8u64) & 0xff) as u8,
                b2 == ((x >> 16u64) & 0xff) as u8,
                b3 == ((x >> 24u64) & 0xff) as u8,
                b4 == ((x >> 32u64) & 0xff) as u8,
                b5 == ((x >> 40u64) & 0xff) as u8,
                b6 == ((x >> 48u64) & 0xff) as u8,
                b7 == ((x >> 56u64) & 0xff) as u8,
        ;
    }
    assert(words_of_bytes(bs) =~= ws);
}

impl Default for BloomFilter {
    fn default() -> (f: Self)
        ensures
            f.wf(),
            f.words() == Seq::new(16, |i: int| 0u64),
            f.spec_hash_count() == BLOOM_HASH_COUNT,
            f.spec_bit_count() == BLOOM_FILTER_BITS,
            f.spec_len() == 0,
    {
        Self::new()
    }
}

/// Message priority levels for gossip.
#[derive(Debug, Clone, Copy, PartialEq, Eq, PartialOrd, Ord, Hash)]
pub enum MessagePriority {
    /// Low priority - peer discovery, heartbeats.
    Low,
    /// Normal priority - regular gossip sync.
    Normal,
    /// High priority - new record announcements.
    High,
    /// Critical priority - consensus messages.
    Critical,
}

impl MessagePriority {
    /// The rank of a priority: 0 for `Low` up to 3 for `Critical`.
    pub open spec fn spec_rank(self) -> int {
        match self {
            MessagePriority::Low => 0,
            MessagePriority::Normal => 1,
            MessagePriority::High => 2,
            MessagePriority::Critical => 3,
        }
    }

    /// The rank of a priority: 0 for `Low` up to 3 for `Critical`.
    pub fn rank(&self) -> (r: u8)
        ensures
            r as int == self.spec_rank(),
    {
        match self {
            MessagePriority::Low => 0,
            MessagePriority::Normal => 1,
            MessagePriority::High => 2,
            MessagePriority::Critical => 3,
        }
    }
}

/// A prioritized message wrapper.
#[derive(Debug)]
pub struct PrioritizedMessage<T> {
    /// The message payload.
    pub message: T,
    /// Message priority.
    pub priority: MessagePriority,
    /// Time when the message was queued.
    pub queued_at: Instant,
    /// Sequence for FIFO within the same priority.
    sequence: u64,
}

impl<T> PrioritizedMessage<T> {
    /// The sequence number the message was queued with.
    pub closed spec fn spec_sequence(&self) -> u64 {
        self.sequence
    }

    /// The message payload.
    pub closed spec fn spec_message(&self) -> T {
        self.message
    }

    /// The message priority.
    pub closed spec fn spec_priority(&self) -> MessagePriority {
        self.priority
    }

    /// The sequence number the message was queued with.
    pub fn sequence(&self) -> (s: u64)
        ensures
            s == self.spec_sequence(),
    {
        self.sequence
    }
}

/// Whether `a` is sent before `b`: a higher priority, or the same priority
/// and queued earlier.
pub open spec fn goes_first<T>(a: PrioritizedMessage<T>, b: PrioritizedMessage<T>) -> bool {
    a.spec_priority().spec_rank() > b.spec_priority().spec_rank() || (a.spec_priority().spec_rank()
        == b.spec_priority().spec_rank() && a.spec_sequence() < b.spec_sequence())
}

/// Whether item `i` is the one to send next: no other item goes first.
pub open spec fn is_next<T>(items: Seq<PrioritizedMessage<T>>, i: int) -> bool {
    &&& 0 <= i < items.len()
    &&& forall|j: int| 0 <= j < items.len() && j != i ==> !goes_first(#[trigger] items[j], items[i])
}

/// First in, first out within a priority: of two queued messages with the
/// same priority, the one with the smaller sequence number (pushed earlier:
/// `push` numbers each message above every message already queued, and `pop`
/// keeps the numbers of the rest) goes first, and the other is never the one
/// sent next.
pub proof fn lemma_fifo_within_priority<T>(q: MessageQueue<T>, i: int, j: int)
    requires
        q.wf(),
        0 <= i < q.items().len(),
        0 <= j < q.items().len(),
        q.items()[i].spec_priority() == q.items()[j].spec_priority(),
        q.items()[i].spec_sequence() < q.items()[j].spec_sequence(),
    ensures
        goes_first(q.items()[i], q.items()[j]),
        !is_next(q.items(), j),
{
    assert(i != j);
    assert(goes_first(q.items()[i], q.items()[j]));
}

/// A message pushed while another of its priority waits is not the next one
/// sent: the requirements are what an accepted `push` ensures.
pub proof fn lemma_pushed_behind_same_priority<T>(before: MessageQueue<T>, after: MessageQueue<T>, k: int)
    requires
        after.wf(),
        after.items().len() == before.items().len() + 1,
        after.items().drop_last() == before.items(),
        forall|x: int| 0 <= x < before.items().len() ==> #[trigger] before.items()[x].spec_sequence()
            < after.items().last().spec_sequence(),
        0 <= k < before.items().len(),
        before.items()[k].spec_priority() == after.items().last().spec_priority(),
    ensures
        !is_next(after.items(), after.items().len() - 1),
{
    let n = after.items().len() - 1;
    assert(after.items()[k] == before.items()[k]);
    assert(before.items()[k].spec_sequence() < after.items().last().spec_sequence());
    lemma_fifo_within_priority(after, k, n);
}

/// The position of the item sent next (meaningful for a non-empty queue).
pub open spec fn next_position<T>(items: Seq<PrioritizedMessage<T>>) -> int {
    choose|i: int| is_next(items, i)
}

/// Whether the items have pairwise different sequence numbers.
pub open spec fn distinct_sequences<T>(items: Seq<PrioritizedMessage<T>>) -> bool {
    forall|i: int, j: int| 0 <= i < j < items.len() ==>
        #[trigger] items[i].spec_sequence() != #[trigger] items[j].spec_sequence()
}

/// The order of the queue: the item sent next has the highest priority of
/// all, and among the items of that priority the smallest sequence number
/// (it was pushed first). So there is exactly one such item.
pub proof fn lemma_queue_order<T>(items: Seq<PrioritizedMessage<T>>, i: int)
    requires
        distinct_sequences(items),
        is_next(items, i),
    ensures
        forall|j: int| 0 <= j < items.len() ==> #[trigger] items[j].spec_priority().spec_rank()
            <= items[i].spec_priority().spec_rank(),
        forall|j: int| 0 <= j < items.len() && j != i && #[trigger] items[j].spec_priority().spec_rank()
            == items[i].spec_priority().spec_rank() ==> items[i].spec_sequence() < items[j].spec_sequence(),
        forall|j: int| #[trigger] is_next(items, j) ==> j == i,
{
    assert forall|j: int| 0 <= j < items.len() && j != i implies items[j].spec_sequence() != items[i].spec_sequence() by {
        if j < i {
            assert(items[j].spec_sequence() != items[i].spec_sequence());
        } else {
            assert(items[i].spec_sequence() != items[j].spec_sequence());
        }
    }
    assert forall|j: int| 0 <= j < items.len() implies #[trigger] items[j].spec_priority().spec_rank()
        <= items[i].spec_priority().spec_rank() by {
        if j != i {
            assert(!goes_first(items[j], items[i]));
        }
    }
    assert forall|j: int| #[trigger] is_next(items, j) implies j == i by {
        if j != i {
            assert(!goes_first(items[j], items[i]));
            assert(!goes_first(items[i], items[j]));
        }
    }
}

/// The item sent next exists in a non-empty queue and is the one at
/// `next_position`; `peek` and the following `pop` both give it.
pub proof fn lemma_next_position<T>(items: Seq<PrioritizedMessage<T>>, i: int)
    requires
        distinct_sequences(items),
        is_next(items, i),
    ensures
        next_position(items) == i,
        is_next(items, next_position(items)),
{
    lemma_queue_order(items, i);
}

/// Priority queue for gossip messages: the highest priority leaves first,
/// and among equal priorities the oldest.
#[derive(Debug)]
pub struct MessageQueue<T> {
    entries: Vec<PrioritizedMessage<T>>,
    sequence: u64,
    max_size: usize,
}

impl<T> MessageQueue<T> {
    /// The queued messages, in the order they are stored.
    pub closed spec fn items(&self) -> Seq<PrioritizedMessage<T>> {
        self.entries@
    }

    /// The most recent sequence number handed out.
    pub closed spec fn spec_sequence(&self) -> u64 {
        self.sequence
    }

    /// The capacity of the queue.
    pub closed spec fn spec_max_size(&self) -> usize {
        self.max_size
    }

    /// The queue's invariant: within capacity, and each message has its own
    /// sequence number, no greater than the last one handed out.
    pub open spec fn wf(&self) -> bool {
        &&& self.items().len() <= self.spec_max_size()
        &&& forall|i: int| 0 <= i < self.items().len() ==> #[trigger] self.items()[i].spec_sequence() <= self.spec_sequence()
        &&& forall|i: int, j: int| 0 <= i < j < self.items().len() ==>
            #[trigger] self.items()[i].spec_sequence() != #[trigger] self.items()[j].spec_sequence()
    }

    /// Create a new message queue holding at most `max_size` messages.
    pub fn new(max_size: usize) -> (q: Self)
        ensures
            q.wf(),
            q.items().len() == 0,
            q.spec_max_size() == max_size,
            q.spec_sequence() == 0,
    {
        MessageQueue { entries: Vec::new(), sequence: 0, max_size }
    }

    /// Push a message with a priority. A full queue refuses the message and
    /// returns `false`.
    pub fn push(&mut self, message: T, priority: MessagePriority) -> (added: bool)
        requires
            old(self).wf(),
            old(self).spec_sequence() < u64::MAX,
        ensures
            final(self).wf(),
            final(self).spec_max_size() == old(self).spec_max_size(),
            added == (old(self).items().len() < old(self).spec_max_size()),
            !added ==> final(self).items() == old(self).items() && final(self).spec_sequence()
                == old(self).spec_sequence(),
            added ==> final(self).spec_sequence() == old(self).spec_sequence() + 1,
            added ==> final(self).items().len() == old(self).items().len() + 1,
            added ==> final(self).items().drop_last() == old(self).items(),
            added ==> final(self).items().last().spec_message() == message,
            added ==> final(self).items().last().spec_priority() == priority,
            added ==> final(self).items().last().spec_sequence() == final(self).spec_sequence(),
            added ==> forall|k: int| 0 <= k < old(self).items().len() ==> #[trigger] old(self).items()[k].spec_sequence()
                < final(self).items().last().spec_sequence(),
    {
        if self.entries.len() >= self.max_size {
            return false;
        }
        self.sequence = self.sequence + 1;
        let queued_at = crate::time::now();
        self.entries.push(PrioritizedMessage { message, priority, queued_at, sequence: self.sequence });
        proof {
            assert(self.entries@.drop_last() =~= old(self).entries@);
        }
        true
    }

    /// The position of the message to send next.
    fn next_index(&self) -> (i: usize)
        requires
            self.wf(),
            self.items().len() > 0,
        ensures
            is_next(self.items(), i as int),
    {
        let mut best: usize = 0;
        let mut k: usize = 1;
        while k < self.entries.len()
            invariant
                self.wf(),
                1 <= k <= self.entries@.len(),
                best < k,
                forall|j: int| 0 <= j < k && j != best ==> !goes_first(#[trigger] self.entries@[j], self.entries@[best as int]),
            decreases self.entries@.len() - k,
        {
            let rk = self.entries[k].priority.rank();
            let rb = self.entries[best].priority.rank();
            if rk > rb || (rk == rb && self.entries[k].sequence < self.entries[best].sequence) {
                proof {
                    assert forall|j: int| 0 <= j < k + 1 && j != k implies !goes_first(#[trigger] self.entries@[j], self.entries@[k as int]) by {
                        if j != best {
                            assert(!goes_first(self.entries@[j], self.entries@[best as int]));
                            assert(self.entries@[j].spec_sequence() != self.entries@[k as int].spec_sequence() || j == k);
                        }
                    }
                }
                best = k;
            } else {
                proof {
                    assert(self.entries@[k as int].spec_sequence() != self.entries@[best as int].spec_sequence());
                }
            }
            k = k + 1;
        }
        best
    }

    /// Pop the message to send next: the highest priority, and among equal
    /// priorities the one queued first.
    pub fn pop(&mut self) -> (m: Option<T>)
        requires
            old(self).wf(),
        ensures
            final(self).wf(),
            final(self).spec_sequence() == old(self).spec_sequence(),
            final(self).spec_max_size() == old(self).spec_max_size(),
            old(self).items().len() == 0 ==> m is None && final(self).items() == old(self).items(),
            old(self).items().len() > 0 ==> exists|i: int| #[trigger] is_next(old(self).items(), i)
                && m == Some(old(self).items()[i].spec_message()) && final(self).items() == old(self).items().remove(i),
            old(self).items().len() > 0 ==> m == Some(old(self).items()[next_position(old(self).items())].spec_message())
                && final(self).items() == old(self).items().remove(next_position(old(self).items())),
    {
        if self.entries.len() == 0 {
            return None;
        }
        let i = self.next_index();
        proof {
            lemma_next_position(old(self).items(), i as int);
        }
        let pm = self.entries.remove(i);
        proof {
            assert(is_next(old(self).items(), i as int));
            assert forall|a: int, b: int| 0 <= a < b < self.items().len() implies
                #[trigger] self.items()[a].spec_sequence() != #[trigger] self.items()[b].spec_sequence() by {
                let a2 = if a < i { a } else { a + 1 };
                let b2 = if b < i { b } else { b + 1 };
                assert(self.items()[a] == old(self).items()[a2]);
                assert(self.items()[b] == old(self).items()[b2]);
            }
            assert forall|a: int| 0 <= a < self.items().len() implies #[trigger] self.items()[a].spec_sequence() <= self.spec_sequence() by {
                let a2 = if a < i { a } else { a + 1 };
                assert(self.items()[a] == old(self).items()[a2]);
            }
        }
        Some(pm.message)
    }

    /// Peek at the message to send next.
    pub fn peek(&self) -> (m: Option<&T>)
        requires
            self.wf(),
        ensures
            self.items().len() == 0 ==> m is None,
            self.items().len() > 0 ==> exists|i: int| #[trigger] is_next(self.items(), i)
                && m == Some(&self.items()[i].spec_message()),
            self.items().len() > 0 ==> m == Some(&self.items()[next_position(self.items())].spec_message()),
    {
        if self.entries.len() == 0 {
            return None;
        }
        let i = self.next_index();
        proof {
            lemma_next_position(self.items(), i as int);
        }
        Some(&self.entries[i].message)
    }

    /// Get the queue length.
    pub fn len(&self) -> (n: usize)
        ensures
            n == self.items().len(),
    {
        self.entries.len()
    }

    /// Check if the queue is empty.
    pub fn is_empty(&self) -> (b: bool)
        ensures
            b == (self.items().len() == 0),
    {
        self.entries.len() == 0
    }

    /// Clear the queue.
    pub fn clear(&mut self)
        requires
            old(self).wf(),
        ensures
            final(self).wf(),
            final(self).items().len() == 0,
            final(self).spec_sequence() == old(self).spec_sequence(),
            final(self).spec_max_size() == old(self).spec_max_size(),
    {
        self.entries.clear();
    }
}

impl<T> Default for MessageQueue<T> {
    fn default() -> (q: Self)
        ensures
            q.wf(),
            q.items().len() == 0,
            q.spec_max_size() == 100,
            q.spec_sequence() == 0,
    {
        Self::new(100)
    }
}

/// Minimum backoff, in milliseconds.
pub const MIN_BACKOFF_MS: u64 = 100;

/// Maximum backoff, in milliseconds.
pub const MAX_BACKOFF_MS: u64 = 300000;

/// The largest backoff in milliseconds that the backoff arithmetic handles
/// exactly (2^53, the range in which a `u64` converts to `f64` exactly).
pub const EXACT_BACKOFF_LIMIT_MS: u128 = 9007199254740992;

/// The backoff, in milliseconds, after a success: halved, at least the minimum.
pub open spec fn backoff_after_success(ms: int) -> int {
    if ms / 2 > MIN_BACKOFF_MS as int { ms / 2 } else { MIN_BACKOFF_MS as int }
}

/// The backoff, in milliseconds, after a failure: doubled, at most the maximum.
pub open spec fn backoff_after_failure(ms: int) -> int {
    if ms * 2 < MAX_BACKOFF_MS as int { ms * 2 } else { MAX_BACKOFF_MS as int }
}

/// Peer gossip state for adaptive timing.
#[derive(Debug, Clone)]
pub struct PeerGossipState {
    /// Consecutive failures.
    pub failures: u32,
    /// Consecutive successes.
    pub successes: u32,
    /// Current backoff duration.
    pub current_backoff: Duration,
    /// Last gossip attempt.
    pub last_attempt: Instant,
    /// Bloom filter of known hashes.
    pub known_hashes: BloomFilter,
}

impl PeerGossipState {
    /// Create a new peer state: no failures or successes, the minimum backoff
    /// (100 ms) and an empty filter.
    pub fn new() -> (s: Self)
        ensures
            s.failures == 0,
            s.successes == 0,
            duration_as_nanos(s.current_backoff) == MIN_BACKOFF_MS as u128 * 1_000_000,
            s.known_hashes.wf(),
            s.known_hashes.words() == Seq::new(16, |i: int| 0u64),
            s.known_hashes.spec_hash_count() == BLOOM_HASH_COUNT,
            s.known_hashes.spec_bit_count() == BLOOM_FILTER_BITS,
            s.known_hashes.spec_len() == 0,
    {
        PeerGossipState {
            failures: 0,
            successes: 0,
            current_backoff: crate::time::from_millis(MIN_BACKOFF_MS),
            last_attempt: crate::time::now(),
            known_hashes: BloomFilter::new(),
        }
    }

    /// Record a successful gossip: failures reset, successes counted
    /// (saturating), the backoff halved down to the minimum.
    pub fn record_success(&mut self)
        requires
            duration_as_nanos(old(self).current_backoff) / 1_000_000 <= EXACT_BACKOFF_LIMIT_MS,
        ensures
            final(self).failures == 0,
            final(self).successes == (if old(self).successes == u32::MAX { u32::MAX } else { (old(self).successes + 1) as u32 }),
            duration_as_nanos(final(self).current_backoff) == backoff_after_success(spec_millis(old(self).current_backoff)) * 1_000_000,
            final(self).known_hashes == old(self).known_hashes,
    {
        self.failures = 0;
        self.successes = self.successes.saturating_add(1);
        let ms = crate::time::millis_of(&self.current_backoff);
        let half = ms / 2;
        let next: u64 = if half > MIN_BACKOFF_MS as u128 { half as u64 } else { MIN_BACKOFF_MS };
        self.current_backoff = crate::time::from_millis(next);
        self.last_attempt = crate::time::now();
    }

    /// Record a successful gossip when the backoff is within the range in
    /// which halving it is exact (at most 2^53 ms): as `record_success`, and
    /// `true`. A larger backoff is left as it is, with nothing changed, and
    /// the result is `false`.
    pub fn try_record_success(&mut self) -> (done: bool)
        ensures
            done == (duration_as_nanos(old(self).current_backoff) / 1_000_000 <= EXACT_BACKOFF_LIMIT_MS),
            !done ==> *final(self) == *old(self),
            done ==> final(self).failures == 0,
            done ==> final(self).successes == (if old(self).successes == u32::MAX { u32::MAX } else { (old(self).successes + 1) as u32 }),
            done ==> duration_as_nanos(final(self).current_backoff) == backoff_after_success(spec_millis(old(self).current_backoff))
                * 1_000_000,
            done ==> final(self).known_hashes == old(self).known_hashes,
    {
        if crate::time::millis_of(&self.current_backoff) <= EXACT_BACKOFF_LIMIT_MS {
            self.record_success();
            true
        } else {
            false
        }
    }

    /// Record a failed gossip: successes reset, failures counted
    /// (saturating), the backoff doubled up to the maximum.
    pub fn record_failure(&mut self)
        ensures
            final(self).successes == 0,
            final(self).failures == (if old(self).failures == u32::MAX { u32::MAX } else { (old(self).failures + 1) as u32 }),
            duration_as_nanos(final(self).current_backoff) == backoff_after_failure(spec_millis(old(self).current_backoff)) * 1_000_000,
            final(self).known_hashes == old(self).known_hashes,
    {
        self.successes = 0;
        self.failures = self.failures.saturating_add(1);
        let ms = crate::time::millis_of(&self.current_backoff);
        let double = ms * 2;
        let next: u64 = if double < MAX_BACKOFF_MS as u128 { double as u64 } else { MAX_BACKOFF_MS };
        self.current_backoff = crate::time::from_millis(next);
        self.last_attempt = crate::time::now();
    }

    /// Whether gossip is due once `elapsed` has passed since the last attempt.
    pub fn should_gossip_after(&self, elapsed: &Duration) -> (b: bool)
        ensures
            b == (duration_as_nanos(*elapsed) >= duration_as_nanos(self.current_backoff)),
    {
        crate::time::nanos_of(elapsed) >= crate::time::nanos_of(&self.current_backoff)
    }

    /// Check if we should attempt gossip with this peer now: the backoff has
    /// elapsed since the last attempt (as `should_gossip_after` decides for
    /// the time read from the clock). With no backoff it is always due.
    pub fn should_gossip(&self) -> (b: bool)
        ensures
            duration_as_nanos(self.current_backoff) == 0 ==> b,
    {
        let e = crate::time::elapsed(&self.last_attempt);
        self.should_gossip_after(&e)
    }

    /// The time left until the next attempt once `elapsed` has passed since
    /// the last one: the rest of the backoff, or zero.
    pub fn time_until_next_attempt_after(&self, elapsed: &Duration) -> (d: Duration)
        ensures
            duration_as_nanos(*elapsed) >= duration_as_nanos(self.current_backoff) ==> duration_as_nanos(d) == 0,
            duration_as_nanos(*elapsed) < duration_as_nanos(self.current_backoff) ==> duration_as_nanos(d)
                == duration_as_nanos(self.current_backoff) - duration_as_nanos(*elapsed),
    {
        if crate::time::nanos_of(elapsed) >= crate::time::nanos_of(&self.current_backoff) {
            crate::time::from_secs(0)
        } else {
            crate::time::sub(&self.current_backoff, elapsed)
        }
    }

    /// Get the time until the next gossip attempt, by the clock: the rest of
    /// the backoff, so never more than the backoff.
    pub fn time_until_next_attempt(&self) -> (d: Duration)
        ensures
            duration_as_nanos(d) <= duration_as_nanos(self.current_backoff),
    {
        let e = crate::time::elapsed(&self.last_attempt);
        self.time_until_next_attempt_after(&e)
    }
}

impl Default for PeerGossipState {
    fn default() -> (s: Self)
        ensures
            s.failures == 0,
            s.successes == 0,
            duration_as_nanos(s.current_backoff) == MIN_BACKOFF_MS as u128 * 1_000_000,
    {
        Self::new()
    }
}

/// The backoff stays between the minimum and the maximum: a success or a
/// failure from a backoff in that range gives a backoff in that range.
pub proof fn lemma_backoff_stays_in_range(ms: int)
    requires
        MIN_BACKOFF_MS <= ms <= MAX_BACKOFF_MS,
    ensures
        MIN_BACKOFF_MS <= backoff_after_success(ms) <= MAX_BACKOFF_MS,
        MIN_BACKOFF_MS <= backoff_after_failure(ms) <= MAX_BACKOFF_MS,
{
}

/// A failure followed by a success restores the backoff, unless doubling
/// hit the maximum; a success never lengthens the backoff beyond the
/// minimum and a failure never shortens it.
pub proof fn lemma_failure_then_success(ms: int)
    requires
        MIN_BACKOFF_MS <= ms,
    ensures
        2 * ms < MAX_BACKOFF_MS ==> backoff_after_success(backoff_after_failure(ms)) == ms,
        backoff_after_success(ms) <= ms,
        ms <= MAX_BACKOFF_MS ==> ms <= backoff_after_failure(ms),
{
}

/// Gossip message types.
#[derive(Debug, Clone)]
pub enum GossipMessage {
    /// Bloom filter for set reconciliation.
    BloomSync { filter_bytes: Vec<u8> },
    /// Request for missing records.
    RequestRecords { hashes: Vec<crate::types::Hash> },
    /// Batch of records.
    SendRecords { records: Vec<Vec<u8>> },
    /// Single announcement.
    Announce { hash: crate::types::Hash },
}

} // verus!
