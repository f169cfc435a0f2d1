//! The gossip state of a node: which hashes it knows, which it still has to
//! announce, the queue of outgoing gossip messages and the round counter.
//!
//! Pacing of outgoing traffic (the bandwidth budget) is kept by the caller,
//! which asks for the next message only when its budget allows.

use crate::gossip::{
    lemma_insert_no_false_negatives, set_probes, BloomFilter, GossipMessage, MessagePriority, MessageQueue,
    BLOOM_FILTER_BITS, BLOOM_HASH_COUNT,
};
use crate::time::{duration_as_nanos, elapsed, nanos_of, now};
use std::time::Duration;
use std::time::Instant;
use vstd::prelude::*;

verus! {

/// How many recently seen hashes are remembered exactly.
pub const MAX_RECENT_HASHES: usize = 1000;

/// How many outgoing gossip messages may wait in the queue.
pub const GOSSIP_QUEUE_SIZE: usize = 100;

/// The bytes of a list of hashes.
pub open spec fn hash_bytes(s: Seq<crate::types::Hash>) -> Seq<Seq<u8>> {
    s.map_values(|h: crate::types::Hash| h.0@)
}

/// The hashes of `hashes` that a filter with `words`, `hash_count` hash
/// functions and `bit_count` bits does not contain, in order.
pub open spec fn missing_from(words: Seq<u64>, hash_count: int, bit_count: usize, hashes: Seq<Seq<u8>>) -> Seq<Seq<u8>>
    decreases hashes.len(),
{
    if hashes.len() == 0 {
        Seq::empty()
    } else {
        let rest = missing_from(words, hash_count, bit_count, hashes.drop_last());
        if crate::gossip::probes_set(words, hashes.last(), hash_count, bit_count) {
            rest
        } else {
            rest.push(hashes.last())
        }
    }
}

/// The gossip state of a node.
pub struct GossipManager {
    loop_delay: Duration,
    last_gossip: Instant,
    pending_announcements: Vec<crate::types::Hash>,
    local_filter: BloomFilter,
    recent_hashes: Vec<crate::types::Hash>,
    max_recent: usize,
    message_queue: MessageQueue<GossipMessage>,
    round: u64,
}

impl GossipManager {
    /// The delay between gossip rounds.
    pub closed spec fn spec_loop_delay(&self) -> Duration {
        self.loop_delay
    }

    /// The hashes still to announce, oldest first.
    pub closed spec fn pending(&self) -> Seq<Seq<u8>> {
        hash_bytes(self.pending_announcements@)
    }

    /// The hashes remembered exactly (each once).
    pub closed spec fn recent(&self) -> Seq<Seq<u8>> {
        hash_bytes(self.recent_hashes@)
    }

    /// The node's bloom filter of the hashes it knows.
    pub closed spec fn filter(&self) -> BloomFilter {
        self.local_filter
    }

    /// The queue of outgoing gossip messages.
    pub closed spec fn queue(&self) -> MessageQueue<GossipMessage> {
        self.message_queue
    }

    /// The number of completed rounds.
    pub closed spec fn spec_round(&self) -> u64 {
        self.round
    }

    /// Whether the node knows a hash: it remembers it, or its filter may
    /// contain it.
    pub open spec fn knows(&self, h: Seq<u8>) -> bool {
        self.recent().contains(h) || self.filter().spec_may_contain(h)
    }

    /// The invariant: a standard filter, a bounded set of recent hashes, and
    /// a well-formed queue of the standard size.
    pub closed spec fn wf(&self) -> bool {
        &&& self.local_filter.wf()
        &&& self.local_filter.spec_hash_count() == BLOOM_HASH_COUNT
        &&& self.local_filter.spec_bit_count() == BLOOM_FILTER_BITS
        &&& self.recent().no_duplicates()
        &&& self.recent().len() <= self.max_recent
        &&& self.max_recent == MAX_RECENT_HASHES
        &&& self.message_queue.wf()
        &&& self.message_queue.spec_max_size() == GOSSIP_QUEUE_SIZE
    }

    /// A new gossip state with the given delay between rounds: nothing known,
    /// nothing pending, an empty queue, round 0.
    pub fn new(loop_delay: Duration) -> (m: Self)
        ensures
            m.wf(),
            m.spec_loop_delay() == loop_delay,
            m.pending().len() == 0,
            m.recent().len() == 0,
            m.filter().spec_len() == 0,
            m.filter().words() == Seq::new(16, |i: int| 0u64),
            m.queue().items().len() == 0,
            m.queue().spec_sequence() == 0,
            m.spec_round() == 0,
    {
        let m = GossipManager {
            loop_delay,
            last_gossip: now(),
            pending_announcements: Vec::new(),
            local_filter: BloomFilter::new(),
            recent_hashes: Vec::new(),
            max_recent: MAX_RECENT_HASHES,
            message_queue: MessageQueue::new(GOSSIP_QUEUE_SIZE),
            round: 0,
        };
        proof {
            assert(m.pending() =~= Seq::<Seq<u8>>::empty());
            assert(m.recent() =~= Seq::<Seq<u8>>::empty());
        }
        m
    }

    /// Whether a round is due once `since_last` has passed since the last one.
    pub fn should_gossip_after(&self, since_last: &Duration) -> (b: bool)
        ensures
            b == (duration_as_nanos(*since_last) >= duration_as_nanos(self.spec_loop_delay())),
    {
        nanos_of(since_last) >= nanos_of(&self.loop_delay)
    }

    /// Whether a round is due now, by the clock; with no delay between
    /// rounds it always is.
    pub fn should_gossip(&self) -> (b: bool)
        ensures
            duration_as_nanos(self.spec_loop_delay()) == 0 ==> b,
    {
        let since_last = elapsed(&self.last_gossip);
        self.should_gossip_after(&since_last)
    }

    /// Marks a round as complete (successful or not): the round counter
    /// advances and the next round is timed from now.
    pub fn gossip_complete(&mut self, success: bool)
        requires
            old(self).wf(),
            old(self).spec_round() < u64::MAX,
        ensures
            final(self).wf(),
            final(self).spec_round() == old(self).spec_round() + 1,
            final(self).pending() == old(self).pending(),
            final(self).recent() == old(self).recent(),
            final(self).filter() == old(self).filter(),
            final(self).queue() == old(self).queue(),
            final(self).spec_loop_delay() == old(self).spec_loop_delay(),
    {
        self.round = self.round + 1;
        self.last_gossip = now();
    }

    /// Adds `h` to the remembered hashes unless it is there; when `reset` the
    /// remembered hashes are forgotten first.
    fn remember(&mut self, h: crate::types::Hash, reset: bool)
        requires
            old(self).wf(),
            reset || old(self).recent().len() < MAX_RECENT_HASHES,
        ensures
            final(self).wf(),
            final(self).recent() == if reset {
                seq![h.0@]
            } else if old(self).recent().contains(h.0@) {
                old(self).recent()
            } else {
                old(self).recent().push(h.0@)
            },
            final(self).pending() == old(self).pending(),
            final(self).filter() == old(self).filter(),
            final(self).queue() == old(self).queue(),
            final(self).spec_round() == old(self).spec_round(),
            final(self).spec_loop_delay() == old(self).spec_loop_delay(),
    {
        if reset {
            self.recent_hashes = Vec::new();
            self.recent_hashes.push(h);
            proof {
                assert(self.recent() =~= seq![h.0@]);
            }
            return;
        }
        let ghost before = self.recent();
        let mut i: usize = 0;
        while i < self.recent_hashes.len()
            invariant
                *self == *old(self),
                old(self).wf(),
                !reset,
                i <= self.recent_hashes@.len(),
                before == hash_bytes(self.recent_hashes@),
                forall|j: int| 0 <= j < i ==> #[trigger] before[j] != h.0@,
            decreases self.recent_hashes@.len() - i,
        {
            if self.recent_hashes[i].same_bytes(&h) {
                proof {
                    assert(before[i as int] == h.0@);
                }
                return;
            }
            i = i + 1;
        }
        self.recent_hashes.push(h);
        proof {
            assert(self.recent() =~= before.push(h.0@));
            assert(!before.contains(h.0@));
        }
    }

    /// Queues a hash for announcement: it goes into the filter and the
    /// remembered hashes (which are forgotten first when full), to the end of
    /// the pending announcements, and into the queue as a high-priority
    /// announcement (unless the queue is full). The node knows the hash
    /// afterwards.
    pub fn announce(&mut self, hash: crate::types::Hash)
        requires
            old(self).wf(),
            old(self).filter().spec_len() < usize::MAX,
            old(self).queue().spec_sequence() < u64::MAX,
        ensures
            final(self).wf(),
            final(self).knows(hash.0@),
            final(self).filter().words() == set_probes(old(self).filter().words(), hash.0@, BLOOM_HASH_COUNT as int, BLOOM_FILTER_BITS),
            final(self).filter().spec_len() == old(self).filter().spec_len() + 1,
            old(self).recent().len() >= MAX_RECENT_HASHES ==> final(self).recent() == seq![hash.0@],
            old(self).recent().len() < MAX_RECENT_HASHES && old(self).recent().contains(hash.0@) ==> final(self).recent()
                == old(self).recent(),
            old(self).recent().len() < MAX_RECENT_HASHES && !old(self).recent().contains(hash.0@) ==> final(self).recent()
                == old(self).recent().push(hash.0@),
            final(self).pending() == old(self).pending().push(hash.0@),
            old(self).queue().items().len() < GOSSIP_QUEUE_SIZE ==> (final(self).queue().items().drop_last()
                == old(self).queue().items() && final(self).queue().items().last().spec_message() == (GossipMessage::Announce { hash })
                && final(self).queue().items().last().spec_priority() == MessagePriority::High),
            old(self).queue().items().len() >= GOSSIP_QUEUE_SIZE ==> final(self).queue().items() == old(self).queue().items(),
            final(self).spec_round() == old(self).spec_round(),
            final(self).spec_loop_delay() == old(self).spec_loop_delay(),
    {
        let ghost f0 = self.local_filter;
        self.local_filter.insert(&hash);
        proof {
            lemma_insert_no_false_negatives(f0, self.local_filter, hash.0@, hash.0@);
        }
        let reset = self.recent_hashes.len() >= self.max_recent;
        self.remember(hash, reset);
        let ghost pend = self.pending();
        self.pending_announcements.push(hash);
        proof {
            assert(self.pending() =~= pend.push(hash.0@));
            assert(self.recent().contains(hash.0@)) by {
                if reset {
                    assert(self.recent()[0] == hash.0@);
                } else if !old(self).recent().contains(hash.0@) {
                    assert(self.recent()[self.recent().len() - 1] == hash.0@);
                }
            }
        }
        self.message_queue.push(GossipMessage::Announce { hash }, MessagePriority::High);
    }

    /// Takes the `limit` oldest pending announcements (all, if fewer).
    pub fn take_announcements(&mut self, limit: usize) -> (r: Vec<crate::types::Hash>)
        requires
            old(self).wf(),
        ensures
            final(self).wf(),
            hash_bytes(r@) == old(self).pending().subrange(0, if limit < old(self).pending().len() { limit as int } else { old(self).pending().len() as int }),
            final(self).pending() == old(self).pending().subrange(if limit < old(self).pending().len() { limit as int } else { old(self).pending().len() as int }, old(self).pending().len() as int),
            final(self).recent() == old(self).recent(),
            final(self).filter() == old(self).filter(),
            final(self).queue() == old(self).queue(),
            final(self).spec_round() == old(self).spec_round(),
            final(self).spec_loop_delay() == old(self).spec_loop_delay(),
    {
        let n = self.pending_announcements.len();
        let count = if limit < n { limit } else { n };
        let ghost p = self.pending();
        let mut taken: Vec<crate::types::Hash> = Vec::new();
        let mut rest: Vec<crate::types::Hash> = Vec::new();
        let mut i: usize = 0;
        while i < n
            invariant
                n == self.pending_announcements@.len(),
                count <= n,
                i <= n,
                p == hash_bytes(self.pending_announcements@),
                hash_bytes(taken@) == p.subrange(0, if i < count { i as int } else { count as int }),
                hash_bytes(rest@) == p.subrange(count as int, if i < count { count as int } else { i as int }),
            decreases n - i,
        {
            let h = self.pending_announcements[i];
            let ghost t0 = taken@;
            let ghost r0 = rest@;
            if i < count {
                taken.push(h);
                proof {
                    assert(hash_bytes(taken@) =~= hash_bytes(t0).push(h.0@));
                    assert(hash_bytes(taken@) =~= p.subrange(0, i as int + 1));
                    assert(hash_bytes(rest@) =~= p.subrange(count as int, count as int));
                }
            } else {
                rest.push(h);
                proof {
                    assert(hash_bytes(rest@) =~= hash_bytes(r0).push(h.0@));
                    assert(hash_bytes(rest@) =~= p.subrange(count as int, i as int + 1));
                }
            }
            i = i + 1;
        }
        self.pending_announcements = rest;
        taken
    }

    /// Whether the node knows a hash: it is remembered, or the filter may
    /// contain it.
    pub fn is_known(&self, hash: &crate::types::Hash) -> (b: bool)
        requires
            self.wf(),
        ensures
            b == self.knows(hash.0@),
    {
        let ghost rec = self.recent();
        let mut i: usize = 0;
        while i < self.recent_hashes.len()
            invariant
                i <= self.recent_hashes@.len(),
                rec == hash_bytes(self.recent_hashes@),
                forall|j: int| 0 <= j < i ==> #[trigger] rec[j] != hash.0@,
            decreases self.recent_hashes@.len() - i,
        {
            if self.recent_hashes[i].same_bytes(hash) {
                proof {
                    assert(rec[i as int] == hash.0@);
                }
                return true;
            }
            i = i + 1;
        }
        proof {
            assert(!rec.contains(hash.0@));
        }
        self.local_filter.may_contain(hash)
    }

    /// Records a hash learned from gossip: it goes into the filter, and into
    /// the remembered hashes while there is room.
    pub fn add_known(&mut self, hash: crate::types::Hash)
        requires
            old(self).wf(),
            old(self).filter().spec_len() < usize::MAX,
        ensures
            final(self).wf(),
            final(self).knows(hash.0@),
            final(self).filter().words() == set_probes(old(self).filter().words(), hash.0@, BLOOM_HASH_COUNT as int, BLOOM_FILTER_BITS),
            final(self).filter().spec_len() == old(self).filter().spec_len() + 1,
            old(self).recent().len() >= MAX_RECENT_HASHES ==> final(self).recent() == old(self).recent(),
            old(self).recent().len() < MAX_RECENT_HASHES && old(self).recent().contains(hash.0@) ==> final(self).recent()
                == old(self).recent(),
            old(self).recent().len() < MAX_RECENT_HASHES && !old(self).recent().contains(hash.0@) ==> final(self).recent()
                == old(self).recent().push(hash.0@),
            final(self).pending() == old(self).pending(),
            final(self).queue() == old(self).queue(),
            final(self).spec_round() == old(self).spec_round(),
            final(self).spec_loop_delay() == old(self).spec_loop_delay(),
    {
        let ghost f0 = self.local_filter;
        self.local_filter.insert(&hash);
        proof {
            lemma_insert_no_false_negatives(f0, self.local_filter, hash.0@, hash.0@);
        }
        if self.recent_hashes.len() < self.max_recent {
            self.remember(hash, false);
        }
    }

    /// The hashes of `our_hashes` that `peer_filter` does not contain, in order:
    /// what the peer is missing.
    pub fn find_missing(&self, peer_filter: &BloomFilter, our_hashes: &[crate::types::Hash]) -> (r: Vec<crate::types::Hash>)
        requires
            peer_filter.wf(),
            peer_filter.probeable(),
        ensures
            hash_bytes(r@) == missing_from(
                peer_filter.words(),
                peer_filter.spec_hash_count() as int,
                peer_filter.spec_bit_count(),
                hash_bytes(our_hashes@),
            ),
    {
        let ghost hs = hash_bytes(our_hashes@);
        let ghost k = peer_filter.spec_hash_count() as int;
        let mut r: Vec<crate::types::Hash> = Vec::new();
        let mut i: usize = 0;
        while i < our_hashes.len()
            invariant
                peer_filter.wf(),
                peer_filter.probeable(),
                i <= our_hashes@.len(),
                hs == hash_bytes(our_hashes@),
                k == peer_filter.spec_hash_count() as int,
                hash_bytes(r@) == missing_from(peer_filter.words(), k, peer_filter.spec_bit_count(), hs.subrange(0, i as int)),
            decreases our_hashes@.len() - i,
        {
            let h = our_hashes[i];
            proof {
                assert(hs.subrange(0, i as int + 1).drop_last() =~= hs.subrange(0, i as int));
                assert(hs.subrange(0, i as int + 1).last() == h.0@);
            }
            let ghost before = r@;
            if !peer_filter.may_contain(&h) {
                r.push(h);
                proof {
                    assert(hash_bytes(r@) =~= hash_bytes(before).push(h.0@));
                }
            }
            i = i + 1;
        }
        proof {
            assert(hs.subrange(0, our_hashes@.len() as int) =~= hs);
        }
        r
    }

    /// The node's bloom filter, to send to peers.
    pub fn get_bloom_filter(&self) -> (f: &BloomFilter)
        ensures
            *f == self.filter(),
    {
        &self.local_filter
    }

    /// Queues a gossip message (dropped when the queue is full).
    pub fn queue_message(&mut self, message: GossipMessage, priority: MessagePriority)
        requires
            old(self).wf(),
            old(self).queue().spec_sequence() < u64::MAX,
        ensures
            final(self).wf(),
            old(self).queue().items().len() < GOSSIP_QUEUE_SIZE ==> (final(self).queue().items().drop_last()
                == old(self).queue().items() && final(self).queue().items().last().spec_message() == message
                && final(self).queue().items().last().spec_priority() == priority),
            old(self).queue().items().len() >= GOSSIP_QUEUE_SIZE ==> final(self).queue().items() == old(self).queue().items(),
            final(self).pending() == old(self).pending(),
            final(self).recent() == old(self).recent(),
            final(self).filter() == old(self).filter(),
            final(self).spec_round() == old(self).spec_round(),
            final(self).spec_loop_delay() == old(self).spec_loop_delay(),
    {
        self.message_queue.push(message, priority);
    }

    /// Takes the next message to send: the highest priority, the oldest
    /// first among equals. The caller asks only when its bandwidth budget
    /// allows a message.
    pub fn next_message(&mut self) -> (m: Option<GossipMessage>)
        requires
            old(self).wf(),
        ensures
            final(self).wf(),
            old(self).queue().items().len() == 0 ==> m is None,
            old(self).queue().items().len() > 0 ==> exists|i: int| #[trigger] crate::gossip::is_next(old(self).queue().items(), i)
                && m == Some(old(self).queue().items()[i].spec_message()) && final(self).queue().items()
                == old(self).queue().items().remove(i),
            final(self).pending() == old(self).pending(),
            final(self).recent() == old(self).recent(),
            final(self).filter() == old(self).filter(),
            final(self).spec_round() == old(self).spec_round(),
            final(self).spec_loop_delay() == old(self).spec_loop_delay(),
    {
        self.message_queue.pop()
    }

    /// The number of completed rounds.
    pub fn round(&self) -> (r: u64)
        ensures
            r == self.spec_round(),
    {
        self.round
    }

    /// The number of queued messages.
    pub fn queue_len(&self) -> (n: usize)
        ensures
            n == self.queue().items().len(),
    {
        self.message_queue.len()
    }

    /// The number of pending announcements.
    pub fn pending_len(&self) -> (n: usize)
        ensures
            n == self.pending().len(),
    {
        self.pending_announcements.len()
    }

    /// The number of remembered hashes.
    pub fn known_len(&self) -> (n: usize)
        ensures
            n == self.recent().len(),
    {
        self.recent_hashes.len()
    }

    /// Clears the filter and forgets the remembered hashes (e.g., a periodic
    /// reset against saturation).
    pub fn reset_bloom_filter(&mut self)
        requires
            old(self).wf(),
        ensures
            final(self).wf(),
            final(self).filter().words() == Seq::new(16, |i: int| 0u64),
            final(self).filter().spec_len() == 0,
            final(self).recent().len() == 0,
            final(self).pending() == old(self).pending(),
            final(self).queue() == old(self).queue(),
            final(self).spec_round() == old(self).spec_round(),
            final(self).spec_loop_delay() == old(self).spec_loop_delay(),
    {
        self.local_filter.clear();
        self.recent_hashes = Vec::new();
        proof {
            assert(self.recent() =~= Seq::<Seq<u8>>::empty());
        }
    }
}

} // verus!
