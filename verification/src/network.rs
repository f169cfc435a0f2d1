//! Network messages and mesh relaying: message types, RPC responses, and
//! the deduplication and time-to-live rules of multi-hop delivery.

use vstd::prelude::*;

pub mod peers;
pub mod rpc;
pub mod endpoint;
pub use endpoint::Network;
use crate::text::{append_str, append_decimal_u128, decimal, str_eq};
use crate::types::Record;
use crate::time::{duration_as_nanos, elapsed, nanos_of, now};
use std::time::Duration;
use std::time::Instant;
use peers::{PeerInfo, peer_addrs, peer_views};

verus! {

/// Network message types.
#[derive(Debug)]
pub enum Message {
    /// Ping for liveness.
    Ping { node_id: String },
    /// Pong response.
    Pong { node_id: String, latest_seq: u32 },
    /// Gossip request (asking for records).
    GossipRequest { from_seq: u32, limit: u32 },
    /// Gossip response (sending records).
    GossipResponse { records: Vec<Record> },
    /// New record announcement.
    NewRecord { hash: crate::types::Hash },
    /// Request a specific record.
    GetRecord { hash: crate::types::Hash },
    /// Record data.
    RecordData { record: Record },
    /// Remote procedure call to another node.
    RemoteCall {
        /// Unique request ID for matching responses.
        request_id: String,
        /// Source node ID.
        from: String,
        /// Method to invoke.
        method: String,
        /// JSON-encoded payload.
        payload: Vec<u8>,
    },
    /// Response to a remote call.
    RemoteCallResponse {
        /// Request ID this responds to.
        request_id: String,
        /// Whether the call succeeded.
        success: bool,
        /// Result data (if success) or error message (if failure).
        data: Vec<u8>,
    },
    /// Mesh relay message with a time-to-live for multi-hop delivery.
    MeshRelay {
        /// Unique message ID to prevent duplicates.
        message_id: String,
        /// Node ID of the sender the message started from.
        origin: String,
        /// Time-to-live (decremented at each hop).
        ttl: u8,
        /// Inner message being relayed.
        inner: Box<Message>,
    },
}

/// Whether `b` is a copy of `a`: the same variant with the same fields
/// (texts and bytes by their contents), each record a clone of the
/// original's, and a relayed message a copy of the original's.
pub open spec fn copy_of(a: Message, b: Message) -> bool
    decreases a,
{
    match a {
        Message::Ping { node_id } => b matches Message::Ping { node_id: n } && n@ == node_id@,
        Message::Pong { node_id, latest_seq } => b matches Message::Pong { node_id: n, latest_seq: s } && n@ == node_id@
            && s == latest_seq,
        Message::GossipRequest { from_seq, limit } => b matches Message::GossipRequest { from_seq: f, limit: l } && f
            == from_seq && l == limit,
        Message::GossipResponse { records } => b matches Message::GossipResponse { records: rs } && rs@.len()
            == records@.len() && forall|i: int| 0 <= i < records@.len() ==> cloned(records@[i], #[trigger] rs@[i]),
        Message::NewRecord { hash } => b matches Message::NewRecord { hash: h } && h == hash,
        Message::GetRecord { hash } => b matches Message::GetRecord { hash: h } && h == hash,
        Message::RecordData { record } => b matches Message::RecordData { record: r } && cloned(record, r),
        Message::RemoteCall { request_id, from, method, payload } => b matches Message::RemoteCall {
            request_id: q,
            from: f,
            method: mt,
            payload: p,
        } && q@ == request_id@ && f@ == from@ && mt@ == method@ && p@ == payload@,
        Message::RemoteCallResponse { request_id, success, data } => b matches Message::RemoteCallResponse {
            request_id: q,
            success: ok,
            data: d,
        } && q@ == request_id@ && ok == success && d@ == data@,
        Message::MeshRelay { message_id, origin, ttl, inner } => b matches Message::MeshRelay {
            message_id: id,
            origin: o,
            ttl: t,
            inner: i,
        } && id@ == message_id@ && o@ == origin@ && t == ttl && copy_of(*inner, *i),
    }
}

/// A copy of a message.
fn copy_message(m: &Message) -> (r: Message)
    ensures
        copy_of(*m, r),
    decreases m,
{
    match m {
        Message::Ping { node_id } => Message::Ping { node_id: node_id.clone() },
        Message::Pong { node_id, latest_seq } => Message::Pong { node_id: node_id.clone(), latest_seq: *latest_seq },
        Message::GossipRequest { from_seq, limit } => Message::GossipRequest { from_seq: *from_seq, limit: *limit },
        Message::GossipResponse { records } => Message::GossipResponse { records: records.clone() },
        Message::NewRecord { hash } => Message::NewRecord { hash: *hash },
        Message::GetRecord { hash } => Message::GetRecord { hash: *hash },
        Message::RecordData { record } => Message::RecordData { record: record.clone() },
        Message::RemoteCall { request_id, from, method, payload } => Message::RemoteCall {
            request_id: request_id.clone(),
            from: from.clone(),
            method: method.clone(),
            payload: payload.clone(),
        },
        Message::RemoteCallResponse { request_id, success, data } => Message::RemoteCallResponse {
            request_id: request_id.clone(),
            success: *success,
            data: data.clone(),
        },
        Message::MeshRelay { message_id, origin, ttl, inner } => Message::MeshRelay {
            message_id: message_id.clone(),
            origin: origin.clone(),
            ttl: *ttl,
            inner: Box::new(copy_message(inner)),
        },
    }
}

impl Clone for Message {
    fn clone(&self) -> Self {
        copy_message(self)
    }
}

/// RPC response wrapper.
#[derive(Debug, Clone)]
pub struct RpcResponse {
    /// Whether the call succeeded.
    pub success: bool,
    /// Response data (or error message).
    pub data: Vec<u8>,
}

/// Default time-to-live for mesh messages.
pub const DEFAULT_MESH_TTL: u8 = 5;

/// Maximum number of seen message IDs to track.
pub const MAX_SEEN_MESSAGES: usize = 10000;

/// Mesh networking statistics.
#[derive(Debug, Clone)]
pub struct MeshStats {
    /// Messages relayed to other nodes.
    pub messages_relayed: u64,
    /// Messages dropped (time-to-live expired).
    pub messages_dropped_ttl: u64,
    /// Duplicate messages ignored.
    pub duplicates_ignored: u64,
    /// Messages originated by this node.
    pub messages_originated: u64,
}

/// Mesh relay manager for multi-hop message delivery.
///
/// Tracks recently seen message IDs, oldest first, to process each message
/// once; when more than `MAX_SEEN_MESSAGES` are tracked, the oldest is
/// forgotten.
#[derive(Debug)]
pub struct MeshManager {
    seen: Vec<String>,
    /// Relay statistics.
    pub stats: MeshStats,
}

/// What processing a relayed message decides: whether to process it,
/// whether to relay it further, and the time-to-live to relay it with.
pub open spec fn relay_decision(seen: bool, ttl: u8) -> (bool, bool, u8) {
    if seen {
        (false, false, 0)
    } else if ttl == 0 {
        (false, false, 0)
    } else {
        (true, ttl - 1 > 0, (ttl - 1) as u8)
    }
}

/// The seen IDs after marking `id`: unchanged if already seen, else `id`
/// added last, the oldest forgotten beyond the limit.
pub open spec fn seen_after_mark(seen: Seq<Seq<char>>, id: Seq<char>) -> Seq<Seq<char>> {
    if seen.contains(id) {
        seen
    } else if seen.len() + 1 > MAX_SEEN_MESSAGES {
        seen.push(id).drop_first()
    } else {
        seen.push(id)
    }
}

impl MeshManager {
    /// The seen message IDs, oldest first.
    pub closed spec fn seen_ids(&self) -> Seq<Seq<char>> {
        self.seen@.map_values(|s: String| s@)
    }

    /// The relay statistics.
    pub closed spec fn spec_stats(&self) -> MeshStats {
        self.stats
    }

    /// The manager's invariant: no ID twice, at most the limit.
    pub open spec fn wf(&self) -> bool {
        &&& self.seen_ids().no_duplicates()
        &&& self.seen_ids().len() <= MAX_SEEN_MESSAGES
    }

    /// Create a new mesh manager: nothing seen, zeroed statistics.
    pub fn new() -> (m: Self)
        ensures
            m.wf(),
            m.seen_ids() == Seq::<Seq<char>>::empty(),
            m.spec_stats().messages_relayed == 0,
            m.spec_stats().messages_dropped_ttl == 0,
            m.spec_stats().duplicates_ignored == 0,
            m.spec_stats().messages_originated == 0,
    {
        let m = MeshManager {
            seen: Vec::new(),
            stats: MeshStats { messages_relayed: 0, messages_dropped_ttl: 0, duplicates_ignored: 0, messages_originated: 0 },
        };
        proof {
            assert(m.seen_ids() =~= Seq::<Seq<char>>::empty());
        }
        m
    }

    /// Check if a message ID was already seen.
    pub fn is_seen(&self, message_id: &str) -> (b: bool)
        ensures
            b == self.seen_ids().contains(message_id@),
    {
        let ghost ids = self.seen_ids();
        let mut i: usize = 0;
        while i < self.seen.len()
            invariant
                i <= self.seen@.len(),
                ids == self.seen_ids(),
                ids.len() == self.seen@.len(),
                forall|j: int| 0 <= j < i ==> ids[j] != message_id@,
            decreases self.seen@.len() - i,
        {
            if str_eq(self.seen[i].as_str(), message_id) {
                proof {
                    assert(ids[i as int] == message_id@);
                }
                return true;
            }
            i = i + 1;
        }
        false
    }

    /// Mark a message ID as seen; beyond the limit, the oldest is forgotten.
    pub fn mark_seen(&mut self, message_id: String)
        requires
            old(self).wf(),
        ensures
            final(self).wf(),
            final(self).seen_ids() == seen_after_mark(old(self).seen_ids(), message_id@),
            final(self).spec_stats() == old(self).spec_stats(),
    {
        let ghost id = message_id@;
        if self.is_seen(message_id.as_str()) {
            return;
        }
        let ghost before = self.seen_ids();
        self.seen.push(message_id);
        proof {
            assert(self.seen_ids() =~= before.push(id));
            assert forall|a: int, b: int| 0 <= a < b < before.push(id).len() implies before.push(id)[a] != before.push(id)[b] by {
                if b == before.len() {
                    assert(before[a] == before.push(id)[a]);
                }
            }
        }
        if self.seen.len() > MAX_SEEN_MESSAGES {
            let _ = self.seen.remove(0);
            proof {
                assert(self.seen_ids() =~= before.push(id).drop_first());
            }
        }
    }

    /// Process a mesh relay message: returns whether to process it, whether
    /// to relay it, and the decremented time-to-live. A seen message counts
    /// as a duplicate; one without time-to-live is dropped; otherwise it is
    /// marked seen.
    pub fn process_relay(&mut self, message_id: &str, ttl: u8) -> (r: (bool, bool, u8))
        requires
            old(self).wf(),
            old(self).spec_stats().duplicates_ignored < u64::MAX,
            old(self).spec_stats().messages_dropped_ttl < u64::MAX,
        ensures
            final(self).wf(),
            r == relay_decision(old(self).seen_ids().contains(message_id@), ttl),
            old(self).seen_ids().contains(message_id@) ==> final(self).seen_ids() == old(self).seen_ids()
                && final(self).spec_stats() == (MeshStats { duplicates_ignored: (old(self).spec_stats().duplicates_ignored + 1) as u64, ..old(self).spec_stats() }),
            !old(self).seen_ids().contains(message_id@) && ttl == 0 ==> final(self).seen_ids() == old(self).seen_ids()
                && final(self).spec_stats() == (MeshStats { messages_dropped_ttl: (old(self).spec_stats().messages_dropped_ttl + 1) as u64, ..old(self).spec_stats() }),
            !old(self).seen_ids().contains(message_id@) && ttl > 0 ==> final(self).seen_ids() == seen_after_mark(
                old(self).seen_ids(),
                message_id@,
            ) && final(self).spec_stats() == old(self).spec_stats(),
    {
        if self.is_seen(message_id) {
            self.stats.duplicates_ignored = self.stats.duplicates_ignored + 1;
            return (false, false, 0);
        }
        if ttl == 0 {
            self.stats.messages_dropped_ttl = self.stats.messages_dropped_ttl + 1;
            return (false, false, 0);
        }
        self.mark_seen(message_id.to_owned());
        let new_ttl = ttl - 1;
        let should_relay = new_ttl > 0;
        (true, should_relay, new_ttl)
    }

    /// Generate a message ID: the node ID, a colon, and the time of the
    /// system clock in nanoseconds.
    pub fn generate_message_id(node_id: &str) -> (id: String)
        ensures
            exists|n: nat| id@ == node_id@ + ":"@ + decimal(n),
    {
        let nanos = crate::time::unix_time_nanos();
        Self::message_id_at(node_id, nanos)
    }

    /// The id of a message that node `node_id` sends at `nanos` nanoseconds
    /// after the Unix epoch: `node_id:nanos`.
    pub fn message_id_at(node_id: &str, nanos: u128) -> (id: String)
        ensures
            id@ == node_id@ + ":"@ + decimal(nanos as nat),
    {
        let mut s = String::new();
        append_str(&mut s, node_id);
        append_str(&mut s, ":");
        append_decimal_u128(&mut s, nanos);
        proof {
            assert(s@ =~= node_id@ + ":"@ + decimal(nanos as nat));
        }
        s
    }

    /// Wrap a message for mesh relay, from this node, with the given
    /// time-to-live or the default one.
    pub fn wrap_for_relay(node_id: &str, message: Message, ttl: Option<u8>) -> (m: Message)
        ensures
            m matches Message::MeshRelay { message_id, origin, ttl: t, inner } && origin@ == node_id@
                && t == (match ttl { Some(v) => v, None => DEFAULT_MESH_TTL }) && *inner == message
                && exists|n: nat| message_id@ == node_id@ + ":"@ + decimal(n),
    {
        let message_id = Self::generate_message_id(node_id);
        let t = match ttl {
            Some(v) => v,
            None => DEFAULT_MESH_TTL,
        };
        Message::MeshRelay { message_id, origin: node_id.to_owned(), ttl: t, inner: Box::new(message) }
    }
}

/// The addresses of `addrs` other than `from`, in order.
pub open spec fn others(addrs: Seq<Seq<char>>, from: Seq<char>) -> Seq<Seq<char>>
    decreases addrs.len(),
{
    if addrs.len() == 0 {
        Seq::empty()
    } else if addrs.last() == from {
        others(addrs.drop_last(), from)
    } else {
        others(addrs.drop_last(), from).push(addrs.last())
    }
}

/// The addresses of the peers in `active` other than `from`, in order: where
/// a relayed message goes next.
pub fn relay_targets(active: &Vec<PeerInfo>, from: &str) -> (r: Vec<String>)
    ensures
        r@.map_values(|s: String| s@) == others(peer_addrs(peer_views(active@)), from@),
{
    let ghost addrs = peer_addrs(peer_views(active@));
    let mut r: Vec<String> = Vec::new();
    let mut i: usize = 0;
    while i < active.len()
        invariant
            i <= active@.len(),
            addrs == peer_addrs(peer_views(active@)),
            addrs.len() == active@.len(),
            r@.map_values(|s: String| s@) == others(addrs.subrange(0, i as int), from@),
        decreases active@.len() - i,
    {
        proof {
            assert(addrs.subrange(0, i + 1).drop_last() =~= addrs.subrange(0, i as int));
            assert(addrs[i as int] == active@[i as int].addr@);
        }
        if !str_eq(active[i].addr.as_str(), from) {
            let ghost before = r@;
            r.push(active[i].addr.clone());
            proof {
                assert(r@.map_values(|s: String| s@) =~= before.map_values(|s: String| s@).push(active@[i as int].addr@));
            }
        }
        i = i + 1;
    }
    proof {
        assert(addrs.subrange(0, active@.len() as int) =~= addrs);
    }
    r
}

/// What a node does with a relayed message: whether to process the inner
/// message, and where to send it on.
#[derive(Debug)]
pub struct RelayPlan {
    /// Whether the inner message is processed here.
    pub deliver: bool,
    /// The time-to-live of the copy sent on, if one is sent on.
    pub relay_ttl: Option<u8>,
    /// The peers the copy is sent to.
    pub targets: Vec<String>,
}

impl MeshManager {
    /// Decides what to do with a relayed message received from `from`: it is
    /// processed as `process_relay` decides, and, where it is relayed, sent
    /// on with the decremented time-to-live to the active peers other than
    /// its sender.
    pub fn plan_relay(&mut self, active: &Vec<PeerInfo>, from: &str, message_id: &str, ttl: u8) -> (p: RelayPlan)
        requires
            old(self).wf(),
            old(self).spec_stats().duplicates_ignored < u64::MAX,
            old(self).spec_stats().messages_dropped_ttl < u64::MAX,
        ensures
            final(self).wf(),
            ({
                let d = relay_decision(old(self).seen_ids().contains(message_id@), ttl);
                &&& p.deliver == d.0
                &&& p.relay_ttl == (if d.1 { Some(d.2) } else { None::<u8> })
                &&& p.targets@.map_values(|s: String| s@) == (if d.1 {
                    others(peer_addrs(peer_views(active@)), from@)
                } else {
                    Seq::<Seq<char>>::empty()
                })
            }),
            old(self).seen_ids().contains(message_id@) || ttl == 0 ==> final(self).seen_ids() == old(self).seen_ids(),
            !old(self).seen_ids().contains(message_id@) && ttl > 0 ==> final(self).seen_ids() == seen_after_mark(
                old(self).seen_ids(),
                message_id@,
            ),
    {
        let (deliver, relay, new_ttl) = self.process_relay(message_id, ttl);
        if relay {
            RelayPlan { deliver, relay_ttl: Some(new_ttl), targets: relay_targets(active, from) }
        } else {
            let targets: Vec<String> = Vec::new();
            proof {
                assert(targets@.map_values(|s: String| s@) =~= Seq::<Seq<char>>::empty());
            }
            RelayPlan { deliver, relay_ttl: None, targets }
        }
    }

    /// Prepares a broadcast of `message` from node `node_id`: wraps it for
    /// relay with the default time-to-live, marks its id as seen so that
    /// the node ignores its own broadcast when it comes back, and counts it
    /// as originated.
    pub fn originate(&mut self, node_id: &str, message: Message) -> (m: Message)
        requires
            old(self).wf(),
            old(self).spec_stats().messages_originated < u64::MAX,
        ensures
            final(self).wf(),
            m matches Message::MeshRelay { message_id, origin, ttl, inner } && origin@ == node_id@
                && ttl == DEFAULT_MESH_TTL && *inner == message
                && exists|n: nat| message_id@ == node_id@ + ":"@ + decimal(n)
                && final(self).seen_ids() == seen_after_mark(old(self).seen_ids(), message_id@),
            final(self).spec_stats() == (MeshStats {
                messages_originated: (old(self).spec_stats().messages_originated + 1) as u64,
                ..old(self).spec_stats()
            }),
    {
        let wrapped = Self::wrap_for_relay(node_id, message, None);
        if let Message::MeshRelay { ref message_id, .. } = wrapped {
            self.mark_seen(message_id.clone());
        }
        self.stats.messages_originated = self.stats.messages_originated + 1;
        wrapped
    }
}

impl Default for MeshManager {
    fn default() -> (m: Self)
        ensures
            m.wf(),
            m.seen_ids() == Seq::<Seq<char>>::empty(),
    {
        Self::new()
    }
}

/// A message is processed at most once while it is remembered: once a
/// message has been accepted, presenting it again is ignored as a duplicate.
pub proof fn lemma_accepted_then_duplicate(seen: Seq<Seq<char>>, id: Seq<char>, ttl: u8, ttl2: u8)
    requires
        relay_decision(seen.contains(id), ttl).0,
        seen.len() <= MAX_SEEN_MESSAGES,
    ensures
        seen_after_mark(seen, id).contains(id),
        relay_decision(seen_after_mark(seen, id).contains(id), ttl2) == (false, false, 0u8),
{
    lemma_own_broadcast_ignored(seen, id, ttl2);
}

/// A node ignores its own broadcast: once `originate` has marked a
/// message id, a copy of that message that comes back is neither processed
/// nor relayed.
pub proof fn lemma_own_broadcast_ignored(seen: Seq<Seq<char>>, id: Seq<char>, ttl: u8)
    requires
        seen.len() <= MAX_SEEN_MESSAGES,
    ensures
        seen_after_mark(seen, id).contains(id),
        relay_decision(seen_after_mark(seen, id).contains(id), ttl) == (false, false, 0u8),
{
    let after = seen_after_mark(seen, id);
    if !seen.contains(id) {
        assert(after[after.len() - 1] == id);
    }
}

/// Message ids of one node are unique when taken at different times: two
/// different clock readings give two different ids.
pub proof fn lemma_message_ids_distinct(node_id: Seq<char>, n1: nat, n2: nat)
    requires
        n1 != n2,
    ensures
        node_id + ":"@ + decimal(n1) != node_id + ":"@ + decimal(n2),
{
    let p = node_id + ":"@;
    if p + decimal(n1) == p + decimal(n2) {
        assert((p + decimal(n1)).subrange(p.len() as int, (p + decimal(n1)).len() as int) =~= decimal(n1));
        assert((p + decimal(n2)).subrange(p.len() as int, (p + decimal(n2)).len() as int) =~= decimal(n2));
        crate::text::lemma_decimal_injective(n1, n2);
    }
}

/// The time-to-live shrinks at every hop, and a message is relayed further
/// only while some time-to-live remains.
pub proof fn lemma_ttl_decreases(seen: bool, ttl: u8)
    ensures
        relay_decision(seen, ttl).2 < ttl || ttl == 0,
        relay_decision(seen, ttl).1 ==> relay_decision(seen, ttl).2 > 0,
{
}


/// How a fresh message moves through the mesh: a node that has not seen it
/// and gets it with time-to-live `ttl > 0` processes it, and relays it on
/// with `ttl - 1` exactly when that is still positive; with no time left,
/// or already seen, it is neither processed nor relayed.
pub proof fn lemma_relay_rule(seen: bool, ttl: u8)
    ensures
        !seen && ttl > 0 ==> relay_decision(seen, ttl).0,
        !seen && ttl > 0 ==> (relay_decision(seen, ttl).1 <==> ttl >= 2),
        !seen && ttl > 0 ==> relay_decision(seen, ttl).2 as int == ttl - 1,
        seen || ttl == 0 ==> !relay_decision(seen, ttl).0 && !relay_decision(seen, ttl).1,
{
}

/// A broadcast reaches exactly as many hops as its time-to-live: along a
/// chain of nodes that have not seen it, the `k`-th node (counting from 1)
/// gets it with `ttl - (k - 1)`, processes it for every `k <= ttl`, and
/// relays it further exactly for `k < ttl`; with `DEFAULT_MESH_TTL` that is
/// five nodes processing it and four relaying it.
pub proof fn lemma_broadcast_reach(ttl: u8, k: int)
    requires
        1 <= k <= ttl,
    ensures
        relay_decision(false, (ttl - (k - 1)) as u8).0,
        relay_decision(false, (ttl - (k - 1)) as u8).1 <==> k < ttl,
        relay_decision(false, (ttl - (k - 1)) as u8).2 as int == ttl - k,
{
}

impl Default for MeshStats {
    /// All counters zero.
    fn default() -> (s: Self)
        ensures
            s.messages_relayed == 0,
            s.messages_dropped_ttl == 0,
            s.duplicates_ignored == 0,
            s.messages_originated == 0,
    {
        MeshStats { messages_relayed: 0, messages_dropped_ttl: 0, duplicates_ignored: 0, messages_originated: 0 }
    }
}

/// Gossip timing of the network layer and the records waiting to be
/// announced, in the order they were announced.
#[derive(Debug)]
pub struct GossipManager {
    loop_delay: Duration,
    last_gossip: Instant,
    pending_announcements: Vec<crate::types::Hash>,
}

impl GossipManager {
    /// The least time between two gossip rounds.
    pub closed spec fn spec_loop_delay(&self) -> Duration {
        self.loop_delay
    }

    /// The records waiting to be announced.
    pub closed spec fn pending(&self) -> Seq<crate::types::Hash> {
        self.pending_announcements@
    }

    /// A manager with the given delay between rounds and nothing to
    /// announce; the last round counts as just finished.
    pub fn new(loop_delay: Duration) -> (m: Self)
        ensures
            m.spec_loop_delay() == loop_delay,
            m.pending() == Seq::<crate::types::Hash>::empty(),
    {
        GossipManager { loop_delay, last_gossip: now(), pending_announcements: Vec::new() }
    }

    /// The least time between two gossip rounds.
    pub fn loop_delay(&self) -> (d: &Duration)
        ensures
            *d == self.spec_loop_delay(),
    {
        &self.loop_delay
    }

    /// Whether a round is due once `since_last` has passed since the last
    /// one: at least the loop delay.
    pub fn should_gossip_after(&self, since_last: &Duration) -> (b: bool)
        ensures
            b == (duration_as_nanos(*since_last) >= duration_as_nanos(self.spec_loop_delay())),
    {
        nanos_of(since_last) >= nanos_of(&self.loop_delay)
    }

    /// Whether a round is due now, by the clock; with no delay between
    /// rounds it always is.
    pub fn should_gossip(&self) -> (b: bool)
        ensures
            duration_as_nanos(self.spec_loop_delay()) == 0 ==> b,
    {
        let since_last = elapsed(&self.last_gossip);
        self.should_gossip_after(&since_last)
    }

    /// Records that a round finished now, whatever its outcome.
    pub fn gossip_complete(&mut self, success: bool)
        ensures
            final(self).spec_loop_delay() == old(self).spec_loop_delay(),
            final(self).pending() == old(self).pending(),
    {
        self.last_gossip = now();
    }

    /// Queues a record for announcement.
    pub fn announce(&mut self, hash: crate::types::Hash)
        ensures
            final(self).spec_loop_delay() == old(self).spec_loop_delay(),
            final(self).pending() == old(self).pending().push(hash),
    {
        self.pending_announcements.push(hash);
    }

    /// Takes every record waiting to be announced, in order.
    pub fn take_announcements(&mut self) -> (r: Vec<crate::types::Hash>)
        ensures
            r@ == old(self).pending(),
            final(self).pending() == Seq::<crate::types::Hash>::empty(),
            final(self).spec_loop_delay() == old(self).spec_loop_delay(),
    {
        let mut r: Vec<crate::types::Hash> = Vec::new();
        std::mem::swap(&mut r, &mut self.pending_announcements);
        r
    }

    /// The number of records waiting to be announced.
    pub fn pending_len(&self) -> (n: usize)
        ensures
            n == self.pending().len(),
    {
        self.pending_announcements.len()
    }
}

} // verus!
