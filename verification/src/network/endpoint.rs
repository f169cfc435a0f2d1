//! The state a node keeps about its network: its transport, its peers, the
//! peers found by discovery, the remote calls awaiting a response and the
//! mesh relay state. Sending and receiving are done by the caller, which
//! asks this state whom to send to and reports what happened.

use super::peers::{
    active_flags, gossip_order, is_active_after, lemma_select_members, peer_addrs, peer_views, quality_after_failure,
    quality_after_success, select, PeerInfo, PeerTable, PeerView, INITIAL_QUALITY,
};
use super::rpc::{fresh_calls, request_ids, stale_ids, PendingView, RpcTable};
use super::{others, relay_decision, seen_after_mark, Message, MeshManager, MeshStats, RelayPlan, RpcResponse, DEFAULT_MESH_TTL};
use crate::config::TransportConfig;
use crate::discovery::{all_socket_addrs, entries_after_event, ids_after_event, DiscoveryEvent, PeerDirectory};
use crate::node::{boosts_spec, restore_outcome_spec, restored_quality, PeerRecord, RestoreOutcome};
use crate::text::decimal;
use crate::time::{duration_as_nanos, elapsed, nanos_of};
use std::time::Duration;
use vstd::prelude::*;

verus! {

/// Whole seconds of a duration, at most `u64::MAX` (`Duration::as_secs`).
pub open spec fn secs_of(d: Duration) -> u64 {
    if duration_as_nanos(d) / 1_000_000_000 > u64::MAX as u128 {
        u64::MAX
    } else {
        (duration_as_nanos(d) / 1_000_000_000) as u64
    }
}

/// The abstract value of a saved peer record: address, sequence number,
/// quality and last-seen time.
pub open spec fn record_view(r: PeerRecord) -> (Seq<char>, u32, u8, u64) {
    (r.addr@, r.latest_seq, r.quality, r.last_seen_secs)
}

/// The abstract values of a list of records.
pub open spec fn record_views(rs: Seq<PeerRecord>) -> Seq<(Seq<char>, u32, u8, u64)> {
    rs.map_values(|r: PeerRecord| record_view(r))
}

/// The record of peer `p`, heard from `since` before Unix time `now_secs`:
/// last seen `now_secs` less the whole seconds of `since`, or 0.
pub open spec fn record_at(p: PeerView, since: Duration, now_secs: u64) -> (Seq<char>, u32, u8, u64) {
    (p.addr, p.latest_seq, p.quality, if secs_of(since) <= now_secs { (now_secs - secs_of(since)) as u64 } else { 0u64 })
}

/// The records of the active peers of `t`, in order, when `since_seen[i]`
/// is the time since peer `i` was heard from.
pub open spec fn peer_records_at(t: Seq<PeerView>, since_seen: Seq<Duration>, now_secs: u64) -> Seq<
    (Seq<char>, u32, u8, u64),
>
    decreases t.len(),
{
    if t.len() == 0 {
        Seq::empty()
    } else {
        let rest = peer_records_at(t.drop_last(), since_seen, now_secs);
        let i = t.len() - 1;
        if active_flags(since_seen)[i] {
            rest.push(record_at(t[i], since_seen[i], now_secs))
        } else {
            rest
        }
    }
}

/// There is at most one record per peer.
proof fn lemma_peer_records_len(t: Seq<PeerView>, since_seen: Seq<Duration>, now_secs: u64)
    ensures
        peer_records_at(t, since_seen, now_secs).len() <= t.len(),
    decreases t.len(),
{
    if t.len() > 0 {
        lemma_peer_records_len(t.drop_last(), since_seen, now_secs);
    }
}

/// The network state of a node.
pub struct Network {
    config: TransportConfig,
    max_peers: usize,
    node_id: String,
    peers: PeerTable,
    discovery: Option<PeerDirectory>,
    rpcs: RpcTable,
    mesh: MeshManager,
    transport_running: bool,
}

impl Network {
    /// The transport the node uses.
    pub closed spec fn spec_config(&self) -> TransportConfig {
        self.config
    }

    /// How many peers a gossip round contacts at most.
    pub closed spec fn spec_max_peers(&self) -> usize {
        self.max_peers
    }

    /// The node's id.
    pub closed spec fn spec_node_id(&self) -> Seq<char> {
        self.node_id@
    }

    /// The known peers.
    pub closed spec fn peer_table(&self) -> PeerTable {
        self.peers
    }

    /// The discovery directory, while discovery runs.
    pub closed spec fn directory(&self) -> Option<PeerDirectory> {
        self.discovery
    }

    /// The remote calls awaiting a response.
    pub closed spec fn rpc_table(&self) -> RpcTable {
        self.rpcs
    }

    /// The mesh relay state.
    pub closed spec fn mesh(&self) -> MeshManager {
        self.mesh
    }

    /// Whether the transport's server runs.
    pub closed spec fn spec_running(&self) -> bool {
        self.transport_running
    }

    /// The invariant of each part.
    pub open spec fn wf(&self) -> bool {
        &&& self.peer_table().wf()
        &&& self.rpc_table().wf()
        &&& self.mesh().wf()
        &&& match self.directory() {
            Some(d) => d.wf() && d.spec_our_id() == self.spec_node_id(),
            None => true,
        }
    }

    /// A network for node `node_id` on transport `config`, contacting at
    /// most `max_peers` peers per gossip round: no peers, no discovery, no
    /// pending calls, nothing relayed, not running.
    pub fn new(config: TransportConfig, max_peers: usize, node_id: String) -> (n: Self)
        ensures
            n.wf(),
            n.spec_config() == config,
            n.spec_max_peers() == max_peers,
            n.spec_node_id() == node_id@,
            n.peer_table()@ == Seq::<PeerView>::empty(),
            n.directory() is None,
            n.rpc_table()@ == Seq::<PendingView>::empty(),
            n.mesh().seen_ids() == Seq::<Seq<char>>::empty(),
            n.mesh().spec_stats() == (MeshStats {
                messages_relayed: 0,
                messages_dropped_ttl: 0,
                duplicates_ignored: 0,
                messages_originated: 0,
            }),
            !n.spec_running(),
    {
        Network {
            config,
            max_peers,
            node_id,
            peers: PeerTable::new(),
            discovery: None,
            rpcs: RpcTable::new(),
            mesh: MeshManager::new(),
            transport_running: false,
        }
    }

    /// The transport the node uses.
    pub fn config(&self) -> (c: &TransportConfig)
        ensures
            *c == self.spec_config(),
    {
        &self.config
    }

    /// The node's id.
    pub fn node_id(&self) -> (id: &str)
        ensures
            id@ == self.spec_node_id(),
    {
        self.node_id.as_str()
    }

    /// Records whether the transport's server runs (a CoAP server that was
    /// started and holds its socket).
    pub fn set_running(&mut self, running: bool)
        ensures
            final(self).spec_running() == running,
            final(self).spec_config() == old(self).spec_config(),
            final(self).spec_max_peers() == old(self).spec_max_peers(),
            final(self).spec_node_id() == old(self).spec_node_id(),
            final(self).peer_table() == old(self).peer_table(),
            final(self).directory() == old(self).directory(),
            final(self).rpc_table() == old(self).rpc_table(),
            final(self).mesh() == old(self).mesh(),
    {
        self.transport_running = running;
    }

    /// Whether the network runs: only a started CoAP server makes it run.
    pub fn is_running(&self) -> (b: bool)
        ensures
            b == self.spec_running(),
    {
        self.transport_running
    }

    /// Stops the network: discovery ends, the transport stops and every
    /// peer is forgotten.
    pub fn stop(&mut self)
        requires
            old(self).wf(),
        ensures
            final(self).wf(),
            final(self).directory() is None,
            !final(self).spec_running(),
            final(self).peer_table()@ == Seq::<PeerView>::empty(),
            final(self).spec_config() == old(self).spec_config(),
            final(self).spec_max_peers() == old(self).spec_max_peers(),
            final(self).spec_node_id() == old(self).spec_node_id(),
            final(self).rpc_table() == old(self).rpc_table(),
            final(self).mesh() == old(self).mesh(),
    {
        self.discovery = None;
        self.transport_running = false;
        self.peers.clear();
    }

    /// Starts discovery: an empty directory that lists the peers the
    /// discovery service reports.
    pub fn start_discovery(&mut self)
        requires
            old(self).wf(),
        ensures
            final(self).wf(),
            final(self).directory() matches Some(d) && d.ids().len() == 0,
            final(self).spec_running() == old(self).spec_running(),
            final(self).spec_config() == old(self).spec_config(),
            final(self).spec_max_peers() == old(self).spec_max_peers(),
            final(self).spec_node_id() == old(self).spec_node_id(),
            final(self).peer_table() == old(self).peer_table(),
            final(self).rpc_table() == old(self).rpc_table(),
            final(self).mesh() == old(self).mesh(),
    {
        self.discovery = Some(PeerDirectory::new(self.node_id.clone()));
    }

    /// Hands an event of the discovery service to the directory; without
    /// discovery it is ignored.
    pub fn handle_discovery_event(&mut self, event: DiscoveryEvent)
        requires
            old(self).wf(),
        ensures
            final(self).wf(),
            old(self).directory() is None ==> final(self).directory() is None,
            old(self).directory() is Some ==> final(self).directory() is Some,
            old(self).directory() matches Some(d) ==> (final(self).directory() matches Some(d2) && d2.spec_our_id()
                == d.spec_our_id() && d2.ids() == ids_after_event(d.ids(), d.spec_our_id(), event) && entries_after_event(
                d.entries(),
                d.spec_our_id(),
                event,
                d2.entries(),
            )),
            final(self).spec_running() == old(self).spec_running(),
            final(self).spec_config() == old(self).spec_config(),
            final(self).spec_max_peers() == old(self).spec_max_peers(),
            final(self).spec_node_id() == old(self).spec_node_id(),
            final(self).peer_table() == old(self).peer_table(),
            final(self).rpc_table() == old(self).rpc_table(),
            final(self).mesh() == old(self).mesh(),
    {
        match &mut self.discovery {
            Some(d) => d.handle_event(event),
            None => {},
        }
    }

    /// The number of peers discovery has found; zero without discovery.
    pub fn discovered_peer_count(&self) -> (n: usize)
        ensures
            n == match self.directory() {
                Some(d) => d.ids().len(),
                None => 0,
            },
    {
        match &self.discovery {
            Some(d) => d.peer_count(),
            None => 0,
        }
    }

    /// Adds each socket address of the discovered peers that is not a known
    /// peer yet; without discovery nothing changes.
    pub fn sync_discovered_peers(&mut self)
        requires
            old(self).wf(),
        ensures
            final(self).wf(),
            old(self).directory() is None ==> final(self).peer_table() == old(self).peer_table(),
            old(self).directory() matches Some(d) ==> forall|a: Seq<char>| #[trigger] all_socket_addrs(d.spec_peers()).contains(a)
                ==> peer_addrs(final(self).peer_table()@).contains(a),
            forall|a: Seq<char>| #[trigger] peer_addrs(old(self).peer_table()@).contains(a) ==> peer_addrs(
                final(self).peer_table()@,
            ).contains(a),
            forall|i: int| 0 <= i < old(self).peer_table()@.len() ==> #[trigger] final(self).peer_table()@[i] == old(
                self,
            ).peer_table()@[i],
            final(self).directory() == old(self).directory(),
            final(self).spec_running() == old(self).spec_running(),
            final(self).spec_config() == old(self).spec_config(),
            final(self).spec_max_peers() == old(self).spec_max_peers(),
            final(self).spec_node_id() == old(self).spec_node_id(),
            final(self).rpc_table() == old(self).rpc_table(),
            final(self).mesh() == old(self).mesh(),
    {
        let addrs = match &self.discovery {
            Some(d) => d.peer_addrs(),
            None => {
                return;
            },
        };
        let ghost want = addrs@.map_values(|s: String| s@);
        let ghost start = self.peers@;
        let ghost snap = *self;
        let mut i: usize = 0;
        while i < addrs.len()
            invariant
                i <= addrs@.len(),
                want == addrs@.map_values(|s: String| s@),
                self.peers.wf(),
                self.discovery == snap.discovery,
                self.rpcs == snap.rpcs,
                self.mesh == snap.mesh,
                self.config == snap.config,
                self.max_peers == snap.max_peers,
                self.node_id == snap.node_id,
                self.transport_running == snap.transport_running,
                start.len() <= self.peers@.len(),
                forall|k: int| 0 <= k < start.len() ==> #[trigger] self.peers@[k] == start[k],
                forall|k: int| 0 <= k < i ==> peer_addrs(self.peers@).contains(#[trigger] want[k]),
            decreases addrs@.len() - i,
        {
            let ghost before = self.peers@;
            if !self.peers.contains(addrs[i].as_str()) {
                self.peers.add_peer(addrs[i].clone());
                proof {
                    assert(peer_addrs(self.peers@) =~= peer_addrs(before).push(want[i as int]));
                    assert forall|k: int| 0 <= k < i + 1 implies peer_addrs(self.peers@).contains(#[trigger] want[k]) by {
                        if k < i {
                            let j = choose|j: int| 0 <= j < peer_addrs(before).len() && peer_addrs(before)[j] == want[k];
                            assert(peer_addrs(self.peers@)[j] == want[k]);
                        } else {
                            assert(peer_addrs(self.peers@)[before.len() as int] == want[k]);
                        }
                    }
                    assert forall|k: int| 0 <= k < start.len() implies #[trigger] self.peers@[k] == start[k] by {
                        assert(peer_addrs(before)[k] == before[k].addr);
                        assert(peer_addrs(before).contains(before[k].addr));
                    }
                }
            }
            i = i + 1;
        }
        proof {
            assert forall|a: Seq<char>| #[trigger] peer_addrs(start).contains(a) implies peer_addrs(self.peers@).contains(a) by {
                let j = choose|j: int| 0 <= j < peer_addrs(start).len() && peer_addrs(start)[j] == a;
                assert(peer_addrs(self.peers@)[j] == a);
            }
            assert forall|a: Seq<char>| #[trigger] want.contains(a) implies peer_addrs(self.peers@).contains(a) by {
                let j = choose|j: int| 0 <= j < want.len() && want[j] == a;
            }
        }
    }

    /// Adds a peer at `addr`, heard from now, with sequence number 0 and
    /// quality 50; a peer already at that address is replaced.
    pub fn add_peer(&mut self, addr: String)
        requires
            old(self).wf(),
        ensures
            final(self).wf(),
            peer_addrs(old(self).peer_table()@).contains(addr@) ==> peer_addrs(final(self).peer_table()@) == peer_addrs(
                old(self).peer_table()@,
            ),
            !peer_addrs(old(self).peer_table()@).contains(addr@) ==> peer_addrs(final(self).peer_table()@) == peer_addrs(
                old(self).peer_table()@,
            ).push(addr@),
            forall|i: int| 0 <= i < old(self).peer_table()@.len() && #[trigger] old(self).peer_table()@[i].addr != addr@
                ==> final(self).peer_table()@[i] == old(self).peer_table()@[i],
            forall|i: int| 0 <= i < final(self).peer_table()@.len() && #[trigger] final(self).peer_table()@[i].addr == addr@
                ==> final(self).peer_table()@[i].latest_seq == 0 && final(self).peer_table()@[i].quality == INITIAL_QUALITY,
            final(self).directory() == old(self).directory(),
            final(self).spec_running() == old(self).spec_running(),
            final(self).spec_config() == old(self).spec_config(),
            final(self).spec_max_peers() == old(self).spec_max_peers(),
            final(self).spec_node_id() == old(self).spec_node_id(),
            final(self).rpc_table() == old(self).rpc_table(),
            final(self).mesh() == old(self).mesh(),
    {
        self.peers.add_peer(addr);
    }

    /// Removes the peer at `addr`, if there is one.
    pub fn remove_peer(&mut self, addr: &str)
        requires
            old(self).wf(),
        ensures
            final(self).wf(),
            !peer_addrs(old(self).peer_table()@).contains(addr@) ==> final(self).peer_table()@ == old(self).peer_table()@,
            peer_addrs(old(self).peer_table()@).contains(addr@) ==> final(self).peer_table()@ == old(self).peer_table()@.remove(
                peer_addrs(old(self).peer_table()@).index_of(addr@),
            ),
            final(self).directory() == old(self).directory(),
            final(self).spec_running() == old(self).spec_running(),
            final(self).spec_config() == old(self).spec_config(),
            final(self).spec_max_peers() == old(self).spec_max_peers(),
            final(self).spec_node_id() == old(self).spec_node_id(),
            final(self).rpc_table() == old(self).rpc_table(),
            final(self).mesh() == old(self).mesh(),
    {
        self.peers.remove_peer(addr);
    }

    /// The time since each peer of the table was last heard from, by the
    /// clock, in table order.
    pub fn peer_since_seen(&self) -> (r: Vec<Duration>)
        ensures
            r@.len() == self.peer_table()@.len(),
    {
        self.peers.since_seen()
    }

    /// The active peers, in table order, when `since_seen[i]` is the time
    /// since peer `i` of the table was heard from.
    pub fn active_peers_at(&self, since_seen: &Vec<Duration>) -> (r: Vec<PeerInfo>)
        requires
            since_seen@.len() == self.peer_table()@.len(),
        ensures
            peer_views(r@) == select(self.peer_table()@, active_flags(since_seen@)),
    {
        self.peers.active_peers_at(since_seen)
    }

    /// The addresses of the best active peers, best first, at most the
    /// configured number, when `since_seen[i]` is the time since peer `i` of
    /// the table was heard from.
    pub fn gossip_peers_at(&self, since_seen: &Vec<Duration>) -> (r: Vec<String>)
        requires
            since_seen@.len() == self.peer_table()@.len(),
        ensures
            r@.map_values(|s: String| s@) == gossip_order(
                select(self.peer_table()@, active_flags(since_seen@)),
                self.spec_max_peers() as nat,
            ),
    {
        self.peers.gossip_peers_at(since_seen, self.max_peers)
    }

    /// The number of active peers when `since_seen[i]` is the time since peer
    /// `i` of the table was heard from.
    pub fn peer_count_at(&self, since_seen: &Vec<Duration>) -> (n: usize)
        requires
            since_seen@.len() == self.peer_table()@.len(),
        ensures
            n == select(self.peer_table()@, active_flags(since_seen@)).len(),
    {
        let active = self.peers.active_peers_at(since_seen);
        proof {
            assert(peer_views(active@).len() == active@.len());
        }
        active.len()
    }

    /// Records a successful exchange with the peer at `addr`, if known: heard
    /// from now, its latest sequence number, its quality raised by 5 (at
    /// most 100).
    pub fn update_peer(&mut self, addr: &str, latest_seq: u32)
        requires
            old(self).wf(),
        ensures
            final(self).wf(),
            peer_addrs(final(self).peer_table()@) == peer_addrs(old(self).peer_table()@),
            forall|i: int| 0 <= i < old(self).peer_table()@.len() && #[trigger] old(self).peer_table()@[i].addr != addr@
                ==> final(self).peer_table()@[i] == old(self).peer_table()@[i],
            forall|i: int| 0 <= i < old(self).peer_table()@.len() && #[trigger] old(self).peer_table()@[i].addr == addr@
                ==> final(self).peer_table()@[i].latest_seq == latest_seq && final(self).peer_table()@[i].quality
                    == quality_after_success(old(self).peer_table()@[i].quality),
            final(self).directory() == old(self).directory(),
            final(self).spec_running() == old(self).spec_running(),
            final(self).spec_config() == old(self).spec_config(),
            final(self).spec_max_peers() == old(self).spec_max_peers(),
            final(self).spec_node_id() == old(self).spec_node_id(),
            final(self).rpc_table() == old(self).rpc_table(),
            final(self).mesh() == old(self).mesh(),
    {
        self.peers.update_peer(addr, latest_seq);
    }

    /// Records a failed exchange with the peer at `addr`, if known: its
    /// quality lowered by 10 (at least 0).
    pub fn mark_peer_failed(&mut self, addr: &str)
        requires
            old(self).wf(),
        ensures
            final(self).wf(),
            peer_addrs(final(self).peer_table()@) == peer_addrs(old(self).peer_table()@),
            forall|i: int| 0 <= i < old(self).peer_table()@.len() && #[trigger] old(self).peer_table()@[i].addr != addr@
                ==> final(self).peer_table()@[i] == old(self).peer_table()@[i],
            forall|i: int| 0 <= i < old(self).peer_table()@.len() && #[trigger] old(self).peer_table()@[i].addr == addr@
                ==> final(self).peer_table()@[i] == (PeerView {
                    quality: quality_after_failure(old(self).peer_table()@[i].quality),
                    ..old(self).peer_table()@[i]
                }),
            final(self).directory() == old(self).directory(),
            final(self).spec_running() == old(self).spec_running(),
            final(self).spec_config() == old(self).spec_config(),
            final(self).spec_max_peers() == old(self).spec_max_peers(),
            final(self).spec_node_id() == old(self).spec_node_id(),
            final(self).rpc_table() == old(self).rpc_table(),
            final(self).mesh() == old(self).mesh(),
    {
        self.peers.mark_peer_failed(addr);
    }

    /// The peers heard from within the last five minutes, by the clock, in
    /// table order.
    pub fn active_peers(&self) -> (r: Vec<PeerInfo>)
        ensures
            exists|keep: Seq<bool>| keep.len() == self.peer_table()@.len() && #[trigger] peer_views(r@) == select(
                self.peer_table()@,
                keep,
            ),
    {
        let r = self.peers.active_peers();
        proof {
            let keep = choose|keep: Seq<bool>| keep.len() == self.peers@.len() && #[trigger] peer_views(r@) == select(self.peers@, keep);
            assert(peer_views(r@) == select(self.peer_table()@, keep));
        }
        r
    }

    /// The addresses of the best active peers, best first, at most the
    /// configured number.
    pub fn gossip_peers(&self) -> (r: Vec<String>)
        ensures
            exists|keep: Seq<bool>| keep.len() == self.peer_table()@.len() && r@.map_values(|s: String| s@) == gossip_order(
                #[trigger] select(self.peer_table()@, keep),
                self.spec_max_peers() as nat,
            ),
            r@.len() <= self.spec_max_peers(),
    {
        let r = self.peers.gossip_peers(self.max_peers);
        proof {
            assert(r@.len() == r@.map_values(|s: String| s@).len());
            let keep = choose|keep: Seq<bool>| keep.len() == self.peers@.len() && r@.map_values(|s: String| s@) == gossip_order(
                #[trigger] select(self.peers@, keep),
                self.max_peers as nat,
            );
            assert(select(self.peer_table()@, keep) == select(self.peers@, keep));
        }
        r
    }

    /// The number of active peers, by the clock.
    pub fn peer_count(&self) -> (n: usize)
        ensures
            exists|keep: Seq<bool>| keep.len() == self.peer_table()@.len() && n == (#[trigger] select(
                self.peer_table()@,
                keep,
            )).len(),
            n <= self.peer_table()@.len(),
    {
        let n = self.peers.peer_count();
        proof {
            let keep = choose|keep: Seq<bool>| keep.len() == self.peers@.len() && n == (#[trigger] select(self.peers@, keep)).len();
            lemma_select_members(self.peers@, keep);
        }
        n
    }

    /// Restores a saved peer at Unix time `now_secs`, where `addr_valid`
    /// says whether its address parses as a socket address: a restored peer
    /// is added and credited with one successful exchange (bringing its
    /// latest sequence number) per 5 quality points above 50; a skipped one
    /// changes nothing.
    pub fn restore_peer(&mut self, record: &PeerRecord, now_secs: u64, addr_valid: bool) -> (o: RestoreOutcome)
        requires
            old(self).wf(),
        ensures
            final(self).wf(),
            o == restore_outcome_spec(record.quality, record.last_seen_secs, now_secs, addr_valid),
            o != RestoreOutcome::Restored ==> final(self).peer_table() == old(self).peer_table(),
            o == RestoreOutcome::Restored ==> {
                &&& peer_addrs(old(self).peer_table()@).contains(record.addr@) ==> peer_addrs(final(self).peer_table()@)
                    == peer_addrs(old(self).peer_table()@)
                &&& !peer_addrs(old(self).peer_table()@).contains(record.addr@) ==> peer_addrs(final(self).peer_table()@)
                    == peer_addrs(old(self).peer_table()@).push(record.addr@)
                &&& forall|i: int| 0 <= i < old(self).peer_table()@.len() && #[trigger] old(self).peer_table()@[i].addr
                    != record.addr@ ==> final(self).peer_table()@[i] == old(self).peer_table()@[i]
                &&& forall|i: int| 0 <= i < final(self).peer_table()@.len() && #[trigger] final(self).peer_table()@[i].addr
                    == record.addr@ ==> final(self).peer_table()@[i].quality == restored_quality(record.quality)
                        && final(self).peer_table()@[i].latest_seq == (if boosts_spec(record.quality) > 0 {
                        record.latest_seq
                    } else {
                        0
                    })
            },
            final(self).directory() == old(self).directory(),
            final(self).spec_running() == old(self).spec_running(),
            final(self).spec_config() == old(self).spec_config(),
            final(self).spec_max_peers() == old(self).spec_max_peers(),
            final(self).spec_node_id() == old(self).spec_node_id(),
            final(self).rpc_table() == old(self).rpc_table(),
            final(self).mesh() == old(self).mesh(),
    {
        let o = record.restore_outcome(now_secs, addr_valid);
        if o != RestoreOutcome::Restored {
            return o;
        }
        let ghost start = self.peers@;
        let ghost addr = record.addr@;
        self.peers.add_peer(record.addr.clone());
        let ghost added = self.peers@;
        let ghost snap = *self;
        let boosts = record.quality_boosts();
        let mut j: u8 = 0;
        while j < boosts
            invariant
                j <= boosts,
                boosts == boosts_spec(record.quality),
                addr == record.addr@,
                self.peers.wf(),
                self.discovery == snap.discovery,
                self.rpcs == snap.rpcs,
                self.mesh == snap.mesh,
                self.config == snap.config,
                self.max_peers == snap.max_peers,
                self.node_id == snap.node_id,
                self.transport_running == snap.transport_running,
                self.peers@.len() == added.len(),
                peer_addrs(self.peers@) == peer_addrs(added),
                forall|i: int| 0 <= i < added.len() && #[trigger] added[i].addr != addr ==> self.peers@[i] == added[i],
                forall|i: int| 0 <= i < self.peers@.len() && #[trigger] self.peers@[i].addr == addr ==> self.peers@[i].quality
                    == (if 50 + 5 * j < 100 { (50 + 5 * j) as u8 } else { 100u8 }) && self.peers@[i].latest_seq == (if j > 0 {
                    record.latest_seq
                } else {
                    0
                }),
            decreases boosts - j,
        {
            let ghost before = self.peers@;
            self.peers.update_peer(record.addr.as_str(), record.latest_seq);
            proof {
                assert(peer_addrs(self.peers@).len() == peer_addrs(before).len());
                assert forall|i: int| 0 <= i < self.peers@.len() && #[trigger] self.peers@[i].addr == addr implies self.peers@[i].quality
                    == (if 50 + 5 * (j + 1) < 100 { (50 + 5 * (j + 1)) as u8 } else { 100u8 }) && self.peers@[i].latest_seq
                    == record.latest_seq by {
                    assert(peer_addrs(self.peers@).len() == peer_addrs(before).len());
                    assert(i < before.len());
                    assert(peer_addrs(self.peers@)[i] == peer_addrs(before)[i]);
                    assert(peer_addrs(before)[i] == before[i].addr);
                    assert(before[i].addr == addr);
                }
                assert forall|i: int| 0 <= i < added.len() && #[trigger] added[i].addr != addr implies self.peers@[i] == added[i] by {
                    assert(peer_addrs(added)[i] == peer_addrs(before)[i]);
                }
            }
            j = j + 1;
        }
        proof {
            assert forall|i: int| 0 <= i < start.len() && #[trigger] start[i].addr != addr implies self.peers@[i] == start[i] by {
                assert(added[i] == start[i]);
                assert(peer_addrs(added)[i] == start[i].addr);
            }
        }
        o
    }

    /// The records to save of the active peers at Unix time `now_secs`, when
    /// `since_seen[i]` is the time since peer `i` of the table was heard
    /// from: each with its address, sequence number and quality, last seen
    /// `now_secs` less the whole seconds since it was heard from.
    pub fn known_peer_records_at(&self, now_secs: u64, since_seen: &Vec<Duration>) -> (r: Vec<PeerRecord>)
        requires
            since_seen@.len() == self.peer_table()@.len(),
        ensures
            record_views(r@) == peer_records_at(self.peer_table()@, since_seen@, now_secs),
            r@.len() <= self.peer_table()@.len(),
    {
        let ghost t = self.peers@;
        let peers = self.peers.peer_list();
        let mut r: Vec<PeerRecord> = Vec::new();
        let mut i: usize = 0;
        proof {
            assert(record_views(r@) =~= peer_records_at(t.subrange(0, 0), since_seen@, now_secs));
        }
        while i < peers.len()
            invariant
                t == self.peers@,
                peer_views(peers@) == t,
                since_seen@.len() == t.len(),
                i <= t.len(),
                record_views(r@) == peer_records_at(t.subrange(0, i as int), since_seen@, now_secs),
            decreases t.len() - i,
        {
            proof {
                assert(peer_views(peers@)[i as int] == peers@[i as int]@);
                assert(t.subrange(0, i + 1).drop_last() =~= t.subrange(0, i as int));
                assert(t.subrange(0, i + 1)[i as int] == t[i as int]);
            }
            if is_active_after(&since_seen[i]) {
                let p = &peers[i];
                let nanos = nanos_of(&since_seen[i]);
                let secs_wide = nanos / 1_000_000_000;
                let secs: u64 = if secs_wide > u64::MAX as u128 { u64::MAX } else { secs_wide as u64 };
                let rec = PeerRecord::observed(p.addr.clone(), p.latest_seq, p.quality, now_secs, secs);
                let ghost before = r@;
                r.push(rec);
                proof {
                    assert(record_views(r@) =~= record_views(before).push(record_view(rec)));
                }
            }
            i = i + 1;
        }
        proof {
            assert(t.subrange(0, t.len() as int) =~= t);
            lemma_peer_records_len(t, since_seen@, now_secs);
            assert(record_views(r@).len() == r@.len());
        }
        r
    }

    /// The records to save of the active peers at Unix time `now_secs`:
    /// `known_peer_records_at` with the times the clock gives.
    pub fn known_peer_records(&self, now_secs: u64) -> (r: Vec<PeerRecord>)
        ensures
            exists|ds: Seq<Duration>| ds.len() == self.peer_table()@.len() && record_views(r@) == #[trigger] peer_records_at(
                self.peer_table()@,
                ds,
                now_secs,
            ),
            r@.len() <= self.peer_table()@.len(),
    {
        let since = self.peers.since_seen();
        self.known_peer_records_at(now_secs, &since)
    }

    /// Records a remote call of `method` sent now under `request_id`.
    pub fn register_rpc(&mut self, request_id: String, method: String)
        requires
            old(self).wf(),
        ensures
            final(self).wf(),
            request_ids(old(self).rpc_table()@).contains(request_id@) ==> request_ids(final(self).rpc_table()@) == request_ids(
                old(self).rpc_table()@,
            ),
            !request_ids(old(self).rpc_table()@).contains(request_id@) ==> request_ids(final(self).rpc_table()@)
                == request_ids(old(self).rpc_table()@).push(request_id@),
            forall|i: int| 0 <= i < final(self).rpc_table()@.len() && #[trigger] final(self).rpc_table()@[i].request_id
                == request_id@ ==> final(self).rpc_table()@[i].method == method@,
            final(self).peer_table() == old(self).peer_table(),
            final(self).directory() == old(self).directory(),
            final(self).spec_running() == old(self).spec_running(),
            final(self).spec_config() == old(self).spec_config(),
            final(self).spec_max_peers() == old(self).spec_max_peers(),
            final(self).spec_node_id() == old(self).spec_node_id(),
            final(self).mesh() == old(self).mesh(),
    {
        self.rpcs.register(request_id, method);
    }

    /// Handles the response to a remote call: if the call with `request_id`
    /// is pending, it is forgotten and the response is returned for delivery
    /// to the caller waiting on it; a response to an unknown call (one that
    /// timed out, say) is dropped.
    pub fn handle_rpc_response(&mut self, request_id: &str, success: bool, data: Vec<u8>) -> (r: Option<RpcResponse>)
        requires
            old(self).wf(),
        ensures
            final(self).wf(),
            request_ids(old(self).rpc_table()@).contains(request_id@) ==> r == Some(RpcResponse { success, data })
                && final(self).rpc_table()@ == old(self).rpc_table()@.remove(
                request_ids(old(self).rpc_table()@).index_of(request_id@),
            ),
            !request_ids(old(self).rpc_table()@).contains(request_id@) ==> r is None && final(self).rpc_table()@ == old(
                self,
            ).rpc_table()@,
            final(self).peer_table() == old(self).peer_table(),
            final(self).directory() == old(self).directory(),
            final(self).spec_running() == old(self).spec_running(),
            final(self).spec_config() == old(self).spec_config(),
            final(self).spec_max_peers() == old(self).spec_max_peers(),
            final(self).spec_node_id() == old(self).spec_node_id(),
            final(self).mesh() == old(self).mesh(),
    {
        match self.rpcs.complete(request_id) {
            Some(_) => Some(RpcResponse { success, data }),
            None => None,
        }
    }

    /// Forgets the remote calls that, by the clock, have waited longer than
    /// `max_age`; returns their request ids.
    pub fn cleanup_stale_rpcs(&mut self, max_age: Duration) -> (removed: Vec<String>)
        requires
            old(self).wf(),
        ensures
            final(self).wf(),
            exists|ages: Seq<Duration>| #![auto]
                ages.len() == old(self).rpc_table()@.len() && final(self).rpc_table()@ == fresh_calls(
                    old(self).rpc_table()@,
                    ages,
                    max_age,
                ) && removed@.map_values(|s: String| s@) == stale_ids(old(self).rpc_table()@, ages, max_age),
            final(self).peer_table() == old(self).peer_table(),
            final(self).directory() == old(self).directory(),
            final(self).spec_running() == old(self).spec_running(),
            final(self).spec_config() == old(self).spec_config(),
            final(self).spec_max_peers() == old(self).spec_max_peers(),
            final(self).spec_node_id() == old(self).spec_node_id(),
            final(self).mesh() == old(self).mesh(),
    {
        self.rpcs.cleanup_stale(&max_age)
    }

    /// The number of remote calls awaiting a response.
    pub fn pending_rpc_count(&self) -> (n: usize)
        ensures
            n == self.rpc_table()@.len(),
    {
        self.rpcs.pending_count()
    }

    /// Decides what to do with a mesh message received from `from`: whether
    /// to process its inner message, and, where it travels on, the
    /// time-to-live of the copy and the active peers (other than its
    /// sender) to send it to.
    pub fn process_mesh_message(&mut self, from: &str, message_id: &str, ttl: u8) -> (p: RelayPlan)
        requires
            old(self).wf(),
            old(self).mesh().spec_stats().duplicates_ignored < u64::MAX,
            old(self).mesh().spec_stats().messages_dropped_ttl < u64::MAX,
        ensures
            final(self).wf(),
            ({
                let d = relay_decision(old(self).mesh().seen_ids().contains(message_id@), ttl);
                &&& p.deliver == d.0
                &&& p.relay_ttl == (if d.1 { Some(d.2) } else { None::<u8> })
                &&& !d.1 ==> p.targets@.len() == 0
                &&& d.1 ==> forall|i: int| 0 <= i < p.targets@.len() ==> (#[trigger] p.targets@[i])@ != from@
                    && peer_addrs(old(self).peer_table()@).contains(p.targets@[i]@)
            }),
            old(self).mesh().seen_ids().contains(message_id@) || ttl == 0 ==> final(self).mesh().seen_ids() == old(
                self,
            ).mesh().seen_ids(),
            !old(self).mesh().seen_ids().contains(message_id@) && ttl > 0 ==> final(self).mesh().seen_ids()
                == seen_after_mark(old(self).mesh().seen_ids(), message_id@),
            final(self).peer_table() == old(self).peer_table(),
            final(self).directory() == old(self).directory(),
            final(self).spec_running() == old(self).spec_running(),
            final(self).spec_config() == old(self).spec_config(),
            final(self).spec_max_peers() == old(self).spec_max_peers(),
            final(self).spec_node_id() == old(self).spec_node_id(),
            final(self).rpc_table() == old(self).rpc_table(),
    {
        let active = self.peers.active_peers();
        proof {
            lemma_active_in_table(self.peers@, active@);
        }
        let p = self.mesh.plan_relay(&active, from, message_id, ttl);
        proof {
            let ts = p.targets@.map_values(|s: String| s@);
            let addrs = peer_addrs(peer_views(active@));
            lemma_others(addrs, from@);
            assert forall|i: int| 0 <= i < p.targets@.len() && p.relay_ttl is Some implies (#[trigger] p.targets@[i])@ != from@
                && peer_addrs(self.peers@).contains(p.targets@[i]@) by {
                assert(ts[i] == p.targets@[i]@);
                assert(others(addrs, from@).contains(ts[i]));
                let j = choose|j: int| 0 <= j < addrs.len() && addrs[j] == ts[i];
                assert(addrs[j] == active@[j]@.addr);
                assert(self.peers@.contains(active@[j]@));
                let k = choose|k: int| 0 <= k < self.peers@.len() && self.peers@[k] == active@[j]@;
                assert(peer_addrs(self.peers@)[k] == ts[i]);
            }
            if p.relay_ttl is None {
                assert(ts.len() == 0);
            }
        }
        p
    }

    /// Prepares a mesh broadcast of `message`: wraps it with the default
    /// time-to-live, marks it as seen and counts it as originated; returns
    /// the wrapped message and the active peers to send it to.
    pub fn mesh_broadcast(&mut self, message: Message) -> (r: (Message, Vec<String>))
        requires
            old(self).wf(),
            old(self).mesh().spec_stats().messages_originated < u64::MAX,
        ensures
            final(self).wf(),
            r.0 matches Message::MeshRelay { message_id, origin, ttl, inner } && origin@ == old(self).spec_node_id()
                && ttl == DEFAULT_MESH_TTL && *inner == message
                && exists|n: nat| message_id@ == old(self).spec_node_id() + ":"@ + decimal(n)
                && final(self).mesh().seen_ids() == seen_after_mark(old(self).mesh().seen_ids(), message_id@),
            final(self).mesh().spec_stats() == (MeshStats {
                messages_originated: (old(self).mesh().spec_stats().messages_originated + 1) as u64,
                ..old(self).mesh().spec_stats()
            }),
            forall|i: int| 0 <= i < r.1@.len() ==> peer_addrs(old(self).peer_table()@).contains(#[trigger] r.1@[i]@),
            final(self).peer_table() == old(self).peer_table(),
            final(self).directory() == old(self).directory(),
            final(self).spec_running() == old(self).spec_running(),
            final(self).spec_config() == old(self).spec_config(),
            final(self).spec_max_peers() == old(self).spec_max_peers(),
            final(self).spec_node_id() == old(self).spec_node_id(),
            final(self).rpc_table() == old(self).rpc_table(),
    {
        let wrapped = self.mesh.originate(self.node_id.as_str(), message);
        let active = self.peers.active_peers();
        proof {
            lemma_active_in_table(self.peers@, active@);
        }
        let mut targets: Vec<String> = Vec::new();
        let mut i: usize = 0;
        while i < active.len()
            invariant
                i <= active@.len(),
                forall|k: int| 0 <= k < active@.len() ==> self.peers@.contains(#[trigger] active@[k]@),
                forall|k: int| 0 <= k < targets@.len() ==> peer_addrs(self.peers@).contains(#[trigger] targets@[k]@),
            decreases active@.len() - i,
        {
            proof {
                let j = choose|j: int| 0 <= j < self.peers@.len() && self.peers@[j] == active@[i as int]@;
                assert(peer_addrs(self.peers@)[j] == active@[i as int].addr@);
            }
            targets.push(active[i].addr.clone());
            i = i + 1;
        }
        (wrapped, targets)
    }

    /// The mesh relay state.
    pub fn mesh_manager(&self) -> (m: &MeshManager)
        ensures
            *m == self.mesh(),
    {
        &self.mesh
    }

    /// The mesh relay statistics.
    pub fn mesh_stats(&self) -> (s: &MeshStats)
        ensures
            *s == self.mesh().spec_stats(),
    {
        &self.mesh.stats
    }
}

/// Every address that relaying leaves is one of the given addresses, and
/// none is the one left out.
proof fn lemma_others(addrs: Seq<Seq<char>>, from: Seq<char>)
    ensures
        forall|a: Seq<char>| #[trigger] others(addrs, from).contains(a) ==> addrs.contains(a) && a != from,
    decreases addrs.len(),
{
    if addrs.len() > 0 {
        let d = addrs.drop_last();
        lemma_others(d, from);
        assert forall|a: Seq<char>| #[trigger] others(addrs, from).contains(a) implies addrs.contains(a) && a != from by {
            let o = others(addrs, from);
            let k = choose|k: int| 0 <= k < o.len() && o[k] == a;
            if addrs.last() != from && k == o.len() - 1 {
                assert(addrs[addrs.len() - 1] == a);
            } else {
                assert(others(d, from)[k] == a);
                assert(others(d, from).contains(a));
                let j = choose|j: int| 0 <= j < d.len() && d[j] == a;
                assert(addrs[j] == a);
            }
        }
    }
}

/// Peers the clock reports active are peers of the table.
proof fn lemma_active_in_table(table: Seq<PeerView>, active: Seq<PeerInfo>)
    requires
        exists|keep: Seq<bool>| keep.len() == table.len() && #[trigger] peer_views(active) == select(table, keep),
    ensures
        active.len() <= table.len(),
        forall|k: int| 0 <= k < active.len() ==> table.contains(#[trigger] active[k]@),
{
    let keep = choose|keep: Seq<bool>| keep.len() == table.len() && #[trigger] peer_views(active) == select(table, keep);
    lemma_select_members(table, keep);
    assert forall|k: int| 0 <= k < active.len() implies table.contains(#[trigger] active[k]@) by {
        assert(peer_views(active)[k] == active[k]@);
        assert(select(table, keep).contains(active[k]@));
    }
}

} // verus!
