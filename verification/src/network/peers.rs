//! The peers a node gossips with: their quality, last sequence number and
//! when they were last heard from. Peers are identified by their address in
//! text form (`ip:port`).

use crate::text::str_eq;
use crate::time::{duration_as_nanos, elapsed, nanos_of, now};
use std::time::Duration;
use std::time::Instant;
use vstd::prelude::*;

verus! {

/// A peer is active while it was heard from less than this long ago (5 minutes).
pub const PEER_TIMEOUT_SECS: u64 = 300;

/// The quality a new peer starts with.
pub const INITIAL_QUALITY: u8 = 50;

/// Information about a peer.
#[derive(Debug)]
pub struct PeerInfo {
    /// Peer address.
    pub addr: String,
    /// When the peer was last heard from.
    pub last_seen: Instant,
    /// The peer's latest sequence number.
    pub latest_seq: u32,
    /// Connection quality (0-100).
    pub quality: u8,
}

/// The abstract value of a peer.
pub struct PeerView {
    pub addr: Seq<char>,
    pub last_seen: Instant,
    pub latest_seq: u32,
    pub quality: u8,
}

impl View for PeerInfo {
    type V = PeerView;

    open spec fn view(&self) -> PeerView {
        PeerView { addr: self.addr@, last_seen: self.last_seen, latest_seq: self.latest_seq, quality: self.quality }
    }
}

impl PeerInfo {
    /// A copy of the peer.
    pub fn duplicate(&self) -> (p: Self)
        ensures
            p@ == self@,
    {
        PeerInfo {
            addr: self.addr.clone(),
            last_seen: self.last_seen.clone(),
            latest_seq: self.latest_seq,
            quality: self.quality,
        }
    }
}

/// The abstract values of a list of peers.
pub open spec fn peer_views(s: Seq<PeerInfo>) -> Seq<PeerView> {
    s.map_values(|p: PeerInfo| p@)
}

/// The addresses of a list of peers.
pub open spec fn peer_addrs(s: Seq<PeerView>) -> Seq<Seq<char>> {
    s.map_values(|p: PeerView| p.addr)
}

/// The quality after a successful exchange: 5 more, at most 100.
pub open spec fn quality_after_success(q: u8) -> u8 {
    if q + 5 < 100 { (q + 5) as u8 } else { 100 }
}

/// The quality after a failure: 10 less, at least 0.
pub open spec fn quality_after_failure(q: u8) -> u8 {
    if q >= 10 { (q - 10) as u8 } else { 0 }
}

/// The addresses of the peers of quality `q`, in order.
pub open spec fn with_quality(ps: Seq<PeerView>, q: int) -> Seq<Seq<char>>
    decreases ps.len(),
{
    if ps.len() == 0 {
        Seq::empty()
    } else if ps.last().quality == q {
        with_quality(ps.drop_last(), q).push(ps.last().addr)
    } else {
        with_quality(ps.drop_last(), q)
    }
}

/// The addresses of the peers of quality at least `q`, best first, peers of
/// equal quality in their order.
pub open spec fn ranked_down_to(ps: Seq<PeerView>, q: int) -> Seq<Seq<char>>
    decreases 256 - q,
{
    if q > 255 {
        Seq::empty()
    } else {
        ranked_down_to(ps, q + 1) + with_quality(ps, q)
    }
}

/// The peers to gossip with: the `max_peers` best, best first (peers of
/// equal quality in their order).
pub open spec fn gossip_order(ps: Seq<PeerView>, max_peers: nat) -> Seq<Seq<char>> {
    let r = ranked_down_to(ps, 0);
    if r.len() <= max_peers { r } else { r.subrange(0, max_peers as int) }
}

/// The addresses of the `max_peers` best peers of `peers`, best first.
pub fn rank_for_gossip(peers: &Vec<PeerInfo>, max_peers: usize) -> (r: Vec<String>)
    ensures
        r@.map_values(|s: String| s@) == gossip_order(peer_views(peers@), max_peers as nat),
{
    let ghost ps = peer_views(peers@);
    let mut ranked: Vec<String> = Vec::new();
    let mut q: u16 = 256;
    proof {
        assert(ranked@.map_values(|s: String| s@) =~= ranked_down_to(ps, 256));
    }
    while q > 0
        invariant
            q <= 256,
            ps == peer_views(peers@),
            ranked@.map_values(|s: String| s@) == ranked_down_to(ps, q as int),
        decreases q,
    {
        q = q - 1;
        let ghost before = ranked@.map_values(|s: String| s@);
        let mut j: usize = 0;
        proof {
            assert(ps.subrange(0, 0) =~= Seq::<PeerView>::empty());
            assert(ranked@.map_values(|s: String| s@) =~= before + with_quality(ps.subrange(0, 0), q as int));
        }
        while j < peers.len()
            invariant
                q < 256,
                j <= peers@.len(),
                ps == peer_views(peers@),
                ranked@.map_values(|s: String| s@) == before + with_quality(ps.subrange(0, j as int), q as int),
            decreases peers@.len() - j,
        {
            let ghost mid = ranked@;
            proof {
                assert(ps.subrange(0, j as int + 1).drop_last() =~= ps.subrange(0, j as int));
                assert(ps.subrange(0, j as int + 1).last() == peers@[j as int]@);
            }
            if peers[j].quality as u16 == q {
                ranked.push(peers[j].addr.clone());
                proof {
                    assert(ranked@.map_values(|s: String| s@) =~= mid.map_values(|s: String| s@).push(peers@[j as int].addr@));
                }
            }
            j = j + 1;
        }
        proof {
            assert(ps.subrange(0, peers@.len() as int) =~= ps);
        }
    }
    let ghost all = ranked@.map_values(|s: String| s@);
    if ranked.len() <= max_peers {
        ranked
    } else {
        let mut r: Vec<String> = Vec::new();
        let mut k: usize = 0;
        while k < max_peers
            invariant
                k <= max_peers < ranked@.len(),
                all == ranked@.map_values(|s: String| s@),
                r@.map_values(|s: String| s@) == all.subrange(0, k as int),
            decreases max_peers - k,
        {
            let ghost before = r@;
            r.push(ranked[k].clone());
            proof {
                assert(ranked@[k as int]@ == all[k as int]);
                assert(r@.map_values(|s: String| s@) =~= before.map_values(|s: String| s@).push(all[k as int]));
                assert(r@.map_values(|s: String| s@) =~= all.subrange(0, k as int + 1));
            }
            k = k + 1;
        }
        r
    }
}

/// Whether a peer last heard from `since_seen` ago is active: less than
/// `PEER_TIMEOUT_SECS` ago.
pub fn is_active_after(since_seen: &Duration) -> (b: bool)
    ensures
        b == (duration_as_nanos(*since_seen) < PEER_TIMEOUT_SECS * 1_000_000_000),
{
    nanos_of(since_seen) < (PEER_TIMEOUT_SECS as u128) * 1_000_000_000
}

/// The peers of a node, at most one per address, in the order they were
/// added.
pub struct PeerTable {
    peers: Vec<PeerInfo>,
}

impl View for PeerTable {
    type V = Seq<PeerView>;

    closed spec fn view(&self) -> Seq<PeerView> {
        peer_views(self.peers@)
    }
}

impl PeerTable {
    /// The invariant: no two peers share an address.
    pub closed spec fn wf(&self) -> bool {
        peer_addrs(self@).no_duplicates()
    }

    /// An empty table.
    pub fn new() -> (t: Self)
        ensures
            t.wf(),
            t@ == Seq::<PeerView>::empty(),
    {
        let t = PeerTable { peers: Vec::new() };
        proof {
            assert(t@ =~= Seq::<PeerView>::empty());
            assert(peer_addrs(t@) =~= Seq::<Seq<char>>::empty());
        }
        t
    }

    /// The position of the peer with `addr`, if any.
    fn find(&self, addr: &str) -> (r: Option<usize>)
        ensures
            match r {
                Some(i) => i < self@.len() && self@[i as int].addr == addr@,
                None => !peer_addrs(self@).contains(addr@),
            },
    {
        let mut i: usize = 0;
        while i < self.peers.len()
            invariant
                i <= self.peers@.len(),
                forall|j: int| 0 <= j < i ==> #[trigger] self.peers@[j].addr@ != addr@,
            decreases self.peers@.len() - i,
        {
            if str_eq(self.peers[i].addr.as_str(), addr) {
                return Some(i);
            }
            i = i + 1;
        }
        proof {
            if peer_addrs(self@).contains(addr@) {
                let k = choose|k: int| 0 <= k < peer_addrs(self@).len() && peer_addrs(self@)[k] == addr@;
                assert(self.peers@[k].addr@ == addr@);
            }
        }
        None
    }

    /// Whether there is a peer with `addr`.
    pub fn contains(&self, addr: &str) -> (b: bool)
        ensures
            b == peer_addrs(self@).contains(addr@),
    {
        match self.find(addr) {
            Some(i) => {
                proof {
                    assert(peer_addrs(self@)[i as int] == addr@);
                }
                true
            },
            None => false,
        }
    }

    /// Adds a peer, heard from now, with sequence number 0 and quality 50; a
    /// peer already at that address is replaced in place.
    pub fn add_peer(&mut self, addr: String)
        requires
            old(self).wf(),
        ensures
            final(self).wf(),
            peer_addrs(old(self)@).contains(addr@) ==> peer_addrs(final(self)@) == peer_addrs(old(self)@),
            !peer_addrs(old(self)@).contains(addr@) ==> peer_addrs(final(self)@) == peer_addrs(old(self)@).push(addr@),
            forall|i: int| 0 <= i < old(self)@.len() && #[trigger] old(self)@[i].addr != addr@ ==> final(self)@[i] == old(self)@[i],
            forall|i: int| 0 <= i < final(self)@.len() && #[trigger] final(self)@[i].addr == addr@ ==> final(self)@[i].latest_seq == 0
                && final(self)@[i].quality == INITIAL_QUALITY,
    {
        let ghost before = self@;
        let found = self.find(addr.as_str());
        let info = PeerInfo { addr, last_seen: now(), latest_seq: 0, quality: INITIAL_QUALITY };
        let ghost iv = info@;
        match found {
            Some(i) => {
                self.peers.set(i, info);
                proof {
                    assert(peer_addrs(before)[i as int] == addr@);
                    assert(self@ =~= before.update(i as int, iv));
                    assert(peer_addrs(self@) =~= peer_addrs(before));
                    assert forall|k: int| 0 <= k < self@.len() && #[trigger] self@[k].addr == iv.addr implies self@[k].latest_seq == 0
                        && self@[k].quality == INITIAL_QUALITY by {
                        if k != i {
                            assert(peer_addrs(before)[k] == peer_addrs(before)[i as int]);
                        }
                    }
                }
            },
            None => {
                self.peers.push(info);
                proof {
                    assert(self@ =~= before.push(iv));
                    assert(peer_addrs(self@) =~= peer_addrs(before).push(iv.addr));
                    assert forall|k: int| 0 <= k < self@.len() && #[trigger] self@[k].addr == iv.addr implies self@[k].latest_seq == 0
                        && self@[k].quality == INITIAL_QUALITY by {
                        if k < before.len() {
                            assert(peer_addrs(before)[k] == iv.addr);
                        }
                    }
                }
            },
        }
    }

    /// Removes the peer with `addr`, if there is one.
    pub fn remove_peer(&mut self, addr: &str)
        requires
            old(self).wf(),
        ensures
            final(self).wf(),
            !peer_addrs(old(self)@).contains(addr@) ==> final(self)@ == old(self)@,
            peer_addrs(old(self)@).contains(addr@) ==> final(self)@ == old(self)@.remove(peer_addrs(old(self)@).index_of(addr@)),
    {
        let ghost before = self@;
        match self.find(addr) {
            Some(i) => {
                proof {
                    lemma_first_index(before, i as int, addr@);
                }
                self.peers.remove(i);
                proof {
                    assert(self@ =~= before.remove(i as int));
                    let a = peer_addrs(self@);
                    assert forall|x: int, y: int| 0 <= x < a.len() && 0 <= y < a.len() && x != y implies a[x] != a[y] by {
                        let ox = if x < i { x } else { x + 1 };
                        let oy = if y < i { y } else { y + 1 };
                        assert(a[x] == peer_addrs(before)[ox]);
                        assert(a[y] == peer_addrs(before)[oy]);
                    }
                }
            },
            None => {},
        }
    }

    /// Records a successful exchange with the peer at `addr`, if known: heard
    /// from now, its latest sequence number, its quality raised by 5 (at
    /// most 100).
    pub fn update_peer(&mut self, addr: &str, latest_seq: u32)
        requires
            old(self).wf(),
        ensures
            final(self).wf(),
            peer_addrs(final(self)@) == peer_addrs(old(self)@),
            forall|i: int| 0 <= i < old(self)@.len() ==> (#[trigger] final(self)@[i]).addr == old(self)@[i].addr,
            forall|i: int| 0 <= i < old(self)@.len() && #[trigger] old(self)@[i].addr != addr@ ==> final(self)@[i] == old(self)@[i],
            forall|i: int| 0 <= i < old(self)@.len() && #[trigger] old(self)@[i].addr == addr@ ==> final(self)@[i].latest_seq == latest_seq
                && final(self)@[i].quality == quality_after_success(old(self)@[i].quality),
    {
        let ghost before = self@;
        match self.find(addr) {
            Some(i) => {
                let p = &self.peers[i];
                let q: u8 = if p.quality < 95 { p.quality + 5 } else { 100 };
                let updated = PeerInfo { addr: p.addr.clone(), last_seen: now(), latest_seq, quality: q };
                let ghost uv = updated@;
                self.peers.set(i, updated);
                proof {
                    assert(self@ =~= before.update(i as int, uv));
                    assert(peer_addrs(self@) =~= peer_addrs(before));
                    assert forall|k: int| 0 <= k < before.len() && #[trigger] before[k].addr == addr@ implies self@[k].latest_seq == latest_seq
                        && self@[k].quality == quality_after_success(before[k].quality) by {
                        if k != i {
                            assert(peer_addrs(before)[k] == peer_addrs(before)[i as int]);
                        }
                    }
                }
            },
            None => {
                proof {
                    assert forall|k: int| 0 <= k < before.len() && #[trigger] before[k].addr == addr@ implies false by {
                        assert(peer_addrs(before)[k] == addr@);
                    }
                }
            },
        }
    }

    /// Records a failed exchange with the peer at `addr`, if known: its
    /// quality lowered by 10 (at least 0).
    pub fn mark_peer_failed(&mut self, addr: &str)
        requires
            old(self).wf(),
        ensures
            final(self).wf(),
            peer_addrs(final(self)@) == peer_addrs(old(self)@),
            forall|i: int| 0 <= i < old(self)@.len() && #[trigger] old(self)@[i].addr != addr@ ==> final(self)@[i] == old(self)@[i],
            forall|i: int| 0 <= i < old(self)@.len() && #[trigger] old(self)@[i].addr == addr@ ==> final(self)@[i]
                == (PeerView { quality: quality_after_failure(old(self)@[i].quality), ..old(self)@[i] }),
    {
        let ghost before = self@;
        match self.find(addr) {
            Some(i) => {
                let mut p = self.peers.remove(i);
                p.quality = p.quality.saturating_sub(10);
                let ghost pv = p@;
                self.peers.insert(i, p);
                proof {
                    assert(self@ =~= before.update(i as int, pv));
                    assert(peer_addrs(self@) =~= peer_addrs(before));
                    assert forall|k: int| 0 <= k < before.len() && #[trigger] before[k].addr == addr@ implies self@[k]
                        == (PeerView { quality: quality_after_failure(before[k].quality), ..before[k] }) by {
                        if k != i {
                            assert(peer_addrs(before)[k] == peer_addrs(before)[i as int]);
                        }
                    }
                }
            },
            None => {
                proof {
                    assert forall|k: int| 0 <= k < before.len() && #[trigger] before[k].addr == addr@ implies false by {
                        assert(peer_addrs(before)[k] == addr@);
                    }
                }
            },
        }
    }

    /// The peers, in table order.
    pub fn peer_list(&self) -> (r: &Vec<PeerInfo>)
        ensures
            peer_views(r@) == self@,
    {
        &self.peers
    }

    /// The time since each peer was last heard from, by the clock, in table
    /// order.
    pub fn since_seen(&self) -> (r: Vec<Duration>)
        ensures
            r@.len() == self@.len(),
    {
        let mut r: Vec<Duration> = Vec::new();
        let mut i: usize = 0;
        while i < self.peers.len()
            invariant
                i <= self.peers@.len(),
                r@.len() == i,
            decreases self.peers@.len() - i,
        {
            r.push(elapsed(&self.peers[i].last_seen));
            i = i + 1;
        }
        r
    }

    /// The peers heard from within the last `PEER_TIMEOUT_SECS`, in table
    /// order, when `since_seen[i]` is the time since peer `i` was heard from.
    pub fn active_peers_at(&self, since_seen: &Vec<Duration>) -> (r: Vec<PeerInfo>)
        requires
            since_seen@.len() == self@.len(),
        ensures
            peer_views(r@) == select(self@, active_flags(since_seen@)),
    {
        let ghost s = self@;
        let ghost flags = active_flags(since_seen@);
        let ghost mut keep: Seq<bool> = Seq::empty();
        let mut r: Vec<PeerInfo> = Vec::new();
        let mut i: usize = 0;
        proof {
            assert(peer_views(r@) =~= select(s.subrange(0, 0), keep));
        }
        while i < self.peers.len()
            invariant
                i <= self.peers@.len(),
                s == self@,
                s.len() == self.peers@.len(),
                since_seen@.len() == s.len(),
                flags == active_flags(since_seen@),
                keep == flags.subrange(0, i as int),
                peer_views(r@) == select(s.subrange(0, i as int), keep),
            decreases self.peers@.len() - i,
        {
            let active = is_active_after(&since_seen[i]);
            let ghost before = r@;
            proof {
                assert(s.subrange(0, i + 1).drop_last() =~= s.subrange(0, i as int));
                assert(s.subrange(0, i + 1).last() == self.peers@[i as int]@);
                assert(keep.push(active).drop_last() =~= keep);
                assert(active == flags[i as int]);
                assert(keep.push(active) =~= flags.subrange(0, i + 1));
            }
            if active {
                r.push(self.peers[i].duplicate());
                proof {
                    assert(peer_views(r@) =~= peer_views(before).push(self.peers@[i as int]@));
                }
            }
            proof {
                lemma_select_prefix(s.subrange(0, i + 1), keep.push(active));
                keep = keep.push(active);
            }
            i = i + 1;
        }
        proof {
            assert(s.subrange(0, s.len() as int) =~= s);
            assert(keep =~= flags);
        }
        r
    }

    /// The peers heard from within the last `PEER_TIMEOUT_SECS`, by the
    /// clock, in table order: `active_peers_at` with the times the clock
    /// gives.
    pub fn active_peers(&self) -> (r: Vec<PeerInfo>)
        ensures
            exists|ds: Seq<Duration>| ds.len() == self@.len() && #[trigger] peer_views(r@) == select(
                self@,
                active_flags(ds),
            ),
            exists|keep: Seq<bool>| keep.len() == self@.len() && #[trigger] peer_views(r@) == select(self@, keep),
    {
        let since = self.since_seen();
        let r = self.active_peers_at(&since);
        proof {
            assert(active_flags(since@).len() == self@.len());
        }
        r
    }

    /// The addresses of the `max_peers` best active peers, best first.
    pub fn gossip_peers(&self, max_peers: usize) -> (r: Vec<String>)
        ensures
            exists|keep: Seq<bool>| keep.len() == self@.len() && r@.map_values(|s: String| s@) == gossip_order(
                #[trigger] select(self@, keep),
                max_peers as nat,
            ),
    {
        let active = self.active_peers();
        rank_for_gossip(&active, max_peers)
    }

    /// The addresses of the `max_peers` best active peers, best first, when
    /// `since_seen[i]` is the time since peer `i` was heard from.
    pub fn gossip_peers_at(&self, since_seen: &Vec<Duration>, max_peers: usize) -> (r: Vec<String>)
        requires
            since_seen@.len() == self@.len(),
        ensures
            r@.map_values(|s: String| s@) == gossip_order(select(self@, active_flags(since_seen@)), max_peers as nat),
    {
        let active = self.active_peers_at(since_seen);
        rank_for_gossip(&active, max_peers)
    }

    /// The number of active peers, by the clock.
    pub fn peer_count(&self) -> (n: usize)
        ensures
            exists|keep: Seq<bool>| keep.len() == self@.len() && n == (#[trigger] select(self@, keep)).len(),
    {
        let active = self.active_peers();
        active.len()
    }

    /// The number of known peers, active or not.
    pub fn len(&self) -> (n: usize)
        ensures
            n == self@.len(),
    {
        self.peers.len()
    }

    /// Forgets every peer.
    pub fn clear(&mut self)
        ensures
            final(self).wf(),
            final(self)@ == Seq::<PeerView>::empty(),
    {
        self.peers = Vec::new();
        proof {
            assert(self@ =~= Seq::<PeerView>::empty());
            assert(peer_addrs(self@) =~= Seq::<Seq<char>>::empty());
        }
    }
}

/// In a list with distinct addresses, the peer at `i` with `addr` is the
/// first with that address.
proof fn lemma_first_index(s: Seq<PeerView>, i: int, addr: Seq<char>)
    requires
        0 <= i < s.len(),
        s[i].addr == addr,
        peer_addrs(s).no_duplicates(),
    ensures
        peer_addrs(s).contains(addr),
        peer_addrs(s).index_of(addr) == i,
{
    assert(peer_addrs(s)[i] == addr);
    let k = peer_addrs(s).index_of(addr);
    assert(peer_addrs(s)[k] == addr);
}

/// For each time since a peer was heard from, whether the peer is active:
/// heard from less than `PEER_TIMEOUT_SECS` ago.
pub open spec fn active_flags(since_seen: Seq<Duration>) -> Seq<bool> {
    Seq::new(since_seen.len(), |i: int| duration_as_nanos(since_seen[i]) < PEER_TIMEOUT_SECS * 1_000_000_000)
}

/// The peers of `s` whose flag in `keep` is set, in order.
pub open spec fn select(s: Seq<PeerView>, keep: Seq<bool>) -> Seq<PeerView>
    decreases s.len(),
{
    if s.len() == 0 {
        Seq::empty()
    } else if keep[s.len() - 1] {
        select(s.drop_last(), keep).push(s.last())
    } else {
        select(s.drop_last(), keep)
    }
}

/// Selecting from a prefix looks only at the flags of the prefix.
proof fn lemma_select_prefix(s: Seq<PeerView>, keep: Seq<bool>)
    requires
        keep.len() == s.len(),
    ensures
        s.len() > 0 ==> select(s, keep) == if keep.last() {
            select(s.drop_last(), keep.drop_last()).push(s.last())
        } else {
            select(s.drop_last(), keep.drop_last())
        },
{
    if s.len() > 0 {
        lemma_select_flags(s.drop_last(), keep, keep.drop_last());
    }
}

/// Selections agree when the flags of the selected sequence agree.
proof fn lemma_select_flags(s: Seq<PeerView>, k1: Seq<bool>, k2: Seq<bool>)
    requires
        k1.len() >= s.len(),
        k2.len() >= s.len(),
        forall|i: int| 0 <= i < s.len() ==> k1[i] == k2[i],
    ensures
        select(s, k1) == select(s, k2),
    decreases s.len(),
{
    if s.len() > 0 {
        lemma_select_flags(s.drop_last(), k1, k2);
    }
}

/// The selected peers are peers of the sequence, and no more than it has.
pub proof fn lemma_select_members(s: Seq<PeerView>, keep: Seq<bool>)
    ensures
        select(s, keep).len() <= s.len(),
        forall|p: PeerView| #[trigger] select(s, keep).contains(p) ==> s.contains(p),
    decreases s.len(),
{
    if s.len() > 0 {
        lemma_select_members(s.drop_last(), keep);
        assert forall|p: PeerView| #[trigger] select(s, keep).contains(p) implies s.contains(p) by {
            let t = select(s, keep);
            let k = choose|k: int| 0 <= k < t.len() && t[k] == p;
            if keep[s.len() - 1] && k == t.len() - 1 {
                assert(s[s.len() - 1] == p);
            } else {
                assert(select(s.drop_last(), keep)[k] == p);
                assert(select(s.drop_last(), keep).contains(p));
                let j = choose|j: int| 0 <= j < s.drop_last().len() && s.drop_last()[j] == p;
                assert(s[j] == p);
            }
        }
    }
}


/// The number of peers of `ps` with quality `q`.
pub open spec fn count_quality(ps: Seq<PeerView>, q: int) -> nat
    decreases ps.len(),
{
    if ps.len() == 0 {
        0
    } else {
        count_quality(ps.drop_last(), q) + if ps.last().quality == q { 1nat } else { 0nat }
    }
}

/// The number of peers of `ps` with quality at least `q`.
pub open spec fn count_at_least(ps: Seq<PeerView>, q: int) -> nat
    decreases ps.len(),
{
    if ps.len() == 0 {
        0
    } else {
        count_at_least(ps.drop_last(), q) + if ps.last().quality >= q { 1nat } else { 0nat }
    }
}

/// Whether some peer of `ps` has address `a` and quality `q`.
pub open spec fn has_peer(ps: Seq<PeerView>, a: Seq<char>, q: int) -> bool {
    exists|k: int| 0 <= k < ps.len() && #[trigger] ps[k].addr == a && ps[k].quality == q
}

/// Whether some peer of `ps` has address `a` and quality at least `q`.
pub open spec fn has_peer_from(ps: Seq<PeerView>, a: Seq<char>, q: int) -> bool {
    exists|k: int| 0 <= k < ps.len() && #[trigger] ps[k].addr == a && ps[k].quality >= q
}

/// The quality of the peer with address `a` (the first with it).
pub open spec fn quality_of(ps: Seq<PeerView>, a: Seq<char>) -> u8 {
    ps[peer_addrs(ps).index_of(a)].quality
}

proof fn lemma_count_split(ps: Seq<PeerView>, q: int)
    ensures
        count_at_least(ps, q) == count_at_least(ps, q + 1) + count_quality(ps, q),
        count_at_least(ps, 0) == ps.len(),
        count_at_least(ps, 256) == 0,
    decreases ps.len(),
{
    if ps.len() > 0 {
        lemma_count_split(ps.drop_last(), q);
    }
}

/// The peers of quality `q`, in order: each is a peer of that quality, and
/// every peer of that quality is among them.
proof fn lemma_with_quality(ps: Seq<PeerView>, q: int)
    ensures
        with_quality(ps, q).len() == count_quality(ps, q),
        forall|i: int| 0 <= i < with_quality(ps, q).len() ==> has_peer(ps, #[trigger] with_quality(ps, q)[i], q),
        forall|k: int| 0 <= k < ps.len() && #[trigger] ps[k].quality == q ==> with_quality(ps, q).contains(ps[k].addr),
    decreases ps.len(),
{
    if ps.len() > 0 {
        let prev = ps.drop_last();
        lemma_with_quality(prev, q);
        let w = with_quality(ps, q);
        let wp = with_quality(prev, q);
        assert forall|i: int| 0 <= i < w.len() implies has_peer(ps, #[trigger] w[i], q) by {
            if i < wp.len() {
                assert(w[i] == wp[i]);
                assert(has_peer(prev, wp[i], q));
                let k = choose|k: int| 0 <= k < prev.len() && #[trigger] prev[k].addr == wp[i] && prev[k].quality == q;
                assert(ps[k] == prev[k]);
                assert(ps[k].addr == w[i] && ps[k].quality == q);
            } else {
                let k = ps.len() - 1;
                assert(ps[k].addr == w[i] && ps[k].quality == q);
            }
        }
        assert forall|k: int| 0 <= k < ps.len() && #[trigger] ps[k].quality == q implies w.contains(ps[k].addr) by {
            if k < ps.len() - 1 {
                assert(prev[k] == ps[k]);
                assert(wp.contains(ps[k].addr));
                let j = choose|j: int| 0 <= j < wp.len() && wp[j] == ps[k].addr;
                assert(w[j] == wp[j]);
            } else {
                assert(w[w.len() - 1] == ps[k].addr);
            }
        }
    }
}

/// The peers of quality at least `q`, best first: as many as there are
/// such peers, each one of them, all of them; with distinct addresses,
/// their qualities do not increase along the ranking.
proof fn lemma_ranked(ps: Seq<PeerView>, q: int)
    requires
        0 <= q <= 256,
    ensures
        ranked_down_to(ps, q).len() == count_at_least(ps, q),
        forall|i: int| 0 <= i < ranked_down_to(ps, q).len() ==> has_peer_from(ps, #[trigger] ranked_down_to(ps, q)[i], q),
        forall|k: int| 0 <= k < ps.len() && #[trigger] ps[k].quality >= q ==> ranked_down_to(ps, q).contains(ps[k].addr),
        peer_addrs(ps).no_duplicates() ==> forall|i: int, j: int| 0 <= i < j < ranked_down_to(ps, q).len()
            ==> quality_of(ps, #[trigger] ranked_down_to(ps, q)[i]) >= quality_of(ps, #[trigger] ranked_down_to(ps, q)[j]),
    decreases 256 - q,
{
    lemma_count_split(ps, q);
    if q > 255 {
        assert forall|k: int| 0 <= k < ps.len() implies !(#[trigger] ps[k].quality >= q) by {}
    } else {
        lemma_ranked(ps, q + 1);
        lemma_with_quality(ps, q);
        let hi = ranked_down_to(ps, q + 1);
        let w = with_quality(ps, q);
        let r = ranked_down_to(ps, q);
        assert(r == hi + w);
        assert forall|i: int| 0 <= i < r.len() implies has_peer_from(ps, #[trigger] r[i], q) by {
            if i < hi.len() {
                assert(r[i] == hi[i]);
                assert(has_peer_from(ps, hi[i], q + 1));
                let k = choose|k: int| 0 <= k < ps.len() && #[trigger] ps[k].addr == hi[i] && ps[k].quality >= q + 1;
                assert(ps[k].addr == r[i] && ps[k].quality >= q);
            } else {
                assert(r[i] == w[i - hi.len()]);
                assert(has_peer(ps, w[i - hi.len()], q));
                let k = choose|k: int| 0 <= k < ps.len() && #[trigger] ps[k].addr == w[i - hi.len()] && ps[k].quality == q;
                assert(ps[k].addr == r[i] && ps[k].quality >= q);
            }
        }
        assert forall|k: int| 0 <= k < ps.len() && #[trigger] ps[k].quality >= q implies r.contains(ps[k].addr) by {
            if ps[k].quality >= q + 1 {
                let j = choose|j: int| 0 <= j < hi.len() && hi[j] == ps[k].addr;
                assert(r[j] == hi[j]);
            } else {
                assert(w.contains(ps[k].addr));
                let j = choose|j: int| 0 <= j < w.len() && w[j] == ps[k].addr;
                assert(r[hi.len() + j] == w[j]);
            }
        }
        if peer_addrs(ps).no_duplicates() {
            assert forall|i: int, j: int| 0 <= i < j < r.len() implies quality_of(ps, #[trigger] r[i]) >= quality_of(
                ps,
                #[trigger] r[j],
            ) by {
                if j < hi.len() {
                    assert(r[i] == hi[i] && r[j] == hi[j]);
                } else if i < hi.len() {
                    assert(r[i] == hi[i]);
                    assert(has_peer_from(ps, hi[i], q + 1));
                    let k2 = choose|k: int| 0 <= k < ps.len() && #[trigger] ps[k].addr == hi[i] && ps[k].quality >= q + 1;
                    lemma_first_index(ps, k2, r[i]);
                    assert(r[j] == w[j - hi.len()]);
                    assert(has_peer(ps, w[j - hi.len()], q));
                    let k3 = choose|k: int| 0 <= k < ps.len() && #[trigger] ps[k].addr == w[j - hi.len()] && ps[k].quality == q;
                    lemma_first_index(ps, k3, r[j]);
                } else {
                    assert(r[i] == w[i - hi.len()]);
                    assert(r[j] == w[j - hi.len()]);
                    assert(has_peer(ps, w[i - hi.len()], q));
                    assert(has_peer(ps, w[j - hi.len()], q));
                    let k2 = choose|k: int| 0 <= k < ps.len() && #[trigger] ps[k].addr == w[i - hi.len()] && ps[k].quality == q;
                    lemma_first_index(ps, k2, r[i]);
                    let k3 = choose|k: int| 0 <= k < ps.len() && #[trigger] ps[k].addr == w[j - hi.len()] && ps[k].quality == q;
                    lemma_first_index(ps, k3, r[j]);
                }
            }
        }
    }
}

/// Choosing gossip peers takes the best `max_peers` of all peers: as many as
/// there are, up to `max_peers`, each one of the peers, every peer when
/// there are no more than `max_peers` (a peer of quality 0 too); with
/// distinct addresses, best first, and no peer left out is better than one
/// chosen.
pub proof fn lemma_gossip_choice(ps: Seq<PeerView>, max_peers: nat)
    ensures
        gossip_order(ps, max_peers).len() == (if ps.len() <= max_peers { ps.len() } else { max_peers }),
        forall|i: int| 0 <= i < gossip_order(ps, max_peers).len() ==> peer_addrs(ps).contains(
            #[trigger] gossip_order(ps, max_peers)[i],
        ),
        ps.len() <= max_peers ==> forall|k: int| 0 <= k < ps.len() ==> gossip_order(ps, max_peers).contains(
            #[trigger] ps[k].addr,
        ),
        peer_addrs(ps).no_duplicates() ==> forall|i: int, j: int| 0 <= i < j < gossip_order(ps, max_peers).len()
            ==> quality_of(ps, #[trigger] gossip_order(ps, max_peers)[i]) >= quality_of(
            ps,
            #[trigger] gossip_order(ps, max_peers)[j],
        ),
        peer_addrs(ps).no_duplicates() ==> forall|k: int, i: int| 0 <= k < ps.len() && 0 <= i < gossip_order(
            ps,
            max_peers,
        ).len() && !gossip_order(ps, max_peers).contains(#[trigger] ps[k].addr) ==> quality_of(
            ps,
            #[trigger] gossip_order(ps, max_peers)[i],
        ) >= ps[k].quality,
{
    lemma_ranked(ps, 0);
    lemma_count_split(ps, 0);
    let r = ranked_down_to(ps, 0);
    let g = gossip_order(ps, max_peers);
    assert forall|i: int| 0 <= i < g.len() implies peer_addrs(ps).contains(#[trigger] g[i]) by {
        assert(g[i] == r[i]);
        assert(has_peer_from(ps, r[i], 0));
        let k = choose|k: int| 0 <= k < ps.len() && #[trigger] ps[k].addr == r[i] && ps[k].quality >= 0;
        assert(peer_addrs(ps)[k] == ps[k].addr);
    }
    if ps.len() <= max_peers {
        assert(g == r);
        assert forall|k: int| 0 <= k < ps.len() implies g.contains(#[trigger] ps[k].addr) by {
            assert(ps[k].quality >= 0);
        }
    }
    if peer_addrs(ps).no_duplicates() {
        assert forall|i: int, j: int| 0 <= i < j < g.len() implies quality_of(ps, #[trigger] g[i]) >= quality_of(
            ps,
            #[trigger] g[j],
        ) by {
            assert(g[i] == r[i] && g[j] == r[j]);
        }
        assert forall|k: int, i: int| 0 <= k < ps.len() && 0 <= i < g.len() && !g.contains(#[trigger] ps[k].addr)
            implies quality_of(ps, #[trigger] g[i]) >= ps[k].quality by {
            assert(ps[k].quality >= 0);
            let p = choose|p: int| 0 <= p < r.len() && r[p] == ps[k].addr;
            if p < g.len() {
                assert(g[p] == r[p]);
            }
            assert(g[i] == r[i]);
            assert(i < p);
            lemma_first_index(ps, k, ps[k].addr);
        }
    }
}

} // verus!
