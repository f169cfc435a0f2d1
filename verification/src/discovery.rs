//! Peer discovery on the local network: the directory of peers found by
//! mDNS/DNS-SD or by CoAP multicast, and how discovery events change it.
//!
//! The mDNS daemon itself runs outside the library; it hands the directory
//! the events it sees, with addresses in text form.

use crate::text::{append_decimal, append_str, decimal, str_eq};
use crate::time::{duration_as_nanos, elapsed, nanos_of, now};
use std::time::Duration;
use std::time::Instant;
use vstd::prelude::*;
use vstd::string::StrSliceExecFns;

verus! {

/// The mDNS service type of nodes.
pub const SERVICE_TYPE: &'static str = "_aingle._udp.local.";

/// The default mDNS port.
pub const DEFAULT_PORT: u16 = 5353;

/// The mDNS instance name of node `node_id`: `aingle-` and the first eight
/// characters of the id (the whole id when shorter).
pub open spec fn instance_name_text(node_id: Seq<char>) -> Seq<char> {
    "aingle-"@ + node_id.take(if node_id.len() < 8 { node_id.len() as int } else { 8 })
}

/// The mDNS instance name of node `node_id`.
pub fn instance_name(node_id: &str) -> (s: String)
    ensures
        s@ == instance_name_text(node_id@),
{
    let n = node_id.unicode_len();
    let k: usize = if n < 8 { n } else { 8 };
    let prefix = node_id.substring_char(0, k);
    let mut s = String::new();
    append_str(&mut s, "aingle-");
    append_str(&mut s, prefix);
    proof {
        assert(s@ =~= instance_name_text(node_id@));
    }
    s
}

/// A peer found on the local network.
#[derive(Debug)]
pub struct DiscoveredPeer {
    /// Node ID (public key hex).
    pub node_id: String,
    /// IP addresses, in text form.
    pub addresses: Vec<String>,
    /// Service port.
    pub port: u16,
    /// When the peer was found.
    pub discovered_at: Instant,
    /// When the peer was last seen.
    pub last_seen: Instant,
    /// Properties of its TXT record.
    pub properties: Vec<(String, String)>,
}

impl DiscoveredPeer {
    /// Whether a peer last seen `since_seen` ago is alive under `timeout`:
    /// strictly less time than the timeout has passed.
    pub fn is_alive_after(since_seen: &Duration, timeout: &Duration) -> (b: bool)
        ensures
            b == (duration_as_nanos(*since_seen) < duration_as_nanos(*timeout)),
    {
        nanos_of(since_seen) < nanos_of(timeout)
    }

    /// Whether the peer was seen within `timeout`, by the clock; under a zero
    /// timeout no peer is alive.
    pub fn is_alive(&self, timeout: Duration) -> (b: bool)
        ensures
            duration_as_nanos(timeout) == 0 ==> !b,
    {
        let since = elapsed(&self.last_seen);
        Self::is_alive_after(&since, &timeout)
    }

    /// The socket addresses of the peer: each of its IP addresses with its
    /// port, in order.
    pub fn socket_addrs(&self) -> (r: Vec<String>)
        ensures
            r@.map_values(|s: String| s@) == self.addresses@.map_values(|a: String| socket_addr_text(a@, self.port)),
    {
        let ghost want = self.addresses@.map_values(|a: String| socket_addr_text(a@, self.port));
        let mut r: Vec<String> = Vec::new();
        let mut i: usize = 0;
        while i < self.addresses.len()
            invariant
                i <= self.addresses@.len(),
                want == self.addresses@.map_values(|a: String| socket_addr_text(a@, self.port)),
                r@.map_values(|s: String| s@) == want.subrange(0, i as int),
            decreases self.addresses@.len() - i,
        {
            let ghost before = r@;
            r.push(socket_addr(self.addresses[i].as_str(), self.port));
            proof {
                assert(r@.map_values(|s: String| s@) =~= before.map_values(|s: String| s@).push(want[i as int]));
                assert(want.subrange(0, i + 1) =~= want.subrange(0, i as int).push(want[i as int]));
            }
            i = i + 1;
        }
        proof {
            assert(want.subrange(0, self.addresses@.len() as int) =~= want);
        }
        r
    }
}

/// The text of the socket address of IP address `ip` and `port`, as the
/// standard library writes it: `ip:port`, with an IPv6 address (one that
/// holds a colon) in square brackets.
pub open spec fn socket_addr_text(ip: Seq<char>, port: u16) -> Seq<char> {
    if contains_text(ip, ":"@) {
        "["@ + ip + "]:"@ + decimal(port as nat)
    } else {
        ip + ":"@ + decimal(port as nat)
    }
}

/// The socket address of IP address `ip` and `port`, in text form.
pub fn socket_addr(ip: &str, port: u16) -> (s: String)
    ensures
        s@ == socket_addr_text(ip@, port),
{
    let v6 = contains_str(ip, ":");
    let mut s = String::new();
    if v6 {
        append_str(&mut s, "[");
        append_str(&mut s, ip);
        append_str(&mut s, "]:");
    } else {
        append_str(&mut s, ip);
        append_str(&mut s, ":");
    }
    append_decimal(&mut s, port as u64);
    proof {
        assert(s@ =~= socket_addr_text(ip@, port));
    }
    s
}

/// The socket addresses of a list of peers, peer by peer, in order.
pub open spec fn all_socket_addrs(peers: Seq<DiscoveredPeer>) -> Seq<Seq<char>>
    decreases peers.len(),
{
    if peers.len() == 0 {
        Seq::empty()
    } else {
        all_socket_addrs(peers.drop_last()) + peers.last().addresses@.map_values(
            |a: String| socket_addr_text(a@, peers.last().port),
        )
    }
}

/// What the mDNS daemon reports.
pub enum DiscoveryEvent {
    /// A service was resolved: its `node_id` property (if any), its full
    /// name, addresses, port and properties.
    Resolved {
        node_id: Option<String>,
        fullname: String,
        addresses: Vec<String>,
        port: u16,
        properties: Vec<(String, String)>,
    },
    /// A service went away.
    Removed { fullname: String },
    /// A service was found (not yet resolved).
    Found { fullname: String },
    /// The search started.
    SearchStarted,
    /// The search stopped.
    SearchStopped,
}

/// Whether `needle` occurs in `hay` at position `i`.
pub open spec fn occurs_at(hay: Seq<char>, needle: Seq<char>, i: int) -> bool {
    0 <= i && i + needle.len() <= hay.len() && hay.subrange(i, i + needle.len()) == needle
}

/// Whether `needle` occurs in `hay`.
pub open spec fn contains_text(hay: Seq<char>, needle: Seq<char>) -> bool {
    exists|i: int| occurs_at(hay, needle, i)
}

/// Whether `needle` occurs in `hay` (`str::contains`).
pub fn contains_str(hay: &str, needle: &str) -> (b: bool)
    ensures
        b == contains_text(hay@, needle@),
{
    let n = hay.unicode_len();
    let m = needle.unicode_len();
    if m > n {
        proof {
            assert forall|i: int| !occurs_at(hay@, needle@, i) by {}
        }
        return false;
    }
    let mut i: usize = 0;
    while i <= n - m
        invariant
            n == hay@.len(),
            m == needle@.len(),
            m <= n,
            i <= n - m + 1,
            forall|k: int| 0 <= k < i ==> !occurs_at(hay@, needle@, k),
        decreases n - m + 1 - i,
    {
        let mut j: usize = 0;
        let mut same = true;
        while j < m
            invariant
                n == hay@.len(),
                m == needle@.len(),
                i + m <= n,
                j <= m,
                same == (forall|k: int| 0 <= k < j ==> hay@[i + k] == needle@[k]),
            decreases m - j,
        {
            if hay.get_char(i + j) != needle.get_char(j) {
                same = false;
            }
            j = j + 1;
        }
        if same {
            proof {
                assert(hay@.subrange(i as int, i + m) =~= needle@);
                assert(occurs_at(hay@, needle@, i as int));
            }
            return true;
        }
        proof {
            assert(!occurs_at(hay@, needle@, i as int)) by {
                if occurs_at(hay@, needle@, i as int) {
                    assert forall|k: int| 0 <= k < m implies hay@[i + k] == needle@[k] by {
                        assert(hay@.subrange(i as int, i + m)[k] == hay@[i + k]);
                    }
                }
            }
        }
        i = i + 1;
    }
    proof {
        assert forall|k: int| !occurs_at(hay@, needle@, k) by {
            if 0 <= k < i {
            }
        }
    }
    false
}

/// The abstract value of a discovered peer.
pub struct PeerEntry {
    pub node_id: Seq<char>,
    pub addresses: Seq<Seq<char>>,
    pub port: u16,
    pub discovered_at: Instant,
    pub last_seen: Instant,
    pub properties: Seq<(Seq<char>, Seq<char>)>,
}

impl View for DiscoveredPeer {
    type V = PeerEntry;

    open spec fn view(&self) -> PeerEntry {
        PeerEntry {
            node_id: self.node_id@,
            addresses: address_views(self.addresses@),
            port: self.port,
            discovered_at: self.discovered_at,
            last_seen: self.last_seen,
            properties: property_views(self.properties@),
        }
    }
}

/// The entries of a directory after listing the peer `e`: unchanged when
/// `e` is our own node; the entry of the same node id replaced by `e` when
/// there is one; else `e` added at the end.
pub open spec fn entries_after_insert(entries: Seq<PeerEntry>, our_id: Seq<char>, e: PeerEntry) -> Seq<PeerEntry> {
    let ids = entries.map_values(|x: PeerEntry| x.node_id);
    if e.node_id == our_id {
        entries
    } else if ids.contains(e.node_id) {
        entries.update(ids.index_of(e.node_id), e)
    } else {
        entries.push(e)
    }
}

/// The entries of `es` whose node id does not occur in `name`, in order.
pub open spec fn entries_surviving(es: Seq<PeerEntry>, name: Seq<char>) -> Seq<PeerEntry>
    decreases es.len(),
{
    if es.len() == 0 {
        Seq::empty()
    } else {
        let r = entries_surviving(es.drop_last(), name);
        if contains_text(name, es.last().node_id) { r } else { r.push(es.last()) }
    }
}

/// The entries of a list of peers.
pub open spec fn entry_views(s: Seq<DiscoveredPeer>) -> Seq<PeerEntry> {
    s.map_values(|p: DiscoveredPeer| p@)
}

/// The abstract values of a list of addresses.
pub open spec fn address_views(a: Seq<String>) -> Seq<Seq<char>> {
    a.map_values(|x: String| x@)
}

/// The abstract values of a list of properties.
pub open spec fn property_views(p: Seq<(String, String)>) -> Seq<(Seq<char>, Seq<char>)> {
    p.map_values(|kv: (String, String)| (kv.0@, kv.1@))
}

/// The node ids of a list of peers.
pub open spec fn peer_ids(s: Seq<DiscoveredPeer>) -> Seq<Seq<char>> {
    s.map_values(|p: DiscoveredPeer| p.node_id@)
}

/// The directory of discovered peers, one per node id, in the order found.
pub struct PeerDirectory {
    our_node_id: String,
    peers: Vec<DiscoveredPeer>,
}

impl PeerDirectory {
    /// Our own node id (never listed).
    pub closed spec fn spec_our_id(&self) -> Seq<char> {
        self.our_node_id@
    }

    /// The node ids of the listed peers.
    pub closed spec fn ids(&self) -> Seq<Seq<char>> {
        peer_ids(self.peers@)
    }

    /// The listed peers.
    pub closed spec fn spec_peers(&self) -> Seq<DiscoveredPeer> {
        self.peers@
    }

    /// The entries of the listed peers, in order.
    pub closed spec fn entries(&self) -> Seq<PeerEntry> {
        entry_views(self.peers@)
    }

    /// The invariant: one entry per node id, and never our own.
    pub closed spec fn wf(&self) -> bool {
        &&& self.ids().no_duplicates()
        &&& !self.ids().contains(self.our_node_id@)
    }

    /// An empty directory for the node `our_node_id`.
    pub fn new(our_node_id: String) -> (d: Self)
        ensures
            d.wf(),
            d.spec_our_id() == our_node_id@,
            d.ids().len() == 0,
    {
        let d = PeerDirectory { our_node_id, peers: Vec::new() };
        proof {
            assert(d.ids() =~= Seq::<Seq<char>>::empty());
        }
        d
    }

    /// The position of the peer with `node_id`, if listed.
    fn find(&self, node_id: &str) -> (r: Option<usize>)
        ensures
            match r {
                Some(i) => i < self.ids().len() && self.ids()[i as int] == node_id@,
                None => !self.ids().contains(node_id@),
            },
    {
        let mut i: usize = 0;
        while i < self.peers.len()
            invariant
                i <= self.peers@.len(),
                forall|j: int| 0 <= j < i ==> #[trigger] self.peers@[j].node_id@ != node_id@,
            decreases self.peers@.len() - i,
        {
            if str_eq(self.peers[i].node_id.as_str(), node_id) {
                return Some(i);
            }
            i = i + 1;
        }
        proof {
            if self.ids().contains(node_id@) {
                let k = choose|k: int| 0 <= k < self.ids().len() && self.ids()[k] == node_id@;
                assert(self.peers@[k].node_id@ == node_id@);
            }
        }
        None
    }

    /// Lists a peer, replacing the entry of the same node id; our own node is
    /// never listed.
    pub fn insert(&mut self, peer: DiscoveredPeer)
        requires
            old(self).wf(),
        ensures
            final(self).wf(),
            final(self).spec_our_id() == old(self).spec_our_id(),
            peer.node_id@ == old(self).spec_our_id() ==> final(self).ids() == old(self).ids(),
            peer.node_id@ != old(self).spec_our_id() && old(self).ids().contains(peer.node_id@) ==> final(self).ids()
                == old(self).ids(),
            peer.node_id@ != old(self).spec_our_id() && !old(self).ids().contains(peer.node_id@) ==> final(self).ids()
                == old(self).ids().push(peer.node_id@),
            final(self).entries() == entries_after_insert(old(self).entries(), old(self).spec_our_id(), peer@),
    {
        proof {
            self.lemma_entry_ids();
        }
        if str_eq(peer.node_id.as_str(), self.our_node_id.as_str()) {
            return;
        }
        let ghost before = self.ids();
        let ghost before_entries = self.entries();
        let ghost pid = peer.node_id@;
        let ghost pe = peer@;
        match self.find(peer.node_id.as_str()) {
            Some(i) => {
                proof {
                    before.index_of_first_ensures(pid);
                    assert(before.contains(pid));
                    assert(before.index_of(pid) == i as int) by {
                        let k = before.index_of(pid);
                        assert(before[k] == pid);
                        assert(before[i as int] == pid);
                    }
                }
                self.peers.set(i, peer);
                proof {
                    assert(self.ids() =~= before.update(i as int, pid));
                    assert(self.ids() =~= before);
                    assert(self.entries() =~= before_entries.update(i as int, pe));
                }
            },
            None => {
                self.peers.push(peer);
                proof {
                    assert(self.ids() =~= before.push(pid));
                    assert(self.entries() =~= before_entries.push(pe));
                }
            },
        }
    }

    /// The node ids of the entries are the ids.
    proof fn lemma_entry_ids(&self)
        ensures
            self.entries().map_values(|x: PeerEntry| x.node_id) == self.ids(),
    {
        assert(self.entries().map_values(|x: PeerEntry| x.node_id) =~= self.ids());
    }

    /// Forgets the peers whose node id occurs in `fullname` (the full name of
    /// a service that went away).
    pub fn remove_matching(&mut self, fullname: &str)
        requires
            old(self).wf(),
        ensures
            final(self).wf(),
            final(self).spec_our_id() == old(self).spec_our_id(),
            final(self).ids() == surviving(old(self).ids(), fullname@),
            final(self).entries() == entries_surviving(old(self).entries(), fullname@),
    {
        let ghost before = self.ids();
        let ghost before_e = self.entries();
        let mut rest: Vec<DiscoveredPeer> = Vec::new();
        std::mem::swap(&mut rest, &mut self.peers);
        let ghost mut j: int = 0;
        proof {
            assert(peer_ids(rest@) =~= before.subrange(0, before.len() as int));
            assert(peer_ids(self.peers@) =~= surviving(before.subrange(0, 0), fullname@));
            assert(entry_views(rest@) =~= before_e.subrange(0, before_e.len() as int));
            assert(entry_views(self.peers@) =~= entries_surviving(before_e.subrange(0, 0), fullname@));
        }
        while rest.len() > 0
            invariant
                0 <= j <= before.len(),
                rest@.len() == before.len() - j,
                peer_ids(rest@) == before.subrange(j, before.len() as int),
                peer_ids(self.peers@) == surviving(before.subrange(0, j), fullname@),
                before_e.len() == before.len(),
                forall|k: int| 0 <= k < before.len() ==> #[trigger] before_e[k].node_id == before[k],
                entry_views(rest@) == before_e.subrange(j, before_e.len() as int),
                entry_views(self.peers@) == entries_surviving(before_e.subrange(0, j), fullname@),
                self.our_node_id == old(self).our_node_id,
            decreases rest@.len(),
        {
            let ghost r0 = rest@;
            let ghost k0 = self.peers@;
            let p = rest.remove(0);
            proof {
                assert(peer_ids(r0)[0] == r0[0].node_id@);
                assert(before.subrange(j, before.len() as int)[0] == before[j]);
                assert(p.node_id@ == before[j]);
                assert(rest@ =~= r0.subrange(1, r0.len() as int));
                assert forall|k: int| 0 <= k < rest@.len() implies #[trigger] peer_ids(rest@)[k] == before[j + 1 + k] by {
                    assert(rest@[k] == r0[k + 1]);
                    assert(peer_ids(r0)[k + 1] == before.subrange(j, before.len() as int)[k + 1]);
                }
                assert(peer_ids(rest@) =~= before.subrange(j + 1, before.len() as int));
                assert(before.subrange(0, j + 1).drop_last() =~= before.subrange(0, j));
                assert(before.subrange(0, j + 1).last() == before[j]);
                assert(entry_views(r0)[0] == before_e.subrange(j, before_e.len() as int)[0]);
                assert(p@ == before_e[j]);
                assert forall|k: int| 0 <= k < rest@.len() implies #[trigger] entry_views(rest@)[k]
                    == before_e[j + 1 + k] by {
                    assert(rest@[k] == r0[k + 1]);
                    assert(entry_views(r0)[k + 1] == before_e.subrange(j, before_e.len() as int)[k + 1]);
                }
                assert(entry_views(rest@) =~= before_e.subrange(j + 1, before_e.len() as int));
                assert(before_e.subrange(0, j + 1).drop_last() =~= before_e.subrange(0, j));
                assert(before_e.subrange(0, j + 1).last() == before_e[j]);
                assert(before_e[j].node_id == before[j]);
            }
            if !contains_str(fullname, p.node_id.as_str()) {
                self.peers.push(p);
                proof {
                    assert(peer_ids(self.peers@) =~= peer_ids(k0).push(before[j]));
                    assert(entry_views(self.peers@) =~= entry_views(k0).push(before_e[j]));
                }
            }
            proof {
                j = j + 1;
            }
        }
        proof {
            assert(before.subrange(0, before.len() as int) =~= before);
            assert(before_e.subrange(0, before_e.len() as int) =~= before_e);
            lemma_surviving(before, fullname@);
            if self.ids().contains(self.our_node_id@) {
                assert(before.contains(self.our_node_id@));
            }
        }
    }

    /// Handles an event of the mDNS daemon: a resolved service lists its peer
    /// (named by its `node_id` property, else by the service's full name),
    /// unless it is our own node; a removed service forgets the peers whose
    /// id occurs in its full name; other events change nothing.
    pub fn handle_event(&mut self, event: DiscoveryEvent)
        requires
            old(self).wf(),
        ensures
            final(self).wf(),
            final(self).spec_our_id() == old(self).spec_our_id(),
            event matches DiscoveryEvent::Removed { fullname } ==> final(self).ids() == surviving(old(self).ids(), fullname@),
            (event is Found || event is SearchStarted || event is SearchStopped) ==> final(self).ids() == old(self).ids(),
            event matches DiscoveryEvent::Resolved { node_id, fullname, .. } ==> ({
                let id = match node_id {
                    Some(n) => n@,
                    None => fullname@,
                };
                &&& id == old(self).spec_our_id() ==> final(self).ids() == old(self).ids()
                &&& id != old(self).spec_our_id() && old(self).ids().contains(id) ==> final(self).ids() == old(self).ids()
                &&& id != old(self).spec_our_id() && !old(self).ids().contains(id) ==> final(self).ids() == old(self).ids().push(id)
            }),
            event matches DiscoveryEvent::Resolved { node_id, fullname, addresses, port, properties } ==> exists|e: PeerEntry|
                e.node_id == (match node_id {
                    Some(n) => n@,
                    None => fullname@,
                }) && e.addresses == address_views(addresses@) && e.port == port && e.properties == property_views(
                    properties@,
                ) && #[trigger] entries_after_insert(old(self).entries(), old(self).spec_our_id(), e) == final(self).entries(),
            event matches DiscoveryEvent::Removed { fullname } ==> final(self).entries() == entries_surviving(
                old(self).entries(),
                fullname@,
            ),
            (event is Found || event is SearchStarted || event is SearchStopped) ==> final(self).entries() == old(
                self,
            ).entries(),
    {
        match event {
            DiscoveryEvent::Resolved { node_id, fullname, addresses, port, properties } => {
                let id = match node_id {
                    Some(n) => n,
                    None => fullname,
                };
                let t = now();
                let peer = DiscoveredPeer { node_id: id, addresses, port, discovered_at: t, last_seen: t, properties };
                let ghost e = peer@;
                self.insert(peer);
                proof {
                    assert(entries_after_insert(old(self).entries(), old(self).spec_our_id(), e) == self.entries());
                }
            },
            DiscoveryEvent::Removed { fullname } => {
                self.remove_matching(fullname.as_str());
            },
            _ => {},
        }
    }

    /// Lists a peer that answered a CoAP discovery request at `ip:port`, with
    /// the property `protocol=coap`.
    pub fn register_coap_peer(&mut self, node_id: String, ip: String, port: u16)
        requires
            old(self).wf(),
        ensures
            final(self).wf(),
            final(self).spec_our_id() == old(self).spec_our_id(),
            node_id@ == old(self).spec_our_id() ==> final(self).ids() == old(self).ids(),
            node_id@ != old(self).spec_our_id() && old(self).ids().contains(node_id@) ==> final(self).ids() == old(self).ids(),
            node_id@ != old(self).spec_our_id() && !old(self).ids().contains(node_id@) ==> final(self).ids()
                == old(self).ids().push(node_id@),
            exists|e: PeerEntry| e.node_id == node_id@ && e.addresses == seq![ip@] && e.port == port && e.properties
                == seq![("protocol"@, "coap"@)] && #[trigger] entries_after_insert(old(self).entries(), old(self).spec_our_id(), e)
                == final(self).entries(),
    {
        let t = now();
        let mut addresses: Vec<String> = Vec::new();
        addresses.push(ip);
        let mut properties: Vec<(String, String)> = Vec::new();
        properties.push(("protocol".to_owned(), "coap".to_owned()));
        let peer = DiscoveredPeer { node_id, addresses, port, discovered_at: t, last_seen: t, properties };
        let ghost e = peer@;
        proof {
            assert(e.addresses =~= seq![ip@]);
            assert(e.properties =~= seq![("protocol"@, "coap"@)]);
        }
        self.insert(peer);
        proof {
            assert(entries_after_insert(old(self).entries(), old(self).spec_our_id(), e) == self.entries());
        }
    }

    /// The listed peers' node ids, in the order found.
    pub fn peer_ids(&self) -> (r: Vec<String>)
        ensures
            r@.map_values(|s: String| s@) == self.ids(),
    {
        let mut r: Vec<String> = Vec::new();
        let mut i: usize = 0;
        while i < self.peers.len()
            invariant
                i <= self.peers@.len(),
                r@.map_values(|s: String| s@) == peer_ids(self.peers@).subrange(0, i as int),
            decreases self.peers@.len() - i,
        {
            let ghost before = r@;
            r.push(self.peers[i].node_id.clone());
            proof {
                assert(r@.map_values(|s: String| s@) =~= before.map_values(|s: String| s@).push(self.peers@[i as int].node_id@));
                assert(r@.map_values(|s: String| s@) =~= peer_ids(self.peers@).subrange(0, i as int + 1));
            }
            i = i + 1;
        }
        proof {
            assert(peer_ids(self.peers@).subrange(0, self.peers@.len() as int) =~= peer_ids(self.peers@));
        }
        r
    }

    /// The socket addresses of the listed peers, peer by peer.
    pub fn peer_addrs(&self) -> (r: Vec<String>)
        ensures
            r@.map_values(|s: String| s@) == all_socket_addrs(self.spec_peers()),
    {
        let mut r: Vec<String> = Vec::new();
        let mut i: usize = 0;
        proof {
            assert(self.peers@.subrange(0, 0) =~= Seq::<DiscoveredPeer>::empty());
            assert(r@.map_values(|s: String| s@) =~= Seq::<Seq<char>>::empty());
        }
        while i < self.peers.len()
            invariant
                i <= self.peers@.len(),
                r@.map_values(|s: String| s@) == all_socket_addrs(self.peers@.subrange(0, i as int)),
            decreases self.peers@.len() - i,
        {
            let ghost before = r@.map_values(|s: String| s@);
            let mut addrs = self.peers[i].socket_addrs();
            let ghost added = addrs@.map_values(|s: String| s@);
            r.append(&mut addrs);
            proof {
                assert(r@.map_values(|s: String| s@) =~= before + added);
                let sub = self.peers@.subrange(0, i + 1);
                assert(sub.drop_last() =~= self.peers@.subrange(0, i as int));
                assert(sub.last() == self.peers@[i as int]);
            }
            i = i + 1;
        }
        proof {
            assert(self.peers@.subrange(0, self.peers@.len() as int) =~= self.peers@);
        }
        r
    }

    /// The number of listed peers.
    pub fn peer_count(&self) -> (n: usize)
        ensures
            n == self.ids().len(),
    {
        self.peers.len()
    }
}

/// The ids a directory lists after an event, when it listed `ids` and its
/// own node is `our_id`: a resolved service adds its id (its `node_id`
/// property, else its full name) unless that is our own or already listed; a
/// removed service drops the ids that occur in its full name; other events
/// leave the ids as they are.
pub open spec fn ids_after_event(ids: Seq<Seq<char>>, our_id: Seq<char>, event: DiscoveryEvent) -> Seq<Seq<char>> {
    match event {
        DiscoveryEvent::Resolved { node_id, fullname, .. } => {
            let id = match node_id {
                Some(n) => n@,
                None => fullname@,
            };
            if id == our_id || ids.contains(id) {
                ids
            } else {
                ids.push(id)
            }
        },
        DiscoveryEvent::Removed { fullname } => surviving(ids, fullname@),
        _ => ids,
    }
}

/// Whether the entries `after` are the entries `before` of a directory of
/// node `our_id` updated by an event: a resolved service lists an entry with
/// its id, addresses, port and properties (found now); a removed service
/// drops the entries whose id occurs in its full name; other events change
/// nothing.
pub open spec fn entries_after_event(
    before: Seq<PeerEntry>,
    our_id: Seq<char>,
    event: DiscoveryEvent,
    after: Seq<PeerEntry>,
) -> bool {
    match event {
        DiscoveryEvent::Resolved { node_id, fullname, addresses, port, properties } => exists|e: PeerEntry|
            e.node_id == (match node_id {
                Some(n) => n@,
                None => fullname@,
            }) && e.addresses == address_views(addresses@) && e.port == port && e.properties == property_views(properties@)
                && #[trigger] entries_after_insert(before, our_id, e) == after,
        DiscoveryEvent::Removed { fullname } => after == entries_surviving(before, fullname@),
        _ => after == before,
    }
}

/// The ids of `ids` that do not occur in `name`, in order.
pub open spec fn surviving(ids: Seq<Seq<char>>, name: Seq<char>) -> Seq<Seq<char>>
    decreases ids.len(),
{
    if ids.len() == 0 {
        Seq::empty()
    } else {
        let r = surviving(ids.drop_last(), name);
        if contains_text(name, ids.last()) { r } else { r.push(ids.last()) }
    }
}

/// The surviving ids are among the ids, and distinct when the ids are.
pub proof fn lemma_surviving(ids: Seq<Seq<char>>, name: Seq<char>)
    ensures
        forall|x: Seq<char>| surviving(ids, name).contains(x) ==> ids.contains(x),
        ids.no_duplicates() ==> surviving(ids, name).no_duplicates(),
    decreases ids.len(),
{
    if ids.len() > 0 {
        let d = ids.drop_last();
        lemma_surviving(d, name);
        let r = surviving(d, name);
        assert forall|x: Seq<char>| surviving(ids, name).contains(x) implies ids.contains(x) by {
            if r.contains(x) {
                assert(d.contains(x));
                let k = choose|k: int| 0 <= k < d.len() && d[k] == x;
                assert(ids[k] == x);
            } else {
                assert(x == ids.last());
                assert(ids[ids.len() - 1] == x);
            }
        }
        if ids.no_duplicates() {
            assert(d.no_duplicates()) by {
                assert forall|a: int, b: int| 0 <= a < d.len() && 0 <= b < d.len() && a != b implies d[a] != d[b] by {
                    assert(d[a] == ids[a] && d[b] == ids[b]);
                }
            }
            if !contains_text(name, ids.last()) {
                assert(!d.contains(ids.last())) by {
                    if d.contains(ids.last()) {
                        let k = choose|k: int| 0 <= k < d.len() && d[k] == ids.last();
                        assert(ids[k] == ids[ids.len() - 1]);
                    }
                }
                assert(!r.contains(ids.last()));
                let s = r.push(ids.last());
                assert forall|a: int, b: int| 0 <= a < s.len() && 0 <= b < s.len() && a != b implies s[a] != s[b] by {
                    if a == s.len() - 1 {
                        assert(r.contains(s[b]) || b == s.len() - 1);
                    } else if b == s.len() - 1 {
                        assert(r.contains(s[a]));
                    }
                }
            }
        }
    }
}

} // verus!
