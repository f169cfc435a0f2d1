//! The Bluetooth LE transport manager in its simulated mode (no radio
//! backend): the state machine of the transport, the table of discovered
//! peers, connections, and the traffic counters.

use crate::bluetooth::{BleConfig, BlePeer, BleState, BleStats};
use crate::error::{Error, NetworkError};
use crate::text::{append_str, str_eq};
use crate::time::{duration_as_nanos, elapsed, now};
use std::time::Duration;
use std::time::Instant;
use vstd::prelude::*;

verus! {

/// The local address reported in simulated mode.
pub const SIMULATED_ADDRESS: &'static str = "00:00:00:00:00:00";

/// The abstract value of a peer.
pub struct BlePeerView {
    pub address: Seq<char>,
    pub name: Option<Seq<char>>,
    pub rssi: i16,
    pub discovered_at: Instant,
    pub last_seen: Instant,
    pub supports_aingle: bool,
    pub connected: bool,
}

impl View for BlePeer {
    type V = BlePeerView;

    open spec fn view(&self) -> BlePeerView {
        BlePeerView {
            address: self.address@,
            name: match self.name {
                Some(n) => Some(n@),
                None => None,
            },
            rssi: self.rssi,
            discovered_at: self.discovered_at,
            last_seen: self.last_seen,
            supports_aingle: self.supports_aingle,
            connected: self.connected,
        }
    }
}

impl BlePeer {
    /// A copy of the peer.
    pub fn duplicate(&self) -> (p: Self)
        ensures
            p@ == self@,
    {
        BlePeer {
            address: self.address.clone(),
            name: match &self.name {
                Some(n) => Some(n.clone()),
                None => None,
            },
            rssi: self.rssi,
            discovered_at: self.discovered_at.clone(),
            last_seen: self.last_seen.clone(),
            supports_aingle: self.supports_aingle,
            connected: self.connected,
        }
    }
}

/// The abstract values of a list of peers.
pub open spec fn ble_views(s: Seq<BlePeer>) -> Seq<BlePeerView> {
    s.map_values(|p: BlePeer| p@)
}

/// The addresses of a list of peers.
pub open spec fn ble_addrs(s: Seq<BlePeerView>) -> Seq<Seq<char>> {
    s.map_values(|p: BlePeerView| p.address)
}

/// The peers of `s` whose flag in `keep` is set, in order.
pub open spec fn select_peers(s: Seq<BlePeerView>, keep: Seq<bool>) -> Seq<BlePeerView>
    decreases s.len(),
{
    if s.len() == 0 {
        Seq::empty()
    } else if keep[s.len() - 1] {
        select_peers(s.drop_last(), keep).push(s.last())
    } else {
        select_peers(s.drop_last(), keep)
    }
}

/// Which peers a cleanup keeps, when `since_seen[i]` is the time since peer
/// `i` was heard from: the connected ones, and those not heard from for at
/// most `timeout`.
pub open spec fn kept_flags(s: Seq<BlePeerView>, since_seen: Seq<Duration>, timeout: Duration) -> Seq<bool> {
    Seq::new(s.len(), |i: int| s[i].connected || duration_as_nanos(since_seen[i]) <= duration_as_nanos(timeout))
}

/// Selections agree when the flags of the selected sequence agree.
proof fn lemma_select_peers_flags(s: Seq<BlePeerView>, k1: Seq<bool>, k2: Seq<bool>)
    requires
        k1.len() >= s.len(),
        k2.len() >= s.len(),
        forall|i: int| 0 <= i < s.len() ==> k1[i] == k2[i],
    ensures
        select_peers(s, k1) == select_peers(s, k2),
    decreases s.len(),
{
    if s.len() > 0 {
        lemma_select_peers_flags(s.drop_last(), k1, k2);
    }
}

/// The number of connected peers, not counting the one at `except`.
pub open spec fn connected_except(s: Seq<BlePeerView>, except: Option<Seq<char>>) -> nat
    decreases s.len(),
{
    if s.len() == 0 {
        0
    } else {
        connected_except(s.drop_last(), except) + if s.last().connected && Some(s.last().address) != except {
            1nat
        } else {
            0nat
        }
    }
}

/// The number of connected peers.
pub open spec fn connected_count_of(s: Seq<BlePeerView>) -> nat {
    connected_except(s, None)
}

/// A count of connected peers is at most the number of peers.
pub proof fn lemma_connected_bound(s: Seq<BlePeerView>, except: Option<Seq<char>>)
    ensures
        connected_except(s, except) <= s.len(),
    decreases s.len(),
{
    if s.len() > 0 {
        lemma_connected_bound(s.drop_last(), except);
    }
}

/// The Bluetooth LE transport manager.
pub struct BleManager {
    config: BleConfig,
    state: BleState,
    peers: Vec<BlePeer>,
    stats: BleStats,
    local_address: Option<String>,
    running: bool,
}

impl BleManager {
    /// The configuration.
    pub closed spec fn spec_config(&self) -> BleConfig {
        self.config
    }

    /// The state of the transport.
    pub closed spec fn spec_state(&self) -> BleState {
        self.state
    }

    /// The known peers, in the order they were discovered.
    pub closed spec fn spec_peers(&self) -> Seq<BlePeerView> {
        ble_views(self.peers@)
    }

    /// The traffic counters.
    pub closed spec fn spec_stats(&self) -> BleStats {
        self.stats
    }

    /// The local device address, once initialized.
    pub closed spec fn spec_local_address(&self) -> Option<Seq<char>> {
        match self.local_address {
            Some(a) => Some(a@),
            None => None,
        }
    }

    /// Whether the transport is running.
    pub closed spec fn spec_running(&self) -> bool {
        self.running
    }

    /// The invariant: one peer per address.
    pub closed spec fn wf(&self) -> bool {
        ble_addrs(self.spec_peers()).no_duplicates()
    }

    /// A manager for `config`: uninitialized, not running, no peers, zero
    /// counters.
    pub fn new(config: BleConfig) -> (m: Self)
        ensures
            m.wf(),
            m.spec_config() == config,
            m.spec_state() == BleState::Uninitialized,
            m.spec_peers().len() == 0,
            m.spec_stats().is_zero(),
            m.spec_local_address() is None,
            !m.spec_running(),
    {
        let m = BleManager {
            config,
            state: BleState::Uninitialized,
            peers: Vec::new(),
            stats: BleStats::default(),
            local_address: None,
            running: false,
        };
        proof {
            assert(ble_addrs(m.spec_peers()) =~= Seq::<Seq<char>>::empty());
        }
        m
    }

    /// Initializes the transport (simulated): the local address is the
    /// simulated one and the transport is idle.
    pub fn init(&mut self) -> (r: Result<(), Error>)
        ensures
            r is Ok,
            final(self).spec_local_address() == Some(SIMULATED_ADDRESS@),
            final(self).spec_state() == BleState::Idle,
            final(self).spec_peers() == old(self).spec_peers(),
            final(self).spec_stats() == old(self).spec_stats(),
            final(self).spec_running() == old(self).spec_running(),
            final(self).spec_config() == old(self).spec_config(),
            old(self).wf() ==> final(self).wf(),
    {
        self.local_address = Some(SIMULATED_ADDRESS.to_owned());
        self.state = BleState::Idle;
        Ok(())
    }

    /// Starts advertising and scanning: a running transport is left as it
    /// is; otherwise it scans and runs.
    pub fn start(&mut self) -> (r: Result<(), Error>)
        ensures
            r is Ok,
            old(self).spec_running() ==> *final(self) == *old(self),
            !old(self).spec_running() ==> final(self).spec_running() && final(self).spec_state() == BleState::Scanning
                && final(self).spec_peers() == old(self).spec_peers() && final(self).spec_stats() == old(self).spec_stats()
                && final(self).spec_local_address() == old(self).spec_local_address() && final(self).spec_config()
                == old(self).spec_config(),
            old(self).wf() ==> final(self).wf(),
    {
        if self.running {
            return Ok(());
        }
        self.state = BleState::Scanning;
        self.running = true;
        Ok(())
    }

    /// Stops the transport: every peer is disconnected and the transport is
    /// idle; a stopped transport is left as it is.
    pub fn stop(&mut self) -> (r: Result<(), Error>)
        requires
            old(self).wf(),
        ensures
            r is Ok,
            final(self).wf(),
            !old(self).spec_running() ==> *final(self) == *old(self),
            old(self).spec_running() ==> !final(self).spec_running() && final(self).spec_state() == BleState::Idle
                && final(self).spec_peers().len() == old(self).spec_peers().len() && (forall|i: int|
                0 <= i < old(self).spec_peers().len() ==> #[trigger] final(self).spec_peers()[i]
                == (BlePeerView { connected: false, ..old(self).spec_peers()[i] })) && final(self).spec_stats()
                == old(self).spec_stats() && final(self).spec_local_address() == old(self).spec_local_address(),
            final(self).spec_config() == old(self).spec_config(),
    {
        if !self.running {
            return Ok(());
        }
        let ghost before = self.spec_peers();
        let mut i: usize = 0;
        while i < self.peers.len()
            invariant
                i <= self.peers@.len(),
                self.peers@.len() == before.len(),
                self.config == old(self).config,
                self.stats == old(self).stats,
                self.local_address == old(self).local_address,
                self.running == old(self).running,
                forall|k: int| 0 <= k < i ==> #[trigger] ble_views(self.peers@)[k] == (BlePeerView { connected: false, ..before[k] }),
                forall|k: int| i <= k < before.len() ==> #[trigger] ble_views(self.peers@)[k] == before[k],
            decreases self.peers@.len() - i,
        {
            let ghost cur = ble_views(self.peers@);
            let mut p = self.peers.remove(i);
            p.connected = false;
            let ghost pv = p@;
            self.peers.insert(i, p);
            proof {
                assert(cur[i as int] == before[i as int]);
                assert(pv == (BlePeerView { connected: false, ..before[i as int] }));
                assert(ble_views(self.peers@) =~= cur.update(i as int, pv));
            }
            i = i + 1;
        }
        self.running = false;
        self.state = BleState::Idle;
        proof {
            assert(ble_addrs(self.spec_peers()) =~= ble_addrs(before));
        }
        Ok(())
    }

    /// The position of the peer with `address`, if any.
    fn find(&self, address: &str) -> (r: Option<usize>)
        ensures
            match r {
                Some(i) => i < self.spec_peers().len() && self.spec_peers()[i as int].address == address@,
                None => !ble_addrs(self.spec_peers()).contains(address@) && forall|j: int| 0 <= j < self.spec_peers().len()
                    ==> #[trigger] self.spec_peers()[j].address != address@,
            },
    {
        let mut i: usize = 0;
        while i < self.peers.len()
            invariant
                i <= self.peers@.len(),
                forall|j: int| 0 <= j < i ==> #[trigger] self.peers@[j].address@ != address@,
            decreases self.peers@.len() - i,
        {
            if str_eq(self.peers[i].address.as_str(), address) {
                return Some(i);
            }
            i = i + 1;
        }
        proof {
            if ble_addrs(self.spec_peers()).contains(address@) {
                let k = choose|k: int| 0 <= k < ble_addrs(self.spec_peers()).len() && ble_addrs(self.spec_peers())[k] == address@;
                assert(self.peers@[k].address@ == address@);
            }
            assert forall|j: int| 0 <= j < self.spec_peers().len() implies #[trigger] self.spec_peers()[j].address != address@ by {
                assert(self.spec_peers()[j] == self.peers@[j]@);
            }
        }
        None
    }

    /// Records a discovery of `address` with signal strength `rssi`: a known
    /// peer gets the new reading (and the name, when one is given); an
    /// unknown one is added with the name given, if any.
    pub fn on_peer_discovered(&mut self, address: &str, rssi: i16, name: Option<&str>)
        requires
            old(self).wf(),
        ensures
            final(self).wf(),
            ble_addrs(old(self).spec_peers()).contains(address@) ==> ble_addrs(final(self).spec_peers())
                == ble_addrs(old(self).spec_peers()),
            !ble_addrs(old(self).spec_peers()).contains(address@) ==> ble_addrs(final(self).spec_peers())
                == ble_addrs(old(self).spec_peers()).push(address@),
            forall|i: int| 0 <= i < old(self).spec_peers().len() && #[trigger] old(self).spec_peers()[i].address != address@
                ==> final(self).spec_peers()[i] == old(self).spec_peers()[i],
            forall|i: int| 0 <= i < final(self).spec_peers().len() && #[trigger] final(self).spec_peers()[i].address == address@
                ==> final(self).spec_peers()[i].rssi == rssi,
            forall|i: int| 0 <= i < old(self).spec_peers().len() && #[trigger] old(self).spec_peers()[i].address == address@
                ==> final(self).spec_peers()[i].name == (match name {
                    Some(n) => Some(n@),
                    None => old(self).spec_peers()[i].name,
                }) && final(self).spec_peers()[i].connected == old(self).spec_peers()[i].connected,
            !ble_addrs(old(self).spec_peers()).contains(address@) ==> final(self).spec_peers().last().name == (match name {
                Some(n) => Some(n@),
                None => None,
            }) && !final(self).spec_peers().last().connected,
            final(self).spec_state() == old(self).spec_state(),
            final(self).spec_stats() == old(self).spec_stats(),
            final(self).spec_running() == old(self).spec_running(),
            final(self).spec_config() == old(self).spec_config(),
            final(self).spec_local_address() == old(self).spec_local_address(),
    {
        let ghost before = self.spec_peers();
        match self.find(address) {
            Some(i) => {
                proof {
                    assert(ble_addrs(before)[i as int] == address@);
                }
                let mut p = self.peers.remove(i);
                p.update_rssi(rssi);
                match name {
                    Some(n) => {
                        p.name = Some(n.to_owned());
                    },
                    None => {},
                }
                let ghost pv = p@;
                self.peers.insert(i, p);
                proof {
                    assert(self.spec_peers() =~= before.update(i as int, pv));
                    assert(ble_addrs(self.spec_peers()) =~= ble_addrs(before));
                    assert forall|k: int| 0 <= k < self.spec_peers().len() && #[trigger] self.spec_peers()[k].address == address@
                        implies self.spec_peers()[k].rssi == rssi by {
                        if k != i {
                            assert(ble_addrs(before)[k] == ble_addrs(before)[i as int]);
                        }
                    }
                    assert forall|k: int| 0 <= k < before.len() && #[trigger] before[k].address == address@ implies self.spec_peers()[k].name
                        == (match name {
                        Some(n) => Some(n@),
                        None => before[k].name,
                    }) && self.spec_peers()[k].connected == before[k].connected by {
                        if k != i {
                            assert(ble_addrs(before)[k] == ble_addrs(before)[i as int]);
                        }
                    }
                }
            },
            None => {
                let mut p = BlePeer::new(address, rssi);
                match name {
                    Some(n) => {
                        p.name = Some(n.to_owned());
                    },
                    None => {},
                }
                let ghost pv = p@;
                self.peers.push(p);
                proof {
                    assert(self.spec_peers() =~= before.push(pv));
                    assert(ble_addrs(self.spec_peers()) =~= ble_addrs(before).push(address@));
                    assert forall|k: int| 0 <= k < self.spec_peers().len() && #[trigger] self.spec_peers()[k].address == address@
                        implies self.spec_peers()[k].rssi == rssi by {
                        if k < before.len() {
                            assert(ble_addrs(before)[k] == address@);
                        }
                    }
                }
            },
        }
    }

    /// Connects to a known peer (simulated): counts the attempt, marks it
    /// connected and offering the node's service, and the transport connected.
    /// A connected peer is left as it is; an unknown one is an error.
    pub fn connect(&mut self, address: &str) -> (r: Result<(), Error>)
        requires
            old(self).wf(),
            old(self).spec_stats().connection_attempts < u64::MAX,
            old(self).spec_stats().connections_established < u64::MAX,
        ensures
            final(self).wf(),
            !ble_addrs(old(self).spec_peers()).contains(address@) ==> (r matches Err(Error::Network(NetworkError::Other(m)))
                && m@ == "Unknown peer: "@ + address@) && *final(self) == *old(self),
            ble_addrs(old(self).spec_peers()).contains(address@) ==> r is Ok,
            ble_addrs(final(self).spec_peers()) == ble_addrs(old(self).spec_peers()),
            forall|i: int| 0 <= i < old(self).spec_peers().len() && #[trigger] old(self).spec_peers()[i].address == address@
                && old(self).spec_peers()[i].connected ==> *final(self) == *old(self),
            forall|i: int| 0 <= i < old(self).spec_peers().len() && #[trigger] old(self).spec_peers()[i].address == address@
                && !old(self).spec_peers()[i].connected ==> final(self).spec_peers() == old(self).spec_peers().update(
                i,
                BlePeerView { connected: true, supports_aingle: true, ..old(self).spec_peers()[i] },
            ) && final(self).spec_stats() == (BleStats {
                connection_attempts: (old(self).spec_stats().connection_attempts + 1) as u64,
                connections_established: (old(self).spec_stats().connections_established + 1) as u64,
                ..old(self).spec_stats()
            }) && final(self).spec_state() == BleState::Connected,
            final(self).spec_running() == old(self).spec_running(),
            final(self).spec_config() == old(self).spec_config(),
            final(self).spec_local_address() == old(self).spec_local_address(),
    {
        let ghost before = self.spec_peers();
        match self.find(address) {
            None => {
                let mut m = String::new();
                append_str(&mut m, "Unknown peer: ");
                append_str(&mut m, address);
                proof {
                    assert(m@ =~= "Unknown peer: "@ + address@);
                }
                Err(Error::Network(NetworkError::Other(m)))
            },
            Some(i) => {
                proof {
                    assert(ble_addrs(before)[i as int] == address@);
                }
                if self.peers[i].connected {
                    proof {
                        assert forall|k: int| 0 <= k < before.len() && #[trigger] before[k].address == address@ implies k == i by {
                            if k != i {
                                assert(ble_addrs(before)[k] == ble_addrs(before)[i as int]);
                            }
                        }
                    }
                    return Ok(());
                }
                self.stats.connection_attempts = self.stats.connection_attempts + 1;
                let mut p = self.peers.remove(i);
                p.connected = true;
                p.supports_aingle = true;
                let ghost pv = p@;
                self.peers.insert(i, p);
                self.stats.connections_established = self.stats.connections_established + 1;
                self.state = BleState::Connected;
                proof {
                    assert(self.spec_peers() =~= before.update(i as int, pv));
                    assert(ble_addrs(self.spec_peers()) =~= ble_addrs(before));
                    assert forall|k: int| 0 <= k < before.len() && #[trigger] before[k].address == address@ implies k == i by {
                        if k != i {
                            assert(ble_addrs(before)[k] == ble_addrs(before)[i as int]);
                        }
                    }
                }
                Ok(())
            },
        }
    }

    /// Whether some peer is connected.
    fn any_connected(&self) -> (b: bool)
        ensures
            b == (connected_count_of(self.spec_peers()) > 0),
    {
        let ghost ps = self.spec_peers();
        let mut i: usize = 0;
        while i < self.peers.len()
            invariant
                i <= self.peers@.len(),
                ps == ble_views(self.peers@),
                connected_count_of(ps.subrange(0, i as int)) == 0,
            decreases self.peers@.len() - i,
        {
            proof {
                assert(ps.subrange(0, i as int + 1).drop_last() =~= ps.subrange(0, i as int));
            }
            if self.peers[i].connected {
                proof {
                    lemma_count_prefix_positive(ps, i as int + 1);
                    lemma_count_monotone(ps, i as int + 1, None);
                }
                return true;
            }
            i = i + 1;
        }
        proof {
            assert(ps.subrange(0, ps.len() as int) =~= ps);
        }
        false
    }

    /// Disconnects from a known peer; when no peer remains connected the
    /// transport goes back to scanning. A peer that is not connected is left
    /// as it is; an unknown one is an error.
    pub fn disconnect(&mut self, address: &str) -> (r: Result<(), Error>)
        requires
            old(self).wf(),
        ensures
            final(self).wf(),
            !ble_addrs(old(self).spec_peers()).contains(address@) ==> (r matches Err(Error::Network(NetworkError::Other(m)))
                && m@ == "Unknown peer: "@ + address@) && *final(self) == *old(self),
            ble_addrs(old(self).spec_peers()).contains(address@) ==> r is Ok,
            forall|i: int| 0 <= i < old(self).spec_peers().len() && #[trigger] old(self).spec_peers()[i].address == address@
                && !old(self).spec_peers()[i].connected ==> *final(self) == *old(self),
            forall|i: int| 0 <= i < old(self).spec_peers().len() && #[trigger] old(self).spec_peers()[i].address == address@
                && old(self).spec_peers()[i].connected ==> final(self).spec_peers() == old(self).spec_peers().update(
                i,
                BlePeerView { connected: false, ..old(self).spec_peers()[i] },
            ) && final(self).spec_state() == (if connected_count_of(final(self).spec_peers()) == 0 {
                BleState::Scanning
            } else {
                old(self).spec_state()
            }),
            final(self).spec_stats() == old(self).spec_stats(),
            final(self).spec_running() == old(self).spec_running(),
            final(self).spec_config() == old(self).spec_config(),
            final(self).spec_local_address() == old(self).spec_local_address(),
    {
        let ghost before = self.spec_peers();
        match self.find(address) {
            None => {
                let mut m = String::new();
                append_str(&mut m, "Unknown peer: ");
                append_str(&mut m, address);
                proof {
                    assert(m@ =~= "Unknown peer: "@ + address@);
                }
                Err(Error::Network(NetworkError::Other(m)))
            },
            Some(i) => {
                proof {
                    assert(ble_addrs(before)[i as int] == address@);
                    assert forall|k: int| 0 <= k < before.len() && #[trigger] before[k].address == address@ implies k == i by {
                        if k != i {
                            assert(ble_addrs(before)[k] == ble_addrs(before)[i as int]);
                        }
                    }
                }
                if !self.peers[i].connected {
                    return Ok(());
                }
                let mut p = self.peers.remove(i);
                p.connected = false;
                let ghost pv = p@;
                self.peers.insert(i, p);
                proof {
                    assert(self.spec_peers() =~= before.update(i as int, pv));
                    assert(ble_addrs(self.spec_peers()) =~= ble_addrs(before));
                }
                if !self.any_connected() {
                    self.state = BleState::Scanning;
                }
                Ok(())
            },
        }
    }

    /// The number of connected peers other than `except` (all, when none
    /// is given).
    fn count_connected(&self, except: Option<&str>) -> (n: usize)
        ensures
            n == connected_except(self.spec_peers(), match except {
                Some(e) => Some(e@),
                None => None,
            }),
    {
        let ghost ps = self.spec_peers();
        let ghost ev = match except {
            Some(e) => Some(e@),
            None => None,
        };
        let mut n: usize = 0;
        let mut i: usize = 0;
        while i < self.peers.len()
            invariant
                i <= self.peers@.len(),
                ps == ble_views(self.peers@),
                ev == match except {
                    Some(e) => Some(e@),
                    None => None,
                },
                n == connected_except(ps.subrange(0, i as int), ev),
                n <= i,
            decreases self.peers@.len() - i,
        {
            proof {
                assert(ps.subrange(0, i as int + 1).drop_last() =~= ps.subrange(0, i as int));
                assert(ps.subrange(0, i as int + 1).last() == ps[i as int]);
            }
            let p = &self.peers[i];
            let excluded = match except {
                Some(e) => str_eq(p.address.as_str(), e),
                None => false,
            };
            if p.connected && !excluded {
                n = n + 1;
            }
            i = i + 1;
        }
        proof {
            assert(ps.subrange(0, ps.len() as int) =~= ps);
        }
        n
    }

    /// Counts a message of `payload_len` bytes sent to a connected peer. An
    /// unknown peer and a peer that is not connected are errors.
    pub fn send(&mut self, address: &str, payload_len: usize) -> (r: Result<(), Error>)
        requires
            old(self).wf(),
            old(self).spec_stats().messages_sent < u64::MAX,
            old(self).spec_stats().bytes_sent + payload_len <= u64::MAX,
        ensures
            final(self).wf(),
            !ble_addrs(old(self).spec_peers()).contains(address@) ==> (r matches Err(Error::Network(NetworkError::Other(m)))
                && m@ == "Unknown peer: "@ + address@) && *final(self) == *old(self),
            forall|i: int| 0 <= i < old(self).spec_peers().len() && #[trigger] old(self).spec_peers()[i].address == address@
                && !old(self).spec_peers()[i].connected ==> (r matches Err(Error::Network(NetworkError::Other(m)))
                && m@ == "Peer not connected: "@ + address@) && *final(self) == *old(self),
            forall|i: int| 0 <= i < old(self).spec_peers().len() && #[trigger] old(self).spec_peers()[i].address == address@
                && old(self).spec_peers()[i].connected ==> r is Ok && final(self).spec_stats() == (BleStats {
                messages_sent: (old(self).spec_stats().messages_sent + 1) as u64,
                bytes_sent: (old(self).spec_stats().bytes_sent + payload_len) as u64,
                ..old(self).spec_stats()
            }),
            final(self).spec_peers() == old(self).spec_peers(),
            final(self).spec_state() == old(self).spec_state(),
            final(self).spec_running() == old(self).spec_running(),
            final(self).spec_config() == old(self).spec_config(),
            final(self).spec_local_address() == old(self).spec_local_address(),
    {
        let ghost before = self.spec_peers();
        match self.find(address) {
            None => {
                let mut m = String::new();
                append_str(&mut m, "Unknown peer: ");
                append_str(&mut m, address);
                proof {
                    assert(m@ =~= "Unknown peer: "@ + address@);
                }
                Err(Error::Network(NetworkError::Other(m)))
            },
            Some(i) => {
                proof {
                    assert(ble_addrs(before)[i as int] == address@);
                    assert forall|k: int| 0 <= k < before.len() && #[trigger] before[k].address == address@ implies k == i by {
                        if k != i {
                            assert(ble_addrs(before)[k] == ble_addrs(before)[i as int]);
                        }
                    }
                }
                if !self.peers[i].connected {
                    let mut m = String::new();
                    append_str(&mut m, "Peer not connected: ");
                    append_str(&mut m, address);
                    proof {
                        assert(m@ =~= "Peer not connected: "@ + address@);
                    }
                    return Err(Error::Network(NetworkError::Other(m)));
                }
                self.stats.messages_sent = self.stats.messages_sent + 1;
                self.stats.bytes_sent = self.stats.bytes_sent + payload_len as u64;
                Ok(())
            },
        }
    }

    /// Counts a broadcast of `payload_len` bytes to every connected peer and
    /// returns how many there are.
    pub fn broadcast(&mut self, payload_len: usize) -> (r: Result<usize, Error>)
        requires
            old(self).wf(),
            old(self).spec_stats().messages_sent + connected_count_of(old(self).spec_peers()) <= u64::MAX,
            old(self).spec_stats().bytes_sent + payload_len * connected_count_of(old(self).spec_peers()) <= u64::MAX,
        ensures
            final(self).wf(),
            r matches Ok(n) && n == connected_count_of(old(self).spec_peers()),
            final(self).spec_stats() == (BleStats {
                messages_sent: (old(self).spec_stats().messages_sent + connected_count_of(old(self).spec_peers())) as u64,
                bytes_sent: (old(self).spec_stats().bytes_sent + payload_len * connected_count_of(old(self).spec_peers())) as u64,
                ..old(self).spec_stats()
            }),
            final(self).spec_peers() == old(self).spec_peers(),
            final(self).spec_state() == old(self).spec_state(),
            final(self).spec_running() == old(self).spec_running(),
            final(self).spec_config() == old(self).spec_config(),
            final(self).spec_local_address() == old(self).spec_local_address(),
    {
        let count = self.count_connected(None);
        proof {
            lemma_connected_bound(self.spec_peers(), None);
        }
        self.stats.messages_sent = self.stats.messages_sent + count as u64;
        let total: u64 = (payload_len as u64) * (count as u64);
        self.stats.bytes_sent = self.stats.bytes_sent + total;
        Ok(count)
    }

    /// Counts a relay of a message from `source` to every other connected
    /// peer and returns how many there are; nothing is relayed when relaying
    /// is off.
    pub fn relay(&mut self, source: &str) -> (r: Result<usize, Error>)
        requires
            old(self).wf(),
            old(self).spec_stats().messages_relayed + connected_except(old(self).spec_peers(), Some(source@)) <= u64::MAX,
        ensures
            final(self).wf(),
            !old(self).spec_config().mesh_relay ==> (r matches Ok(n) && n == 0 && *final(self) == *old(self)),
            old(self).spec_config().mesh_relay ==> (r matches Ok(n) && n == connected_except(old(self).spec_peers(), Some(source@))
                && final(self).spec_stats() == (BleStats {
                messages_relayed: (old(self).spec_stats().messages_relayed + n) as u64,
                ..old(self).spec_stats()
            })),
            final(self).spec_peers() == old(self).spec_peers(),
            final(self).spec_state() == old(self).spec_state(),
            final(self).spec_running() == old(self).spec_running(),
            final(self).spec_config() == old(self).spec_config(),
            final(self).spec_local_address() == old(self).spec_local_address(),
    {
        if !self.config.mesh_relay {
            return Ok(0);
        }
        let count = self.count_connected(Some(source));
        self.stats.messages_relayed = self.stats.messages_relayed + count as u64;
        Ok(count)
    }

    /// The state of the transport.
    pub fn state(&self) -> (s: BleState)
        ensures
            s == self.spec_state(),
    {
        self.state
    }

    /// Whether the transport is running.
    pub fn is_running(&self) -> (b: bool)
        ensures
            b == self.spec_running(),
    {
        self.running
    }

    /// The number of connected peers.
    pub fn connected_count(&self) -> (n: usize)
        ensures
            n == connected_count_of(self.spec_peers()),
    {
        self.count_connected(None)
    }

    /// All known peers, in the order they were discovered.
    pub fn peers(&self) -> (r: Vec<BlePeer>)
        ensures
            ble_views(r@) == self.spec_peers(),
    {
        let mut r: Vec<BlePeer> = Vec::new();
        let mut i: usize = 0;
        while i < self.peers.len()
            invariant
                i <= self.peers@.len(),
                ble_views(r@) == ble_views(self.peers@).subrange(0, i as int),
            decreases self.peers@.len() - i,
        {
            let ghost before = r@;
            r.push(self.peers[i].duplicate());
            proof {
                assert(ble_views(r@) =~= ble_views(before).push(self.peers@[i as int]@));
                assert(ble_views(r@) =~= ble_views(self.peers@).subrange(0, i as int + 1));
            }
            i = i + 1;
        }
        proof {
            assert(ble_views(self.peers@).subrange(0, self.peers@.len() as int) =~= ble_views(self.peers@));
        }
        r
    }

    /// The connected peers, in the order they were discovered.
    pub fn connected_peers(&self) -> (r: Vec<BlePeer>)
        ensures
            ble_views(r@) == self.spec_peers().filter(|p: BlePeerView| p.connected),
    {
        let ghost ps = self.spec_peers();
        let mut r: Vec<BlePeer> = Vec::new();
        let mut i: usize = 0;
        while i < self.peers.len()
            invariant
                i <= self.peers@.len(),
                ps == ble_views(self.peers@),
                ble_views(r@) == ps.subrange(0, i as int).filter(|p: BlePeerView| p.connected),
            decreases self.peers@.len() - i,
        {
            proof {
                assert(ps.subrange(0, i as int + 1).drop_last() =~= ps.subrange(0, i as int));
                reveal(Seq::filter);
            }
            if self.peers[i].connected {
                let ghost before = r@;
                r.push(self.peers[i].duplicate());
                proof {
                    assert(ble_views(r@) =~= ble_views(before).push(ps[i as int]));
                }
            }
            i = i + 1;
        }
        proof {
            assert(ps.subrange(0, ps.len() as int) =~= ps);
        }
        r
    }

    /// The peer with `address`, if known.
    pub fn get_peer(&self, address: &str) -> (r: Option<&BlePeer>)
        requires
            self.wf(),
        ensures
            !ble_addrs(self.spec_peers()).contains(address@) ==> r is None,
            ble_addrs(self.spec_peers()).contains(address@) ==> (r matches Some(p) && p@.address == address@
                && self.spec_peers().contains(p@)),
    {
        match self.find(address) {
            Some(i) => {
                proof {
                    assert(ble_addrs(self.spec_peers())[i as int] == address@);
                    assert(self.spec_peers()[i as int] == self.peers@[i as int]@);
                }
                Some(&self.peers[i])
            },
            None => None,
        }
    }

    /// The traffic counters.
    pub fn stats(&self) -> (s: &BleStats)
        ensures
            *s == self.spec_stats(),
    {
        &self.stats
    }

    /// The time since each peer was last heard from, by the clock, in order.
    pub fn peer_since_seen(&self) -> (r: Vec<Duration>)
        ensures
            r@.len() == self.spec_peers().len(),
    {
        let mut r: Vec<Duration> = Vec::new();
        let mut i: usize = 0;
        while i < self.peers.len()
            invariant
                i <= self.peers@.len(),
                r@.len() == i,
                self.spec_peers().len() == self.peers@.len(),
            decreases self.peers@.len() - i,
        {
            r.push(elapsed(&self.peers[i].last_seen));
            i = i + 1;
        }
        r
    }

    /// Forgets the peers that are not connected and have not been heard from
    /// for longer than `timeout`, by the clock (`cleanup_stale_peers_at`
    /// with the times the clock gives). Connected peers stay.
    pub fn cleanup_stale_peers(&mut self, timeout: Duration)
        requires
            old(self).wf(),
        ensures
            exists|ds: Seq<Duration>| ds.len() == old(self).spec_peers().len() && final(self).spec_peers()
                == #[trigger] select_peers(old(self).spec_peers(), kept_flags(old(self).spec_peers(), ds, timeout)),
            final(self).wf(),
            forall|i: int| 0 <= i < final(self).spec_peers().len() ==> old(self).spec_peers().contains(
                #[trigger] final(self).spec_peers()[i],
            ),
            forall|i: int| 0 <= i < old(self).spec_peers().len() && (#[trigger] old(self).spec_peers()[i]).connected
                ==> final(self).spec_peers().contains(old(self).spec_peers()[i]),
            exists|keep: Seq<bool>| keep.len() == old(self).spec_peers().len() && (forall|i: int| 0 <= i < keep.len()
                && old(self).spec_peers()[i].connected ==> #[trigger] keep[i]) && final(self).spec_peers()
                == #[trigger] select_peers(old(self).spec_peers(), keep),
            final(self).spec_state() == old(self).spec_state(),
            final(self).spec_stats() == old(self).spec_stats(),
            final(self).spec_running() == old(self).spec_running(),
            final(self).spec_config() == old(self).spec_config(),
            final(self).spec_local_address() == old(self).spec_local_address(),
    {
        let since = self.peer_since_seen();
        self.cleanup_stale_peers_at(timeout, &since);
    }

    /// Forgets the peers that are not connected and have not been heard from
    /// for longer than `timeout`, when `since_seen[i]` is the time since peer
    /// `i` was heard from. Connected peers stay.
    pub fn cleanup_stale_peers_at(&mut self, timeout: Duration, since_seen: &Vec<Duration>)
        requires
            old(self).wf(),
            since_seen@.len() == old(self).spec_peers().len(),
        ensures
            final(self).spec_peers() == select_peers(
                old(self).spec_peers(),
                kept_flags(old(self).spec_peers(), since_seen@, timeout),
            ),
            final(self).wf(),
            forall|i: int| 0 <= i < final(self).spec_peers().len() ==> old(self).spec_peers().contains(
                #[trigger] final(self).spec_peers()[i],
            ),
            forall|i: int| 0 <= i < old(self).spec_peers().len() && (#[trigger] old(self).spec_peers()[i]).connected
                ==> final(self).spec_peers().contains(old(self).spec_peers()[i]),
            exists|keep: Seq<bool>| keep.len() == old(self).spec_peers().len() && (forall|i: int| 0 <= i < keep.len()
                && old(self).spec_peers()[i].connected ==> #[trigger] keep[i]) && final(self).spec_peers()
                == #[trigger] select_peers(old(self).spec_peers(), keep),
            final(self).spec_state() == old(self).spec_state(),
            final(self).spec_stats() == old(self).spec_stats(),
            final(self).spec_running() == old(self).spec_running(),
            final(self).spec_config() == old(self).spec_config(),
            final(self).spec_local_address() == old(self).spec_local_address(),
    {
        let ghost before = self.spec_peers();
        let mut kept: Vec<BlePeer> = Vec::new();
        let ghost mut taken: Seq<int> = Seq::empty();
        let ghost mut keep: Seq<bool> = Seq::empty();
        let mut i: usize = 0;
        proof {
            assert(ble_views(kept@) =~= select_peers(before.subrange(0, 0), keep));
        }
        while i < self.peers.len()
            invariant
                i <= self.peers@.len(),
                before == ble_views(self.peers@),
                keep.len() == i,
                since_seen@.len() == before.len(),
                keep == kept_flags(before, since_seen@, timeout).subrange(0, i as int),
                forall|j: int| 0 <= j < i && before[j].connected ==> #[trigger] keep[j],
                ble_views(kept@) == select_peers(before.subrange(0, i as int), keep),
                taken.len() == kept@.len(),
                forall|k: int| 0 <= k < taken.len() ==> 0 <= #[trigger] taken[k] < i,
                forall|k: int, l: int| 0 <= k < l < taken.len() ==> taken[k] < taken[l],
                forall|k: int| 0 <= k < kept@.len() ==> #[trigger] kept@[k]@ == before[taken[k]],
                forall|j: int| 0 <= j < i && (#[trigger] before[j]).connected ==> exists|k: int| 0 <= k < taken.len() && taken[k] == j,
            decreases self.peers@.len() - i,
        {
            let p = &self.peers[i];
            let stale = !p.connected && BlePeer::is_stale_after(&since_seen[i], &timeout);
            let ghost old_taken = taken;
            let ghost old_kept = kept@;
            proof {
                assert(before.subrange(0, i + 1).drop_last() =~= before.subrange(0, i as int));
                assert(before.subrange(0, i + 1).last() == self.peers@[i as int]@);
                lemma_select_peers_flags(before.subrange(0, i as int), keep, keep.push(!stale));
            }
            if !stale {
                kept.push(p.duplicate());
                proof {
                    taken = taken.push(i as int);
                    assert(taken[taken.len() - 1] == i);
                    assert(ble_views(kept@) =~= ble_views(old_kept).push(self.peers@[i as int]@));
                }
            }
            proof {
                assert(before[i as int] == self.peers@[i as int]@);
                assert(keep.push(!stale) =~= kept_flags(before, since_seen@, timeout).subrange(0, i + 1));
                keep = keep.push(!stale);
            }
            proof {
                assert forall|j: int| 0 <= j < i + 1 && (#[trigger] before[j]).connected implies exists|k: int| 0 <= k < taken.len()
                    && taken[k] == j by {
                    if j < i {
                        let k = choose|k: int| 0 <= k < old_taken.len() && old_taken[k] == j;
                        assert(taken[k] == j);
                    } else {
                        assert(before[j] == self.peers@[j]@);
                        assert(taken[taken.len() - 1] == j);
                    }
                }
            }
            i = i + 1;
        }
        self.peers = kept;
        proof {
            assert(before.subrange(0, before.len() as int) =~= before);
            assert(keep =~= kept_flags(before, since_seen@, timeout));
            assert(self.spec_peers() == select_peers(before, keep));
            assert forall|k: int| 0 <= k < self.spec_peers().len() implies before.contains(#[trigger] self.spec_peers()[k]) by {
                assert(self.spec_peers()[k] == before[taken[k]]);
            }
            assert forall|j: int| 0 <= j < before.len() && (#[trigger] before[j]).connected implies self.spec_peers().contains(
                before[j],
            ) by {
                let k = choose|k: int| 0 <= k < taken.len() && taken[k] == j;
                assert(self.spec_peers()[k] == before[j]);
            }
            let a = ble_addrs(self.spec_peers());
            assert forall|x: int, y: int| 0 <= x < a.len() && 0 <= y < a.len() && x != y implies a[x] != a[y] by {
                assert(a[x] == ble_addrs(before)[taken[x]]);
                assert(a[y] == ble_addrs(before)[taken[y]]);
                assert(taken[x] != taken[y]) by {
                    if x < y {
                        assert(taken[x] < taken[y]);
                    } else {
                        assert(taken[y] < taken[x]);
                    }
                }
            }
        }
    }

    /// The local device address, once initialized.
    pub fn local_address(&self) -> (a: Option<&str>)
        ensures
            match a {
                Some(s) => self.spec_local_address() == Some(s@),
                None => self.spec_local_address() is None,
            },
    {
        match &self.local_address {
            Some(s) => Some(s.as_str()),
            None => None,
        }
    }
}

/// A prefix counts no more connected peers than the whole list.
proof fn lemma_count_monotone(ps: Seq<BlePeerView>, n: int, e: Option<Seq<char>>)
    requires
        0 <= n <= ps.len(),
    ensures
        connected_except(ps.subrange(0, n), e) <= connected_except(ps, e),
    decreases ps.len(),
{
    if n < ps.len() {
        lemma_count_monotone(ps.drop_last(), n, e);
        assert(ps.drop_last().subrange(0, n) =~= ps.subrange(0, n));
    } else {
        assert(ps.subrange(0, n) =~= ps);
    }
}

/// A list with a connected peer among its first `n` counts a connected peer
/// in its first `n`.
proof fn lemma_count_prefix_positive(ps: Seq<BlePeerView>, n: int)
    requires
        0 < n <= ps.len(),
        ps[n - 1].connected,
    ensures
        connected_count_of(ps.subrange(0, n)) > 0,
{
    let pre = ps.subrange(0, n);
    assert(pre.last() == ps[n - 1]);
}

} // verus!
