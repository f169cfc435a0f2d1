//! DTLS sessions: per-peer state with replay protection, and the table of
//! sessions a secured endpoint keeps.
//!
//! Peers are identified by their address in text form (`ip:port`).

use crate::dtls::{validation_failure, DtlsConfig, SecurityMode, MAX_SESSION_CACHE};
use crate::error::{CryptoError, Error};
use crate::text::str_eq;
use crate::time::{duration_as_nanos, elapsed, nanos_of, now};
use std::time::Duration;
use std::time::Instant;
use vstd::prelude::*;

verus! {

/// State of a DTLS session with one peer.
#[derive(Debug)]
pub struct DtlsSession {
    /// Peer address.
    pub peer_addr: String,
    /// Session ID.
    pub session_id: Vec<u8>,
    /// When the session was established.
    pub established_at: Instant,
    /// Time of the last activity.
    pub last_activity: Instant,
    /// Session resumption data.
    pub resumption_secret: Option<Vec<u8>>,
    /// Epoch (for replay protection).
    pub epoch: u16,
    /// Sequence number of the last record sent (for replay protection).
    pub sequence_number: u64,
    /// Whether the peer was verified (certificate mode).
    pub peer_verified: bool,
}

/// The abstract value of a session.
pub struct SessionView {
    pub peer_addr: Seq<char>,
    pub session_id: Seq<u8>,
    pub established_at: Instant,
    pub last_activity: Instant,
    pub resumption_secret: Option<Seq<u8>>,
    pub epoch: u16,
    pub sequence_number: u64,
    pub peer_verified: bool,
}

impl View for DtlsSession {
    type V = SessionView;

    open spec fn view(&self) -> SessionView {
        SessionView {
            peer_addr: self.peer_addr@,
            session_id: self.session_id@,
            established_at: self.established_at,
            last_activity: self.last_activity,
            resumption_secret: match self.resumption_secret {
                Some(r) => Some(r@),
                None => None,
            },
            epoch: self.epoch,
            sequence_number: self.sequence_number,
            peer_verified: self.peer_verified,
        }
    }
}

/// Whether a record numbered `seq` is accepted by a session at sequence
/// number `current`: numbers ahead are new; numbers behind are accepted
/// while they are at most `window` behind.
pub open spec fn accepts_sequence(current: u64, seq: u64, window: u64) -> bool {
    seq > current || current - seq <= window
}

impl DtlsSession {
    /// A new session with a peer: epoch and sequence number zero, not
    /// verified, no resumption data; established and active now.
    pub fn new(peer_addr: String, session_id: Vec<u8>) -> (s: Self)
        ensures
            s.peer_addr == peer_addr,
            s.session_id == session_id,
            s.resumption_secret is None,
            s.epoch == 0,
            s.sequence_number == 0,
            !s.peer_verified,
    {
        DtlsSession {
            peer_addr,
            session_id,
            established_at: now(),
            last_activity: now(),
            resumption_secret: None,
            epoch: 0,
            sequence_number: 0,
            peer_verified: false,
        }
    }

    /// A copy of the session.
    pub fn duplicate(&self) -> (s: Self)
        ensures
            s@ == self@,
    {
        DtlsSession {
            peer_addr: self.peer_addr.clone(),
            session_id: self.session_id.clone(),
            established_at: self.established_at.clone(),
            last_activity: self.last_activity.clone(),
            resumption_secret: match &self.resumption_secret {
                Some(r) => Some(r.clone()),
                None => None,
            },
            epoch: self.epoch,
            sequence_number: self.sequence_number,
            peer_verified: self.peer_verified,
        }
    }

    /// Whether a session idle for `idle` is expired under `timeout`: only
    /// when strictly more time than the timeout has passed.
    pub fn is_expired_after(idle: &Duration, timeout: &Duration) -> (b: bool)
        ensures
            b == (duration_as_nanos(*idle) > duration_as_nanos(*timeout)),
    {
        nanos_of(idle) > nanos_of(timeout)
    }

    /// Whether the session has been idle longer than `timeout`, by the clock.
    pub fn is_expired(&self, timeout: Duration) -> bool {
        let idle = elapsed(&self.last_activity);
        Self::is_expired_after(&idle, &timeout)
    }

    /// Marks the session active now.
    pub fn touch(&mut self)
        ensures
            final(self).peer_addr == old(self).peer_addr,
            final(self).session_id == old(self).session_id,
            final(self).established_at == old(self).established_at,
            final(self).resumption_secret == old(self).resumption_secret,
            final(self).epoch == old(self).epoch,
            final(self).sequence_number == old(self).sequence_number,
            final(self).peer_verified == old(self).peer_verified,
    {
        self.last_activity = now();
    }

    /// The next sequence number, which becomes the current one.
    pub fn next_sequence(&mut self) -> (n: u64)
        requires
            old(self).sequence_number < u64::MAX,
        ensures
            n == old(self).sequence_number + 1,
            *final(self) == (DtlsSession { sequence_number: n, ..*old(self) }),
    {
        self.sequence_number = self.sequence_number + 1;
        self.sequence_number
    }

    /// Whether a record numbered `seq` passes the replay window of
    /// `window_size` numbers.
    pub fn is_valid_sequence(&self, seq: u64, window_size: u64) -> (b: bool)
        ensures
            b == accepts_sequence(self.sequence_number, seq, window_size),
    {
        if seq > self.sequence_number {
            return true;
        }
        self.sequence_number - seq <= window_size
    }
}

/// Numbers issued by a session are accepted by it: after `next_sequence`,
/// the number it returned passes the replay window for any window size.
pub proof fn lemma_issued_sequence_accepted(current: u64, window: u64)
    ensures
        accepts_sequence(current, current, window),
{
}

/// The addresses of a list of sessions.
pub open spec fn addrs(s: Seq<DtlsSession>) -> Seq<Seq<char>> {
    s.map_values(|x: DtlsSession| x.peer_addr@)
}

/// Manages the DTLS sessions of a secured endpoint, one per peer.
pub struct DtlsSessionManager {
    sessions: Vec<DtlsSession>,
    session_cache: Vec<DtlsSession>,
    config: DtlsConfig,
}

impl DtlsSessionManager {
    /// The sessions, at most one per peer address.
    pub closed spec fn spec_sessions(&self) -> Seq<DtlsSession> {
        self.sessions@
    }

    /// The sessions kept for resumption.
    pub closed spec fn spec_cache(&self) -> Seq<DtlsSession> {
        self.session_cache@
    }

    /// The configuration.
    pub closed spec fn spec_config(&self) -> DtlsConfig {
        self.config
    }

    /// The invariant: no two sessions share a peer address.
    pub closed spec fn wf(&self) -> bool {
        addrs(self.sessions@).no_duplicates()
    }

    /// A manager for a valid configuration, with no sessions; a
    /// configuration that fails validation is refused with its error.
    pub fn new(config: DtlsConfig) -> (r: Result<Self, Error>)
        ensures
            validation_failure(config) is None ==> (r matches Ok(m) && m.wf() && m.spec_sessions().len() == 0
                && m.spec_cache().len() == 0 && m.spec_config() == config),
            validation_failure(config) matches Some(t) ==> (r matches Err(e)
                && e matches Error::Crypto(CryptoError::KeyGenerationFailed(s)) && s@ == t),
    {
        match config.validate() {
            Ok(()) => {
                let m = DtlsSessionManager { sessions: Vec::new(), session_cache: Vec::new(), config };
                proof {
                    assert(addrs(m.sessions@) =~= Seq::<Seq<char>>::empty());
                }
                Ok(m)
            },
            Err(e) => Err(e),
        }
    }

    /// The position of the session with `addr`, if any.
    fn find(&self, addr: &str) -> (r: Option<usize>)
        ensures
            match r {
                Some(i) => i < self.sessions@.len() && self.sessions@[i as int].peer_addr@ == addr@,
                None => forall|i: int| 0 <= i < self.sessions@.len() ==> #[trigger] self.sessions@[i].peer_addr@ != addr@,
            },
    {
        let mut i: usize = 0;
        while i < self.sessions.len()
            invariant
                i <= self.sessions@.len(),
                forall|j: int| 0 <= j < i ==> #[trigger] self.sessions@[j].peer_addr@ != addr@,
            decreases self.sessions@.len() - i,
        {
            if str_eq(self.sessions[i].peer_addr.as_str(), addr) {
                return Some(i);
            }
            i = i + 1;
        }
        None
    }

    /// The session for `peer_addr` once the clock has said whether its
    /// existing session (if any) is expired: an unexpired session is touched
    /// and returned; otherwise a new session with `fresh_id` replaces it (or
    /// is added at the end). The other sessions are unchanged.
    pub fn session_for(&mut self, peer_addr: String, existing_expired: bool, fresh_id: Vec<u8>) -> (s: DtlsSession)
        requires
            old(self).wf(),
        ensures
            final(self).wf(),
            final(self).spec_config() == old(self).spec_config(),
            final(self).spec_cache() == old(self).spec_cache(),
            s.peer_addr@ == peer_addr@,
            views(final(self).spec_sessions()).contains(s@),
            addrs(old(self).spec_sessions()).contains(peer_addr@) ==> addrs(final(self).spec_sessions())
                == addrs(old(self).spec_sessions()),
            !addrs(old(self).spec_sessions()).contains(peer_addr@) ==> addrs(final(self).spec_sessions())
                == addrs(old(self).spec_sessions()).push(peer_addr@),
            forall|i: int| 0 <= i < old(self).spec_sessions().len() && #[trigger] old(self).spec_sessions()[i].peer_addr@ != peer_addr@
                ==> final(self).spec_sessions()[i]@ == old(self).spec_sessions()[i]@,
            forall|i: int| 0 <= i < old(self).spec_sessions().len() && #[trigger] old(self).spec_sessions()[i].peer_addr@ == peer_addr@
                && !existing_expired ==> kept(old(self).spec_sessions()[i]@, s@),
            (!addrs(old(self).spec_sessions()).contains(peer_addr@) || existing_expired) ==> fresh(s@, fresh_id@),
    {
        let ghost old_sessions = self.sessions@;
        match self.find(peer_addr.as_str()) {
            Some(i) => {
                proof {
                    assert(addrs(old_sessions)[i as int] == peer_addr@);
                }
                if !existing_expired {
                    let mut session = self.sessions.remove(i);
                    session.touch();
                    let out = session.duplicate();
                    self.sessions.insert(i, session);
                    proof {
                        assert(addrs(self.sessions@) =~= addrs(old_sessions));
                        assert(views(self.sessions@)[i as int] == out@);
                        assert forall|j: int| 0 <= j < old_sessions.len() && #[trigger] old_sessions[j].peer_addr@ != peer_addr@
                            implies self.sessions@[j]@ == old_sessions[j]@ by {
                            assert(j != i);
                        }
                        assert forall|j: int| 0 <= j < old_sessions.len() && #[trigger] old_sessions[j].peer_addr@ == peer_addr@
                            && !existing_expired implies kept(old_sessions[j]@, out@) by {
                            if j != i {
                                assert(addrs(old_sessions)[j] == addrs(old_sessions)[i as int]);
                            }
                        }
                    }
                    return out;
                }
                let fresh_session = DtlsSession::new(peer_addr, fresh_id);
                let out = fresh_session.duplicate();
                self.sessions.set(i, fresh_session);
                proof {
                    assert(addrs(self.sessions@) =~= addrs(old_sessions));
                    assert(views(self.sessions@)[i as int] == out@);
                    assert forall|j: int| 0 <= j < old_sessions.len() && #[trigger] old_sessions[j].peer_addr@ != peer_addr@
                        implies self.sessions@[j]@ == old_sessions[j]@ by {
                        assert(j != i);
                    }
                }
                out
            },
            None => {
                proof {
                    assert(!addrs(old_sessions).contains(peer_addr@)) by {
                        if addrs(old_sessions).contains(peer_addr@) {
                            let k = choose|k: int| 0 <= k < addrs(old_sessions).len() && addrs(old_sessions)[k] == peer_addr@;
                            assert(old_sessions[k].peer_addr@ == peer_addr@);
                        }
                    }
                }
                let fresh_session = DtlsSession::new(peer_addr, fresh_id);
                let out = fresh_session.duplicate();
                self.sessions.push(fresh_session);
                proof {
                    assert(addrs(self.sessions@) =~= addrs(old_sessions).push(out.peer_addr@));
                    assert(views(self.sessions@)[old_sessions.len() as int] == out@);
                }
                out
            },
        }
    }
}

impl DtlsSessionManager {
    /// The session for a peer: its unexpired session (by the clock), touched,
    /// or else a new session with a random 32-byte id, which replaces an
    /// expired one or is added.
    pub fn get_or_create_session(&mut self, peer_addr: String) -> (r: Result<DtlsSession, Error>)
        requires
            old(self).wf(),
        ensures
            final(self).wf(),
            final(self).spec_config() == old(self).spec_config(),
            r matches Ok(s) && s.peer_addr@ == peer_addr@ && views(final(self).spec_sessions()).contains(s@),
            addrs(old(self).spec_sessions()).contains(peer_addr@) ==> addrs(final(self).spec_sessions())
                == addrs(old(self).spec_sessions()),
            !addrs(old(self).spec_sessions()).contains(peer_addr@) ==> addrs(final(self).spec_sessions())
                == addrs(old(self).spec_sessions()).push(peer_addr@),
            forall|i: int| 0 <= i < old(self).spec_sessions().len() && #[trigger] old(self).spec_sessions()[i].peer_addr@ != peer_addr@
                ==> final(self).spec_sessions()[i]@ == old(self).spec_sessions()[i]@,
    {
        let expired = match self.find(peer_addr.as_str()) {
            Some(i) => self.sessions[i].is_expired(self.config.session_timeout),
            None => true,
        };
        let fresh_id = crate::dtls::psk::generate_psk(32);
        Ok(self.session_for(peer_addr, expired, fresh_id))
    }

    /// The stored session of a peer, if it has one and `expired` (what the
    /// clock said of it) is false.
    pub fn session_if_live(&self, peer_addr: &str, expired: bool) -> (r: Option<DtlsSession>)
        requires
            self.wf(),
        ensures
            !addrs(self.spec_sessions()).contains(peer_addr@) || expired ==> r is None,
            addrs(self.spec_sessions()).contains(peer_addr@) && !expired ==> (r matches Some(s)
                && s@ == self.spec_sessions()[addrs(self.spec_sessions()).index_of(peer_addr@)]@),
    {
        match self.find(peer_addr) {
            Some(i) => {
                proof {
                    lemma_unique_index(self.sessions@, i as int, peer_addr@);
                }
                if expired {
                    None
                } else {
                    Some(self.sessions[i].duplicate())
                }
            },
            None => {
                proof {
                    lemma_absent(self.sessions@, peer_addr@);
                }
                None
            },
        }
    }

    /// The session of a peer, unless it has none or it is expired by the clock.
    pub fn get_session(&self, peer_addr: &str) -> (r: Option<DtlsSession>)
        requires
            self.wf(),
        ensures
            !addrs(self.spec_sessions()).contains(peer_addr@) ==> r is None,
            r matches Some(s) ==> s@ == self.spec_sessions()[addrs(self.spec_sessions()).index_of(peer_addr@)]@,
    {
        let expired = match self.find(peer_addr) {
            Some(i) => self.sessions[i].is_expired(self.config.session_timeout),
            None => true,
        };
        self.session_if_live(peer_addr, expired)
    }

    /// Stores a session: it replaces the session of the same peer, or is
    /// added at the end.
    pub fn update_session(&mut self, session: DtlsSession) -> (r: Result<(), Error>)
        requires
            old(self).wf(),
        ensures
            r is Ok,
            final(self).wf(),
            final(self).spec_config() == old(self).spec_config(),
            final(self).spec_cache() == old(self).spec_cache(),
            addrs(old(self).spec_sessions()).contains(session.peer_addr@) ==> views(final(self).spec_sessions())
                == views(old(self).spec_sessions()).update(addrs(old(self).spec_sessions()).index_of(session.peer_addr@), session@),
            !addrs(old(self).spec_sessions()).contains(session.peer_addr@) ==> views(final(self).spec_sessions())
                == views(old(self).spec_sessions()).push(session@),
    {
        let ghost old_sessions = self.sessions@;
        let ghost sv = session@;
        match self.find(session.peer_addr.as_str()) {
            Some(i) => {
                proof {
                    lemma_unique_index(old_sessions, i as int, sv.peer_addr);
                }
                self.sessions.set(i, session);
                proof {
                    assert(addrs(self.sessions@) =~= addrs(old_sessions));
                    assert(views(self.sessions@) =~= views(old_sessions).update(i as int, sv));
                }
            },
            None => {
                proof {
                    lemma_absent(old_sessions, sv.peer_addr);
                }
                self.sessions.push(session);
                proof {
                    assert(addrs(self.sessions@) =~= addrs(old_sessions).push(sv.peer_addr));
                    assert(views(self.sessions@) =~= views(old_sessions).push(sv));
                }
            },
        }
        Ok(())
    }

    /// Removes the session of a peer, if it has one.
    pub fn remove_session(&mut self, peer_addr: &str)
        requires
            old(self).wf(),
        ensures
            final(self).wf(),
            final(self).spec_config() == old(self).spec_config(),
            final(self).spec_cache() == old(self).spec_cache(),
            !addrs(old(self).spec_sessions()).contains(peer_addr@) ==> views(final(self).spec_sessions())
                == views(old(self).spec_sessions()),
            addrs(old(self).spec_sessions()).contains(peer_addr@) ==> views(final(self).spec_sessions())
                == views(old(self).spec_sessions()).remove(addrs(old(self).spec_sessions()).index_of(peer_addr@)),
    {
        let ghost old_sessions = self.sessions@;
        match self.find(peer_addr) {
            Some(i) => {
                proof {
                    lemma_unique_index(old_sessions, i as int, peer_addr@);
                }
                self.sessions.remove(i);
                proof {
                    assert(addrs(self.sessions@) =~= addrs(old_sessions).remove(i as int));
                    assert(views(self.sessions@) =~= views(old_sessions).remove(i as int));
                    assert(addrs(self.sessions@).no_duplicates()) by {
                        let a = addrs(self.sessions@);
                        assert forall|x: int, y: int| 0 <= x < a.len() && 0 <= y < a.len() && x != y implies a[x] != a[y] by {
                            let ox = if x < i { x } else { x + 1 };
                            let oy = if y < i { y } else { y + 1 };
                            assert(a[x] == addrs(old_sessions)[ox]);
                            assert(a[y] == addrs(old_sessions)[oy]);
                        }
                    }
                }
            },
            None => {
                proof {
                    lemma_absent(old_sessions, peer_addr@);
                }
            },
        }
    }

    /// Drops the sessions that are expired by the clock, in both tables, and
    /// keeps at most `MAX_SESSION_CACHE` sessions for resumption (the
    /// earliest added go first): `cleanup_expired_at` with the idle times
    /// the clock gives.
    pub fn cleanup_expired(&mut self)
        requires
            old(self).wf(),
        ensures
            final(self).wf(),
            final(self).spec_config() == old(self).spec_config(),
            final(self).spec_cache().len() <= MAX_SESSION_CACHE,
            forall|i: int| 0 <= i < final(self).spec_sessions().len() ==> views(old(self).spec_sessions()).contains(
                #[trigger] final(self).spec_sessions()[i]@,
            ),
            forall|i: int| 0 <= i < final(self).spec_cache().len() ==> views(old(self).spec_cache()).contains(
                #[trigger] final(self).spec_cache()[i]@,
            ),
            exists|keep: Seq<bool>| keep.len() == old(self).spec_sessions().len() && views(final(self).spec_sessions())
                == #[trigger] select_sessions(views(old(self).spec_sessions()), keep),
            exists|keep: Seq<bool>| keep.len() == old(self).spec_cache().len() && views(final(self).spec_cache())
                == last_at_most(#[trigger] select_sessions(views(old(self).spec_cache()), keep), MAX_SESSION_CACHE as nat),
    {
        let idle_sessions = idle_times(&self.sessions);
        let idle_cache = idle_times(&self.session_cache);
        self.cleanup_expired_at(&idle_sessions, &idle_cache);
    }

    /// Drops the sessions idle longer than the session timeout, in both
    /// tables, when `idle_sessions[i]` and `idle_cache[i]` are the times the
    /// `i`-th session of each has been idle; keeps at most
    /// `MAX_SESSION_CACHE` cached sessions (the earliest added go first).
    pub fn cleanup_expired_at(&mut self, idle_sessions: &Vec<Duration>, idle_cache: &Vec<Duration>)
        requires
            old(self).wf(),
            idle_sessions@.len() == old(self).spec_sessions().len(),
            idle_cache@.len() == old(self).spec_cache().len(),
        ensures
            views(final(self).spec_sessions()) == select_sessions(
                views(old(self).spec_sessions()),
                live_flags(idle_sessions@, old(self).spec_config().session_timeout),
            ),
            views(final(self).spec_cache()) == last_at_most(
                select_sessions(views(old(self).spec_cache()), live_flags(idle_cache@, old(self).spec_config().session_timeout)),
                MAX_SESSION_CACHE as nat,
            ),
            final(self).wf(),
            final(self).spec_config() == old(self).spec_config(),
            final(self).spec_cache().len() <= MAX_SESSION_CACHE,
            forall|i: int| 0 <= i < final(self).spec_sessions().len() ==> views(old(self).spec_sessions()).contains(
                #[trigger] final(self).spec_sessions()[i]@,
            ),
            forall|i: int| 0 <= i < final(self).spec_cache().len() ==> views(old(self).spec_cache()).contains(
                #[trigger] final(self).spec_cache()[i]@,
            ),
            exists|keep: Seq<bool>| keep.len() == old(self).spec_sessions().len() && views(final(self).spec_sessions())
                == #[trigger] select_sessions(views(old(self).spec_sessions()), keep),
            exists|keep: Seq<bool>| keep.len() == old(self).spec_cache().len() && views(final(self).spec_cache())
                == last_at_most(#[trigger] select_sessions(views(old(self).spec_cache()), keep), MAX_SESSION_CACHE as nat),
    {
        let timeout = self.config.session_timeout;
        let kept = retain_live(&self.sessions, &timeout, idle_sessions);
        let ghost keep1 = choose|keep: Seq<bool>| keep.len() == old(self).sessions@.len() && #[trigger] views(kept@)
            == select_sessions(views(old(self).sessions@), keep);
        self.sessions = kept;
        let live_cache = retain_live(&self.session_cache, &timeout, idle_cache);
        let ghost lc = live_cache@;
        let ghost keep2 = choose|keep: Seq<bool>| keep.len() == old(self).session_cache@.len() && #[trigger] views(lc)
            == select_sessions(views(old(self).session_cache@), keep);
        if live_cache.len() > MAX_SESSION_CACHE {
            let drop = live_cache.len() - MAX_SESSION_CACHE;
            let mut trimmed: Vec<DtlsSession> = Vec::new();
            let mut j: usize = drop;
            while j < live_cache.len()
                invariant
                    drop <= j <= live_cache@.len(),
                    live_cache@ == lc,
                    drop == lc.len() - MAX_SESSION_CACHE,
                    trimmed@.len() == j - drop,
                    forall|k: int| 0 <= k < trimmed@.len() ==> #[trigger] trimmed@[k]@ == lc[drop + k]@,
                decreases live_cache@.len() - j,
            {
                trimmed.push(live_cache[j].duplicate());
                j = j + 1;
            }
            self.session_cache = trimmed;
            proof {
                assert(views(self.session_cache@) =~= views(lc).subrange(drop as int, lc.len() as int));
                assert(views(self.session_cache@) == last_at_most(
                    select_sessions(views(old(self).session_cache@), keep2),
                    MAX_SESSION_CACHE as nat,
                ));
                assert forall|k: int| 0 <= k < self.session_cache@.len() implies views(old(self).session_cache@).contains(
                    #[trigger] self.session_cache@[k]@,
                ) by {
                    assert(views(lc).contains(lc[drop + k]@)) by {
                        assert(views(lc)[drop + k] == lc[drop + k]@);
                    }
                }
            }
        } else {
            self.session_cache = live_cache;
            proof {
                assert(views(self.session_cache@) == last_at_most(
                    select_sessions(views(old(self).session_cache@), keep2),
                    MAX_SESSION_CACHE as nat,
                ));
            }
        }
        proof {
            assert(views(self.spec_sessions()) == select_sessions(views(old(self).spec_sessions()), keep1));
            assert(views(self.spec_cache()) == last_at_most(
                select_sessions(views(old(self).spec_cache()), keep2),
                MAX_SESSION_CACHE as nat,
            ));
        }
    }

    /// The number of sessions.
    pub fn session_count(&self) -> (n: usize)
        ensures
            n == self.spec_sessions().len(),
    {
        self.sessions.len()
    }

    /// The security mode of the configuration.
    pub fn security_mode(&self) -> (m: &SecurityMode)
        ensures
            *m == self.spec_config().mode,
    {
        &self.config.mode
    }
}

/// The time each session has been idle, by the clock, in order.
fn idle_times(sessions: &Vec<DtlsSession>) -> (r: Vec<Duration>)
    ensures
        r@.len() == sessions@.len(),
{
    let mut r: Vec<Duration> = Vec::new();
    let mut i: usize = 0;
    while i < sessions.len()
        invariant
            i <= sessions@.len(),
            r@.len() == i,
        decreases sessions@.len() - i,
    {
        r.push(elapsed(&sessions[i].last_activity));
        i = i + 1;
    }
    r
}

/// The sessions of `sessions` that are not expired under `timeout`, in
/// order, when `idle[i]` is the time session `i` has been idle.
fn retain_live(sessions: &Vec<DtlsSession>, timeout: &Duration, idle: &Vec<Duration>) -> (r: Vec<DtlsSession>)
    requires
        idle@.len() == sessions@.len(),
    ensures
        r@.len() <= sessions@.len(),
        forall|i: int| 0 <= i < r@.len() ==> views(sessions@).contains(#[trigger] r@[i]@),
        addrs(sessions@).no_duplicates() ==> addrs(r@).no_duplicates(),
        views(r@) == select_sessions(views(sessions@), live_flags(idle@, *timeout)),
        exists|keep: Seq<bool>| keep.len() == sessions@.len() && #[trigger] views(r@) == select_sessions(views(sessions@), keep),
{
    let mut r: Vec<DtlsSession> = Vec::new();
    let ghost mut taken: Seq<int> = Seq::empty();
    let ghost mut keep: Seq<bool> = Seq::empty();
    let ghost vs = views(sessions@);
    let mut i: usize = 0;
    proof {
        assert(views(r@) =~= select_sessions(vs.subrange(0, 0), keep));
    }
    while i < sessions.len()
        invariant
            i <= sessions@.len(),
            vs == views(sessions@),
            r@.len() <= i,
            taken.len() == r@.len(),
            forall|k: int| 0 <= k < taken.len() ==> 0 <= #[trigger] taken[k] < i,
            forall|k: int, l: int| 0 <= k < l < taken.len() ==> taken[k] < taken[l],
            forall|k: int| 0 <= k < r@.len() ==> #[trigger] r@[k]@ == sessions@[taken[k]]@,
            keep.len() == i,
            idle@.len() == sessions@.len(),
            keep == live_flags(idle@, *timeout).subrange(0, i as int),
            views(r@) == select_sessions(vs.subrange(0, i as int), keep),
        decreases sessions@.len() - i,
    {
        let s = &sessions[i];
        let live = !DtlsSession::is_expired_after(&idle[i], timeout);
        let ghost before = r@;
        proof {
            assert(vs.subrange(0, i + 1).drop_last() =~= vs.subrange(0, i as int));
            assert(vs.subrange(0, i + 1).last() == sessions@[i as int]@);
            lemma_select_sessions_flags(vs.subrange(0, i as int), keep, keep.push(live));
        }
        if live {
            r.push(s.duplicate());
            proof {
                taken = taken.push(i as int);
                assert(views(r@) =~= views(before).push(sessions@[i as int]@));
            }
        }
        proof {
            assert(keep.push(live) =~= live_flags(idle@, *timeout).subrange(0, i + 1));
            keep = keep.push(live);
        }
        i = i + 1;
    }
    proof {
        assert(vs.subrange(0, vs.len() as int) =~= vs);
        assert(keep =~= live_flags(idle@, *timeout));
    }
    proof {
        assert forall|k: int| 0 <= k < r@.len() implies views(sessions@).contains(#[trigger] r@[k]@) by {
            assert(views(sessions@)[taken[k]] == r@[k]@);
        }
        if addrs(sessions@).no_duplicates() {
            let a = addrs(r@);
            assert forall|x: int, y: int| 0 <= x < a.len() && 0 <= y < a.len() && x != y implies a[x] != a[y] by {
                assert(r@[x]@ == sessions@[taken[x]]@);
                assert(r@[y]@ == sessions@[taken[y]]@);
                assert(a[x] == addrs(sessions@)[taken[x]]);
                assert(a[y] == addrs(sessions@)[taken[y]]);
                assert(taken[x] != taken[y]) by {
                    if x < y {
                        assert(taken[x] < taken[y]);
                    } else {
                        assert(taken[y] < taken[x]);
                    }
                }
            }
        }
    }
    r
}

/// In a list with distinct addresses, the session found at `i` for `addr`
/// is the first with that address.
proof fn lemma_unique_index(s: Seq<DtlsSession>, i: int, addr: Seq<char>)
    requires
        0 <= i < s.len(),
        s[i].peer_addr@ == addr,
        addrs(s).no_duplicates(),
    ensures
        addrs(s).contains(addr),
        addrs(s).index_of(addr) == i,
{
    assert(addrs(s)[i] == addr);
    let k = addrs(s).index_of(addr);
    assert(addrs(s)[k] == addr);
}

/// An address no session has is not among the addresses.
proof fn lemma_absent(s: Seq<DtlsSession>, addr: Seq<char>)
    requires
        forall|i: int| 0 <= i < s.len() ==> #[trigger] s[i].peer_addr@ != addr,
    ensures
        !addrs(s).contains(addr),
{
    if addrs(s).contains(addr) {
        let k = choose|k: int| 0 <= k < addrs(s).len() && addrs(s)[k] == addr;
        assert(s[k].peer_addr@ == addr);
    }
}


/// A CoAP endpoint secured by DTLS sessions (or unsecured, without a DTLS
/// configuration).
pub struct SecureCoap {
    inner: crate::coap::CoapServer,
    dtls: Option<DtlsSessionManager>,
}

impl SecureCoap {
    /// The session manager, if DTLS is on.
    pub closed spec fn spec_dtls(&self) -> Option<DtlsSessionManager> {
        self.dtls
    }

    /// The CoAP server underneath.
    pub closed spec fn spec_inner(&self) -> crate::coap::CoapServer {
        self.inner
    }

    /// The invariant: the session manager, if any, is well formed.
    pub closed spec fn wf(&self) -> bool {
        match self.dtls {
            Some(m) => m.wf(),
            None => true,
        }
    }

    /// A secured endpoint: without a DTLS configuration it is unsecured; a
    /// configuration that fails validation is refused with its error.
    pub fn new(bind_addr: String, port: u16, node_id: String, dtls_config: Option<DtlsConfig>) -> (r: Result<Self, Error>)
        ensures
            dtls_config is None ==> (r matches Ok(s) && s.wf() && s.spec_dtls() is None),
            dtls_config is Some && validation_failure(dtls_config->0) is None ==> (r matches Ok(s) && s.wf() && (s.spec_dtls() matches Some(
                m,
            ) && m.spec_sessions().len() == 0 && m.spec_config() == dtls_config->0)),
            dtls_config is Some && validation_failure(dtls_config->0) is Some ==> (r matches Err(e)
                && e matches Error::Crypto(CryptoError::KeyGenerationFailed(m)) && m@ == validation_failure(dtls_config->0)->0),
            r matches Ok(s) ==> s.spec_inner().spec_bind_addr() == bind_addr@ && s.spec_inner().spec_port() == port
                && s.spec_inner().spec_node_id() == node_id@ && !s.spec_inner().spec_running(),
    {
        let inner = crate::coap::CoapServer::new(bind_addr, port, node_id);
        match dtls_config {
            Some(config) => match DtlsSessionManager::new(config) {
                Ok(m) => Ok(SecureCoap { inner, dtls: Some(m) }),
                Err(e) => Err(e),
            },
            None => Ok(SecureCoap { inner, dtls: None }),
        }
    }

    /// The DTLS session of a peer, created if needed; `None` without DTLS.
    pub fn get_or_create_session(&mut self, peer_addr: String) -> (r: Result<Option<DtlsSession>, Error>)
        requires
            old(self).wf(),
        ensures
            final(self).wf(),
            old(self).spec_dtls() is None ==> (r matches Ok(None) && *final(self) == *old(self)),
            old(self).spec_dtls() is Some ==> (r matches Ok(Some(s)) && s.peer_addr@ == peer_addr@),
    {
        match &mut self.dtls {
            Some(m) => {
                let r = m.get_or_create_session(peer_addr);
                match r {
                    Ok(s) => Ok(Some(s)),
                    Err(e) => Err(e),
                }
            },
            None => Ok(None),
        }
    }

    /// Whether a peer may talk to the endpoint: always without DTLS; with
    /// DTLS only when it has a live session.
    pub fn verify_session(&self, peer_addr: &str) -> (b: bool)
        requires
            self.wf(),
        ensures
            self.spec_dtls() is None ==> b,
            (self.spec_dtls() matches Some(m) && !addrs(m.spec_sessions()).contains(peer_addr@)) ==> !b,
    {
        match &self.dtls {
            Some(m) => m.get_session(peer_addr).is_some(),
            None => true,
        }
    }

    /// Drops the expired sessions (by the clock).
    pub fn cleanup_sessions(&mut self)
        requires
            old(self).wf(),
        ensures
            final(self).wf(),
            old(self).spec_dtls() is None ==> *final(self) == *old(self),
            final(self).spec_inner() == old(self).spec_inner(),
            old(self).spec_dtls() matches Some(m) ==> (final(self).spec_dtls() matches Some(m2) && expired_dropped(m, m2)),
    {
        match &mut self.dtls {
            Some(m) => m.cleanup_expired(),
            None => {},
        }
    }

    /// The number of sessions (zero without DTLS).
    pub fn session_count(&self) -> (n: usize)
        ensures
            n == match self.spec_dtls() {
                Some(m) => m.spec_sessions().len(),
                None => 0,
            },
    {
        match &self.dtls {
            Some(m) => m.session_count(),
            None => 0,
        }
    }

    /// The CoAP server underneath.
    pub fn coap_server(&self) -> (c: &crate::coap::CoapServer)
        ensures
            *c == self.spec_inner(),
    {
        &self.inner
    }

    /// The CoAP server underneath, to change.
    pub fn coap_server_mut(&mut self) -> (c: &mut crate::coap::CoapServer)
        ensures
            *c == old(self).spec_inner(),
            final(self).spec_dtls() == old(self).spec_dtls(),
            final(self).spec_inner() == *final(c),
    {
        &mut self.inner
    }

    /// Whether DTLS is on.
    pub fn is_secure(&self) -> (b: bool)
        ensures
            b == self.spec_dtls() is Some,
    {
        self.dtls.is_some()
    }

    /// The security mode: the configuration's with DTLS, `NoSec` without.
    pub fn security_mode(&self) -> (m: SecurityMode)
        ensures
            m == match self.spec_dtls() {
                Some(d) => d.spec_config().mode,
                None => SecurityMode::NoSec,
            },
    {
        match &self.dtls {
            Some(d) => match d.security_mode() {
                SecurityMode::NoSec => SecurityMode::NoSec,
                SecurityMode::PreSharedKey => SecurityMode::PreSharedKey,
                SecurityMode::Certificate => SecurityMode::Certificate,
            },
            None => SecurityMode::NoSec,
        }
    }
}

/// The abstract values of a list of sessions.
/// The sessions of `s` whose flag in `keep` is set, in order.
pub open spec fn select_sessions(s: Seq<SessionView>, keep: Seq<bool>) -> Seq<SessionView>
    decreases s.len(),
{
    if s.len() == 0 {
        Seq::empty()
    } else if keep[s.len() - 1] {
        select_sessions(s.drop_last(), keep).push(s.last())
    } else {
        select_sessions(s.drop_last(), keep)
    }
}

/// Whether `after` is `before` with sessions dropped as `cleanup_expired`
/// drops them: the same configuration; the sessions some of the old
/// sessions, in order; the cache the last (at most `MAX_SESSION_CACHE`) of
/// some of the old cached sessions, in order.
pub open spec fn expired_dropped(before: DtlsSessionManager, after: DtlsSessionManager) -> bool {
    &&& after.wf()
    &&& after.spec_config() == before.spec_config()
    &&& after.spec_cache().len() <= MAX_SESSION_CACHE
    &&& exists|keep: Seq<bool>| keep.len() == before.spec_sessions().len() && views(after.spec_sessions())
        == #[trigger] select_sessions(views(before.spec_sessions()), keep)
    &&& exists|keep: Seq<bool>| keep.len() == before.spec_cache().len() && views(after.spec_cache())
        == last_at_most(#[trigger] select_sessions(views(before.spec_cache()), keep), MAX_SESSION_CACHE as nat)
}

/// For each idle time, whether a session idle that long is live under
/// `timeout`: idle for at most `timeout`.
pub open spec fn live_flags(idle: Seq<Duration>, timeout: Duration) -> Seq<bool> {
    Seq::new(idle.len(), |i: int| duration_as_nanos(idle[i]) <= duration_as_nanos(timeout))
}

/// The last `n` elements of `s`, or all of them when there are fewer.
pub open spec fn last_at_most(s: Seq<SessionView>, n: nat) -> Seq<SessionView> {
    if s.len() > n { s.subrange(s.len() - n, s.len() as int) } else { s }
}

/// Selections agree when the flags of the selected sequence agree.
proof fn lemma_select_sessions_flags(s: Seq<SessionView>, k1: Seq<bool>, k2: Seq<bool>)
    requires
        k1.len() >= s.len(),
        k2.len() >= s.len(),
        forall|i: int| 0 <= i < s.len() ==> k1[i] == k2[i],
    ensures
        select_sessions(s, k1) == select_sessions(s, k2),
    decreases s.len(),
{
    if s.len() > 0 {
        lemma_select_sessions_flags(s.drop_last(), k1, k2);
    }
}

pub open spec fn views(s: Seq<DtlsSession>) -> Seq<SessionView> {
    s.map_values(|x: DtlsSession| x@)
}

/// Whether `now` is the session `before` kept and touched: the same but for
/// the time of the last activity.
pub open spec fn kept(before: SessionView, now: SessionView) -> bool {
    now == SessionView { last_activity: now.last_activity, ..before }
}

/// Whether `s` is a new session with the id `id`.
pub open spec fn fresh(s: SessionView, id: Seq<u8>) -> bool {
    &&& s.session_id == id
    &&& s.resumption_secret is None
    &&& s.epoch == 0
    &&& s.sequence_number == 0
    &&& !s.peer_verified
}

} // verus!
