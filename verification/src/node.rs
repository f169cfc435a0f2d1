//! What a node keeps of its peers across restarts.

use crate::crypto::{blake3_digest, ed25519_public_key, ed25519_signature, verifies, Keypair};
use crate::types::{entry_bytes, Action, ActionType, Entry, Record, Signature, Timestamp};
use vstd::prelude::*;

verus! {

/// A peer as saved to storage, to be restored when the node restarts.
#[derive(Debug, Clone)]
pub struct PeerRecord {
    /// The peer's network address (IP:port).
    pub addr: String,
    /// The last known sequence number of the peer.
    pub latest_seq: u32,
    /// Quality score from 0 to 100 (higher is better).
    pub quality: u8,
    /// Unix time (seconds) at which the peer was last seen.
    pub last_seen_secs: u64,
}

impl PeerRecord {
    /// The record of a peer last heard from `elapsed_secs` before the Unix
    /// time `now_secs`; a peer heard from before the epoch is recorded at 0.
    pub fn observed(addr: String, latest_seq: u32, quality: u8, now_secs: u64, elapsed_secs: u64) -> (r: Self)
        ensures
            r.addr == addr,
            r.latest_seq == latest_seq,
            r.quality == quality,
            r.last_seen_secs == if elapsed_secs <= now_secs { (now_secs - elapsed_secs) as u64 } else { 0u64 },
    {
        PeerRecord { addr, latest_seq, quality, last_seen_secs: now_secs.saturating_sub(elapsed_secs) }
    }
}

/// Saved peers of lower quality are not restored.
pub const MIN_RESTORE_QUALITY: u8 = 10;

/// Saved peers last seen longer ago than this (24 hours) are not restored.
pub const MAX_RESTORE_AGE_SECS: u64 = 86400;

/// What becomes of a saved peer when the node restarts.
#[derive(Debug, Clone, Copy, PartialEq, Eq, Structural)]
pub enum RestoreOutcome {
    /// Skipped: its quality is below `MIN_RESTORE_QUALITY`.
    LowQuality,
    /// Skipped: it was last seen more than `MAX_RESTORE_AGE_SECS` ago.
    Stale,
    /// Skipped: its address is not a socket address.
    InvalidAddress,
    /// Added back to the peers.
    Restored,
}

/// The outcome for a saved peer of `quality`, last seen at `last_seen_secs`,
/// at Unix time `now_secs`, whose address parses or not.
pub open spec fn restore_outcome_spec(quality: u8, last_seen_secs: u64, now_secs: u64, addr_valid: bool) -> RestoreOutcome {
    let age: int = if last_seen_secs <= now_secs { now_secs - last_seen_secs } else { 0 };
    if quality < MIN_RESTORE_QUALITY {
        RestoreOutcome::LowQuality
    } else if age > MAX_RESTORE_AGE_SECS {
        RestoreOutcome::Stale
    } else if !addr_valid {
        RestoreOutcome::InvalidAddress
    } else {
        RestoreOutcome::Restored
    }
}

/// How many successful exchanges a restored peer is credited with: one per
/// 5 quality points above the initial 50.
pub open spec fn boosts_spec(quality: u8) -> nat {
    (if quality >= 50 { (quality - 50) as nat } else { 0nat }) / 5
}

/// The quality of a restored peer: 50, raised by 5 per credited exchange,
/// at most 100.
pub open spec fn restored_quality(quality: u8) -> u8 {
    if 50 + 5 * boosts_spec(quality) < 100 { (50 + 5 * boosts_spec(quality)) as u8 } else { 100 }
}

impl PeerRecord {
    /// Decides whether the saved peer is restored at Unix time `now_secs`:
    /// low quality first, then age, then the address (`addr_valid` says
    /// whether it parses as a socket address).
    pub fn restore_outcome(&self, now_secs: u64, addr_valid: bool) -> (o: RestoreOutcome)
        ensures
            o == restore_outcome_spec(self.quality, self.last_seen_secs, now_secs, addr_valid),
    {
        let age = now_secs.saturating_sub(self.last_seen_secs);
        if self.quality < MIN_RESTORE_QUALITY {
            RestoreOutcome::LowQuality
        } else if age > MAX_RESTORE_AGE_SECS {
            RestoreOutcome::Stale
        } else if !addr_valid {
            RestoreOutcome::InvalidAddress
        } else {
            RestoreOutcome::Restored
        }
    }

    /// How many successful exchanges the restored peer is credited with.
    pub fn quality_boosts(&self) -> (n: u8)
        ensures
            n == boosts_spec(self.quality),
    {
        self.quality.saturating_sub(50) / 5
    }
}

/// The big-endian bytes of a `u32`.
pub open spec fn be_u32(x: u32) -> Seq<u8> {
    seq![(x / 0x100_0000) as u8, ((x / 0x1_0000) % 0x100) as u8, ((x / 0x100) % 0x100) as u8, (x % 0x100) as u8]
}

/// What the signature of an action covers: its sequence number, big-endian,
/// then the hash of its entry.
pub open spec fn signing_data(seq: u32, entry_hash: crate::types::Hash) -> Seq<u8> {
    be_u32(seq) + entry_hash.0@
}

/// The bytes the signature of action `seq` on entry `entry_hash` covers.
pub fn action_signing_data(seq: u32, entry_hash: &crate::types::Hash) -> (data: Vec<u8>)
    ensures
        data@ == signing_data(seq, *entry_hash),
{
    let mut data: Vec<u8> = Vec::new();
    data.push((seq / 0x100_0000) as u8);
    data.push(((seq / 0x1_0000) % 0x100) as u8);
    data.push(((seq / 0x100) % 0x100) as u8);
    data.push((seq % 0x100) as u8);
    crate::types::push_slice(&mut data, entry_hash.0.as_slice());
    proof {
        assert(data@ =~= signing_data(seq, *entry_hash));
    }
    data
}

/// The signature of action `seq` on entry `entry_hash` by `keypair`; it
/// verifies under the keypair's public key.
pub fn sign_action_data(keypair: &Keypair, seq: u32, entry_hash: &crate::types::Hash) -> (s: Signature)
    ensures
        s.0@ == ed25519_signature(keypair.spec_seed(), signing_data(seq, *entry_hash)),
        verifies(ed25519_public_key(keypair.spec_seed()), signing_data(seq, *entry_hash), s.0@),
{
    let data = action_signing_data(seq, entry_hash);
    keypair.sign(data.as_slice())
}

/// Whether `r` is the record that `keypair` creates for `entry` at
/// position `seq` of its chain at time `timestamp`: a create action by the
/// keypair's public key, not linked to a previous action, naming the
/// entry's hash, signed by the keypair; the entry goes with it.
pub open spec fn is_created_record(r: Record, seed: Seq<u8>, entry: Entry, seq: u32, timestamp: Timestamp) -> bool {
    &&& r.action.action_type == ActionType::Create
    &&& r.action.author.0@ == ed25519_public_key(seed)
    &&& r.action.timestamp == timestamp
    &&& r.action.seq == seq
    &&& r.action.prev_action is None
    &&& r.action.entry_hash matches Some(h) && h.0@ == blake3_digest(entry_bytes(entry))
        && r.action.signature.0@ == ed25519_signature(seed, signing_data(seq, h))
        && verifies(r.action.author.0@, signing_data(seq, h), r.action.signature.0@)
    &&& r.entry == Some(entry)
}

/// The record `keypair` creates for `entry` right after the action numbered
/// `latest_seq` (0 for an empty chain), at time `timestamp`.
pub fn new_create_record(keypair: &Keypair, entry: Entry, latest_seq: u32, timestamp: Timestamp) -> (r: Record)
    requires
        latest_seq < u32::MAX,
    ensures
        is_created_record(r, keypair.spec_seed(), entry, (latest_seq + 1) as u32, timestamp),
{
    let entry_hash = entry.hash();
    let seq = latest_seq + 1;
    let signature = sign_action_data(keypair, seq, &entry_hash);
    let action = Action {
        action_type: ActionType::Create,
        author: keypair.public_key(),
        timestamp,
        seq,
        prev_action: None,
        entry_hash: Some(entry_hash),
        signature,
    };
    Record { action, entry: Some(entry) }
}

/// The records `keypair` creates for `entries`, in order, numbered on from
/// `latest_seq`, all at time `timestamp`.
pub fn new_create_records(keypair: &Keypair, entries: Vec<Entry>, latest_seq: u32, timestamp: Timestamp) -> (r: Vec<Record>)
    requires
        latest_seq + entries@.len() <= u32::MAX,
    ensures
        r@.len() == entries@.len(),
        forall|i: int| 0 <= i < r@.len() ==> is_created_record(
            #[trigger] r@[i],
            keypair.spec_seed(),
            entries@[i],
            (latest_seq + 1 + i) as u32,
            timestamp,
        ),
{
    let mut r: Vec<Record> = Vec::new();
    let mut rest = entries;
    let ghost all = rest@;
    let mut i: u32 = 0;
    while rest.len() > 0
        invariant
            i as int + rest@.len() == all.len(),
            latest_seq + all.len() <= u32::MAX,
            r@.len() == i,
            rest@ == all.subrange(i as int, all.len() as int),
            forall|k: int| 0 <= k < r@.len() ==> is_created_record(
                #[trigger] r@[k],
                keypair.spec_seed(),
                all[k],
                (latest_seq + 1 + k) as u32,
                timestamp,
            ),
        decreases rest@.len(),
    {
        let ghost before = rest@;
        let entry = rest.remove(0);
        proof {
            assert(entry == all[i as int]);
            assert(rest@ =~= all.subrange(i + 1, all.len() as int));
        }
        let record = new_create_record(keypair, entry, latest_seq + i, timestamp);
        r.push(record);
        i = i + 1;
    }
    r
}

} // verus!