//! Core data types: hashes, keys, timestamps, actions, entries, links and
//! records, with the canonical byte encodings that their hashes cover.

use vstd::prelude::*;
use crate::ota::hex::{encode, hex_encode};
use crate::crypto::{blake3_digest, blake3_hash};

verus! {

/// A 32-byte content hash (Blake3).
#[derive(Debug, Clone, Copy, PartialEq, Eq, Hash)]
pub struct Hash(pub [u8; 32]);

impl Hash {
    /// Hash arbitrary data with Blake3.
    pub fn from_bytes(data: &[u8]) -> (h: Hash)
        ensures
            h.0@ == blake3_digest(data@),
    {
        Hash(blake3_hash(data))
    }

    /// A hash with the given raw bytes.
    pub fn from_raw(bytes: &[u8; 32]) -> (h: Hash)
        ensures
            h.0@ == bytes@,
    {
        Hash(*bytes)
    }

    /// The raw bytes of the hash.
    pub fn as_bytes(&self) -> (b: &[u8])
        ensures
            b@ == self.0@,
    {
        self.0.as_slice()
    }

    /// Whether two hashes hold the same bytes.
    pub fn same_bytes(&self, other: &Hash) -> (res: bool)
        ensures
            res == (self.0@ == other.0@),
    {
        let mut i: usize = 0;
        while i < 32
            invariant
                i <= 32,
                forall|j: int| 0 <= j < i ==> self.0@[j] == other.0@[j],
            decreases 32 - i,
        {
            if self.0[i] != other.0[i] {
                return false;
            }
            i = i + 1;
        }
        proof {
            assert(self.0@ =~= other.0@);
        }
        true
    }

    /// The lower-case hex encoding of the hash (64 characters).
    pub fn to_hex(&self) -> (s: String)
        ensures
            s@ == hex_encode(self.0@),
    {
        encode(self.0.as_slice())
    }
}

/// An agent's 32-byte Ed25519 public key.
#[derive(Debug, Clone, Copy, PartialEq, Eq, Hash)]
pub struct AgentPubKey(pub [u8; 32]);

impl AgentPubKey {
    /// The raw bytes of the key.
    pub fn as_bytes(&self) -> (b: &[u8; 32])
        ensures
            b@ == self.0@,
    {
        &self.0
    }

    /// The lower-case hex encoding of the key.
    pub fn to_hex(&self) -> (s: String)
        ensures
            s@ == hex_encode(self.0@),
    {
        encode(self.0.as_slice())
    }
}

/// A 64-byte Ed25519 signature.
#[derive(Debug, Clone, Copy, PartialEq, Eq)]
pub struct Signature(pub [u8; 64]);

/// A point in time, in milliseconds since the Unix epoch.
#[derive(Debug, Clone, Copy, PartialEq, Eq, PartialOrd, Ord, Hash, Structural)]
pub struct Timestamp(pub u64);

impl Timestamp {
    /// The current time of the system clock.
    pub fn now() -> Timestamp {
        Timestamp(crate::time::unix_time_millis())
    }
}

/// The kind of an action on an agent's source chain.
#[derive(Debug, Clone, Copy, PartialEq, Eq, Structural)]
pub enum ActionType {
    /// Creates an entry.
    Create,
    /// Updates an entry.
    Update,
    /// Deletes an entry.
    Delete,
}

impl ActionType {
    /// The name of the variant, as its `Debug` form writes it.
    pub open spec fn spec_name(self) -> Seq<char> {
        match self {
            ActionType::Create => "Create"@,
            ActionType::Update => "Update"@,
            ActionType::Delete => "Delete"@,
        }
    }

    /// The name of the variant, as its `Debug` form writes it.
    pub fn name(&self) -> (s: &'static str)
        ensures
            s@ == self.spec_name(),
    {
        match self {
            ActionType::Create => "Create",
            ActionType::Update => "Update",
            ActionType::Delete => "Delete",
        }
    }

    /// The tag byte of the variant in the canonical encoding.
    pub open spec fn tag(self) -> u8 {
        match self {
            ActionType::Create => 0,
            ActionType::Update => 1,
            ActionType::Delete => 2,
        }
    }
}

/// The kind of an entry.
#[derive(Debug, Clone, Copy, PartialEq, Eq, Structural)]
pub enum EntryType {
    /// Application data.
    App,
    /// An agent's public key.
    AgentKey,
}

impl EntryType {
    /// The name of the variant, as its `Debug` form writes it.
    pub open spec fn spec_name(self) -> Seq<char> {
        match self {
            EntryType::App => "App"@,
            EntryType::AgentKey => "AgentKey"@,
        }
    }

    /// The name of the variant, as its `Debug` form writes it.
    pub fn name(&self) -> (s: &'static str)
        ensures
            s@ == self.spec_name(),
    {
        match self {
            EntryType::App => "App",
            EntryType::AgentKey => "AgentKey",
        }
    }

    /// The tag byte of the variant in the canonical encoding.
    pub open spec fn tag(self) -> u8 {
        match self {
            EntryType::App => 0,
            EntryType::AgentKey => 1,
        }
    }
}

/// An action on an agent's source chain.
#[derive(Debug, Clone)]
pub struct Action {
    /// The kind of action.
    pub action_type: ActionType,
    /// The author's public key.
    pub author: AgentPubKey,
    /// When the action was taken.
    pub timestamp: Timestamp,
    /// Position on the author's chain.
    pub seq: u32,
    /// Hash of the previous action, if any.
    pub prev_action: Option<Hash>,
    /// Hash of the entry the action refers to, if any.
    pub entry_hash: Option<Hash>,
    /// The author's signature.
    pub signature: Signature,
}

/// An entry of application data.
#[derive(Debug, Clone)]
pub struct Entry {
    /// The kind of entry.
    pub entry_type: EntryType,
    /// The entry's content.
    pub content: Vec<u8>,
}

/// A typed link from one entry to another.
#[derive(Debug, Clone)]
pub struct Link {
    /// The entry the link starts from.
    pub base: Hash,
    /// The entry the link points to.
    pub target: Hash,
    /// The link's type.
    pub link_type: u8,
    /// A free-form tag.
    pub tag: Vec<u8>,
    /// When the link was created.
    pub timestamp: Timestamp,
}

/// An action together with its entry, if it has one.
#[derive(Debug, Clone)]
pub struct Record {
    /// The action.
    pub action: Action,
    /// The entry, if any.
    pub entry: Option<Entry>,
}

/// The little-endian bytes of a `u64`.
pub open spec fn le_u64(x: u64) -> Seq<u8> {
    Seq::new(8, |i: int| ((x >> (8 * i) as u64) & 0xff) as u8)
}

/// The little-endian bytes of a `u32`.
pub open spec fn le_u32(x: u32) -> Seq<u8> {
    Seq::new(4, |i: int| ((x >> (8 * i) as u32) & 0xff) as u8)
}

/// An optional hash: a zero byte, or a one byte followed by the hash.
pub open spec fn opt_hash_bytes(h: Option<Hash>) -> Seq<u8> {
    match h {
        None => seq![0u8],
        Some(h) => seq![1u8] + h.0@,
    }
}

/// The canonical encoding of an action's content (the signature is not part of it).
pub open spec fn action_bytes(a: Action) -> Seq<u8> {
    seq![a.action_type.tag()] + a.author.0@ + le_u64(a.timestamp.0) + le_u32(a.seq)
        + opt_hash_bytes(a.prev_action) + opt_hash_bytes(a.entry_hash)
}

/// The canonical encoding of an entry.
pub open spec fn entry_bytes(e: Entry) -> Seq<u8> {
    seq![e.entry_type.tag()] + e.content@
}

pub(crate) fn push_slice(out: &mut Vec<u8>, s: &[u8])
    ensures
        final(out)@ == old(out)@ + s@,
{
    let mut i: usize = 0;
    while i < s.len()
        invariant
            i <= s@.len(),
            out@ == old(out)@ + s@.subrange(0, i as int),
        decreases s@.len() - i,
    {
        out.push(s[i]);
        i = i + 1;
        proof {
            assert(out@ =~= old(out)@ + s@.subrange(0, i as int));
        }
    }
    proof {
        assert(s@.subrange(0, s@.len() as int) =~= s@);
    }
}

pub(crate) fn push_u64_le(out: &mut Vec<u8>, x: u64)
    ensures
        final(out)@ == old(out)@ + le_u64(x),
{
    let mut i: u64 = 0;
    while i < 8
        invariant
            i <= 8,
            out@ == old(out)@ + le_u64(x).subrange(0, i as int),
        decreases 8 - i,
    {
        out.push(((x >> (8 * i)) & 0xff) as u8);
        i = i + 1;
        proof {
            assert(out@ =~= old(out)@ + le_u64(x).subrange(0, i as int));
        }
    }
    proof {
        assert(le_u64(x).subrange(0, 8) =~= le_u64(x));
    }
}

pub(crate) fn push_u32_le(out: &mut Vec<u8>, x: u32)
    ensures
        final(out)@ == old(out)@ + le_u32(x),
{
    let mut i: u32 = 0;
    while i < 4
        invariant
            i <= 4,
            out@ == old(out)@ + le_u32(x).subrange(0, i as int),
        decreases 4 - i,
    {
        out.push(((x >> (8 * i)) & 0xff) as u8);
        i = i + 1;
        proof {
            assert(out@ =~= old(out)@ + le_u32(x).subrange(0, i as int));
        }
    }
    proof {
        assert(le_u32(x).subrange(0, 4) =~= le_u32(x));
    }
}

fn push_opt_hash(out: &mut Vec<u8>, h: &Option<Hash>)
    ensures
        final(out)@ == old(out)@ + opt_hash_bytes(*h),
{
    match h {
        None => {
            out.push(0u8);
            proof {
                assert(out@ =~= old(out)@ + opt_hash_bytes(*h));
            }
        },
        Some(hh) => {
            out.push(1u8);
            push_slice(out, hh.0.as_slice());
            proof {
                assert(out@ =~= old(out)@ + opt_hash_bytes(*h));
            }
        },
    }
}

fn action_type_tag(t: ActionType) -> (b: u8)
    ensures
        b == t.tag(),
{
    match t {
        ActionType::Create => 0,
        ActionType::Update => 1,
        ActionType::Delete => 2,
    }
}

fn entry_type_tag(t: EntryType) -> (b: u8)
    ensures
        b == t.tag(),
{
    match t {
        EntryType::App => 0,
        EntryType::AgentKey => 1,
    }
}

impl Action {
    /// The canonical encoding of the action's content.
    pub fn to_bytes(&self) -> (out: Vec<u8>)
        ensures
            out@ == action_bytes(*self),
    {
        let mut out: Vec<u8> = Vec::new();
        out.push(action_type_tag(self.action_type));
        push_slice(&mut out, self.author.0.as_slice());
        push_u64_le(&mut out, self.timestamp.0);
        push_u32_le(&mut out, self.seq);
        push_opt_hash(&mut out, &self.prev_action);
        push_opt_hash(&mut out, &self.entry_hash);
        proof {
            assert(out@ =~= action_bytes(*self));
        }
        out
    }

    /// The hash of the action: Blake3 of its canonical encoding.
    pub fn hash(&self) -> (h: Hash)
        ensures
            h.0@ == blake3_digest(action_bytes(*self)),
    {
        let bytes = self.to_bytes();
        Hash::from_bytes(bytes.as_slice())
    }
}

impl Entry {
    /// The canonical encoding of the entry.
    pub fn to_bytes(&self) -> (out: Vec<u8>)
        ensures
            out@ == entry_bytes(*self),
    {
        let mut out: Vec<u8> = Vec::new();
        out.push(entry_type_tag(self.entry_type));
        push_slice(&mut out, self.content.as_slice());
        proof {
            assert(out@ =~= entry_bytes(*self));
        }
        out
    }

    /// The hash of the entry: Blake3 of its canonical encoding.
    pub fn hash(&self) -> (h: Hash)
        ensures
            h.0@ == blake3_digest(entry_bytes(*self)),
    {
        let bytes = self.to_bytes();
        Hash::from_bytes(bytes.as_slice())
    }
}

} // verus!
