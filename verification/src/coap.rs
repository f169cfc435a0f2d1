//! CoAP transport: constants, settings, and the computations of the
//! transport that do not touch the network (message ids, block-wise
//! transfer framing, retransmission decisions, request paths).

pub mod packet;

use crate::network::Message;
use crate::text::{append_str, push_char, str_eq};
use crate::time::{duration_as_nanos, nanos_of};
use vstd::string::StrSliceExecFns;
use std::time::Duration;
use vstd::prelude::*;

verus! {

/// Maximum CoAP message size for transfers that are not block-wise.
pub const COAP_MAX_MESSAGE_SIZE: usize = 1024;

/// Default CoAP port.
pub const COAP_DEFAULT_PORT: u16 = 5683;

/// CoAP multicast address for discovery (IPv4).
pub const COAP_MULTICAST_IPV4: &'static str = "224.0.1.187";

/// CoAP multicast address for discovery (IPv6).
pub const COAP_MULTICAST_IPV6: &'static str = "ff02::fd";

/// Block size for block-wise transfers (256 bytes, size exponent 2).
pub const BLOCK_SIZE: usize = 256;

/// Maximum retransmissions of a confirmable message.
pub const MAX_RETRANSMIT: u8 = 4;

/// ACK timeout in milliseconds.
pub const ACK_TIMEOUT_MS: u64 = 2000;

/// Settings of the CoAP transport.
#[derive(Debug, Clone)]
pub struct CoapConfig {
    /// Bind address.
    pub bind_addr: String,
    /// Port.
    pub port: u16,
    /// Enable multicast discovery.
    pub enable_multicast: bool,
    /// Send confirmable messages by default.
    pub default_confirmable: bool,
    /// ACK timeout in milliseconds.
    pub ack_timeout_ms: u64,
    /// Maximum retransmissions.
    pub max_retransmit: u8,
}

impl CoapConfig {
    /// The settings of a configuration.
    pub open spec fn settings(self) -> (Seq<char>, u16, bool, bool, u64, u8) {
        (
            self.bind_addr@,
            self.port,
            self.enable_multicast,
            self.default_confirmable,
            self.ack_timeout_ms,
            self.max_retransmit,
        )
    }

    /// Settings for IoT devices: a shorter ACK timeout and fewer retries.
    pub fn iot_mode() -> (c: Self)
        ensures
            c.settings() == ("0.0.0.0"@, COAP_DEFAULT_PORT, true, false, 1000u64, 2u8),
    {
        CoapConfig {
            bind_addr: "0.0.0.0".to_owned(),
            port: COAP_DEFAULT_PORT,
            enable_multicast: true,
            default_confirmable: false,
            ack_timeout_ms: 1000,
            max_retransmit: 2,
        }
    }
}

impl Default for CoapConfig {
    /// Non-confirmable messages by default, multicast on, the standard
    /// timeout and retry count.
    fn default() -> (c: Self)
        ensures
            c.settings() == ("0.0.0.0"@, COAP_DEFAULT_PORT, true, false, ACK_TIMEOUT_MS, MAX_RETRANSMIT),
    {
        CoapConfig {
            bind_addr: "0.0.0.0".to_owned(),
            port: COAP_DEFAULT_PORT,
            enable_multicast: true,
            default_confirmable: false,
            ack_timeout_ms: ACK_TIMEOUT_MS,
            max_retransmit: MAX_RETRANSMIT,
        }
    }
}

/// State of a block-wise transfer.
#[derive(Debug, Clone)]
pub struct BlockState {
    /// The whole data being transferred.
    pub data: Vec<u8>,
    /// Current block number.
    pub block_num: u32,
    /// Whether more blocks follow.
    pub more: bool,
}

/// The message id that follows `id`; after the largest id comes zero.
pub fn next_message_id(id: u16) -> (next: u16)
    ensures
        next == (id + 1) % 0x1_0000,
{
    id.wrapping_add(1)
}

/// The number of blocks in which `len` bytes are sent: `len / BLOCK_SIZE`
/// rounded up.
pub fn block_count(len: usize) -> (n: usize)
    ensures
        n * BLOCK_SIZE >= len,
        n * BLOCK_SIZE < len + BLOCK_SIZE,
{
    len / BLOCK_SIZE + if len % BLOCK_SIZE == 0 { 0 } else { 1 }
}

/// The byte range `[start, end)` of block `num` of data of length `len`.
pub fn block_range(len: usize, num: usize) -> (r: (usize, usize))
    requires
        num * BLOCK_SIZE < len,
    ensures
        r.0 == num * BLOCK_SIZE,
        r.1 == if len - r.0 < BLOCK_SIZE { len as int } else { r.0 + BLOCK_SIZE },
{
    let start = num * BLOCK_SIZE;
    let end = if len - start < BLOCK_SIZE { len } else { start + BLOCK_SIZE };
    (start, end)
}

/// The value of a Block1 option: the block number above four flag bits, the
/// "more" flag (8) and the size exponent 2 (256-byte blocks). Block numbers
/// past 28 bits lose their top bits, as the shift in a `u32` does.
pub open spec fn block1_value(num: u32, more: bool) -> int {
    (num as int % 0x1000_0000) * 16 + (if more { 8int } else { 0int }) + 2
}

/// The bytes of a Block1 option value: big-endian in one byte when it fits,
/// else two, else four.
pub open spec fn block1_bytes(v: int) -> Seq<u8> {
    if v <= 0xFF {
        seq![v as u8]
    } else if v <= 0xFFFF {
        seq![(v / 0x100) as u8, (v % 0x100) as u8]
    } else {
        seq![
            (v / 0x100_0000) as u8,
            ((v / 0x1_0000) % 0x100) as u8,
            ((v / 0x100) % 0x100) as u8,
            (v % 0x100) as u8,
        ]
    }
}

/// The value of the Block1 option of block `num`.
pub fn block1_option_value(num: u32, more: bool) -> (v: u32)
    ensures
        v == block1_value(num, more),
{
    let flag: u32 = if more { 0x08 } else { 0x00 };
    let shifted: u32 = num << 4u32;
    assert(shifted == (num % 0x1000_0000) * 16) by (bit_vector)
        requires
            shifted == num << 4u32,
    ;
    assert(shifted & 0x0f == 0) by (bit_vector)
        requires
            shifted == num << 4u32,
    ;
    assert(shifted | flag | 0x02 == shifted + flag + 2) by (bit_vector)
        requires
            shifted & 0x0f == 0,
            flag == 0 || flag == 8,
    ;
    shifted | flag | 0x02
}

/// The Block1 option of block `num`, as the bytes that are put in a packet.
pub fn block1_option(num: u32, more: bool) -> (bytes: Vec<u8>)
    ensures
        bytes@ == block1_bytes(block1_value(num, more)),
{
    let v = block1_option_value(num, more);
    let mut bytes: Vec<u8> = Vec::new();
    if v <= 0xFF {
        bytes.push(v as u8);
    } else if v <= 0xFFFF {
        bytes.push((v / 0x100) as u8);
        bytes.push((v % 0x100) as u8);
    } else {
        bytes.push((v / 0x100_0000) as u8);
        bytes.push(((v / 0x1_0000) % 0x100) as u8);
        bytes.push(((v / 0x100) % 0x100) as u8);
        bytes.push((v % 0x100) as u8);
    }
    bytes
}

/// What to do with a confirmable message that has not been acknowledged.
#[derive(Debug, Clone, Copy, PartialEq, Eq, Structural)]
pub enum RetransmitAction {
    /// The ACK timeout has not passed yet: keep waiting.
    Wait,
    /// The timeout passed and retries remain: send it again.
    Resend,
    /// The timeout passed and no retries remain: drop it.
    GiveUp,
}

/// The decision for a message sent `since_sent` ago and already resent
/// `retransmits` times: nothing happens until more than `ACK_TIMEOUT_MS`
/// has passed; then it is resent, unless it was resent `MAX_RETRANSMIT`
/// times already, in which case it is dropped.
pub fn retransmit_action(since_sent: &Duration, retransmits: u8) -> (a: RetransmitAction)
    ensures
        duration_as_nanos(*since_sent) <= ACK_TIMEOUT_MS * 1_000_000 ==> a == RetransmitAction::Wait,
        duration_as_nanos(*since_sent) > ACK_TIMEOUT_MS * 1_000_000 ==> a == (if retransmits >= MAX_RETRANSMIT {
            RetransmitAction::GiveUp
        } else {
            RetransmitAction::Resend
        }),
{
    let timeout_ns: u128 = (ACK_TIMEOUT_MS as u128) * 1_000_000;
    if nanos_of(since_sent) <= timeout_ns {
        RetransmitAction::Wait
    } else if retransmits >= MAX_RETRANSMIT {
        RetransmitAction::GiveUp
    } else {
        RetransmitAction::Resend
    }
}


/// What the server does with a request it received, by the request's path.
#[derive(Debug, Clone, Copy, PartialEq, Eq, Structural)]
pub enum PacketAction {
    /// Nothing is handed on (discovery, unknown paths, empty bodies).
    Ignore,
    /// A ping whose body is the sender's node id.
    PingFrom,
    /// A ping without a body: the sender is unknown.
    PingUnknown,
    /// The body is a message to decode.
    DecodeMessage,
}

/// The action for a request on `path` whose body is empty or not.
pub open spec fn packet_action_spec(path: Seq<char>, empty_body: bool) -> PacketAction {
    if path == "/ping"@ {
        if empty_body { PacketAction::PingUnknown } else { PacketAction::PingFrom }
    } else if path == "/gossip"@ || path == "/record"@ || path == "/announce"@ {
        if empty_body { PacketAction::Ignore } else { PacketAction::DecodeMessage }
    } else {
        PacketAction::Ignore
    }
}

/// Decides what to do with a request: `/ping` answers with the sender's id
/// (or "unknown"); `/gossip`, `/record` and `/announce` carry a message in
/// their body; discovery (`/.well-known/core`) and other paths give nothing.
pub fn packet_action(path: &str, empty_body: bool) -> (a: PacketAction)
    ensures
        a == packet_action_spec(path@, empty_body),
{
    if str_eq(path, "/ping") {
        if empty_body { PacketAction::PingUnknown } else { PacketAction::PingFrom }
    } else if str_eq(path, "/gossip") || str_eq(path, "/record") || str_eq(path, "/announce") {
        if empty_body { PacketAction::Ignore } else { PacketAction::DecodeMessage }
    } else {
        PacketAction::Ignore
    }
}

/// One step of building a request path from its segments: a `/` before the
/// segment unless the path is still just the leading `/`.
pub open spec fn path_step(acc: Seq<char>, seg: Seq<char>) -> Seq<char> {
    if acc.len() > 1 { acc + "/"@ + seg } else { acc + seg }
}

/// The path built from `acc` by appending the segments in order.
pub open spec fn join_segments(acc: Seq<char>, segs: Seq<Seq<char>>) -> Seq<char>
    decreases segs.len(),
{
    if segs.len() == 0 {
        acc
    } else {
        join_segments(path_step(acc, segs[0]), segs.drop_first())
    }
}

/// The path of a request with the given URI-path segments: `/` followed by
/// the segments joined by `/`; a request without any is a discovery
/// request, `/.well-known/core`.
pub open spec fn request_path(segs: Seq<Seq<char>>) -> Seq<char> {
    let p = join_segments("/"@, segs);
    if p == "/"@ { "/.well-known/core"@ } else { p }
}

/// The path of a request from its URI-path segments.
pub fn extract_path(segments: &Vec<String>) -> (p: String)
    ensures
        p@ == request_path(segments@.map_values(|s: String| s@)),
{
    proof {
        reveal_strlit("/");
    }
    let ghost segs = segments@.map_values(|s: String| s@);
    let mut path = String::new();
    append_str(&mut path, "/");
    proof {
        assert(path@ =~= "/"@);
        assert(segs.subrange(0, segs.len() as int) =~= segs);
    }
    let mut i: usize = 0;
    while i < segments.len()
        invariant
            i <= segments@.len(),
            segs == segments@.map_values(|s: String| s@),
            path@.len() >= 1,
            join_segments(path@, segs.subrange(i as int, segs.len() as int)) == join_segments("/"@, segs),
        decreases segments@.len() - i,
    {
        let ghost before = path@;
        let seg = &segments[i];
        if path.as_str().unicode_len() > 1 {
            append_str(&mut path, "/");
        }
        append_str(&mut path, seg.as_str());
        proof {
            let rest = segs.subrange(i as int, segs.len() as int);
            assert(rest[0] == seg@);
            assert(rest.drop_first() =~= segs.subrange(i as int + 1, segs.len() as int));
            assert(path@ =~= path_step(before, seg@));
        }
        i = i + 1;
    }
    proof {
        assert(segs.subrange(segments@.len() as int, segs.len() as int) =~= Seq::<Seq<char>>::empty());
    }
    if str_eq(path.as_str(), "/") {
        let mut d = String::new();
        append_str(&mut d, "/.well-known/core");
        proof {
            assert(d@ =~= "/.well-known/core"@);
        }
        d
    } else {
        path
    }
}

/// The non-empty runs of characters between `/` in `s`, in order: the
/// segments `rest` adds to the runs `done` and the run `cur` in progress.
pub open spec fn split_path(done: Seq<Seq<char>>, cur: Seq<char>, rest: Seq<char>) -> Seq<Seq<char>>
    decreases rest.len(),
{
    if rest.len() == 0 {
        if cur.len() > 0 { done.push(cur) } else { done }
    } else if rest[0] == '/' {
        split_path(if cur.len() > 0 { done.push(cur) } else { done }, Seq::empty(), rest.drop_first())
    } else {
        split_path(done, cur.push(rest[0]), rest.drop_first())
    }
}

/// The URI-path segments of a request to `path`: its non-empty parts
/// between slashes.
pub fn path_segments(path: &str) -> (segs: Vec<String>)
    ensures
        segs@.map_values(|s: String| s@) == split_path(Seq::empty(), Seq::empty(), path@),
{
    let n = path.unicode_len();
    let mut done: Vec<String> = Vec::new();
    let mut cur = String::new();
    let mut i: usize = 0;
    proof {
        assert(done@.map_values(|s: String| s@) =~= Seq::<Seq<char>>::empty());
        assert(cur@ =~= Seq::<char>::empty());
        assert(path@.subrange(0, n as int) =~= path@);
    }
    while i < n
        invariant
            n == path@.len(),
            i <= n,
            split_path(done@.map_values(|s: String| s@), cur@, path@.subrange(i as int, n as int))
                == split_path(Seq::empty(), Seq::empty(), path@),
        decreases n - i,
    {
        let c = path.get_char(i);
        let ghost dv = done@.map_values(|s: String| s@);
        let ghost cv = cur@;
        proof {
            let rest = path@.subrange(i as int, n as int);
            assert(rest[0] == c);
            assert(rest.drop_first() =~= path@.subrange(i as int + 1, n as int));
        }
        if c == '/' {
            if cur.as_str().unicode_len() > 0 {
                let full = cur;
                done.push(full);
                proof {
                    assert(done@.map_values(|s: String| s@) =~= dv.push(cv));
                }
            }
            cur = String::new();
            proof {
                assert(cur@ =~= Seq::<char>::empty());
            }
        } else {
            push_char(&mut cur, c);
        }
        i = i + 1;
    }
    proof {
        assert(path@.subrange(n as int, n as int) =~= Seq::<char>::empty());
    }
    let ghost dv = done@.map_values(|s: String| s@);
    let ghost cv = cur@;
    if cur.as_str().unicode_len() > 0 {
        done.push(cur);
        proof {
            assert(done@.map_values(|s: String| s@) =~= dv.push(cv));
        }
    }
    done
}

/// A confirmable message waiting for its ACK: its id, how long ago it was
/// (last) sent, and how many times it was resent.
pub struct PendingAck {
    pub message_id: u16,
    pub since_sent: Duration,
    pub retransmits: u8,
}

/// The ids of the messages to drop (`.0`) and to resend (`.1`), each in the
/// order of `pending`.
pub open spec fn plan_spec(pending: Seq<PendingAck>) -> (Seq<u16>, Seq<u16>)
    decreases pending.len(),
{
    if pending.len() == 0 {
        (Seq::empty(), Seq::empty())
    } else {
        let prev = plan_spec(pending.drop_last());
        let p = pending.last();
        if duration_as_nanos(p.since_sent) <= ACK_TIMEOUT_MS * 1_000_000 {
            prev
        } else if p.retransmits >= MAX_RETRANSMIT {
            (prev.0.push(p.message_id), prev.1)
        } else {
            (prev.0, prev.1.push(p.message_id))
        }
    }
}

/// Plans a round of retransmissions: the messages whose ACK timeout passed
/// are dropped when they were already resent `MAX_RETRANSMIT` times, and
/// resent otherwise.
pub fn plan_retransmissions(pending: &Vec<PendingAck>) -> (r: (Vec<u16>, Vec<u16>))
    ensures
        (r.0@, r.1@) == plan_spec(pending@),
{
    let mut drop: Vec<u16> = Vec::new();
    let mut resend: Vec<u16> = Vec::new();
    let mut i: usize = 0;
    while i < pending.len()
        invariant
            i <= pending@.len(),
            (drop@, resend@) == plan_spec(pending@.subrange(0, i as int)),
        decreases pending@.len() - i,
    {
        let p = &pending[i];
        proof {
            assert(pending@.subrange(0, i as int + 1).drop_last() =~= pending@.subrange(0, i as int));
        }
        match retransmit_action(&p.since_sent, p.retransmits) {
            RetransmitAction::Wait => {},
            RetransmitAction::GiveUp => drop.push(p.message_id),
            RetransmitAction::Resend => resend.push(p.message_id),
        }
        i = i + 1;
    }
    proof {
        assert(pending@.subrange(0, pending@.len() as int) =~= pending@);
    }
    (drop, resend)
}

/// The CoRE Link Format description of the node's resources.
pub fn core_link_format() -> (s: String)
    ensures
        s@ == core_link_format_text(),
{
    let mut s = String::new();
    append_str(&mut s, "</gossip>;rt=\"aingle.gossip\";ct=50,</record>;rt=\"aingle.record\";ct=50,</announce>;rt=\"aingle.announce\";ct=50,</ping>;rt=\"aingle.ping\"");
    proof {
        assert(s@ =~= core_link_format_text());
    }
    s
}


/// One random `u16` (`rand::random`).
///
/// Nothing is stated of the value: it is random.
#[verifier::external_body]
fn random_u16() -> u16 {
    rand::random::<u16>()
}

/// The protocol state of a CoAP endpoint: where it listens, whom it speaks
/// for, the message id counter and whether it runs. The socket and the
/// requests waiting for an ACK are kept by the caller that does the I/O.
pub struct CoapServer {
    bind_addr: String,
    port: u16,
    node_id: String,
    message_id: u16,
    running: bool,
}

impl CoapServer {
    /// The address the server binds.
    pub closed spec fn spec_bind_addr(&self) -> Seq<char> {
        self.bind_addr@
    }

    /// The port the server binds.
    pub closed spec fn spec_port(&self) -> u16 {
        self.port
    }

    /// The id of the node the server speaks for.
    pub closed spec fn spec_node_id(&self) -> Seq<char> {
        self.node_id@
    }

    /// The last message id handed out.
    pub closed spec fn spec_message_id(&self) -> u16 {
        self.message_id
    }

    /// Whether the server was started.
    pub closed spec fn spec_running(&self) -> bool {
        self.running
    }

    /// A server that is not running, whose message ids start after
    /// `first_id`.
    pub fn with_message_id(bind_addr: String, port: u16, node_id: String, first_id: u16) -> (s: Self)
        ensures
            s.spec_bind_addr() == bind_addr@,
            s.spec_port() == port,
            s.spec_node_id() == node_id@,
            s.spec_message_id() == first_id,
            !s.spec_running(),
    {
        CoapServer { bind_addr, port, node_id, message_id: first_id, running: false }
    }

    /// A server that is not running, with a random message id counter.
    pub fn new(bind_addr: String, port: u16, node_id: String) -> (s: Self)
        ensures
            s.spec_bind_addr() == bind_addr@,
            s.spec_port() == port,
            s.spec_node_id() == node_id@,
            !s.spec_running(),
    {
        let first = random_u16();
        Self::with_message_id(bind_addr, port, node_id, first)
    }

    /// The address to bind, `ip:port`.
    pub fn bind_address(&self) -> (a: String)
        ensures
            a@ == self.spec_bind_addr() + ":"@ + crate::text::decimal(self.spec_port() as nat),
    {
        let mut a = String::new();
        append_str(&mut a, self.bind_addr.as_str());
        append_str(&mut a, ":");
        crate::text::append_decimal(&mut a, self.port as u64);
        proof {
            assert(a@ =~= self.spec_bind_addr() + ":"@ + crate::text::decimal(self.spec_port() as nat));
        }
        a
    }

    /// Records that the socket is bound and the server runs.
    pub fn mark_started(&mut self)
        ensures
            final(self).spec_bind_addr() == old(self).spec_bind_addr(),
            final(self).spec_port() == old(self).spec_port(),
            final(self).spec_node_id() == old(self).spec_node_id(),
            final(self).spec_message_id() == old(self).spec_message_id(),
            final(self).spec_running(),
    {
        self.running = true;
    }

    /// Records that the server stopped.
    pub fn mark_stopped(&mut self)
        ensures
            final(self).spec_bind_addr() == old(self).spec_bind_addr(),
            final(self).spec_port() == old(self).spec_port(),
            final(self).spec_node_id() == old(self).spec_node_id(),
            final(self).spec_message_id() == old(self).spec_message_id(),
            !final(self).spec_running(),
    {
        self.running = false;
    }

    /// Whether the server runs: it was started and its socket is open.
    pub fn is_running(&self, socket_open: bool) -> (b: bool)
        ensures
            b == (self.spec_running() && socket_open),
    {
        self.running && socket_open
    }

    /// Hands out the next message id; after the largest comes zero.
    pub fn next_message_id(&mut self) -> (id: u16)
        ensures
            id == (old(self).spec_message_id() + 1) % 0x1_0000,
            final(self).spec_bind_addr() == old(self).spec_bind_addr(),
            final(self).spec_port() == old(self).spec_port(),
            final(self).spec_node_id() == old(self).spec_node_id(),
            final(self).spec_message_id() == id,
            final(self).spec_running() == old(self).spec_running(),
    {
        self.message_id = next_message_id(self.message_id);
        self.message_id
    }

    /// A random 4-byte token for a confirmable request.
    pub fn generate_token(&self) -> (t: Vec<u8>)
        ensures
            t@.len() == 4,
    {
        let token: [u8; 4] = crate::crypto::random_bytes();
        let mut t: Vec<u8> = Vec::new();
        let mut i: usize = 0;
        while i < 4
            invariant
                i <= 4,
                t@.len() == i,
            decreases 4 - i,
        {
            t.push(token[i]);
            i = i + 1;
        }
        t
    }

    /// The path a message is sent on; see `message_path`.
    pub fn message_to_path(message: &Message) -> (p: String)
        ensures
            p@ == message_path(*message),
    {
        let p = match message {
            Message::Ping { .. } => "/ping",
            Message::Pong { .. } => "/ping",
            Message::NewRecord { .. } => "/announce",
            Message::GetRecord { .. } => "/record",
            Message::RecordData { .. } => "/record",
            _ => "/gossip",
        };
        p.to_owned()
    }

    /// The CoRE Link Format description of the node's resources.
    pub fn get_core_link_format(&self) -> (s: String)
        ensures
            s@ == core_link_format_text(),
    {
        core_link_format()
    }
}

/// The path a message is sent on: pings and pongs on `/ping`, record
/// announcements on `/announce`, record requests and record data on
/// `/record`, and every other message (gossip, remote calls, mesh relays) on
/// `/gossip`, whose receiver decodes any message from the body.
pub open spec fn message_path(m: Message) -> Seq<char> {
    match m {
        Message::Ping { .. } => "/ping"@,
        Message::Pong { .. } => "/ping"@,
        Message::NewRecord { .. } => "/announce"@,
        Message::GetRecord { .. } => "/record"@,
        Message::RecordData { .. } => "/record"@,
        _ => "/gossip"@,
    }
}

/// What is sent is received: a request that carries a message on its path,
/// with a body, is never ignored by the receiving server.
pub proof fn lemma_sent_messages_received(m: Message)
    ensures
        packet_action_spec(message_path(m), false) != PacketAction::Ignore,
{
    reveal_strlit("/ping");
    reveal_strlit("/gossip");
    reveal_strlit("/record");
    reveal_strlit("/announce");
}

/// What a receiving server does with each message sent to it: a message
/// sent with a body on its path is decoded as a message, except pings and
/// pongs (sent on `/ping`), whose body is taken as the sender's id.
pub proof fn lemma_message_bodies_decoded(m: Message)
    ensures
        (m is Ping || m is Pong) ==> packet_action_spec(message_path(m), false) == PacketAction::PingFrom,
        !(m is Ping || m is Pong) ==> packet_action_spec(message_path(m), false) == PacketAction::DecodeMessage,
{
    reveal_strlit("/ping");
    reveal_strlit("/gossip");
    reveal_strlit("/record");
    reveal_strlit("/announce");
    assert("/ping"@.len() == 5 && "/gossip"@.len() == 7 && "/record"@.len() == 7 && "/announce"@.len() == 9);
}

/// The action for each request path: `/ping` takes a body as the sender's
/// id (and an empty one as an unknown sender); `/gossip`, `/record` and
/// `/announce` decode a body as a message (and ignore an empty one); every
/// other path, discovery included, is ignored.
pub proof fn lemma_request_actions(path: Seq<char>, empty_body: bool)
    ensures
        path == "/ping"@ ==> packet_action_spec(path, empty_body) == (if empty_body {
            PacketAction::PingUnknown
        } else {
            PacketAction::PingFrom
        }),
        (path == "/gossip"@ || path == "/record"@ || path == "/announce"@) ==> packet_action_spec(path, empty_body) == (
        if empty_body {
            PacketAction::Ignore
        } else {
            PacketAction::DecodeMessage
        }),
        !(path == "/ping"@ || path == "/gossip"@ || path == "/record"@ || path == "/announce"@) ==> packet_action_spec(
            path,
            empty_body,
        ) == PacketAction::Ignore,
        packet_action_spec(path, empty_body) == PacketAction::DecodeMessage ==> !empty_body,
{
    reveal_strlit("/ping");
    reveal_strlit("/gossip");
    reveal_strlit("/record");
    reveal_strlit("/announce");
    assert("/ping"@.len() == 5 && "/gossip"@.len() == 7 && "/record"@.len() == 7 && "/announce"@.len() == 9);
}

/// The CoRE Link Format description of the node's resources.
pub open spec fn core_link_format_text() -> Seq<char> {
    "</gossip>;rt=\"aingle.gossip\";ct=50,</record>;rt=\"aingle.record\";ct=50,</announce>;rt=\"aingle.announce\";ct=50,</ping>;rt=\"aingle.ping\""@
}

} // verus!
