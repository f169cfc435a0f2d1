//! CoAP packets: the library's form of a packet (header fields, token,
//! options by number, payload), their encoding and decoding by `coap-lite`,
//! and the packets the endpoint builds and what it makes of those it
//! receives.

use super::{
    packet_action, packet_action_spec, path_segments, request_path, extract_path, split_path, CoapServer,
    PacketAction,
};
use crate::error::{Error, NetworkError};
use crate::text::append_str;
use coap_lite::{CoapOption, MessageClass, MessageType, Packet};
use vstd::prelude::*;
use vstd::slice::slice_to_vec;
use vstd::utf8::{decode_utf8, encode_utf8, valid_utf8};

verus! {

/// The URI-Path option number.
pub const OPTION_URI_PATH: u16 = 11;

/// The Content-Format option number.
pub const OPTION_CONTENT_FORMAT: u16 = 12;

/// The Block1 option number.
pub const OPTION_BLOCK1: u16 = 27;

/// The code of a GET request (0.01).
pub const CODE_GET: u8 = 1;

/// The code of a POST request (0.02).
pub const CODE_POST: u8 = 2;

/// The code of a Content response (2.05).
pub const CODE_CONTENT: u8 = 69;

/// The content format of JSON bodies.
pub const CONTENT_FORMAT_JSON: u8 = 50;

/// The type of a CoAP message.
#[derive(Debug, Clone, Copy, PartialEq, Eq, Structural)]
pub enum CoapType {
    /// Confirmable: the receiver acknowledges it.
    Confirmable,
    /// Non-confirmable.
    NonConfirmable,
    /// An acknowledgement.
    Acknowledgement,
    /// A reset.
    Reset,
}

/// A CoAP packet: header fields, token, options (number and value, in
/// order) and payload.
#[derive(Debug, Clone)]
pub struct CoapPacket {
    /// Protocol version (1).
    pub version: u8,
    /// Message type.
    pub msg_type: CoapType,
    /// Message code (class in the top three bits, detail in the rest).
    pub code: u8,
    /// Message id.
    pub message_id: u16,
    /// Token.
    pub token: Vec<u8>,
    /// Options, by number, in order.
    pub options: Vec<(u16, Vec<u8>)>,
    /// Payload.
    pub payload: Vec<u8>,
}

/// The abstract value of a CoAP packet.
pub struct CoapPacketView {
    pub version: u8,
    pub msg_type: CoapType,
    pub code: u8,
    pub message_id: u16,
    pub token: Seq<u8>,
    pub options: Seq<(u16, Seq<u8>)>,
    pub payload: Seq<u8>,
}

/// The abstract values of a list of options.
pub open spec fn option_views(opts: Seq<(u16, Vec<u8>)>) -> Seq<(u16, Seq<u8>)> {
    opts.map_values(|o: (u16, Vec<u8>)| (o.0, o.1@))
}

impl View for CoapPacket {
    type V = CoapPacketView;

    open spec fn view(&self) -> CoapPacketView {
        CoapPacketView {
            version: self.version,
            msg_type: self.msg_type,
            code: self.code,
            message_id: self.message_id,
            token: self.token@,
            options: option_views(self.options@),
            payload: self.payload@,
        }
    }
}

/// The packet `coap_lite::Packet::from_bytes` reads from `bytes`, if any.
pub uninterp spec fn coap_decoded(bytes: Seq<u8>) -> Option<CoapPacketView>;

/// The bytes `coap_lite::Packet::to_bytes` writes for a packet, if it can.
pub uninterp spec fn coap_encoded(p: CoapPacketView) -> Option<Seq<u8>>;

/// The text `String::from_utf8_lossy` reads from `bytes`.
pub uninterp spec fn utf8_lossy(bytes: Seq<u8>) -> Seq<char>;

/// The packet in `bytes` (`coap_lite::Packet::from_bytes`), or the
/// description of why they are not one.
///
/// Trusted: the result is a function of the bytes, named `coap_decoded`; a
/// decoded token has at most 8 bytes (longer ones are refused). The error
/// text is coap-lite's `Debug` form of its error; nothing is stated of it.
#[verifier::external_body]
fn decode_packet(bytes: &[u8]) -> (r: Result<CoapPacket, String>)
    ensures
        match r {
            Ok(p) => coap_decoded(bytes@) == Some(p@) && p.token@.len() <= 8,
            Err(_) => coap_decoded(bytes@) is None,
        },
{
    let q = match Packet::from_bytes(bytes) {
        Ok(q) => q,
        Err(e) => return Err(format!("{:?}", e)),
    };
    let msg_type = match q.header.get_type() {
        MessageType::Confirmable => CoapType::Confirmable,
        MessageType::NonConfirmable => CoapType::NonConfirmable,
        MessageType::Acknowledgement => CoapType::Acknowledgement,
        MessageType::Reset => CoapType::Reset,
    };
    let options = q.options().flat_map(|(n, l)| l.iter().map(move |v| (*n, v.clone()))).collect();
    let h = &q.header;
    Ok(CoapPacket { version: h.get_version(), msg_type, code: u8::from(h.code), message_id: h.message_id, token: q.get_token().to_vec(), options, payload: q.payload.clone() })
}

/// The bytes of a packet (`coap_lite::Packet::to_bytes`), or the
/// description of why it cannot be written (it is too large).
///
/// Trusted: the result is a function of the packet, named `coap_encoded`.
/// A token of 16 bytes or more makes coap-lite panic, so it is excluded.
/// The error text is coap-lite's `Debug` form of its error.
#[verifier::external_body]
fn encode_packet(p: &CoapPacket) -> (r: Result<Vec<u8>, String>)
    requires
        p.token@.len() < 16,
    ensures
        match r {
            Ok(b) => coap_encoded(p@) == Some(b@),
            Err(_) => coap_encoded(p@) is None,
        },
{
    let mut q = Packet::new();
    q.header.set_version(p.version);
    q.header.set_type(match p.msg_type {
        CoapType::Confirmable => MessageType::Confirmable,
        CoapType::NonConfirmable => MessageType::NonConfirmable,
        CoapType::Acknowledgement => MessageType::Acknowledgement,
        CoapType::Reset => MessageType::Reset,
    });
    q.header.code = MessageClass::from(p.code);
    q.header.message_id = p.message_id;
    q.set_token(p.token.clone());
    for (n, v) in p.options.iter() { q.add_option(CoapOption::from(*n), v.clone()); }
    q.payload = p.payload.clone();
    q.to_bytes().map_err(|e| format!("{:?}", e))
}

/// The text of some bytes, with invalid UTF-8 replaced
/// (`String::from_utf8_lossy`).
///
/// Trusted: the result is a function of the bytes, named `utf8_lossy`; for
/// valid UTF-8 it is the text the bytes encode, as the documentation says.
#[verifier::external_body]
fn text_lossy(bytes: &[u8]) -> (s: String)
    ensures
        s@ == utf8_lossy(bytes@),
        valid_utf8(bytes@) ==> s@ == decode_utf8(bytes@),
{
    String::from_utf8_lossy(bytes).into_owned()
}

/// The values of option `n` among `opts`, in order.
pub open spec fn option_values(opts: Seq<(u16, Seq<u8>)>, n: u16) -> Seq<Seq<u8>>
    decreases opts.len(),
{
    if opts.len() == 0 {
        Seq::empty()
    } else {
        let r = option_values(opts.drop_last(), n);
        if opts.last().0 == n { r.push(opts.last().1) } else { r }
    }
}

/// The URI-path segments of a packet, as text.
pub open spec fn segment_texts(p: CoapPacketView) -> Seq<Seq<char>> {
    option_values(p.options, OPTION_URI_PATH).map_values(|b: Seq<u8>| utf8_lossy(b))
}

/// The request path of a packet (see `request_path`).
pub open spec fn packet_path(p: CoapPacketView) -> Seq<char> {
    request_path(segment_texts(p))
}

/// The options of a request on `path` with a JSON body: a URI-Path option
/// per non-empty segment of the path (its UTF-8 bytes), then the content
/// format 50.
pub open spec fn request_options(path: Seq<char>) -> Seq<(u16, Seq<u8>)> {
    split_path(Seq::empty(), Seq::empty(), path).map_values(|s: Seq<char>| (OPTION_URI_PATH, encode_utf8(s)))
        + seq![(OPTION_CONTENT_FORMAT, seq![CONTENT_FORMAT_JSON])]
}

/// The text of a string's characters (`str::as_bytes`), as a vector.
fn utf8_bytes(s: &str) -> (b: Vec<u8>)
    ensures
        b@ == encode_utf8(s@),
{
    slice_to_vec(s.as_bytes())
}

/// What a received datagram is.
#[derive(Debug)]
pub enum Received {
    /// An acknowledgement of the message `message_id`.
    Ack { message_id: u16 },
    /// A request on `path` (the packet's request path), with what the
    /// server does with it.
    Request { packet: CoapPacket, path: String, action: PacketAction },
}

impl CoapPacket {
    /// The URI-path segments of the packet, as text (invalid UTF-8
    /// replaced).
    pub fn segments(&self) -> (r: Vec<String>)
        ensures
            r@.map_values(|s: String| s@) == segment_texts(self@),
    {
        let ghost opts = option_views(self.options@);
        let mut r: Vec<String> = Vec::new();
        let mut i: usize = 0;
        proof {
            assert(r@.map_values(|s: String| s@) =~= option_values(opts.subrange(0, 0), OPTION_URI_PATH).map_values(
                |b: Seq<u8>| utf8_lossy(b),
            ));
        }
        while i < self.options.len()
            invariant
                i <= self.options@.len(),
                opts == option_views(self.options@),
                r@.map_values(|s: String| s@) == option_values(opts.subrange(0, i as int), OPTION_URI_PATH).map_values(
                    |b: Seq<u8>| utf8_lossy(b),
                ),
            decreases self.options@.len() - i,
        {
            let ghost before = r@;
            proof {
                assert(opts.subrange(0, i + 1).drop_last() =~= opts.subrange(0, i as int));
                assert(opts.subrange(0, i + 1).last() == (self.options@[i as int].0, self.options@[i as int].1@));
            }
            if self.options[i].0 == OPTION_URI_PATH {
                let t = text_lossy(self.options[i].1.as_slice());
                r.push(t);
                proof {
                    assert(r@.map_values(|s: String| s@) =~= before.map_values(|s: String| s@).push(
                        utf8_lossy(self.options@[i as int].1@),
                    ));
                }
            }
            i = i + 1;
        }
        proof {
            assert(opts.subrange(0, opts.len() as int) =~= opts);
        }
        r
    }

    /// The request path of the packet.
    pub fn path(&self) -> (p: String)
        ensures
            p@ == packet_path(self@),
    {
        let segs = self.segments();
        extract_path(&segs)
    }

    /// The payload as text (invalid UTF-8 replaced).
    pub fn payload_text(&self) -> (s: String)
        ensures
            s@ == utf8_lossy(self.payload@),
            valid_utf8(self.payload@) ==> s@ == decode_utf8(self.payload@),
    {
        text_lossy(self.payload.as_slice())
    }

    /// Adds an option after the others.
    pub fn add_option(&mut self, number: u16, value: Vec<u8>)
        ensures
            final(self)@ == (CoapPacketView { options: old(self)@.options.push((number, value@)), ..old(self)@ }),
    {
        self.options.push((number, value));
        proof {
            assert(option_views(self.options@) =~= option_views(old(self).options@).push((number, value@)));
        }
    }

    /// The bytes of the packet; a packet that cannot be written gives a
    /// network error whose text begins with `context` and `: `.
    pub fn to_bytes(&self, context: &str) -> (r: Result<Vec<u8>, Error>)
        requires
            self.token@.len() < 16,
        ensures
            coap_encoded(self@) matches Some(b) ==> (r matches Ok(v) && v@ == b),
            coap_encoded(self@) is None ==> (r matches Err(Error::Network(NetworkError::Other(m))) && exists|d: Seq<char>|
                m@ == context@ + ": "@ + d),
    {
        match encode_packet(self) {
            Ok(b) => Ok(b),
            Err(detail) => {
                let mut m = String::new();
                append_str(&mut m, context);
                append_str(&mut m, ": ");
                append_str(&mut m, detail.as_str());
                proof {
                    assert(m@ =~= context@ + ": "@ + detail@);
                }
                Err(Error::network(m.as_str()))
            },
        }
    }
}

impl CoapServer {
    /// What a received datagram is: a packet that cannot be read gives a
    /// network error whose text begins "Failed to parse CoAP packet: "; an
    /// acknowledgement gives its message id; any other packet is a request
    /// on its path, with the action `packet_action` decides from the path
    /// and whether the body is empty.
    pub fn receive(&self, datagram: &[u8]) -> (r: Result<Received, Error>)
        ensures
            coap_decoded(datagram@) is None ==> (r matches Err(Error::Network(NetworkError::Other(m))) && exists|d: Seq<char>|
                m@ == "Failed to parse CoAP packet: "@ + d),
            coap_decoded(datagram@) matches Some(p) ==> (p.msg_type == CoapType::Acknowledgement ==> (r matches Ok(
                Received::Ack { message_id },
            ) && message_id == p.message_id)),
            coap_decoded(datagram@) matches Some(p) ==> (p.msg_type != CoapType::Acknowledgement ==> (r matches Ok(
                Received::Request { packet, path, action },
            ) && packet@ == p && path@ == packet_path(p) && action == packet_action_spec(
                packet_path(p),
                p.payload.len() == 0,
            ))),
    {
        match decode_packet(datagram) {
            Err(detail) => {
                let mut m = String::new();
                append_str(&mut m, "Failed to parse CoAP packet: ");
                append_str(&mut m, detail.as_str());
                proof {
                    assert(m@ =~= "Failed to parse CoAP packet: "@ + detail@);
                }
                Err(Error::network(m.as_str()))
            },
            Ok(p) => {
                if p.msg_type == CoapType::Acknowledgement {
                    Ok(Received::Ack { message_id: p.message_id })
                } else {
                    let path = p.path();
                    let action = packet_action(path.as_str(), p.payload.len() == 0);
                    Ok(Received::Request { packet: p, path, action })
                }
            },
        }
    }

    /// A POST request on `path` with a JSON `payload`: confirmable or not,
    /// the next message id, a fresh 4-byte token, a URI-Path option per
    /// segment of the path and the content format 50.
    pub fn request_packet(&mut self, path: &str, payload: &[u8], confirmable: bool) -> (p: CoapPacket)
        ensures
            p.version == 1,
            p.msg_type == (if confirmable { CoapType::Confirmable } else { CoapType::NonConfirmable }),
            p.code == CODE_POST,
            p.message_id == (old(self).spec_message_id() + 1) % 0x1_0000,
            p.token@.len() == 4,
            p@.options == request_options(path@),
            p.payload@ == payload@,
            final(self).spec_message_id() == p.message_id,
            final(self).spec_bind_addr() == old(self).spec_bind_addr(),
            final(self).spec_port() == old(self).spec_port(),
            final(self).spec_node_id() == old(self).spec_node_id(),
            final(self).spec_running() == old(self).spec_running(),
    {
        let message_id = self.next_message_id();
        let token = self.generate_token();
        let segs = path_segments(path);
        let ghost sv = segs@.map_values(|s: String| s@);
        let mut options: Vec<(u16, Vec<u8>)> = Vec::new();
        let mut i: usize = 0;
        while i < segs.len()
            invariant
                i <= segs@.len(),
                sv == segs@.map_values(|s: String| s@),
                option_views(options@) == sv.subrange(0, i as int).map_values(
                    |s: Seq<char>| (OPTION_URI_PATH, encode_utf8(s)),
                ),
            decreases segs@.len() - i,
        {
            let b = utf8_bytes(segs[i].as_str());
            let ghost before = options@;
            options.push((OPTION_URI_PATH, b));
            proof {
                assert(option_views(options@) =~= option_views(before).push((OPTION_URI_PATH, encode_utf8(sv[i as int]))));
                assert(sv.subrange(0, i + 1).map_values(|s: Seq<char>| (OPTION_URI_PATH, encode_utf8(s))) =~= sv.subrange(
                    0,
                    i as int,
                ).map_values(|s: Seq<char>| (OPTION_URI_PATH, encode_utf8(s))).push((OPTION_URI_PATH, encode_utf8(sv[i as int]))));
            }
            i = i + 1;
        }
        let ghost mid = options@;
        let mut cf: Vec<u8> = Vec::new();
        cf.push(CONTENT_FORMAT_JSON);
        options.push((OPTION_CONTENT_FORMAT, cf));
        proof {
            assert(sv.subrange(0, sv.len() as int) =~= sv);
            assert(option_views(options@) =~= option_views(mid).push((OPTION_CONTENT_FORMAT, seq![CONTENT_FORMAT_JSON])));
            assert(option_views(options@) =~= request_options(path@));
        }
        let msg_type = if confirmable { CoapType::Confirmable } else { CoapType::NonConfirmable };
        CoapPacket { version: 1, msg_type, code: CODE_POST, message_id, token, options, payload: slice_to_vec(payload) }
    }

    /// A discovery request (`GET /.well-known/core`), not confirmable, with
    /// the next message id and a fresh 4-byte token.
    pub fn discovery_packet(&mut self) -> (p: CoapPacket)
        ensures
            p.version == 1,
            p.msg_type == CoapType::NonConfirmable,
            p.code == CODE_GET,
            p.message_id == (old(self).spec_message_id() + 1) % 0x1_0000,
            p.token@.len() == 4,
            p@.options == seq![(OPTION_URI_PATH, encode_utf8(".well-known"@)), (OPTION_URI_PATH, encode_utf8("core"@))],
            p.payload@.len() == 0,
            final(self).spec_message_id() == p.message_id,
            final(self).spec_bind_addr() == old(self).spec_bind_addr(),
            final(self).spec_port() == old(self).spec_port(),
            final(self).spec_node_id() == old(self).spec_node_id(),
            final(self).spec_running() == old(self).spec_running(),
    {
        let message_id = self.next_message_id();
        let token = self.generate_token();
        let mut options: Vec<(u16, Vec<u8>)> = Vec::new();
        let w = utf8_bytes(".well-known");
        let c = utf8_bytes("core");
        options.push((OPTION_URI_PATH, w));
        options.push((OPTION_URI_PATH, c));
        proof {
            assert(option_views(options@) =~= seq![(OPTION_URI_PATH, encode_utf8(".well-known"@)), (OPTION_URI_PATH, encode_utf8("core"@))]);
        }
        CoapPacket { version: 1, msg_type: CoapType::NonConfirmable, code: CODE_GET, message_id, token, options, payload: Vec::new() }
    }
}

/// The acknowledgement answering `request` with `code`: the request's
/// message id and token; with a body, the content format 50 and the body.
pub fn response_packet(request: &CoapPacket, code: u8, payload: Option<&[u8]>) -> (p: CoapPacket)
    ensures
        p.version == 1,
        p.msg_type == CoapType::Acknowledgement,
        p.code == code,
        p.message_id == request.message_id,
        p.token@ == request.token@,
        payload is None ==> p@.options.len() == 0 && p.payload@.len() == 0,
        payload matches Some(b) ==> p@.options == seq![(OPTION_CONTENT_FORMAT, seq![CONTENT_FORMAT_JSON])] && p.payload@ == b@,
{
    let token = slice_to_vec(request.token.as_slice());
    let mut options: Vec<(u16, Vec<u8>)> = Vec::new();
    let body = match payload {
        Some(b) => {
            let mut cf: Vec<u8> = Vec::new();
            cf.push(CONTENT_FORMAT_JSON);
            options.push((OPTION_CONTENT_FORMAT, cf));
            proof {
                assert(option_views(options@) =~= seq![(OPTION_CONTENT_FORMAT, seq![CONTENT_FORMAT_JSON])]);
            }
            slice_to_vec(b)
        },
        None => {
            proof {
                assert(option_views(options@) =~= Seq::<(u16, Seq<u8>)>::empty());
            }
            Vec::new()
        },
    };
    CoapPacket {
        version: 1,
        msg_type: CoapType::Acknowledgement,
        code,
        message_id: request.message_id,
        token,
        options,
        payload: body,
    }
}

} // verus!
