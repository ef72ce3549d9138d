//! Packets of the handshake and status states.

use crate::packet::{read_frame, read_packet, sp_body, sp_frame, Decode, Packet};
use crate::varint::write_var_u32;
use crate::wire::{
    en_str, en_u16, en_u64, en_var, lemma_str_round, lemma_u16_round, lemma_u64_round,
    lemma_var_round, read_mc_string, read_u16, read_u64, read_var, sp_str, sp_u16, sp_u64, sp_var,
    str_fits, write_mc_string, write_u64,
};
use vstd::prelude::*;

verus! {

/// The length value with which an old client opens a legacy server-list ping.
pub const LEGACY_PING_LENGTH: u32 = 0xfe;

pub struct Handshake {
    pub protocol: u32,
    pub address: String,
    pub port: u16,
    /// 1 for status, 2 for login.
    pub next_state: u32,
}

pub struct HandshakeView {
    pub protocol: u32,
    pub address: Seq<char>,
    pub port: u16,
    pub next_state: u32,
}

impl View for Handshake {
    type V = HandshakeView;

    open spec fn view(&self) -> HandshakeView {
        HandshakeView {
            protocol: self.protocol,
            address: self.address@,
            port: self.port,
            next_state: self.next_state,
        }
    }
}

pub open spec fn en_handshake(h: HandshakeView) -> Seq<u8> {
    en_var(h.protocol) + en_str(h.address) + en_u16(h.port) + en_var(h.next_state)
}

pub open spec fn sp_handshake(b: Seq<u8>) -> Option<HandshakeView> {
    match sp_var(b, 0) {
        Some((protocol, p1)) => match sp_str(b, p1) {
            Some((address, p2)) => match sp_u16(b, p2) {
                Some((port, p3)) => match sp_var(b, p3) {
                    Some((next_state, _)) => Some(HandshakeView { protocol, address, port, next_state }),
                    None => None,
                },
                None => None,
            },
            None => None,
        },
        None => None,
    }
}

/// The handshake frame at `pos`: a legacy ping length is refused before
/// anything else is read.
pub open spec fn sp_read_handshake(b: Seq<u8>, pos: int) -> Option<(HandshakeView, int)> {
    match sp_frame(b, pos) {
        Some((len, _, _, _)) => if len == LEGACY_PING_LENGTH {
            None
        } else {
            match sp_body(b, pos, 0) {
                Some((body, end)) => match sp_handshake(body) {
                    Some(h) => Some((h, end)),
                    None => None,
                },
                None => None,
            }
        },
        None => None,
    }
}

impl Packet for Handshake {
    open spec fn spec_id() -> u32 {
        0
    }

    fn get_id() -> (r: u32) {
        0
    }
}

impl Decode for Handshake {
    open spec fn decodable(body: Seq<u8>) -> bool {
        sp_handshake(body) is Some
    }

    open spec fn decodes_to(body: Seq<u8>, v: Self) -> bool {
        sp_handshake(body) == Some(v@)
    }

    fn decode(body: &[u8]) -> (r: Option<Self>) {
        let (protocol, p1) = read_var(body, 0)?;
        let (address, p2) = read_mc_string(body, p1)?;
        let (port, p3) = read_u16(body, p2)?;
        let (next_state, _) = read_var(body, p3)?;
        Some(Handshake { protocol, address, port, next_state })
    }
}

impl Handshake {
    /// Reads the opening packet of a connection at `pos`; `None` for a
    /// legacy ping, a malformed frame, another id or a malformed body.
    pub fn read(buf: &[u8], pos: usize) -> (r: Option<(Handshake, usize)>)
        ensures
            match sp_read_handshake(buf@, pos as int) {
                Some((h, end)) => r matches Some((v, q)) && v@ == h && q as int == end,
                None => r is None,
            },
    {
        let f = read_frame(buf, pos)?;
        if f.len == LEGACY_PING_LENGTH {
            return None;
        }
        read_packet::<Handshake>(buf, pos)
    }
}

/// Decoding the encoding of a handshake gives it back.
pub proof fn handshake_round_trip(h: HandshakeView)
    requires
        str_fits(h.address),
    ensures
        sp_handshake(en_handshake(h)) == Some(h),
{
    let e1 = en_var(h.protocol);
    let e2 = en_str(h.address);
    let e3 = en_u16(h.port);
    let e4 = en_var(h.next_state);
    let b = en_handshake(h);
    assert(b.subrange(0, e1.len() as int) =~= e1);
    lemma_var_round(b, 0, h.protocol);
    let p1 = e1.len() as int;
    assert(b.subrange(p1, p1 + e2.len()) =~= e2);
    lemma_str_round(b, p1, h.address);
    let p2 = p1 + e2.len();
    assert(b.subrange(p2, p2 + e3.len()) =~= e3);
    lemma_u16_round(b, p2, h.port);
    let p3 = p2 + e3.len();
    assert(b.subrange(p3, p3 + e4.len()) =~= e4);
    lemma_var_round(b, p3, h.next_state);
}

/// The client's status request: no fields.
pub struct Request {}

impl Packet for Request {
    open spec fn spec_id() -> u32 {
        0
    }

    fn get_id() -> (r: u32) {
        0
    }
}

impl Decode for Request {
    open spec fn decodable(body: Seq<u8>) -> bool {
        body.len() == 0
    }

    open spec fn decodes_to(body: Seq<u8>, v: Self) -> bool {
        body.len() == 0
    }

    fn decode(body: &[u8]) -> (r: Option<Self>) {
        if body.len() == 0 {
            Some(Request {  })
        } else {
            None
        }
    }
}

/// The status response: the JSON text of a [`ResponseData`] snapshot.
pub struct Response {
    pub json: String,
}

impl Packet for Response {
    open spec fn spec_id() -> u32 {
        0
    }

    fn get_id() -> (r: u32) {
        0
    }
}

impl Response {
    /// The id, then the JSON text as a string.
    pub fn write_impl(&self) -> (r: Vec<u8>)
        requires
            str_fits(self.json@),
        ensures
            r@ == en_var(Self::spec_id()) + en_str(self.json@),
    {
        let mut out: Vec<u8> = Vec::new();
        write_var_u32(&mut out, Self::get_id());
        write_mc_string(&mut out, self.json.as_str());
        out
    }
}

pub struct Ping {
    pub payload: u64,
}

impl Packet for Ping {
    open spec fn spec_id() -> u32 {
        1
    }

    fn get_id() -> (r: u32) {
        1
    }
}

impl Decode for Ping {
    open spec fn decodable(body: Seq<u8>) -> bool {
        sp_u64(body, 0) is Some
    }

    open spec fn decodes_to(body: Seq<u8>, v: Self) -> bool {
        sp_u64(body, 0) matches Some((p, _)) && v.payload == p
    }

    fn decode(body: &[u8]) -> (r: Option<Self>) {
        let (payload, _) = read_u64(body, 0)?;
        Some(Ping { payload })
    }
}

/// Decoding the encoding of a ping gives its payload back.
pub proof fn ping_round_trip(payload: u64)
    ensures
        Ping::decodes_to(en_u64(payload), Ping { payload }),
        Ping::decodable(en_u64(payload)),
{
    let b = en_u64(payload);
    assert(b.subrange(0, b.len() as int) =~= b);
    lemma_u64_round(b, 0, payload);
}

pub struct Pong {
    pub payload: u64,
}

impl Packet for Pong {
    open spec fn spec_id() -> u32 {
        1
    }

    fn get_id() -> (r: u32) {
        1
    }
}

impl Pong {
    /// The id, then the eight payload bytes.
    pub fn write_impl(&self) -> (r: Vec<u8>)
        ensures
            r@ == en_var(Self::spec_id()) + en_u64(self.payload),
    {
        let mut out: Vec<u8> = Vec::new();
        write_var_u32(&mut out, Self::get_id());
        write_u64(&mut out, self.payload);
        out
    }
}

} // verus!
