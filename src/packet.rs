//! Packet framing: `VarInt length | VarInt id | body`, where the length counts
//! the id's bytes and the body's.

use crate::varint::{var_enc, write_var_u32};
use crate::wire::{en_var, lemma_var_round, read_var, sp_var};
use vstd::prelude::*;

verus! {

/// A packet type bound to a numeric id (ids are scoped by connection state).
pub trait Packet: Sized {
    spec fn spec_id() -> u32;

    fn get_id() -> (r: u32)
        ensures
            r == Self::spec_id(),
    ;
}

/// A packet type that can be read from the body of its frame.
pub trait Decode: Packet {
    /// The body holds a packet of this type.
    spec fn decodable(body: Seq<u8>) -> bool;

    /// `v` is the packet that the body holds.
    spec fn decodes_to(body: Seq<u8>, v: Self) -> bool;

    fn decode(body: &[u8]) -> (r: Option<Self>)
        ensures
            r is Some <==> Self::decodable(body@),
            r matches Some(v) ==> Self::decodes_to(body@, v),
    ;
}

/// A packet's bytes after the length: the id, then the fields.
pub open spec fn payload(id: u32, fields: Seq<u8>) -> Seq<u8> {
    en_var(id) + fields
}

/// A whole frame around a payload.
pub open spec fn frame(payload: Seq<u8>) -> Seq<u8> {
    var_enc(payload.len()) + payload
}

/// Where a frame stands in a buffer whose frame starts at `pos`.
pub struct FrameAt {
    /// The declared length.
    pub len: u32,
    /// The packet id.
    pub id: u32,
    /// First byte of the body, just after the id.
    pub body: usize,
    /// First byte after the frame.
    pub end: usize,
}

/// The frame at `pos`: its length, its id, where its body starts and where it
/// ends. `None` when the length or the id is malformed or truncated, or the
/// id runs past the declared length.
pub open spec fn sp_frame(b: Seq<u8>, pos: int) -> Option<(u32, u32, int, int)> {
    match sp_var(b, pos) {
        Some((len, p1)) => if p1 + len <= b.len() {
            match sp_var(b.subrange(0, p1 + len), p1) {
                Some((id, p2)) => Some((len, id, p2, p1 + len)),
                None => None,
            }
        } else {
            None
        },
        None => None,
    }
}

/// The body of the frame at `pos` and the frame's end, when its id is `id`.
pub open spec fn sp_body(b: Seq<u8>, pos: int, id: u32) -> Option<(Seq<u8>, int)> {
    match sp_frame(b, pos) {
        Some((_, fid, body, end)) => if fid == id {
            Some((b.subrange(body, end), end))
        } else {
            None
        },
        None => None,
    }
}

/// Reads the frame at `pos` as a packet of type `P`: the id must be `P`'s
/// and the body must hold a `P`. Gives the packet and the end of the frame.
pub fn read_packet<P: Decode>(buf: &[u8], pos: usize) -> (r: Option<(P, usize)>)
    ensures
        match sp_body(buf@, pos as int, P::spec_id()) {
            Some((body, end)) => (r is Some <==> P::decodable(body)) && (r matches Some((v, q))
                ==> P::decodes_to(body, v) && q as int == end),
            None => r is None,
        },
{
    match read_frame(buf, pos) {
        Some(f) => {
            if f.id == P::get_id() {
                let body = &buf[f.body..f.end];
                match P::decode(body) {
                    Some(v) => Some((v, f.end)),
                    None => None,
                }
            } else {
                None
            }
        },
        None => None,
    }
}

/// Reads the header of the frame at `pos`.
pub fn read_frame(buf: &[u8], pos: usize) -> (r: Option<FrameAt>)
    ensures
        match sp_frame(buf@, pos as int) {
            Some((len, id, body, end)) => r matches Some(f) && f.len == len && f.id == id
                && f.body as int == body && f.end as int == end,
            None => r is None,
        },
        r matches Some(f) ==> pos < f.body <= f.end <= buf@.len(),
{
    match read_var(buf, pos) {
        Some((len, p1)) => {
            if (len as usize) <= buf.len() - p1 {
                let end = p1 + len as usize;
                let inner = &buf[0..end];
                assert(inner@ =~= buf@.subrange(0, end as int));
                match read_var(inner, p1) {
                    Some((id, p2)) => Some(FrameAt { len, id, body: p2, end }),
                    None => None,
                }
            } else {
                None
            }
        },
        None => None,
    }
}

/// Appends the frame of `payload` (id and fields) to `out`; returns the
/// number of bytes written.
pub fn write_frame(out: &mut Vec<u8>, payload: &Vec<u8>) -> (r: usize)
    requires
        payload@.len() <= u32::MAX,
    ensures
        final(out)@ == old(out)@ + frame(payload@),
        r == frame(payload@).len(),
{
    let n = payload.len();
    let before = out.len();
    write_var_u32(out, n as u32);
    out.extend_from_slice(payload.as_slice());
    assert(final(out)@ =~= old(out)@ + frame(payload@));
    out.len() - before
}

/// A frame and whatever follows it reads back as its own length, id, body
/// and end.
pub proof fn lemma_frame_round(id: u32, fields: Seq<u8>, rest: Seq<u8>)
    requires
        payload(id, fields).len() <= u32::MAX,
    ensures
        sp_frame(frame(payload(id, fields)) + rest, 0) == Some(
            (
                payload(id, fields).len() as u32,
                id,
                (var_enc(payload(id, fields).len()).len() + en_var(id).len()) as int,
                frame(payload(id, fields)).len() as int,
            ),
        ),
{
    let p = payload(id, fields);
    let n = p.len() as u32;
    let b = frame(p) + rest;
    let h = var_enc(n as nat);
    assert(b.subrange(0, h.len() as int) =~= h);
    lemma_var_round(b, 0, n);
    let end = h.len() + p.len();
    let inner = b.subrange(0, end as int);
    assert(inner.subrange(h.len() as int, (h.len() + en_var(id).len()) as int) =~= en_var(id));
    lemma_var_round(inner, h.len() as int, id);
}

} // verus!
