//! Fixed-width big-endian fields and length-prefixed UTF-8 strings.
//!
//! Each field has an encoding `en_*` and a reader `sp_*` over a whole buffer
//! at an absolute position, giving the value and the position after it.

use crate::varint::{decode_var_u32, var_enc, var_u32, varint_round_trip, write_var_u32};
use byteorder::{BigEndian, ByteOrder};
use vstd::prelude::*;
use vstd::utf8::{decode_utf8, encode_utf8, encode_utf8_decode_utf8, encode_utf8_valid_utf8, valid_utf8};

verus! {

/// `256^n`.
pub open spec fn p256(n: nat) -> nat
    decreases n,
{
    if n == 0 {
        1
    } else {
        256 * p256((n - 1) as nat)
    }
}

/// The `n` low bytes of `v`, most significant first.
pub open spec fn be_enc(v: nat, n: nat) -> Seq<u8>
    decreases n,
{
    if n == 0 {
        seq![]
    } else {
        be_enc(v / 256, (n - 1) as nat).push((v % 256) as u8)
    }
}

/// The number that `s` holds, most significant byte first.
pub open spec fn be_val(s: Seq<u8>) -> nat
    decreases s.len(),
{
    if s.len() == 0 {
        0
    } else {
        be_val(s.drop_last()) * 256 + s.last() as nat
    }
}

pub open spec fn en_u8(v: u8) -> Seq<u8> {
    seq![v]
}

pub open spec fn en_i8(v: i8) -> Seq<u8> {
    seq![v as u8]
}

pub open spec fn en_bool(v: bool) -> Seq<u8> {
    seq![if v { 1u8 } else { 0u8 }]
}

pub open spec fn en_u16(v: u16) -> Seq<u8> {
    be_enc(v as nat, 2)
}

pub open spec fn en_u32(v: u32) -> Seq<u8> {
    be_enc(v as nat, 4)
}

pub open spec fn en_i32(v: i32) -> Seq<u8> {
    be_enc((v as u32) as nat, 4)
}

pub open spec fn en_u64(v: u64) -> Seq<u8> {
    be_enc(v as nat, 8)
}

pub open spec fn en_i64(v: i64) -> Seq<u8> {
    be_enc((v as u64) as nat, 8)
}

pub open spec fn en_u128(v: u128) -> Seq<u8> {
    be_enc(v as nat, 16)
}

pub open spec fn en_var(v: u32) -> Seq<u8> {
    var_enc(v as nat)
}

/// A string on the wire: its UTF-8 byte count as a VarInt, then the bytes.
pub open spec fn en_str(s: Seq<char>) -> Seq<u8> {
    var_enc(encode_utf8(s).len()) + encode_utf8(s)
}

/// A string fits on the wire when its byte count fits a 32-bit VarInt.
pub open spec fn str_fits(s: Seq<char>) -> bool {
    encode_utf8(s).len() <= u32::MAX
}

/// `n` bytes at `pos` read as a big-endian number.
pub open spec fn sp_fixed(b: Seq<u8>, pos: int, n: nat) -> Option<(nat, int)> {
    if 0 <= pos && pos + n <= b.len() {
        Some((be_val(b.subrange(pos, pos + n)), pos + n))
    } else {
        None
    }
}

pub open spec fn sp_u8(b: Seq<u8>, pos: int) -> Option<(u8, int)> {
    if 0 <= pos < b.len() {
        Some((b[pos], pos + 1))
    } else {
        None
    }
}

pub open spec fn sp_i8(b: Seq<u8>, pos: int) -> Option<(i8, int)> {
    match sp_u8(b, pos) {
        Some((v, p)) => Some((v as i8, p)),
        None => None,
    }
}

/// A flag byte: true exactly when it is 1.
pub open spec fn sp_bool(b: Seq<u8>, pos: int) -> Option<(bool, int)> {
    match sp_u8(b, pos) {
        Some((v, p)) => Some((v == 1, p)),
        None => None,
    }
}

pub open spec fn sp_u16(b: Seq<u8>, pos: int) -> Option<(u16, int)> {
    match sp_fixed(b, pos, 2) {
        Some((v, p)) => Some((v as u16, p)),
        None => None,
    }
}

pub open spec fn sp_u32(b: Seq<u8>, pos: int) -> Option<(u32, int)> {
    match sp_fixed(b, pos, 4) {
        Some((v, p)) => Some((v as u32, p)),
        None => None,
    }
}

pub open spec fn sp_u64(b: Seq<u8>, pos: int) -> Option<(u64, int)> {
    match sp_fixed(b, pos, 8) {
        Some((v, p)) => Some((v as u64, p)),
        None => None,
    }
}

pub open spec fn sp_i64(b: Seq<u8>, pos: int) -> Option<(i64, int)> {
    match sp_u64(b, pos) {
        Some((v, p)) => Some((v as i64, p)),
        None => None,
    }
}

pub open spec fn sp_var(b: Seq<u8>, pos: int) -> Option<(u32, int)> {
    if 0 <= pos <= b.len() {
        match var_u32(b.skip(pos)) {
            Some((v, n)) => Some((v, pos + n)),
            None => None,
        }
    } else {
        None
    }
}

/// A string: the byte count, then that many bytes, which must be UTF-8.
pub open spec fn sp_str(b: Seq<u8>, pos: int) -> Option<(Seq<char>, int)> {
    match sp_var(b, pos) {
        Some((n, p)) => if p + n <= b.len() && valid_utf8(b.subrange(p, p + n)) {
            Some((decode_utf8(b.subrange(p, p + n)), p + n))
        } else {
            None
        },
        None => None,
    }
}

/// A read at a `usize` position gives what the reader over the whole
/// buffer gives.
pub open spec fn agrees<T>(r: Option<(T, usize)>, s: Option<(T, int)>) -> bool {
    match r {
        Some((v, q)) => s == Some((v, q as int)),
        None => s is None,
    }
}

/// `b` holds `e` at `pos`.
pub open spec fn holds_at(b: Seq<u8>, pos: int, e: Seq<u8>) -> bool {
    0 <= pos && pos + e.len() <= b.len() && b.subrange(pos, pos + e.len()) == e
}

proof fn lemma_be_round(v: nat, n: nat)
    requires
        v < p256(n),
    ensures
        be_enc(v, n).len() == n,
        be_val(be_enc(v, n)) == v,
    decreases n,
{
    if n > 0 {
        assert(v / 256 < p256((n - 1) as nat)) by (nonlinear_arith)
            requires
                v < 256 * p256((n - 1) as nat),
        ;
        lemma_be_round(v / 256, (n - 1) as nat);
        let e = be_enc(v, n);
        assert(e.drop_last() =~= be_enc(v / 256, (n - 1) as nat));
    }
}

/// The fixed-width encodings take their width.
pub proof fn lemma_fixed_lengths()
    ensures
        forall|v: u16| #[trigger] en_u16(v).len() == 2,
        forall|v: u32| #[trigger] en_u32(v).len() == 4,
        forall|v: i32| #[trigger] en_i32(v).len() == 4,
        forall|v: u64| #[trigger] en_u64(v).len() == 8,
        forall|v: i64| #[trigger] en_i64(v).len() == 8,
        forall|v: u128| #[trigger] en_u128(v).len() == 16,
{
    reveal_with_fuel(p256, 17);
    assert forall|v: u16| #[trigger] en_u16(v).len() == 2 by {
        lemma_be_round(v as nat, 2);
    }
    assert forall|v: u32| #[trigger] en_u32(v).len() == 4 by {
        lemma_be_round(v as nat, 4);
    }
    assert forall|v: i32| #[trigger] en_i32(v).len() == 4 by {
        lemma_be_round((v as u32) as nat, 4);
    }
    assert forall|v: u64| #[trigger] en_u64(v).len() == 8 by {
        lemma_be_round(v as nat, 8);
    }
    assert forall|v: i64| #[trigger] en_i64(v).len() == 8 by {
        lemma_be_round((v as u64) as nat, 8);
    }
    assert forall|v: u128| #[trigger] en_u128(v).len() == 16 by {
        lemma_be_round(v as nat, 16);
    }
}

proof fn lemma_fixed_round(b: Seq<u8>, pos: int, v: nat, n: nat)
    requires
        v < p256(n),
        holds_at(b, pos, be_enc(v, n)),
    ensures
        sp_fixed(b, pos, n) == Some((v, pos + n)),
        be_enc(v, n).len() == n,
{
    lemma_be_round(v, n);
}

pub proof fn lemma_u8_round(b: Seq<u8>, pos: int, v: u8)
    requires
        holds_at(b, pos, en_u8(v)),
    ensures
        sp_u8(b, pos) == Some((v, pos + 1)),
{
    assert(b[pos] == b.subrange(pos, pos + 1)[0]);
}

pub proof fn lemma_i8_round(b: Seq<u8>, pos: int, v: i8)
    requires
        holds_at(b, pos, en_i8(v)),
    ensures
        sp_i8(b, pos) == Some((v, pos + 1)),
{
    assert(b[pos] == b.subrange(pos, pos + 1)[0]);
    assert((v as u8) as i8 == v) by (bit_vector);
}

pub proof fn lemma_bool_round(b: Seq<u8>, pos: int, v: bool)
    requires
        holds_at(b, pos, en_bool(v)),
    ensures
        sp_bool(b, pos) == Some((v, pos + 1)),
{
    assert(b[pos] == b.subrange(pos, pos + 1)[0]);
}

pub proof fn lemma_u16_round(b: Seq<u8>, pos: int, v: u16)
    requires
        holds_at(b, pos, en_u16(v)),
    ensures
        sp_u16(b, pos) == Some((v, pos + 2)),
        en_u16(v).len() == 2,
{
    reveal_with_fuel(p256, 3);
    lemma_fixed_round(b, pos, v as nat, 2);
}

pub proof fn lemma_u32_round(b: Seq<u8>, pos: int, v: u32)
    requires
        holds_at(b, pos, en_u32(v)),
    ensures
        sp_u32(b, pos) == Some((v, pos + 4)),
        en_u32(v).len() == 4,
{
    reveal_with_fuel(p256, 5);
    lemma_fixed_round(b, pos, v as nat, 4);
}

pub proof fn lemma_u64_round(b: Seq<u8>, pos: int, v: u64)
    requires
        holds_at(b, pos, en_u64(v)),
    ensures
        sp_u64(b, pos) == Some((v, pos + 8)),
        en_u64(v).len() == 8,
{
    reveal_with_fuel(p256, 9);
    lemma_fixed_round(b, pos, v as nat, 8);
}

pub proof fn lemma_i64_round(b: Seq<u8>, pos: int, v: i64)
    requires
        holds_at(b, pos, en_i64(v)),
    ensures
        sp_i64(b, pos) == Some((v, pos + 8)),
        en_i64(v).len() == 8,
{
    lemma_u64_round(b, pos, v as u64);
    assert((v as u64) as i64 == v) by (bit_vector);
}

pub proof fn lemma_var_round(b: Seq<u8>, pos: int, v: u32)
    requires
        holds_at(b, pos, en_var(v)),
    ensures
        sp_var(b, pos) == Some((v, pos + en_var(v).len())),
{
    let e = en_var(v);
    let rest = b.skip(pos + e.len());
    assert(b.skip(pos) =~= e + rest);
    varint_round_trip(v, rest);
}

pub proof fn lemma_str_round(b: Seq<u8>, pos: int, s: Seq<char>)
    requires
        str_fits(s),
        holds_at(b, pos, en_str(s)),
    ensures
        sp_str(b, pos) == Some((s, pos + en_str(s).len())),
{
    let u = encode_utf8(s);
    let n = u.len() as u32;
    let e = var_enc(n as nat);
    assert(b.subrange(pos, pos + e.len()) =~= en_str(s).subrange(0, e.len() as int));
    assert(en_str(s).subrange(0, e.len() as int) =~= e);
    lemma_var_round(b, pos, n);
    let p = pos + e.len();
    assert(b.subrange(p, p + u.len()) =~= en_str(s).subrange(e.len() as int, en_str(s).len() as int));
    assert(en_str(s).subrange(e.len() as int, en_str(s).len() as int) =~= u);
    encode_utf8_valid_utf8(s);
    encode_utf8_decode_utf8(s);
}

/// Relies on byteorder's `BigEndian::write_u16`: the two bytes of `n`, most
/// significant first.
#[verifier::external_body]
fn be_u16_bytes(n: u16) -> (r: Vec<u8>)
    ensures
        r@ == be_enc(n as nat, 2),
{
    let mut b = [0u8; 2];
    BigEndian::write_u16(&mut b, n);
    b.to_vec()
}

/// Relies on byteorder's `BigEndian::write_u32`: the four bytes of `n`, most
/// significant first.
#[verifier::external_body]
fn be_u32_bytes(n: u32) -> (r: Vec<u8>)
    ensures
        r@ == be_enc(n as nat, 4),
{
    let mut b = [0u8; 4];
    BigEndian::write_u32(&mut b, n);
    b.to_vec()
}

/// Relies on byteorder's `BigEndian::write_u64`: the eight bytes of `n`, most
/// significant first.
#[verifier::external_body]
fn be_u64_bytes(n: u64) -> (r: Vec<u8>)
    ensures
        r@ == be_enc(n as nat, 8),
{
    let mut b = [0u8; 8];
    BigEndian::write_u64(&mut b, n);
    b.to_vec()
}

/// Relies on byteorder's `BigEndian::write_u128`: the sixteen bytes of `n`,
/// most significant first.
#[verifier::external_body]
fn be_u128_bytes(n: u128) -> (r: Vec<u8>)
    ensures
        r@ == be_enc(n as nat, 16),
{
    let mut b = [0u8; 16];
    BigEndian::write_u128(&mut b, n);
    b.to_vec()
}

/// Relies on byteorder's `BigEndian::read_u16`: the number in the first two
/// bytes, most significant first (it panics on a shorter slice).
#[verifier::external_body]
fn be_u16_of(b: &[u8]) -> (r: u16)
    requires
        b@.len() >= 2,
    ensures
        r as nat == be_val(b@.take(2)),
{
    BigEndian::read_u16(b)
}

/// Relies on byteorder's `BigEndian::read_u32`: the number in the first four
/// bytes, most significant first (it panics on a shorter slice).
#[verifier::external_body]
fn be_u32_of(b: &[u8]) -> (r: u32)
    requires
        b@.len() >= 4,
    ensures
        r as nat == be_val(b@.take(4)),
{
    BigEndian::read_u32(b)
}

/// Relies on byteorder's `BigEndian::read_u64`: the number in the first eight
/// bytes, most significant first (it panics on a shorter slice).
#[verifier::external_body]
fn be_u64_of(b: &[u8]) -> (r: u64)
    requires
        b@.len() >= 8,
    ensures
        r as nat == be_val(b@.take(8)),
{
    BigEndian::read_u64(b)
}

/// Relies on std's `String::from_utf8`: it accepts exactly the valid UTF-8
/// byte sequences, and the string then holds the characters they encode.
#[verifier::external_body]
fn string_from_utf8(b: &[u8]) -> (r: Option<String>)
    ensures
        r is Some <==> valid_utf8(b@),
        r matches Some(s) ==> s@ == decode_utf8(b@),
{
    String::from_utf8(b.to_vec()).ok()
}

pub fn write_u8(out: &mut Vec<u8>, v: u8)
    ensures
        final(out)@ == old(out)@ + en_u8(v),
{
    out.push(v);
    assert(final(out)@ =~= old(out)@ + en_u8(v));
}

pub fn write_i8(out: &mut Vec<u8>, v: i8)
    ensures
        final(out)@ == old(out)@ + en_i8(v),
{
    out.push(v as u8);
    assert(final(out)@ =~= old(out)@ + en_i8(v));
}

pub fn write_bool(out: &mut Vec<u8>, v: bool)
    ensures
        final(out)@ == old(out)@ + en_bool(v),
{
    out.push(if v { 1u8 } else { 0u8 });
    assert(final(out)@ =~= old(out)@ + en_bool(v));
}

pub fn write_u16(out: &mut Vec<u8>, v: u16)
    ensures
        final(out)@ == old(out)@ + en_u16(v),
{
    let mut b = be_u16_bytes(v);
    out.append(&mut b);
}

pub fn write_u32(out: &mut Vec<u8>, v: u32)
    ensures
        final(out)@ == old(out)@ + en_u32(v),
{
    let mut b = be_u32_bytes(v);
    out.append(&mut b);
}

pub fn write_i32(out: &mut Vec<u8>, v: i32)
    ensures
        final(out)@ == old(out)@ + en_i32(v),
{
    let mut b = be_u32_bytes(v as u32);
    out.append(&mut b);
}

pub fn write_u64(out: &mut Vec<u8>, v: u64)
    ensures
        final(out)@ == old(out)@ + en_u64(v),
{
    let mut b = be_u64_bytes(v);
    out.append(&mut b);
}

pub fn write_i64(out: &mut Vec<u8>, v: i64)
    ensures
        final(out)@ == old(out)@ + en_i64(v),
{
    let mut b = be_u64_bytes(v as u64);
    out.append(&mut b);
}

pub fn write_u128(out: &mut Vec<u8>, v: u128)
    ensures
        final(out)@ == old(out)@ + en_u128(v),
{
    let mut b = be_u128_bytes(v);
    out.append(&mut b);
}

/// Appends `s` as a length-prefixed string.
pub fn write_mc_string(out: &mut Vec<u8>, s: &str)
    requires
        str_fits(s@),
    ensures
        final(out)@ == old(out)@ + en_str(s@),
{
    let bytes = s.as_bytes();
    let n = bytes.len();
    write_var_u32(out, n as u32);
    out.extend_from_slice(bytes);
    assert(final(out)@ =~= old(out)@ + en_str(s@));
}

/// Writing protocol strings into a byte sink.
pub trait WriteMcString: Sized {
    /// The bytes written so far.
    spec fn written(&self) -> Seq<u8>;

    /// Appends `s` as a length-prefixed string.
    fn write_mc_string(&mut self, s: &str)
        requires
            str_fits(s@),
        ensures
            final(self).written() == old(self).written() + en_str(s@),
    ;
}

impl WriteMcString for Vec<u8> {
    open spec fn written(&self) -> Seq<u8> {
        self@
    }

    fn write_mc_string(&mut self, s: &str) {
        write_mc_string(self, s);
    }
}

/// Reading protocol strings from a byte source.
pub trait ReadMcString: Sized {
    /// The bytes available.
    spec fn source(&self) -> Seq<u8>;

    /// Reads the length-prefixed string at `pos`: the string and the position
    /// after it.
    fn read_mc_string(&self, pos: usize) -> (r: Option<(String, usize)>)
        ensures
            match sp_str(self.source(), pos as int) {
                Some((s, p)) => r matches Some((t, q)) && t@ == s && q as int == p,
                None => r is None,
            },
    ;
}

impl ReadMcString for Vec<u8> {
    open spec fn source(&self) -> Seq<u8> {
        self@
    }

    fn read_mc_string(&self, pos: usize) -> (r: Option<(String, usize)>) {
        read_mc_string(self.as_slice(), pos)
    }
}

pub fn read_u8(buf: &[u8], pos: usize) -> (r: Option<(u8, usize)>)
    ensures
        agrees(r, sp_u8(buf@, pos as int)),
{
    if pos < buf.len() {
        Some((buf[pos], pos + 1))
    } else {
        None
    }
}

pub fn read_i8(buf: &[u8], pos: usize) -> (r: Option<(i8, usize)>)
    ensures
        agrees(r, sp_i8(buf@, pos as int)),
{
    match read_u8(buf, pos) {
        Some((v, p)) => Some((v as i8, p)),
        None => None,
    }
}

pub fn read_bool(buf: &[u8], pos: usize) -> (r: Option<(bool, usize)>)
    ensures
        agrees(r, sp_bool(buf@, pos as int)),
{
    match read_u8(buf, pos) {
        Some((v, p)) => Some((v == 1, p)),
        None => None,
    }
}

pub fn read_u16(buf: &[u8], pos: usize) -> (r: Option<(u16, usize)>)
    ensures
        agrees(r, sp_u16(buf@, pos as int)),
{
    if pos <= buf.len() && buf.len() - pos >= 2 {
        let s = &buf[pos..pos + 2];
        let v = be_u16_of(s);
        assert(s@.take(2) =~= buf@.subrange(pos as int, pos + 2));
        Some((v, pos + 2))
    } else {
        None
    }
}

pub fn read_u32(buf: &[u8], pos: usize) -> (r: Option<(u32, usize)>)
    ensures
        agrees(r, sp_u32(buf@, pos as int)),
{
    if pos <= buf.len() && buf.len() - pos >= 4 {
        let s = &buf[pos..pos + 4];
        let v = be_u32_of(s);
        assert(s@.take(4) =~= buf@.subrange(pos as int, pos + 4));
        Some((v, pos + 4))
    } else {
        None
    }
}

pub fn read_u64(buf: &[u8], pos: usize) -> (r: Option<(u64, usize)>)
    ensures
        agrees(r, sp_u64(buf@, pos as int)),
{
    if pos <= buf.len() && buf.len() - pos >= 8 {
        let s = &buf[pos..pos + 8];
        let v = be_u64_of(s);
        assert(s@.take(8) =~= buf@.subrange(pos as int, pos + 8));
        Some((v, pos + 8))
    } else {
        None
    }
}

pub fn read_i64(buf: &[u8], pos: usize) -> (r: Option<(i64, usize)>)
    ensures
        agrees(r, sp_i64(buf@, pos as int)),
{
    match read_u64(buf, pos) {
        Some((v, p)) => Some((v as i64, p)),
        None => None,
    }
}

pub fn read_var(buf: &[u8], pos: usize) -> (r: Option<(u32, usize)>)
    ensures
        agrees(r, sp_var(buf@, pos as int)),
        r matches Some((_, p)) ==> pos < p <= buf@.len(),
{
    if pos <= buf.len() {
        decode_var_u32(buf, pos)
    } else {
        None
    }
}

/// Reads a length-prefixed UTF-8 string at `pos`.
pub fn read_mc_string(buf: &[u8], pos: usize) -> (r: Option<(String, usize)>)
    ensures
        match sp_str(buf@, pos as int) {
            Some((s, p)) => r matches Some((t, q)) && t@ == s && q as int == p,
            None => r is None,
        },
        r matches Some((_, q)) ==> pos < q <= buf@.len(),
{
    match read_var(buf, pos) {
        Some((n, p)) => {
            assert(sp_var(buf@, pos as int) == Some((n, p as int)));
            if (n as usize) <= buf.len() - p {
                let e = p + n as usize;
                let s = &buf[p..e];
                assert(s@ =~= buf@.subrange(p as int, e as int));
                match string_from_utf8(s) {
                    Some(t) => Some((t, e)),
                    None => None,
                }
            } else {
                None
            }
        },
        None => None,
    }
}

} // verus!
