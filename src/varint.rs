//! The protocol's variable-length integer: 7-bit groups, least significant
//! group first, the high bit of each byte set when more bytes follow.

use minecraft_varint::VarIntWrite;
use vstd::prelude::*;

verus! {

/// Largest number of bytes a 32-bit VarInt may take on the wire.
pub const MAX_VAR_U32_BYTES: usize = 5;

/// `128^n`.
pub open spec fn p128(n: nat) -> nat
    decreases n,
{
    if n == 0 {
        1
    } else {
        128 * p128((n - 1) as nat)
    }
}

/// The canonical encoding of `v`.
pub open spec fn var_enc(v: nat) -> Seq<u8>
    decreases v,
{
    if v < 128 {
        seq![v as u8]
    } else {
        seq![(v % 128 + 128) as u8] + var_enc(v / 128)
    }
}

/// Reading a VarInt from the front of `s` with at most `max` bytes: the value
/// and the number of bytes consumed, or `None` when `s` ends first or no
/// terminating byte comes within `max` bytes.
pub open spec fn var_dec(s: Seq<u8>, max: nat) -> Option<(nat, nat)>
    decreases max,
{
    if max == 0 || s.len() == 0 {
        None
    } else if s[0] < 128 {
        Some((s[0] as nat, 1))
    } else {
        match var_dec(s.skip(1), (max - 1) as nat) {
            Some((v, n)) => Some(((s[0] - 128) as nat + 128 * v, n + 1)),
            None => None,
        }
    }
}

/// Reading a 32-bit VarInt: at most five bytes, and the value must fit.
pub open spec fn var_u32(s: Seq<u8>) -> Option<(u32, nat)> {
    match var_dec(s, 5) {
        Some((v, n)) => if v < 0x1_0000_0000 {
            Some((v as u32, n))
        } else {
            None
        },
        None => None,
    }
}

pub proof fn lemma_p128_pos(n: nat)
    ensures
        p128(n) >= 1,
    decreases n,
{
    if n > 0 {
        lemma_p128_pos((n - 1) as nat);
    }
}

proof fn lemma_p128_mono(a: nat, b: nat)
    requires
        a <= b,
    ensures
        p128(a) <= p128(b),
    decreases b,
{
    if a < b {
        lemma_p128_mono(a, (b - 1) as nat);
        lemma_p128_pos((b - 1) as nat);
    }
}

/// The encoding takes exactly as many bytes as `v` has 7-bit groups.
proof fn lemma_var_enc_len(v: nat)
    ensures
        var_enc(v).len() >= 1,
        v < p128(var_enc(v).len()),
        var_enc(v).len() == 1 || v >= p128((var_enc(v).len() - 1) as nat),
        forall|i: int| 0 <= i < var_enc(v).len() - 1 ==> var_enc(v)[i] >= 128,
        var_enc(v)[var_enc(v).len() - 1] < 128,
    decreases v,
{
    reveal_with_fuel(p128, 2);
    if v >= 128 {
        let t = var_enc(v / 128);
        lemma_var_enc_len(v / 128);
        let n = t.len();
        assert(var_enc(v) == seq![(v % 128 + 128) as u8] + t);
        assert(p128(n + 1) == 128 * p128(n));
        assert(v < 128 * p128(n)) by (nonlinear_arith)
            requires
                v / 128 < p128(n),
        ;
        if n > 1 {
            assert(p128(n) == 128 * p128((n - 1) as nat));
            assert(v >= 128 * p128((n - 1) as nat)) by (nonlinear_arith)
                requires
                    v / 128 >= p128((n - 1) as nat),
            ;
        } else {
            assert(p128(1) == 128);
        }
        assert forall|i: int| 0 <= i < var_enc(v).len() - 1 implies var_enc(v)[i] >= 128 by {
            if i > 0 {
                assert(var_enc(v)[i] == t[i - 1]);
            }
        }
    }
}

/// The encoding is never longer than needed: `v` takes `k` bytes or fewer
/// exactly when `v < 128^k`.
pub proof fn lemma_var_enc_minimal(v: nat, k: nat)
    requires
        k >= 1,
    ensures
        var_enc(v).len() <= k <==> v < p128(k),
{
    lemma_var_enc_len(v);
    let n = var_enc(v).len();
    if n <= k {
        lemma_p128_mono(n, k);
    } else {
        lemma_p128_mono(k, (n - 1) as nat);
    }
}

/// Reading back an encoding, whatever follows it, gives the value and
/// consumes the encoding exactly.
pub proof fn lemma_var_round_trip(v: nat, rest: Seq<u8>, max: nat)
    requires
        var_enc(v).len() <= max,
    ensures
        var_dec(var_enc(v) + rest, max) == Some((v, var_enc(v).len())),
    decreases v,
{
    let s = var_enc(v) + rest;
    if v >= 128 {
        let t = var_enc(v / 128);
        assert(var_enc(v) == seq![(v % 128 + 128) as u8] + t);
        assert(s.skip(1) =~= t + rest);
        lemma_var_round_trip(v / 128, rest, (max - 1) as nat);
    }
}

/// The law of the 32-bit VarInt: reading back the encoding of any `v` gives
/// `v`, consuming the whole encoding; the encoding takes one byte below 128,
/// never more than five, and never more bytes than `v` has 7-bit groups.
pub proof fn varint_round_trip(v: u32, rest: Seq<u8>)
    ensures
        var_u32(var_enc(v as nat) + rest) == Some((v, var_enc(v as nat).len())),
        var_enc(v as nat).len() <= 5,
        var_enc(v as nat).len() == 1 <==> v < 128,
        forall|k: nat| k >= 1 ==> (var_enc(v as nat).len() <= k <==> (v as nat) < p128(k)),
{
    reveal_with_fuel(p128, 6);
    lemma_var_enc_minimal(v as nat, 5);
    lemma_var_enc_minimal(v as nat, 1);
    lemma_var_round_trip(v as nat, rest, 5);
    assert forall|k: nat| k >= 1 implies (var_enc(v as nat).len() <= k <==> (v as nat) < p128(k)) by {
        lemma_var_enc_minimal(v as nat, k);
    }
}

/// Relies on minecraft_varint's `VarIntWrite::write_var_u32`, which writes the
/// 7-bit groups of the value low group first, with the high bit set on every
/// byte but the last; writing into a `Vec` cannot fail.
#[verifier::external_body]
fn var_u32_bytes(v: u32) -> (r: Vec<u8>)
    ensures
        r@ == var_enc(v as nat),
{
    let mut out: Vec<u8> = Vec::new();
    let _ = out.write_var_u32(v);
    out
}

/// The bytes of `v` as a VarInt.
pub fn encode_var_u32(v: u32) -> (r: Vec<u8>)
    ensures
        r@ == var_enc(v as nat),
        1 <= r@.len() <= 5,
{
    proof {
        varint_round_trip(v, seq![]);
        lemma_var_enc_len(v as nat);
    }
    var_u32_bytes(v)
}

/// Number of bytes that `i` takes as a VarInt.
pub fn varuint_size(i: u32) -> (r: usize)
    ensures
        r == var_enc(i as nat).len(),
        1 <= r <= 5,
{
    encode_var_u32(i).len()
}

/// Appends the VarInt bytes of `v` to `out`.
pub fn write_var_u32(out: &mut Vec<u8>, v: u32)
    ensures
        final(out)@ == old(out)@ + var_enc(v as nat),
{
    let mut b = encode_var_u32(v);
    out.append(&mut b);
}

fn dec_from(buf: &[u8], pos: usize, max: usize) -> (r: Option<(u64, usize)>)
    requires
        pos <= buf@.len(),
        max <= 5,
    ensures
        match var_dec(buf@.skip(pos as int), max as nat) {
            Some((v, n)) => r matches Some((a, b)) && a as nat == v && b as nat == n && v < p128(n)
                && n <= max,
            None => r is None,
        },
    decreases max,
{
    if max == 0 || pos >= buf.len() {
        return None;
    }
    let b = buf[pos];
    let ghost s = buf@.skip(pos as int);
    assert(s[0] == b);
    if b < 128 {
        proof {
            reveal_with_fuel(p128, 2);
        }
        Some((b as u64, 1))
    } else {
        assert(s.skip(1) =~= buf@.skip(pos + 1));
        match dec_from(buf, pos + 1, max - 1) {
            Some((v, n)) => {
                proof {
                    lemma_p128_mono(n as nat, 4);
                    reveal_with_fuel(p128, 5);
                    assert(p128((n + 1) as nat) == 128 * p128(n as nat));
                    assert((b - 128) as nat + 128 * (v as nat) < 128 * p128(n as nat))
                        by (nonlinear_arith)
                        requires
                            (v as nat) < p128(n as nat),
                            b < 256,
                            b >= 128,
                    ;
                }
                Some(((b - 128) as u64 + 128 * v, n + 1))
            },
            None => None,
        }
    }
}

/// Reads a 32-bit VarInt starting at `pos`: the value and the position just
/// after it, or `None` when the bytes end first, no terminating byte comes
/// within five bytes, or the value does not fit in 32 bits.
pub fn decode_var_u32(buf: &[u8], pos: usize) -> (r: Option<(u32, usize)>)
    requires
        pos <= buf@.len(),
    ensures
        match var_u32(buf@.skip(pos as int)) {
            Some((v, n)) => r matches Some((a, e)) && a == v && e == pos + n,
            None => r is None,
        },
        r matches Some((_, e)) ==> pos < e <= buf@.len(),
{
    let len = buf.len();
    let d = dec_from(buf, pos, MAX_VAR_U32_BYTES);
    match d {
        Some((v, n)) => {
            proof {
                lemma_var_dec_len(buf@.skip(pos as int), 5);
                assert(buf@.skip(pos as int).len() == buf@.len() - pos);
            }
            if v < 0x1_0000_0000 {
                Some((v as u32, pos + n))
            } else {
                None
            }
        },
        None => None,
    }
}

proof fn lemma_var_dec_len(s: Seq<u8>, max: nat)
    ensures
        var_dec(s, max) matches Some((_, n)) ==> 1 <= n <= s.len() && n <= max,
    decreases max,
{
    if max > 0 && s.len() > 0 && s[0] >= 128 {
        lemma_var_dec_len(s.skip(1), (max - 1) as nat);
    }
}

} // verus!
