//! Packets of the login state.

use crate::packet::{Decode, Packet};
use crate::varint::write_var_u32;
use crate::wire::{
    en_str, en_u128, en_var, lemma_str_round, read_mc_string, sp_str, str_fits, write_mc_string,
    write_u128,
};
use vstd::prelude::*;
use vstd::utf8::{is_ascii_chars, is_ascii_chars_encode_utf8};

verus! {

/// The UUID that older protocol versions receive in text form.
pub const NIL_UUID: &'static str = "00000000-0000-0000-0000-000000000000";

pub struct LoginStart {
    pub username: String,
}

impl Packet for LoginStart {
    open spec fn spec_id() -> u32 {
        0x00
    }

    fn get_id() -> (r: u32) {
        0x00
    }
}

impl Decode for LoginStart {
    open spec fn decodable(body: Seq<u8>) -> bool {
        sp_str(body, 0) is Some
    }

    open spec fn decodes_to(body: Seq<u8>, v: Self) -> bool {
        sp_str(body, 0) matches Some((s, _)) && v.username@ == s
    }

    fn decode(body: &[u8]) -> (r: Option<Self>) {
        let (username, _) = read_mc_string(body, 0)?;
        Some(LoginStart { username })
    }
}

/// Decoding the encoding of a login start gives its username back.
pub proof fn login_start_round_trip(username: Seq<char>)
    requires
        str_fits(username),
    ensures
        LoginStart::decodable(en_str(username)),
        sp_str(en_str(username), 0) matches Some((s, _)) && s == username,
{
    let b = en_str(username);
    assert(b.subrange(0, b.len() as int) =~= b);
    lemma_str_round(b, 0, username);
}

pub struct LoginSuccess {
    pub uuid: u128,
    /// Whether the UUID should be sent along the network as a string
    pub as_string: bool,
    pub username: String,
}

impl Packet for LoginSuccess {
    open spec fn spec_id() -> u32 {
        0x02
    }

    fn get_id() -> (r: u32) {
        0x02
    }
}

/// The UUID field: the nil UUID as text, or the 128-bit value.
pub open spec fn en_uuid(uuid: u128, as_string: bool) -> Seq<u8> {
    if as_string {
        en_str(NIL_UUID@)
    } else {
        en_u128(uuid)
    }
}

impl LoginSuccess {
    /// The id, the UUID field, then the username.
    pub fn write_impl(&self) -> (r: Vec<u8>)
        requires
            str_fits(self.username@),
        ensures
            r@ == en_var(Self::spec_id()) + en_uuid(self.uuid, self.as_string) + en_str(self.username@),
    {
        let mut out: Vec<u8> = Vec::new();
        write_var_u32(&mut out, Self::get_id());
        if self.as_string {
            proof {
                reveal_strlit("00000000-0000-0000-0000-000000000000");
                assert(is_ascii_chars(NIL_UUID@));
                is_ascii_chars_encode_utf8(NIL_UUID@);
            }
            write_mc_string(&mut out, NIL_UUID);
        } else {
            write_u128(&mut out, self.uuid);
        }
        write_mc_string(&mut out, self.username.as_str());
        out
    }
}

} // verus!
