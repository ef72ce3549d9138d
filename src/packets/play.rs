//! Packets of the play state.
//!
//! Floating-point fields travel as their IEEE-754 bit patterns: the library
//! only moves them between the wire and the caller.

use crate::packet::{Decode, Packet};
use crate::varint::write_var_u32;
use crate::wire::{
    lemma_fixed_lengths, en_bool, en_i32, en_i64, en_i8, en_str, en_u32, en_u64, en_u8, en_var, lemma_bool_round,
    lemma_i64_round, lemma_i8_round, lemma_str_round, lemma_u32_round, lemma_u64_round,
    lemma_u8_round, lemma_var_round, read_bool, read_i64, read_i8, read_mc_string, read_u32,
    read_u64, read_u8, read_var, sp_bool, sp_i64, sp_i8, sp_str, sp_u32, sp_u64, sp_u8, sp_var,
    str_fits, write_bool, write_i32, write_i64, write_i8, write_mc_string, write_u32, write_u64,
    write_u8,
};
use vstd::prelude::*;

verus! {

/// A block-light or sky-light value: four bits.
#[verifier::external_type_specification]
#[verifier::external_body]
pub struct ExNibble(nibbler::nibble::Nibble);

pub struct JoinGame {
    pub entity_id: u32,
    pub is_hardcore: bool,
    pub gamemode: u8,
    pub dimension: i32,
    pub difficulty: u8,
    pub max_players: u8,
    pub level_type: String,
    pub reduced_debug_info: bool,
}

impl Packet for JoinGame {
    open spec fn spec_id() -> u32 {
        0x23
    }

    fn get_id() -> (r: u32) {
        0x23
    }
}

impl JoinGame {
    /// The id, then entity id, game mode, dimension, difficulty, maximum
    /// players, level type and the reduced-debug flag (the hardcore flag is
    /// not sent).
    pub fn write_impl(&self) -> (r: Vec<u8>)
        requires
            str_fits(self.level_type@),
        ensures
            r@ == en_var(Self::spec_id()) + en_u32(self.entity_id) + en_u8(self.gamemode) + en_i32(
                self.dimension,
            ) + en_u8(self.difficulty) + en_u8(self.max_players) + en_str(self.level_type@)
                + en_bool(self.reduced_debug_info),
    {
        let mut out: Vec<u8> = Vec::new();
        write_var_u32(&mut out, Self::get_id());
        write_u32(&mut out, self.entity_id);
        write_u8(&mut out, self.gamemode);
        write_i32(&mut out, self.dimension);
        write_u8(&mut out, self.difficulty);
        write_u8(&mut out, self.max_players);
        write_mc_string(&mut out, self.level_type.as_str());
        write_bool(&mut out, self.reduced_debug_info);
        out
    }
}

pub struct ClientSettings {
    pub locale: String,
    pub view_distance: i8,
    pub chat_mode: u32,
    pub chat_colors: bool,
    pub displayed_skin_parts: u8,
    /// 0: left, 1: right
    pub main_hand: u32,
    pub use_text_filtering: bool,
    pub allow_server_listing: bool,
}

pub struct ClientSettingsView {
    pub locale: Seq<char>,
    pub view_distance: i8,
    pub chat_mode: u32,
    pub chat_colors: bool,
    pub displayed_skin_parts: u8,
    pub main_hand: u32,
    pub use_text_filtering: bool,
    pub allow_server_listing: bool,
}

impl View for ClientSettings {
    type V = ClientSettingsView;

    open spec fn view(&self) -> ClientSettingsView {
        ClientSettingsView {
            locale: self.locale@,
            view_distance: self.view_distance,
            chat_mode: self.chat_mode,
            chat_colors: self.chat_colors,
            displayed_skin_parts: self.displayed_skin_parts,
            main_hand: self.main_hand,
            use_text_filtering: self.use_text_filtering,
            allow_server_listing: self.allow_server_listing,
        }
    }
}

pub open spec fn en_client_settings(v: ClientSettingsView) -> Seq<u8> {
    en_str(v.locale) + en_i8(v.view_distance) + en_var(v.chat_mode) + en_bool(v.chat_colors)
        + en_u8(v.displayed_skin_parts) + en_var(v.main_hand) + en_bool(v.use_text_filtering)
        + en_bool(v.allow_server_listing)
}

pub open spec fn sp_client_settings(b: Seq<u8>) -> Option<ClientSettingsView> {
    match sp_str(b, 0) {
        Some((locale, p1)) => match sp_i8(b, p1) {
            Some((view_distance, p2)) => match sp_var(b, p2) {
                Some((chat_mode, p3)) => match sp_bool(b, p3) {
                    Some((chat_colors, p4)) => match sp_u8(b, p4) {
                        Some((displayed_skin_parts, p5)) => match sp_var(b, p5) {
                            Some((main_hand, p6)) => match sp_bool(b, p6) {
                                Some((use_text_filtering, p7)) => match sp_bool(b, p7) {
                                    Some((allow_server_listing, _)) => Some(
                                        ClientSettingsView {
                                            locale,
                                            view_distance,
                                            chat_mode,
                                            chat_colors,
                                            displayed_skin_parts,
                                            main_hand,
                                            use_text_filtering,
                                            allow_server_listing,
                                        },
                                    ),
                                    None => None,
                                },
                                None => None,
                            },
                            None => None,
                        },
                        None => None,
                    },
                    None => None,
                },
                None => None,
            },
            None => None,
        },
        None => None,
    }
}

impl Packet for ClientSettings {
    open spec fn spec_id() -> u32 {
        0x04
    }

    fn get_id() -> (r: u32) {
        0x04
    }
}

impl Decode for ClientSettings {
    open spec fn decodable(body: Seq<u8>) -> bool {
        sp_client_settings(body) is Some
    }

    open spec fn decodes_to(body: Seq<u8>, v: Self) -> bool {
        sp_client_settings(body) == Some(v@)
    }

    fn decode(body: &[u8]) -> (r: Option<Self>) {
        let (locale, p1) = read_mc_string(body, 0)?;
        let (view_distance, p2) = read_i8(body, p1)?;
        let (chat_mode, p3) = read_var(body, p2)?;
        let (chat_colors, p4) = read_bool(body, p3)?;
        let (displayed_skin_parts, p5) = read_u8(body, p4)?;
        let (main_hand, p6) = read_var(body, p5)?;
        let (use_text_filtering, p7) = read_bool(body, p6)?;
        let (allow_server_listing, _) = read_bool(body, p7)?;
        Some(
            ClientSettings {
                locale,
                view_distance,
                chat_mode,
                chat_colors,
                displayed_skin_parts,
                main_hand,
                use_text_filtering,
                allow_server_listing,
            },
        )
    }
}

/// Decoding the encoding of client settings gives them back.
pub proof fn client_settings_round_trip(v: ClientSettingsView)
    requires
        str_fits(v.locale),
    ensures
        sp_client_settings(en_client_settings(v)) == Some(v),
{
    let b = en_client_settings(v);
    let e1 = en_str(v.locale);
    let e2 = en_i8(v.view_distance);
    let e3 = en_var(v.chat_mode);
    let e4 = en_bool(v.chat_colors);
    let e5 = en_u8(v.displayed_skin_parts);
    let e6 = en_var(v.main_hand);
    let e7 = en_bool(v.use_text_filtering);
    let e8 = en_bool(v.allow_server_listing);
    let p1 = e1.len() as int;
    let p2 = p1 + e2.len();
    let p3 = p2 + e3.len();
    let p4 = p3 + e4.len();
    let p5 = p4 + e5.len();
    let p6 = p5 + e6.len();
    let p7 = p6 + e7.len();
    assert(b.subrange(0, p1) =~= e1);
    assert(b.subrange(p1, p2) =~= e2);
    assert(b.subrange(p2, p3) =~= e3);
    assert(b.subrange(p3, p4) =~= e4);
    assert(b.subrange(p4, p5) =~= e5);
    assert(b.subrange(p5, p6) =~= e6);
    assert(b.subrange(p6, p7) =~= e7);
    assert(b.subrange(p7, p7 + e8.len()) =~= e8);
    lemma_str_round(b, 0, v.locale);
    lemma_i8_round(b, p1, v.view_distance);
    lemma_var_round(b, p2, v.chat_mode);
    lemma_bool_round(b, p3, v.chat_colors);
    lemma_u8_round(b, p4, v.displayed_skin_parts);
    lemma_var_round(b, p5, v.main_hand);
    lemma_bool_round(b, p6, v.use_text_filtering);
    lemma_bool_round(b, p7, v.allow_server_listing);
}

pub struct HeldItemChange {
    pub slot: u8,
}

impl Packet for HeldItemChange {
    open spec fn spec_id() -> u32 {
        0x3a
    }

    fn get_id() -> (r: u32) {
        0x3a
    }
}

impl HeldItemChange {
    pub fn write_impl(&self) -> (r: Vec<u8>)
        ensures
            r@ == en_var(Self::spec_id()) + en_u8(self.slot),
    {
        let mut out: Vec<u8> = Vec::new();
        write_var_u32(&mut out, Self::get_id());
        write_u8(&mut out, self.slot);
        out
    }
}

/// A plugin message from the client: a channel name, then an opaque payload
/// that fills the rest of the packet.
pub struct PluginMessageS {
    pub channel: String,
    pub data: Vec<u8>,
}

pub open spec fn sp_plugin_message(b: Seq<u8>) -> Option<(Seq<char>, Seq<u8>)> {
    match sp_str(b, 0) {
        Some((channel, p)) => Some((channel, b.subrange(p, b.len() as int))),
        None => None,
    }
}

impl Packet for PluginMessageS {
    open spec fn spec_id() -> u32 {
        0x09
    }

    fn get_id() -> (r: u32) {
        0x09
    }
}

impl Decode for PluginMessageS {
    open spec fn decodable(body: Seq<u8>) -> bool {
        sp_plugin_message(body) is Some
    }

    open spec fn decodes_to(body: Seq<u8>, v: Self) -> bool {
        sp_plugin_message(body) == Some((v.channel@, v.data@))
    }

    fn decode(body: &[u8]) -> (r: Option<Self>) {
        let (channel, p) = read_mc_string(body, 0)?;
        let mut data: Vec<u8> = Vec::new();
        let rest = &body[p..body.len()];
        data.extend_from_slice(rest);
        assert(data@ =~= body@.subrange(p as int, body@.len() as int));
        Some(PluginMessageS { channel, data })
    }
}

/// Decoding the encoding of a plugin message gives its channel and payload
/// back.
pub proof fn plugin_message_round_trip(channel: Seq<char>, data: Seq<u8>)
    requires
        str_fits(channel),
    ensures
        sp_plugin_message(en_str(channel) + data) == Some((channel, data)),
{
    let e = en_str(channel);
    let b = e + data;
    assert(b.subrange(0, e.len() as int) =~= e);
    lemma_str_round(b, 0, channel);
    assert(b.subrange(e.len() as int, b.len() as int) =~= data);
}

/// The client's position; `x`, `y`, `z` are the bit patterns of doubles.
pub struct PlayerPosition {
    pub x: u64,
    pub y: u64,
    pub z: u64,
    pub on_ground: bool,
}

pub open spec fn en_player_position(v: PlayerPosition) -> Seq<u8> {
    en_u64(v.x) + en_u64(v.y) + en_u64(v.z) + en_bool(v.on_ground)
}

pub open spec fn sp_player_position(b: Seq<u8>) -> Option<PlayerPosition> {
    match sp_u64(b, 0) {
        Some((x, p1)) => match sp_u64(b, p1) {
            Some((y, p2)) => match sp_u64(b, p2) {
                Some((z, p3)) => match sp_bool(b, p3) {
                    Some((on_ground, _)) => Some(PlayerPosition { x, y, z, on_ground }),
                    None => None,
                },
                None => None,
            },
            None => None,
        },
        None => None,
    }
}

impl Packet for PlayerPosition {
    open spec fn spec_id() -> u32 {
        0x0d
    }

    fn get_id() -> (r: u32) {
        0x0d
    }
}

impl Decode for PlayerPosition {
    open spec fn decodable(body: Seq<u8>) -> bool {
        sp_player_position(body) is Some
    }

    open spec fn decodes_to(body: Seq<u8>, v: Self) -> bool {
        sp_player_position(body) == Some(v)
    }

    fn decode(body: &[u8]) -> (r: Option<Self>) {
        let (x, p1) = read_u64(body, 0)?;
        let (y, p2) = read_u64(body, p1)?;
        let (z, p3) = read_u64(body, p2)?;
        let (on_ground, _) = read_bool(body, p3)?;
        Some(PlayerPosition { x, y, z, on_ground })
    }
}

/// Decoding the encoding of a position gives it back.
pub proof fn player_position_round_trip(v: PlayerPosition)
    ensures
        sp_player_position(en_player_position(v)) == Some(v),
{
    let b = en_player_position(v);
    lemma_fixed_lengths();
    assert(b.subrange(0, 8) =~= en_u64(v.x));
    lemma_u64_round(b, 0, v.x);
    assert(b.subrange(8, 16) =~= en_u64(v.y));
    lemma_u64_round(b, 8, v.y);
    assert(b.subrange(16, 24) =~= en_u64(v.z));
    lemma_u64_round(b, 16, v.z);
    assert(b.subrange(24, 25) =~= en_bool(v.on_ground));
    lemma_bool_round(b, 24, v.on_ground);
}

/// Position and facing from the client; `x`, `y`, `z` are the bit patterns
/// of doubles, `yaw` and `pitch` those of floats.
pub struct ServerBoundPlayerPositionAndRotation {
    pub x: u64,
    pub y: u64,
    pub z: u64,
    pub yaw: u32,
    pub pitch: u32,
    pub on_ground: bool,
}

pub open spec fn en_position_and_rotation(v: ServerBoundPlayerPositionAndRotation) -> Seq<u8> {
    en_u64(v.x) + en_u64(v.y) + en_u64(v.z) + en_u32(v.yaw) + en_u32(v.pitch) + en_bool(
        v.on_ground,
    )
}

pub open spec fn sp_position_and_rotation(b: Seq<u8>) -> Option<
    ServerBoundPlayerPositionAndRotation,
> {
    match sp_u64(b, 0) {
        Some((x, p1)) => match sp_u64(b, p1) {
            Some((y, p2)) => match sp_u64(b, p2) {
                Some((z, p3)) => match sp_u32(b, p3) {
                    Some((yaw, p4)) => match sp_u32(b, p4) {
                        Some((pitch, p5)) => match sp_bool(b, p5) {
                            Some((on_ground, _)) => Some(
                                ServerBoundPlayerPositionAndRotation {
                                    x,
                                    y,
                                    z,
                                    yaw,
                                    pitch,
                                    on_ground,
                                },
                            ),
                            None => None,
                        },
                        None => None,
                    },
                    None => None,
                },
                None => None,
            },
            None => None,
        },
        None => None,
    }
}

impl Packet for ServerBoundPlayerPositionAndRotation {
    open spec fn spec_id() -> u32 {
        0x0e
    }

    fn get_id() -> (r: u32) {
        0x0e
    }
}

impl Decode for ServerBoundPlayerPositionAndRotation {
    open spec fn decodable(body: Seq<u8>) -> bool {
        sp_position_and_rotation(body) is Some
    }

    open spec fn decodes_to(body: Seq<u8>, v: Self) -> bool {
        sp_position_and_rotation(body) == Some(v)
    }

    fn decode(body: &[u8]) -> (r: Option<Self>) {
        let (x, p1) = read_u64(body, 0)?;
        let (y, p2) = read_u64(body, p1)?;
        let (z, p3) = read_u64(body, p2)?;
        let (yaw, p4) = read_u32(body, p3)?;
        let (pitch, p5) = read_u32(body, p4)?;
        let (on_ground, _) = read_bool(body, p5)?;
        Some(ServerBoundPlayerPositionAndRotation { x, y, z, yaw, pitch, on_ground })
    }
}

/// Decoding the encoding of a position and rotation gives it back.
pub proof fn position_and_rotation_round_trip(v: ServerBoundPlayerPositionAndRotation)
    ensures
        sp_position_and_rotation(en_position_and_rotation(v)) == Some(v),
{
    let b = en_position_and_rotation(v);
    lemma_fixed_lengths();
    assert(b.subrange(0, 8) =~= en_u64(v.x));
    lemma_u64_round(b, 0, v.x);
    assert(b.subrange(8, 16) =~= en_u64(v.y));
    lemma_u64_round(b, 8, v.y);
    assert(b.subrange(16, 24) =~= en_u64(v.z));
    lemma_u64_round(b, 16, v.z);
    assert(b.subrange(24, 28) =~= en_u32(v.yaw));
    lemma_u32_round(b, 24, v.yaw);
    assert(b.subrange(28, 32) =~= en_u32(v.pitch));
    lemma_u32_round(b, 28, v.pitch);
    assert(b.subrange(32, 33) =~= en_bool(v.on_ground));
    lemma_bool_round(b, 32, v.on_ground);
}

/// The server's teleport of the player; `x`, `y`, `z` are the bit patterns
/// of doubles, `yaw` and `pitch` those of floats.
pub struct ClientBoundPlayerPositionAndRotation {
    pub x: u64,
    pub y: u64,
    pub z: u64,
    pub yaw: u32,
    pub pitch: u32,
    pub flags: i8,
    pub teleport_id: u32,
    pub dismount_veicle: bool,
}

impl Packet for ClientBoundPlayerPositionAndRotation {
    open spec fn spec_id() -> u32 {
        0x2f
    }

    fn get_id() -> (r: u32) {
        0x2f
    }
}

impl ClientBoundPlayerPositionAndRotation {
    /// The id, then position, facing, flags and teleport id (the
    /// dismount flag is not sent).
    pub fn write_impl(&self) -> (r: Vec<u8>)
        ensures
            r@ == en_var(Self::spec_id()) + en_u64(self.x) + en_u64(self.y) + en_u64(self.z) + en_u32(
                self.yaw,
            ) + en_u32(self.pitch) + en_i8(self.flags) + en_var(self.teleport_id),
    {
        let mut out: Vec<u8> = Vec::new();
        write_var_u32(&mut out, Self::get_id());
        write_u64(&mut out, self.x);
        write_u64(&mut out, self.y);
        write_u64(&mut out, self.z);
        write_u32(&mut out, self.yaw);
        write_u32(&mut out, self.pitch);
        write_i8(&mut out, self.flags);
        write_var_u32(&mut out, self.teleport_id);
        out
    }
}

pub struct Palette {
    pub palette_length: u32,
    pub palette: Vec<u32>,
}

pub struct ChunkSection {
    pub bits_per_block: u8,
    pub palette: Palette,
    pub data_array_length: u32,
    pub data_array: Vec<i64>,
    pub block_light: Vec<nibbler::nibble::Nibble>,
    pub sky_light: Option<Vec<nibbler::nibble::Nibble>>,
}

pub struct ChunkColumn {
    pub sections: Vec<ChunkSection>,
    pub biomes: Option<Vec<u8>>,
}

/// A chunk column with no terrain: coordinates and an empty payload.
pub struct ChunkData {
    pub chunk_x: i32,
    pub chunk_z: i32,
}

impl Packet for ChunkData {
    open spec fn spec_id() -> u32 {
        0x20
    }

    fn get_id() -> (r: u32) {
        0x20
    }
}

impl ChunkData {
    /// The id, the coordinates, the full-chunk flag, an all-ones section
    /// mask, and two empty counts.
    pub fn write_impl(&self) -> (r: Vec<u8>)
        ensures
            r@ == en_var(Self::spec_id()) + en_i32(self.chunk_x) + en_i32(self.chunk_z) + en_u8(1) + en_var(
                u32::MAX,
            ) + en_var(0) + en_var(0),
    {
        let mut out: Vec<u8> = Vec::new();
        write_var_u32(&mut out, Self::get_id());
        write_i32(&mut out, self.chunk_x);
        write_i32(&mut out, self.chunk_z);
        write_u8(&mut out, 1);
        write_var_u32(&mut out, u32::MAX);
        write_var_u32(&mut out, 0);
        write_var_u32(&mut out, 0);
        out
    }
}

pub struct ClientBoundKeepAlive(pub i64);

impl Packet for ClientBoundKeepAlive {
    open spec fn spec_id() -> u32 {
        0x1f
    }

    fn get_id() -> (r: u32) {
        0x1f
    }
}

impl ClientBoundKeepAlive {
    /// The keep-alive the server sends, with its fixed correlation value.
    pub fn new() -> (r: Self)
        ensures
            r.0 == 420,
    {
        ClientBoundKeepAlive(420)
    }

    pub fn write_impl(&self) -> (r: Vec<u8>)
        ensures
            r@ == en_var(Self::spec_id()) + en_i64(self.0),
    {
        let mut out: Vec<u8> = Vec::new();
        write_var_u32(&mut out, Self::get_id());
        write_i64(&mut out, self.0);
        out
    }
}

pub struct ServerBoundKeepAlive(pub i64);

impl Packet for ServerBoundKeepAlive {
    open spec fn spec_id() -> u32 {
        0x0b
    }

    fn get_id() -> (r: u32) {
        0x0b
    }
}

impl Decode for ServerBoundKeepAlive {
    open spec fn decodable(body: Seq<u8>) -> bool {
        sp_i64(body, 0) is Some
    }

    open spec fn decodes_to(body: Seq<u8>, v: Self) -> bool {
        sp_i64(body, 0) matches Some((k, _)) && v.0 == k
    }

    fn decode(body: &[u8]) -> (r: Option<Self>) {
        let (k, _) = read_i64(body, 0)?;
        Some(ServerBoundKeepAlive(k))
    }
}

/// Decoding the encoding of a keep-alive gives its value back.
pub proof fn keep_alive_round_trip(k: i64)
    ensures
        ServerBoundKeepAlive::decodable(en_i64(k)),
        ServerBoundKeepAlive::decodes_to(en_i64(k), ServerBoundKeepAlive(k)),
{
    let b = en_i64(k);
    assert(b.subrange(0, b.len() as int) =~= b);
    lemma_i64_round(b, 0, k);
}

#[derive(Clone, Copy, PartialEq, Eq, Structural)]
pub enum ChatPosition {
    Chat,
    System,
    GameInfo,
}

impl ChatPosition {
    pub open spec fn spec_code(self) -> u8 {
        match self {
            ChatPosition::Chat => 0,
            ChatPosition::System => 1,
            ChatPosition::GameInfo => 2,
        }
    }

    /// The byte that stands for this position on the wire.
    pub fn code(self) -> (r: u8)
        ensures
            r == self.spec_code(),
    {
        match self {
            ChatPosition::Chat => 0,
            ChatPosition::System => 1,
            ChatPosition::GameInfo => 2,
        }
    }
}

/// A chat message: JSON text-component text, and where it shows.
pub struct ClientBoundChat(pub String, pub ChatPosition);

impl Packet for ClientBoundChat {
    open spec fn spec_id() -> u32 {
        0x0f
    }

    fn get_id() -> (r: u32) {
        0x0f
    }
}

impl ClientBoundChat {
    pub fn write_impl(&self) -> (r: Vec<u8>)
        requires
            str_fits(self.0@),
        ensures
            r@ == en_var(Self::spec_id()) + en_str(self.0@) + en_u8(self.1.spec_code()),
    {
        let mut out: Vec<u8> = Vec::new();
        write_var_u32(&mut out, Self::get_id());
        write_mc_string(&mut out, self.0.as_str());
        write_u8(&mut out, self.1.code());
        out
    }
}

} // verus!
