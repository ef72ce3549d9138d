//! The per-connection state machine: handshake, then either the status
//! exchange or login followed by the play loop.
//!
//! The caller owns the socket. It hands over a buffer that holds the next
//! frame at `pos`, sends what the step returns, and reports the end of the
//! stream with [`Connection::on_eof`].

use crate::packet::{frame, lemma_frame_round, payload, read_frame, read_packet, sp_body, sp_frame, write_frame, Decode, Packet};
use crate::packets::handshake::{sp_read_handshake, Handshake, Ping, Pong, Request};
use crate::packets::login::{en_uuid, LoginStart, LoginSuccess};
use crate::packets::play::{
    ChunkData, ClientBoundPlayerPositionAndRotation, ClientSettings, JoinGame, PlayerPosition,
    PluginMessageS, ServerBoundKeepAlive, ServerBoundPlayerPositionAndRotation,
};
use crate::varint::{var_enc, varint_round_trip};
use crate::wire::{
    en_bool, en_i32, en_i8, en_str, en_u32, en_u64, en_u8, en_var, lemma_fixed_lengths, read_var,
    sp_var, str_fits,
};
use vstd::prelude::*;
use vstd::string::StringExecFns;
use vstd::utf8::{is_ascii_chars, is_ascii_chars_encode_utf8};

verus! {

/// Protocol versions up to this one receive the login UUID as text.
pub const UUID_AS_STRING_MAX_PROTOCOL: u32 = 572;

/// Side of the square of chunks sent at login.
pub const VIEW_GRID_SIDE: usize = 16;

/// Number of chunk packets sent at login.
pub const VIEW_GRID_CHUNKS: usize = 256;

#[derive(PartialEq, Eq, Structural, Clone, Copy)]
pub enum ConnState {
    Handshake,
    /// Waiting for the status request.
    Status { protocol: u32 },
    /// Status sent; waiting for the ping.
    Ping,
    /// Waiting for the login start.
    Login { protocol: u32 },
    Play,
    Closed,
}

/// How far a state lies along the connection's one-way path.
pub open spec fn rank(s: ConnState) -> nat {
    match s {
        ConnState::Handshake => 0,
        ConnState::Status { .. } => 1,
        ConnState::Login { .. } => 1,
        ConnState::Ping => 2,
        ConnState::Play => 2,
        ConnState::Closed => 3,
    }
}

/// What the play loop read.
pub enum PlayPacket {
    TeleportConfirm(u32),
    ClientSettings(ClientSettings),
    PluginMessage(PluginMessageS),
    Position(PlayerPosition),
    PositionAndRotation(ServerBoundPlayerPositionAndRotation),
    KeepAlive(ServerBoundKeepAlive),
    /// A frame of length zero.
    Padding,
    /// A frame whose id the play state does not know; its body was skipped.
    Unknown { id: u32, len: u32 },
}

/// Id of the client's teleport confirmation, which carries a VarInt only.
pub const PLAY_TELEPORT_CONFIRM: u32 = 0x00;

/// The ids that the play state decodes.
pub open spec fn is_play_id(id: u32) -> bool {
    id == PLAY_TELEPORT_CONFIRM || id == ClientSettings::spec_id() || id == PluginMessageS::spec_id() || id
        == ServerBoundKeepAlive::spec_id() || id == PlayerPosition::spec_id() || id == ServerBoundPlayerPositionAndRotation::spec_id()
}

/// Whether `p` is what the body `body` of a play frame with id `id` holds.
pub open spec fn play_reads(id: u32, len: u32, body: Seq<u8>, p: PlayPacket) -> bool {
    if id == PLAY_TELEPORT_CONFIRM {
        sp_var(body, 0) matches Some((t, _)) && p == PlayPacket::TeleportConfirm(t)
    } else if id == ClientSettings::spec_id() {
        p matches PlayPacket::ClientSettings(v) && ClientSettings::decodes_to(body, v)
    } else if id == PluginMessageS::spec_id() {
        p matches PlayPacket::PluginMessage(v) && PluginMessageS::decodes_to(body, v)
    } else if id == ServerBoundKeepAlive::spec_id() {
        p matches PlayPacket::KeepAlive(v) && ServerBoundKeepAlive::decodes_to(body, v)
    } else if id == PlayerPosition::spec_id() {
        p matches PlayPacket::Position(v) && PlayerPosition::decodes_to(body, v)
    } else if id == ServerBoundPlayerPositionAndRotation::spec_id() {
        p matches PlayPacket::PositionAndRotation(v)
            && ServerBoundPlayerPositionAndRotation::decodes_to(body, v)
    } else {
        p == PlayPacket::Unknown { id, len }
    }
}

/// Whether the body of a play frame with id `id` can be read.
pub open spec fn play_readable(id: u32, body: Seq<u8>) -> bool {
    if id == PLAY_TELEPORT_CONFIRM {
        sp_var(body, 0) is Some
    } else if id == ClientSettings::spec_id() {
        ClientSettings::decodable(body)
    } else if id == PluginMessageS::spec_id() {
        PluginMessageS::decodable(body)
    } else if id == ServerBoundKeepAlive::spec_id() {
        ServerBoundKeepAlive::decodable(body)
    } else if id == PlayerPosition::spec_id() {
        PlayerPosition::decodable(body)
    } else if id == ServerBoundPlayerPositionAndRotation::spec_id() {
        ServerBoundPlayerPositionAndRotation::decodable(body)
    } else {
        true
    }
}

/// Reads one frame of the play loop at `pos`: a zero length is padding and
/// only the length byte is consumed; a known id is decoded from the frame's
/// body; an unknown id is skipped. On success the position returned is the
/// start of the next frame.
pub fn dispatch_play(buf: &[u8], pos: usize) -> (r: Option<(PlayPacket, usize)>)
    ensures
        r is Some <==> dispatch_spec(buf@, pos as int) is Some,
        r matches Some((pk, q)) ==> dispatch_reads(buf@, pos as int, pk) && dispatch_spec(
            buf@,
            pos as int,
        ) == Some(q as int),
        match sp_var(buf@, pos as int) {
            None => r is None,
            Some((len, p)) => if len == 0 {
                r matches Some((pk, q)) && pk == PlayPacket::Padding && q as int == p
            } else {
                match sp_frame(buf@, pos as int) {
                    None => r is None,
                    Some((flen, id, body, end)) => (r is Some <==> play_readable(
                        id,
                        buf@.subrange(body, end),
                    )) && (r matches Some((pk, q)) ==> play_reads(
                        id,
                        flen,
                        buf@.subrange(body, end),
                        pk,
                    ) && q as int == end),
                }
            },
        },
{
    let (len, p) = read_var(buf, pos)?;
    if len == 0 {
        return Some((PlayPacket::Padding, p));
    }
    let f = read_frame(buf, pos)?;
    let body = &buf[f.body..f.end];
    let id = f.id;
    let pk = if id == PLAY_TELEPORT_CONFIRM {
        let (t, _) = read_var(body, 0)?;
        PlayPacket::TeleportConfirm(t)
    } else if id == ClientSettings::get_id() {
        PlayPacket::ClientSettings(ClientSettings::decode(body)?)
    } else if id == PluginMessageS::get_id() {
        PlayPacket::PluginMessage(PluginMessageS::decode(body)?)
    } else if id == ServerBoundKeepAlive::get_id() {
        PlayPacket::KeepAlive(ServerBoundKeepAlive::decode(body)?)
    } else if id == PlayerPosition::get_id() {
        PlayPacket::Position(PlayerPosition::decode(body)?)
    } else if id == ServerBoundPlayerPositionAndRotation::get_id() {
        PlayPacket::PositionAndRotation(ServerBoundPlayerPositionAndRotation::decode(body)?)
    } else {
        PlayPacket::Unknown { id, len: f.len }
    };
    Some((pk, f.end))
}

/// Where the play loop stands after the frame at `pos`, when it can read it.
pub open spec fn dispatch_spec(b: Seq<u8>, pos: int) -> Option<int> {
    match sp_var(b, pos) {
        None => None,
        Some((len, p)) => if len == 0 {
            Some(p)
        } else {
            match sp_frame(b, pos) {
                None => None,
                Some((_, id, body, end)) => if play_readable(id, b.subrange(body, end)) {
                    Some(end)
                } else {
                    None
                },
            }
        },
    }
}

/// Whether `pk` is what the play loop reads from the frame at `pos`.
pub open spec fn dispatch_reads(b: Seq<u8>, pos: int, pk: PlayPacket) -> bool {
    match sp_var(b, pos) {
        None => false,
        Some((len, _)) => if len == 0 {
            pk == PlayPacket::Padding
        } else {
            match sp_frame(b, pos) {
                None => false,
                Some((flen, id, body, end)) => play_reads(id, flen, b.subrange(body, end), pk),
            }
        },
    }
}

/// A frame with an id that the play state does not know, and a body of any
/// length: the frame's body is exactly that body, and the frame ends where
/// whatever follows it begins.
pub proof fn unknown_frame_skip(id: u32, body: Seq<u8>, rest: Seq<u8>)
    requires
        !is_play_id(id),
        payload(id, body).len() <= u32::MAX,
    ensures
        sp_frame(frame(payload(id, body)) + rest, 0) matches Some((len, fid, start, end)) && fid
            == id && len > 0 && (frame(payload(id, body)) + rest).subrange(start, end) == body
            && (frame(payload(id, body)) + rest).skip(end) == rest,
{
    let f = frame(payload(id, body));
    let b = f + rest;
    lemma_frame_round(id, body, rest);
    crate::varint::varint_round_trip(id, seq![]);
    let start = (f.len() - body.len()) as int;
    assert(b.subrange(start, f.len() as int) =~= body);
    assert(b.skip(f.len() as int) =~= rest);
}

/// What one step asks the caller to do, in this order: report `joined` to
/// the registry, send a status response for `status` (a snapshot built for
/// that protocol version), send `frames`, and, when `close` is set, shut the
/// socket and report the connection closed. `packet` is what the play loop
/// read, for the caller to log.
pub struct Step {
    /// Where the next frame starts.
    pub end: usize,
    pub status: Option<u32>,
    pub frames: Vec<Vec<u8>>,
    pub joined: Option<String>,
    pub packet: Option<PlayPacket>,
    pub close: bool,
}

pub struct Connection {
    pub state: ConnState,
}

/// The spawn pose sent after login.
pub open spec fn spawn_pose() -> ClientBoundPlayerPositionAndRotation {
    ClientBoundPlayerPositionAndRotation {
        x: 0,
        y: 0,
        z: 0,
        yaw: 0,
        pitch: 0,
        flags: 0,
        teleport_id: 0,
        dismount_veicle: false,
    }
}

pub open spec fn login_success_frame(protocol: u32, username: Seq<char>) -> Seq<u8> {
    frame(
        en_var(0x02) + en_uuid(LOGIN_UUID, protocol <= UUID_AS_STRING_MAX_PROTOCOL) + en_str(
            username,
        ),
    )
}

pub open spec fn join_game_frame() -> Seq<u8> {
    frame(
        en_var(0x23) + en_u32(0) + en_u8(1) + en_i32(0) + en_u8(0) + en_u8(10) + en_str(
            DEFAULT_LEVEL_TYPE@,
        ) + en_bool(false),
    )
}

pub open spec fn spawn_frame() -> Seq<u8> {
    frame(
        en_var(0x2f) + en_u64(0) + en_u64(0) + en_u64(0) + en_u32(0) + en_u32(0) + en_i8(0)
            + en_var(0),
    )
}

/// The chunk packet at index `i` of the login grid: column `i / 16`, row
/// `i % 16`.
pub open spec fn chunk_frame(i: int) -> Seq<u8> {
    frame(
        en_var(0x20) + en_i32((i / 16) as i32) + en_i32((i % 16) as i32) + en_u8(1) + en_var(
            u32::MAX,
        ) + en_var(0) + en_var(0),
    )
}

/// The frames sent once a login is accepted: login success, join game, the
/// spawn pose, then the grid of chunks.
pub open spec fn login_frames(frames: Seq<Vec<u8>>, protocol: u32, username: Seq<char>) -> bool {
    &&& frames.len() == 3 + VIEW_GRID_CHUNKS
    &&& frames[0]@ == login_success_frame(protocol, username)
    &&& frames[1]@ == join_game_frame()
    &&& frames[2]@ == spawn_frame()
    &&& forall|i: int| 0 <= i < VIEW_GRID_CHUNKS ==> (#[trigger] frames[3 + i])@ == chunk_frame(i)
}

/// The UUID sent in binary form at login.
pub const LOGIN_UUID: u128 = 1293876;

pub const DEFAULT_LEVEL_TYPE: &'static str = "default";

/// Frames a payload that fits a length prefix.
fn framed(payload: &Vec<u8>) -> (r: Vec<u8>)
    requires
        payload@.len() <= u32::MAX,
    ensures
        r@ == frame(payload@),
{
    let mut out: Vec<u8> = Vec::new();
    write_frame(&mut out, payload);
    assert(out@ =~= frame(payload@));
    out
}

/// The login success payload for `username`.
pub open spec fn login_success_payload(protocol: u32, username: Seq<char>) -> Seq<u8> {
    en_var(0x02) + en_uuid(LOGIN_UUID, protocol <= UUID_AS_STRING_MAX_PROTOCOL) + en_str(username)
}

/// A login can be answered when the username and the login success payload
/// fit their length prefixes.
pub open spec fn login_fits(protocol: u32, username: Seq<char>) -> bool {
    str_fits(username) && login_success_payload(protocol, username).len() <= u32::MAX
}

/// The frames of a login: see [`login_frames`].
pub fn login_burst(protocol: u32, username: &String) -> (r: Option<Vec<Vec<u8>>>)
    ensures
        r is Some <==> login_fits(protocol, username@),
        r matches Some(fs) ==> login_frames(fs@, protocol, username@),
{
    let name_bytes = username.as_str().as_bytes().len();
    if name_bytes > 0xffff_ffff {
        return None;
    }
    let name = username.clone();
    assert(name@ == username@);
    let success = LoginSuccess {
        uuid: LOGIN_UUID,
        as_string: protocol <= UUID_AS_STRING_MAX_PROTOCOL,
        username: name,
    };
    let p0 = success.write_impl();
    if p0.len() > 0xffff_ffff {
        return None;
    }
    let mut frames: Vec<Vec<u8>> = Vec::new();
    frames.push(framed(&p0));
    proof {
        reveal_strlit("default");
        assert(is_ascii_chars(DEFAULT_LEVEL_TYPE@));
        is_ascii_chars_encode_utf8(DEFAULT_LEVEL_TYPE@);
        lemma_fixed_lengths();
        varint_round_trip(0x23, seq![]);
        varint_round_trip(0x2f, seq![]);
        varint_round_trip(0x20, seq![]);
        varint_round_trip(0, seq![]);
        varint_round_trip(u32::MAX, seq![]);
        varint_round_trip(7, seq![]);
    }
    let join = JoinGame {
        entity_id: 0,
        is_hardcore: false,
        gamemode: 1,
        dimension: 0,
        difficulty: 0,
        max_players: 10,
        level_type: String::from_str(DEFAULT_LEVEL_TYPE),
        reduced_debug_info: false,
    };
    let p1 = join.write_impl();
    frames.push(framed(&p1));
    let pose = ClientBoundPlayerPositionAndRotation {
        x: 0,
        y: 0,
        z: 0,
        yaw: 0,
        pitch: 0,
        flags: 0,
        teleport_id: 0,
        dismount_veicle: false,
    };
    let p2 = pose.write_impl();
    frames.push(framed(&p2));
    let mut i: usize = 0;
    while i < VIEW_GRID_CHUNKS
        invariant
            i <= VIEW_GRID_CHUNKS,
            frames@.len() == 3 + i,
            frames@[0]@ == login_success_frame(protocol, username@),
            frames@[1]@ == join_game_frame(),
            frames@[2]@ == spawn_frame(),
            forall|j: int| 0 <= j < i ==> (#[trigger] frames@[3 + j])@ == chunk_frame(j),
            forall|v: i32| #[trigger] en_i32(v).len() == 4,
            var_enc(0x20).len() == 1,
            var_enc(0).len() == 1,
            var_enc(u32::MAX as nat).len() <= 5,
        decreases VIEW_GRID_CHUNKS - i,
    {
        let chunk = ChunkData { chunk_x: (i / VIEW_GRID_SIDE) as i32, chunk_z: (i % VIEW_GRID_SIDE) as i32 };
        let p = chunk.write_impl();
        frames.push(framed(&p));
        i = i + 1;
    }
    Some(frames)
}

/// A step that ends the connection without sending anything.
fn closing(pos: usize) -> (r: Step)
    ensures
        r.close,
        r.end == pos,
        r.status is None,
        r.frames@.len() == 0,
        r.joined is None,
        r.packet is None,
{
    Step { end: pos, status: None, frames: Vec::new(), joined: None, packet: None, close: true }
}

/// A step that reads a frame ending at `end` and asks for nothing.
fn quiet(end: usize) -> (r: Step)
    ensures
        !r.close,
        r.end == end,
        r.status is None,
        r.frames@.len() == 0,
        r.joined is None,
        r.packet is None,
{
    Step { end, status: None, frames: Vec::new(), joined: None, packet: None, close: false }
}

/// The step asks for nothing to be sent or reported.
pub open spec fn silent(r: Step) -> bool {
    r.frames@.len() == 0 && r.status is None && r.joined is None && r.packet is None
}

/// The step from the handshake state: it only picks the next state, or
/// closes when the handshake is refused.
pub open spec fn handshake_step(b: Seq<u8>, pos: int, r: Step, next: ConnState) -> bool {
    &&& silent(r)
    &&& match sp_read_handshake(b, pos) {
        Some((h, end)) => if h.next_state == 1 {
            next == (ConnState::Status { protocol: h.protocol }) && !r.close && r.end as int == end
        } else if h.next_state == 2 {
            next == (ConnState::Login { protocol: h.protocol }) && !r.close && r.end as int == end
        } else {
            next == ConnState::Closed && r.close
        },
        None => next == ConnState::Closed && r.close,
    }
}

/// The step from the status state: a status request (an empty body) is
/// answered with a status response for the handshake's protocol version.
pub open spec fn status_step(b: Seq<u8>, pos: int, protocol: u32, r: Step, next: ConnState) -> bool {
    &&& r.frames@.len() == 0
    &&& r.joined is None
    &&& r.packet is None
    &&& match sp_body(b, pos, Request::spec_id()) {
        Some((body, end)) => if Request::decodable(body) {
            next == ConnState::Ping && r.status == Some(protocol) && !r.close && r.end as int
                == end
        } else {
            next == ConnState::Closed && r.close && r.status is None
        },
        None => next == ConnState::Closed && r.close && r.status is None,
    }
}

/// The step from the ping state: the ping's payload comes back in a pong,
/// and the connection ends either way.
pub open spec fn ping_step(b: Seq<u8>, pos: int, r: Step, next: ConnState) -> bool {
    &&& next == ConnState::Closed
    &&& r.close
    &&& r.status is None
    &&& r.joined is None
    &&& r.packet is None
    &&& match sp_body(b, pos, Ping::spec_id()) {
        Some((body, _)) => if Ping::decodable(body) {
            exists|p: Ping|
                Ping::decodes_to(body, p) && r.frames@.len() == 1 && r.frames@[0]@ == frame(
                    en_var(Pong::spec_id()) + en_u64(p.payload),
                )
        } else {
            r.frames@.len() == 0
        },
        None => r.frames@.len() == 0,
    }
}

/// The step from the login state: the player's name is reported and the
/// login frames are sent, then play begins.
pub open spec fn login_step(b: Seq<u8>, pos: int, protocol: u32, r: Step, next: ConnState) -> bool {
    let refused = next == ConnState::Closed && r.close && silent(r);
    match sp_body(b, pos, LoginStart::spec_id()) {
        Some((body, end)) => if LoginStart::decodable(body) {
            exists|u: LoginStart|
                LoginStart::decodes_to(body, u) && if login_fits(protocol, u.username@) {
                    next == ConnState::Play && !r.close && r.end as int == end && r.status is None
                        && r.packet is None && (r.joined matches Some(name) && name@
                        == u.username@) && login_frames(r.frames@, protocol, u.username@)
                } else {
                    refused
                }
        } else {
            refused
        },
        None => refused,
    }
}

/// The step from the play state: the frame is read, nothing is sent or
/// reported, and the loop goes on; an unreadable frame ends the connection.
pub open spec fn play_step(b: Seq<u8>, pos: int, r: Step, next: ConnState) -> bool {
    &&& r.frames@.len() == 0
    &&& r.status is None
    &&& r.joined is None
    &&& match dispatch_spec(b, pos) {
        Some(q) => next == ConnState::Play && !r.close && r.end as int == q && (
        r.packet matches Some(pk) && dispatch_reads(b, pos, pk)),
        None => next == ConnState::Closed && r.close && r.packet is None,
    }
}

/// A connection reports a join at most once: only the step out of the login
/// state reports one, and no step leads from the play or closed state back
/// to the login state.
pub proof fn join_reported_once(s: ConnState, t: ConnState)
    requires
        rank(t) >= rank(s),
        s == ConnState::Play || s == ConnState::Closed,
    ensures
        !(t matches ConnState::Login { .. }),
        !(t matches ConnState::Handshake),
{
}

impl Connection {
    pub fn new() -> (r: Connection)
        ensures
            r.state == ConnState::Handshake,
    {
        Connection { state: ConnState::Handshake }
    }

    /// Handles the frame at `pos` of `buf` in the current state.
    pub fn on_frame(&mut self, buf: &[u8], pos: usize) -> (r: Step)
        ensures
            rank(final(self).state) >= rank(old(self).state),
            final(self).state != ConnState::Handshake,
            r.close <==> final(self).state == ConnState::Closed,
            r.joined is Some ==> (old(self).state matches ConnState::Login { .. })
                && final(self).state == ConnState::Play,
            match old(self).state {
                ConnState::Handshake => handshake_step(buf@, pos as int, r, final(self).state),
                ConnState::Status { protocol } => status_step(
                    buf@,
                    pos as int,
                    protocol,
                    r,
                    final(self).state,
                ),
                ConnState::Ping => ping_step(buf@, pos as int, r, final(self).state),
                ConnState::Login { protocol } => login_step(
                    buf@,
                    pos as int,
                    protocol,
                    r,
                    final(self).state,
                ),
                ConnState::Play => play_step(buf@, pos as int, r, final(self).state),
                ConnState::Closed => final(self).state == ConnState::Closed && r.close && silent(r),
            },
    {
        match self.state {
            ConnState::Handshake => {
                match Handshake::read(buf, pos) {
                    Some((h, end)) => {
                        if h.next_state == 1 {
                            self.state = ConnState::Status { protocol: h.protocol };
                            quiet(end)
                        } else if h.next_state == 2 {
                            self.state = ConnState::Login { protocol: h.protocol };
                            quiet(end)
                        } else {
                            self.state = ConnState::Closed;
                            closing(pos)
                        }
                    },
                    None => {
                        self.state = ConnState::Closed;
                        closing(pos)
                    },
                }
            },
            ConnState::Status { protocol } => {
                match read_packet::<Request>(buf, pos) {
                    Some((_, end)) => {
                        self.state = ConnState::Ping;
                        let mut st = quiet(end);
                        st.status = Some(protocol);
                        st
                    },
                    None => {
                        self.state = ConnState::Closed;
                        closing(pos)
                    },
                }
            },
            ConnState::Ping => {
                self.state = ConnState::Closed;
                let mut st = closing(pos);
                match read_packet::<Ping>(buf, pos) {
                    Some((p, end)) => {
                        let pong = Pong { payload: p.payload };
                        let body = pong.write_impl();
                        proof {
                            lemma_fixed_lengths();
                            varint_round_trip(1, seq![]);
                        }
                        st.frames.push(framed(&body));
                        st.end = end;
                    },
                    None => {},
                }
                st
            },
            ConnState::Login { protocol } => {
                match read_packet::<LoginStart>(buf, pos) {
                    Some((u, end)) => {
                        match login_burst(protocol, &u.username) {
                            Some(frames) => {
                                self.state = ConnState::Play;
                                Step {
                                    end,
                                    status: None,
                                    frames,
                                    joined: Some(u.username),
                                    packet: None,
                                    close: false,
                                }
                            },
                            None => {
                                self.state = ConnState::Closed;
                                closing(pos)
                            },
                        }
                    },
                    None => {
                        self.state = ConnState::Closed;
                        closing(pos)
                    },
                }
            },
            ConnState::Play => {
                match dispatch_play(buf, pos) {
                    Some((pk, q)) => {
                        let mut st = quiet(q);
                        st.packet = Some(pk);
                        st
                    },
                    None => {
                        self.state = ConnState::Closed;
                        closing(pos)
                    },
                }
            },
            ConnState::Closed => closing(pos),
        }
    }

    /// The peer closed the stream: the connection ends.
    pub fn on_eof(&mut self) -> (r: Step)
        ensures
            final(self).state == ConnState::Closed,
            r.close,
            silent(r),
    {
        self.state = ConnState::Closed;
        closing(0)
    }
}

} // verus!
