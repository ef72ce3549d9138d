use mycelium::packet::{read_frame, read_packet, write_frame};
use mycelium::packets::handshake::{Handshake, Ping, Pong, Request, Response};
use mycelium::packets::login::{LoginStart, LoginSuccess};
use mycelium::packets::play::{
    ChatPosition, ChunkData, ClientBoundChat, ClientBoundKeepAlive,
    ClientBoundPlayerPositionAndRotation, ClientSettings, HeldItemChange, JoinGame,
    PlayerPosition, PluginMessageS, ServerBoundKeepAlive, ServerBoundPlayerPositionAndRotation,
};
use mycelium::packet::{Decode, Packet};
use mycelium::varint::write_var_u32;
use mycelium::wire::{write_bool, write_i8, write_mc_string, write_u16, write_u32, write_u64, write_u8};

fn framed(id: u32, fields: &[u8]) -> Vec<u8> {
    let mut payload = Vec::new();
    write_var_u32(&mut payload, id);
    payload.extend_from_slice(fields);
    let mut out = Vec::new();
    write_frame(&mut out, &payload);
    out
}

#[test]
fn frame_counts_id_and_body() {
    let mut out = Vec::new();
    let n = write_frame(&mut out, &vec![0x01, 0xaa, 0xbb]);
    assert_eq!(n, 4);
    assert_eq!(out, vec![3, 0x01, 0xaa, 0xbb]);
    let f = read_frame(&out, 0).unwrap();
    assert_eq!((f.len, f.id, f.body, f.end), (3, 1, 2, 4));
}

#[test]
fn handshake_reads_fields() {
    let mut fields = Vec::new();
    write_var_u32(&mut fields, 758);
    write_mc_string(&mut fields, "localhost");
    write_u16(&mut fields, 25565);
    write_var_u32(&mut fields, 1);
    let buf = framed(0, &fields);
    let (h, end) = Handshake::read(&buf, 0).unwrap();
    assert_eq!(h.protocol, 758);
    assert_eq!(h.address, "localhost");
    assert_eq!(h.port, 25565);
    assert_eq!(h.next_state, 1);
    assert_eq!(end, buf.len());
}

#[test]
fn handshake_refuses_legacy_ping() {
    let buf = vec![0xfe, 0x01, 0xfa, 0x00];
    assert!(Handshake::read(&buf, 0).is_none());
}

#[test]
fn strict_read_checks_id() {
    let mut fields = Vec::new();
    write_u64(&mut fields, 0xdeadbeef);
    let buf = framed(1, &fields);
    let (p, end) = read_packet::<Ping>(&buf, 0).unwrap();
    assert_eq!(p.payload, 0xdeadbeef);
    assert_eq!(end, buf.len());
    let wrong = framed(2, &fields);
    assert!(read_packet::<Ping>(&wrong, 0).is_none());
    assert!(read_packet::<Request>(&framed(0, &[]), 0).is_some());
}

#[test]
fn pong_bytes() {
    let body = Pong { payload: 0xdeadbeef }.write_impl();
    assert_eq!(body, vec![0x01, 0, 0, 0, 0, 0xde, 0xad, 0xbe, 0xef]);
    assert_eq!(<Pong as Packet>::get_id(), 1);
}

#[test]
fn response_carries_json_string() {
    let r = Response { json: "{}".to_string() };
    assert_eq!(r.write_impl(), vec![0x00, 2, b'{', b'}']);
}

#[test]
fn login_start_reads_username() {
    let mut fields = Vec::new();
    write_mc_string(&mut fields, "Steve");
    let (l, _) = read_packet::<LoginStart>(&framed(0, &fields), 0).unwrap();
    assert_eq!(l.username, "Steve");
}

#[test]
fn login_success_uuid_forms() {
    let text = LoginSuccess { uuid: 5, as_string: true, username: "Steve".to_string() }.write_impl();
    let mut expected = vec![0x02];
    write_mc_string(&mut expected, "00000000-0000-0000-0000-000000000000");
    write_mc_string(&mut expected, "Steve");
    assert_eq!(text, expected);
    let binary = LoginSuccess { uuid: 5, as_string: false, username: "Steve".to_string() }.write_impl();
    assert_eq!(binary.len(), 1 + 16 + 6);
    assert_eq!(binary[16], 5);
}

#[test]
fn join_game_bytes() {
    let j = JoinGame {
        entity_id: 7,
        is_hardcore: true,
        gamemode: 1,
        dimension: -1,
        difficulty: 2,
        max_players: 10,
        level_type: "flat".to_string(),
        reduced_debug_info: true,
    };
    assert_eq!(
        j.write_impl(),
        vec![0x23, 0, 0, 0, 7, 1, 0xff, 0xff, 0xff, 0xff, 2, 10, 4, b'f', b'l', b'a', b't', 1]
    );
}

#[test]
fn client_settings_round_trip() {
    let mut fields = Vec::new();
    write_mc_string(&mut fields, "en_GB");
    write_i8(&mut fields, 12);
    write_var_u32(&mut fields, 0);
    write_bool(&mut fields, true);
    write_u8(&mut fields, 0x7f);
    write_var_u32(&mut fields, 1);
    write_bool(&mut fields, false);
    write_bool(&mut fields, true);
    let s = ClientSettings::decode(&fields).unwrap();
    assert_eq!(s.locale, "en_GB");
    assert_eq!(s.view_distance, 12);
    assert_eq!(s.chat_mode, 0);
    assert!(s.chat_colors);
    assert_eq!(s.displayed_skin_parts, 0x7f);
    assert_eq!(s.main_hand, 1);
    assert!(!s.use_text_filtering);
    assert!(s.allow_server_listing);
    assert!(ClientSettings::decode(&fields[..fields.len() - 1]).is_none());
}

#[test]
fn plugin_message_payload_fills_rest() {
    let mut fields = Vec::new();
    write_mc_string(&mut fields, "minecraft:brand");
    fields.extend_from_slice(b"\x07vanilla");
    let p = PluginMessageS::decode(&fields).unwrap();
    assert_eq!(p.channel, "minecraft:brand");
    assert_eq!(p.data, b"\x07vanilla".to_vec());
}

#[test]
fn positions_round_trip() {
    let mut fields = Vec::new();
    write_u64(&mut fields, 1.5f64.to_bits());
    write_u64(&mut fields, 64.0f64.to_bits());
    write_u64(&mut fields, (-3.25f64).to_bits());
    write_bool(&mut fields, true);
    let p = PlayerPosition::decode(&fields).unwrap();
    assert_eq!(f64::from_bits(p.x), 1.5);
    assert_eq!(f64::from_bits(p.y), 64.0);
    assert_eq!(f64::from_bits(p.z), -3.25);
    assert!(p.on_ground);

    let mut fields = Vec::new();
    write_u64(&mut fields, 1.0f64.to_bits());
    write_u64(&mut fields, 2.0f64.to_bits());
    write_u64(&mut fields, 3.0f64.to_bits());
    write_u32(&mut fields, 90.0f32.to_bits());
    write_u32(&mut fields, (-45.0f32).to_bits());
    write_bool(&mut fields, false);
    let r = ServerBoundPlayerPositionAndRotation::decode(&fields).unwrap();
    assert_eq!(f32::from_bits(r.yaw), 90.0);
    assert_eq!(f32::from_bits(r.pitch), -45.0);
    assert!(!r.on_ground);
}

#[test]
fn keep_alive_packets() {
    let k = ClientBoundKeepAlive::new();
    assert_eq!(k.0, 420);
    assert_eq!(k.write_impl(), vec![0x1f, 0, 0, 0, 0, 0, 0, 0x01, 0xa4]);
    let s = ServerBoundKeepAlive::decode(&[0, 0, 0, 0, 0, 0, 0x01, 0xa4]).unwrap();
    assert_eq!(s.0, 420);
    assert!(ServerBoundKeepAlive::decode(&[0, 1]).is_none());
}

#[test]
fn chat_and_small_packets() {
    let c = ClientBoundChat("hi".to_string(), ChatPosition::System);
    assert_eq!(c.write_impl(), vec![0x0f, 2, b'h', b'i', 1]);
    assert_eq!(ChatPosition::GameInfo.code(), 2);
    assert_eq!(HeldItemChange { slot: 3 }.write_impl(), vec![0x3a, 3]);
}

#[test]
fn chunk_and_pose_bytes() {
    let c = ChunkData { chunk_x: 1, chunk_z: -1 }.write_impl();
    assert_eq!(
        c,
        vec![0x20, 0, 0, 0, 1, 0xff, 0xff, 0xff, 0xff, 1, 0xff, 0xff, 0xff, 0xff, 0x0f, 0, 0]
    );
    let p = ClientBoundPlayerPositionAndRotation {
        x: 0,
        y: 0,
        z: 0,
        yaw: 0,
        pitch: 0,
        flags: 0,
        teleport_id: 300,
        dismount_veicle: false,
    }
    .write_impl();
    assert_eq!(p.len(), 1 + 24 + 8 + 1 + 2);
    assert_eq!(p[0], 0x2f);
    assert_eq!(&p[34..], &[0xac, 0x02]);
}

#[test]
fn play_ids_are_distinct_and_written() {
    assert_eq!(<ClientBoundPlayerPositionAndRotation as Packet>::get_id(), 0x2f);
    assert_eq!(<JoinGame as Packet>::get_id(), 0x23);
    assert_eq!(<ClientSettings as Packet>::get_id(), 0x04);
    assert_eq!(<PluginMessageS as Packet>::get_id(), 0x09);
    assert_eq!(<PlayerPosition as Packet>::get_id(), 0x0d);
    assert_eq!(<ServerBoundPlayerPositionAndRotation as Packet>::get_id(), 0x0e);
    assert_eq!(<ServerBoundKeepAlive as Packet>::get_id(), 0x0b);
    assert!(read_packet::<Request>(&framed(0, &[9]), 0).is_none());
}
