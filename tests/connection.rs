use mycelium::packet::{read_frame, write_frame};
use mycelium::response_data::{favicon_uri, status_data};
use mycelium::session::{dispatch_play, login_burst, ConnState, Connection, PlayPacket};
use mycelium::varint::write_var_u32;
use mycelium::wire::{read_mc_string, read_u64, write_mc_string, write_u16, write_u64};

fn framed(id: u32, fields: &[u8]) -> Vec<u8> {
    let mut payload = Vec::new();
    write_var_u32(&mut payload, id);
    payload.extend_from_slice(fields);
    let mut out = Vec::new();
    write_frame(&mut out, &payload);
    out
}

fn handshake(protocol: u32, next_state: u32) -> Vec<u8> {
    let mut fields = Vec::new();
    write_var_u32(&mut fields, protocol);
    write_mc_string(&mut fields, "localhost");
    write_u16(&mut fields, 8001);
    write_var_u32(&mut fields, next_state);
    framed(0, &fields)
}

#[test]
fn status_scenario() {
    let mut stream = handshake(758, 1);
    stream.extend(framed(0, &[]));
    let mut ping = Vec::new();
    write_u64(&mut ping, 0xDEADBEEF);
    stream.extend(framed(1, &ping));

    let mut c = Connection::new();
    let s1 = c.on_frame(&stream, 0);
    assert!(!s1.close);
    assert!(c.state == ConnState::Status { protocol: 758 });
    let s2 = c.on_frame(&stream, s1.end);
    assert_eq!(s2.status, Some(758));
    assert!(s2.frames.is_empty());
    assert!(c.state == ConnState::Ping);
    let s3 = c.on_frame(&stream, s2.end);
    assert!(s3.close);
    assert!(c.state == ConnState::Closed);
    assert_eq!(s3.end, stream.len());
    assert_eq!(s3.frames.len(), 1);
    let pong = &s3.frames[0];
    let f = read_frame(pong, 0).unwrap();
    assert_eq!(f.id, 1);
    assert_eq!(read_u64(pong, f.body), Some((0xDEADBEEF, pong.len())));
}

#[test]
fn status_snapshot_fields() {
    let fav = favicon_uri(&[1, 2, 3]);
    assert_eq!(fav, "data:image/png;base64,AQID");
    let d = status_data(758, &fav);
    assert_eq!(d.version.name, "1.18.1");
    assert_eq!(d.version.protocol, 758);
    assert_eq!(d.description.text, "§l§nMycelium Server 0.0");
    assert_eq!(d.players.max, i32::MAX);
    assert_eq!(d.players.online, 10);
    assert_eq!(d.players.sample.len(), 1);
    assert_eq!(d.players.sample[0].name, "aa");
    assert_eq!(d.players.sample[0].id, "00000000-0000-0000-0000-000000000000");
    assert_eq!(d.favicon, Some(fav));
    assert_eq!(favicon_uri(&[]), "data:image/png;base64,");
}

#[test]
fn login_scenario() {
    let mut stream = handshake(758, 2);
    let mut name = Vec::new();
    write_mc_string(&mut name, "Steve");
    stream.extend(framed(0, &name));

    let mut c = Connection::new();
    let s1 = c.on_frame(&stream, 0);
    assert!(c.state == ConnState::Login { protocol: 758 });
    let s2 = c.on_frame(&stream, s1.end);
    assert!(!s2.close);
    assert!(c.state == ConnState::Play);
    assert_eq!(s2.joined.as_deref(), Some("Steve"));
    assert_eq!(s2.frames.len(), 3 + 256);
    let ids: Vec<u32> = s2.frames.iter().map(|f| read_frame(f, 0).unwrap().id).collect();
    assert_eq!(ids[0], 0x02);
    assert_eq!(ids[1], 0x23);
    assert_eq!(ids[2], 0x2f);
    assert!(ids[3..].iter().all(|i| *i == 0x20));
    let success = &s2.frames[0];
    let f = read_frame(success, 0).unwrap();
    let (name, _) = read_mc_string(success, f.body + 16).unwrap();
    assert_eq!(name, "Steve");
    let last = &s2.frames[3 + 255];
    let f = read_frame(last, 0).unwrap();
    assert_eq!(&last[f.body..f.body + 8], &[0, 0, 0, 15, 0, 0, 0, 15]);
}

#[test]
fn login_uuid_text_for_old_protocols() {
    let frames = login_burst(340, &"Alex".to_string()).unwrap();
    let f = read_frame(&frames[0], 0).unwrap();
    let (uuid, next) = read_mc_string(&frames[0], f.body).unwrap();
    assert_eq!(uuid, "00000000-0000-0000-0000-000000000000");
    assert_eq!(read_mc_string(&frames[0], next).unwrap().0, "Alex");
}

#[test]
fn invalid_next_state_closes() {
    let stream = handshake(758, 3);
    let mut c = Connection::new();
    let s = c.on_frame(&stream, 0);
    assert!(s.close);
    assert!(c.state == ConnState::Closed);
}

#[test]
fn unknown_play_packet_is_skipped() {
    let body: Vec<u8> = (0u8..40).collect();
    let mut stream = framed(0x7a, &body);
    let first_len = stream.len();
    let mut ka = Vec::new();
    write_u64(&mut ka, 420);
    stream.extend(framed(0x0b, &ka));
    let (p, next) = dispatch_play(&stream, 0).unwrap();
    assert!(matches!(p, PlayPacket::Unknown { id: 0x7a, len: 41 }));
    assert_eq!(next, first_len);
    let (p, end) = dispatch_play(&stream, next).unwrap();
    match p {
        PlayPacket::KeepAlive(k) => assert_eq!(k.0, 420),
        _ => panic!("expected a keep-alive"),
    }
    assert_eq!(end, stream.len());
}

#[test]
fn padding_and_truncated_play_frames() {
    let (p, next) = dispatch_play(&[0, 1, 0x7a], 0).unwrap();
    assert!(matches!(p, PlayPacket::Padding));
    assert_eq!(next, 1);
    assert!(dispatch_play(&[5, 0x7a, 1], 0).is_none());
    assert!(dispatch_play(&[2, 0x0b, 1], 0).is_none());
}

#[test]
fn play_loop_closes_on_malformed_frame() {
    let mut c = Connection { state: ConnState::Play };
    let s = c.on_frame(&[3, 0x04, 1, 2], 0);
    assert!(s.close);
    assert!(c.state == ConnState::Closed);
    let mut c = Connection { state: ConnState::Play };
    let s = c.on_eof();
    assert!(s.close);
}

#[test]
fn refused_handshakes_send_nothing() {
    let mut c = Connection::new();
    let s = c.on_frame(&[0xfe, 0x01, 0xfa], 0);
    assert!(s.close);
    assert!(s.frames.is_empty() && s.status.is_none() && s.joined.is_none());
    let mut c = Connection::new();
    let s = c.on_frame(&handshake(758, 7), 0);
    assert!(s.close);
    assert!(s.frames.is_empty() && s.status.is_none() && s.joined.is_none());
}

#[test]
fn status_request_with_a_body_closes() {
    let mut c = Connection { state: ConnState::Status { protocol: 758 } };
    let s = c.on_frame(&framed(0, &[1]), 0);
    assert!(s.close);
    assert!(s.status.is_none() && s.frames.is_empty() && s.joined.is_none());
    assert!(c.state == ConnState::Closed);
}

#[test]
fn play_frames_ask_for_nothing() {
    let mut stream = vec![0u8];
    stream.extend(framed(0x7a, &[1, 2, 3]));
    let mut ka = Vec::new();
    write_u64(&mut ka, 420);
    stream.extend(framed(0x0b, &ka));
    let mut c = Connection { state: ConnState::Play };
    let mut pos = 0;
    for _ in 0..3 {
        let s = c.on_frame(&stream, pos);
        assert!(!s.close);
        assert!(s.frames.is_empty() && s.status.is_none() && s.joined.is_none());
        assert!(s.packet.is_some());
        pos = s.end;
    }
    assert_eq!(pos, stream.len());
    let s = c.on_eof();
    assert!(s.close && s.joined.is_none() && s.frames.is_empty());
}
