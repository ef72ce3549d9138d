use mycelium::varint::{decode_var_u32, encode_var_u32, varuint_size, write_var_u32};
use mycelium::wire::{
    ReadMcString, WriteMcString, read_bool, read_i64, read_i8, read_mc_string, read_u16, read_u32, read_u64, write_bool,
    write_i32, write_i64, write_mc_string, write_u128, write_u16, write_u32, write_u64,
};

#[test]
fn varint_known_encodings() {
    assert_eq!(encode_var_u32(0), vec![0x00]);
    assert_eq!(encode_var_u32(127), vec![0x7f]);
    assert_eq!(encode_var_u32(128), vec![0x80, 0x01]);
    assert_eq!(encode_var_u32((1 << 21) - 1), vec![0xff, 0xff, 0x7f]);
    assert_eq!(encode_var_u32(1 << 21), vec![0x80, 0x80, 0x80, 0x01]);
    assert_eq!(encode_var_u32(u32::MAX), vec![0xff, 0xff, 0xff, 0xff, 0x0f]);
}

#[test]
fn varint_round_trip_values() {
    for v in [0u32, 1, 127, 128, 255, 300, (1 << 21) - 1, 1 << 21, 1 << 28, u32::MAX] {
        let mut b = encode_var_u32(v);
        let n = b.len();
        b.push(0xaa);
        assert_eq!(decode_var_u32(&b, 0), Some((v, n)));
    }
}

#[test]
fn varint_minimal_sizes() {
    assert_eq!(varuint_size(0), 1);
    assert_eq!(varuint_size(127), 1);
    assert_eq!(varuint_size(128), 2);
    assert_eq!(varuint_size(16383), 2);
    assert_eq!(varuint_size(16384), 3);
    assert_eq!(varuint_size((1 << 21) - 1), 3);
    assert_eq!(varuint_size(1 << 21), 4);
    assert_eq!(varuint_size(u32::MAX), 5);
}

#[test]
fn varint_rejects_overlong_and_truncated() {
    assert_eq!(decode_var_u32(&[0x80, 0x80, 0x80, 0x80, 0x80, 0x01], 0), None);
    assert_eq!(decode_var_u32(&[0x80, 0x80], 0), None);
    assert_eq!(decode_var_u32(&[], 0), None);
    assert_eq!(decode_var_u32(&[0xff, 0xff, 0xff, 0xff, 0x1f], 0), None);
}

#[test]
fn varint_decodes_at_position() {
    let mut out = vec![9u8, 9];
    write_var_u32(&mut out, 300);
    assert_eq!(out, vec![9, 9, 0xac, 0x02]);
    assert_eq!(decode_var_u32(&out, 2), Some((300, 4)));
}

#[test]
fn big_endian_fields() {
    let mut out = Vec::new();
    write_u16(&mut out, 0x1234);
    write_u32(&mut out, 0xdeadbeef);
    write_i32(&mut out, -2);
    write_u64(&mut out, 0x0102030405060708);
    write_i64(&mut out, -1);
    write_bool(&mut out, true);
    assert_eq!(
        out,
        vec![
            0x12, 0x34, 0xde, 0xad, 0xbe, 0xef, 0xff, 0xff, 0xff, 0xfe, 1, 2, 3, 4, 5, 6, 7, 8,
            0xff, 0xff, 0xff, 0xff, 0xff, 0xff, 0xff, 0xff, 1
        ]
    );
    assert_eq!(read_u16(&out, 0), Some((0x1234, 2)));
    assert_eq!(read_u32(&out, 2), Some((0xdeadbeef, 6)));
    assert_eq!(read_u32(&out, 6), Some((0xfffffffe, 10)));
    assert_eq!(read_u64(&out, 10), Some((0x0102030405060708, 18)));
    assert_eq!(read_i64(&out, 18), Some((-1, 26)));
    assert_eq!(read_bool(&out, 26), Some((true, 27)));
    assert_eq!(read_u64(&out, 20), None);
    assert_eq!(read_i8(&[0xff], 0), Some((-1, 1)));
}

#[test]
fn u128_is_sixteen_bytes() {
    let mut out = Vec::new();
    write_u128(&mut out, 1293876);
    assert_eq!(out.len(), 16);
    assert_eq!(&out[13..], &[0x13, 0xbe, 0x34]);
    assert!(out[..13].iter().all(|b| *b == 0));
}

#[test]
fn string_round_trip() {
    let mut out = Vec::new();
    write_mc_string(&mut out, "héllo");
    assert_eq!(out[0], 6);
    assert_eq!(&out[1..], "héllo".as_bytes());
    let (s, end) = read_mc_string(&out, 0).unwrap();
    assert_eq!(s, "héllo");
    assert_eq!(end, 7);
}

#[test]
fn string_errors() {
    assert!(read_mc_string(&[5, b'a', b'b'], 0).is_none());
    assert!(read_mc_string(&[2, 0xc3, 0x28], 0).is_none());
    assert_eq!(read_mc_string(&[0], 0).map(|(s, e)| (s.len(), e)), Some((0, 1)));
}

#[test]
fn string_traits_on_byte_vectors() {
    let mut out: Vec<u8> = vec![0xee];
    WriteMcString::write_mc_string(&mut out, "Steve");
    assert_eq!(out, vec![0xee, 5, b'S', b't', b'e', b'v', b'e']);
    let (s, end) = ReadMcString::read_mc_string(&out, 1).unwrap();
    assert_eq!(s, "Steve");
    assert_eq!(end, 7);
    assert!(ReadMcString::read_mc_string(&out, 2).is_none());
}
