use domo_arigato::codec::{read_bool, read_i16, read_string, write_i16, write_string};
use domo_arigato::error::ProtocolError;
use domo_arigato::types::{Chat, Position, String, Uuid};

#[test]
fn position_round_trip_extremes() {
    let cases = [
        Position { x: 0, z: 0, y: 0 },
        Position { x: -33554432, z: 33554431, y: -2048 },
        Position { x: 33554431, z: -33554432, y: 2047 },
        Position { x: -1, z: -1, y: -1 },
        Position { x: 18357644, z: -20882616, y: 831 },
    ];
    for p in cases {
        let mut out = Vec::new();
        p.encode(&mut out).unwrap();
        assert_eq!(out.len(), 8);
        let (q, end) = Position::decode(out.as_slice(), 0).unwrap();
        assert_eq!(q, p);
        assert_eq!(end, 8);
    }
}

#[test]
fn position_packs_x_in_top_bits() {
    let mut out = Vec::new();
    Position { x: 1, z: 0, y: 0 }.encode(&mut out).unwrap();
    assert_eq!(out, vec![0x00, 0x00, 0x00, 0x40, 0x00, 0x00, 0x00, 0x00]);
    let mut out = Vec::new();
    Position { x: 0, z: 1, y: 1 }.encode(&mut out).unwrap();
    assert_eq!(out, vec![0, 0, 0, 0, 0, 0, 0x10, 0x01]);
}

#[test]
fn position_out_of_range_fails() {
    for p in [
        Position { x: 33554432, z: 0, y: 0 },
        Position { x: 0, z: -33554433, y: 0 },
        Position { x: 0, z: 0, y: 2048 },
    ] {
        let mut out = vec![7u8];
        assert_eq!(p.encode(&mut out), Err(ProtocolError::PositionOutOfRange));
        assert_eq!(out, vec![7u8]);
    }
}

#[test]
fn bool_rejects_other_bytes() {
    let bytes = vec![0u8, 1, 2];
    assert_eq!(read_bool(bytes.as_slice(), 0), Ok((false, 1)));
    assert_eq!(read_bool(bytes.as_slice(), 1), Ok((true, 2)));
    assert_eq!(read_bool(bytes.as_slice(), 2), Err(ProtocolError::InvalidBool));
}

#[test]
fn fixed_integers_are_big_endian() {
    let mut out = Vec::new();
    write_i16(-2, &mut out);
    assert_eq!(out, vec![0xff, 0xfe]);
    assert_eq!(read_i16(out.as_slice(), 0), Ok((-2, 2)));
    let mut u = Vec::new();
    Uuid(0x0102_0304_0506_0708_090a_0b0c_0d0e_0f10).encode(&mut u);
    assert_eq!(u, (1u8..=16).collect::<Vec<u8>>());
}

#[test]
fn string_round_trip_utf8() {
    let mut out = Vec::new();
    write_string("héllo", &mut out);
    assert_eq!(out, vec![6, b'h', 0xc3, 0xa9, b'l', b'l', b'o']);
    let (s, end) = read_string(out.as_slice(), 0).unwrap();
    assert_eq!(s, "héllo");
    assert_eq!(end, 7);
    let (t, _) = String::decode(out.as_slice(), 0).unwrap();
    assert_eq!(t.0, "héllo");
}

#[test]
fn string_invalid_utf8_fails() {
    let bytes = vec![2u8, 0xc3, 0x28];
    assert_eq!(read_string(bytes.as_slice(), 0), Err(ProtocolError::InvalidUtf8));
}

#[test]
fn chat_longer_than_limit_fails() {
    let text = "a".repeat(32768);
    let mut out = Vec::new();
    write_string(&text, &mut out);
    assert_eq!(Chat::decode(out.as_slice(), 0), Err(ProtocolError::StringTooLong));
    let ok = "a".repeat(32767);
    let mut out = Vec::new();
    write_string(&ok, &mut out);
    assert!(Chat::decode(out.as_slice(), 0).is_ok());
}
