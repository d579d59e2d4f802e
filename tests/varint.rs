use domo_arigato::error::ProtocolError;
use domo_arigato::varint::{VarInt, VarLong};

#[test]
fn sample_varints() {
    let cases = vec![
        (0, vec![0x00]),
        (1, vec![0x01]),
        (2, vec![0x02]),
        (127, vec![0x7f]),
        (128, vec![0x80, 0x01]),
        (255, vec![0xff, 0x01]),
        (2147483647, vec![0xff, 0xff, 0xff, 0xff, 0x07]),
        (-1, vec![0xff, 0xff, 0xff, 0xff, 0x0f]),
        (-2147483648, vec![0x80, 0x80, 0x80, 0x80, 0x08]),
    ];

    for (int, bytes) in cases {
        let mut enc_output = Vec::new();
        VarInt(int).encode(&mut enc_output);
        assert_eq!(enc_output, bytes);

        let (dec_output, end) = VarInt::decode(bytes.as_slice(), 0).unwrap();
        assert_eq!(dec_output.0, int);
        assert_eq!(end, bytes.len());
    }
}

#[test]
fn sample_varlongs() {
    let cases = vec![
        (0, vec![0x00]),
        (1, vec![0x01]),
        (2, vec![0x02]),
        (127, vec![0x7f]),
        (128, vec![0x80, 0x01]),
        (255, vec![0xff, 0x01]),
        (2147483647, vec![0xff, 0xff, 0xff, 0xff, 0x07]),
        (
            9223372036854775807,
            vec![0xff, 0xff, 0xff, 0xff, 0xff, 0xff, 0xff, 0xff, 0x7f],
        ),
        (
            -1,
            vec![0xff, 0xff, 0xff, 0xff, 0xff, 0xff, 0xff, 0xff, 0xff, 0x01],
        ),
        (
            -2147483648,
            vec![0x80, 0x80, 0x80, 0x80, 0xf8, 0xff, 0xff, 0xff, 0xff, 0x01],
        ),
        (
            -9223372036854775808,
            vec![0x80, 0x80, 0x80, 0x80, 0x80, 0x80, 0x80, 0x80, 0x80, 0x01],
        ),
    ];

    for (int, bytes) in cases {
        let mut enc_output = Vec::new();
        VarLong(int).encode(&mut enc_output);
        assert_eq!(enc_output, bytes);

        let (dec_output, end) = VarLong::decode(bytes.as_slice(), 0).unwrap();
        assert_eq!(dec_output.0, int);
        assert_eq!(end, bytes.len());
    }
}

#[test]
fn varint_round_trip_sizes() {
    for n in [0, 1, -1, 300, 65535, -65536, i32::MAX, i32::MIN, 0x0fff_ffff] {
        let mut out = Vec::new();
        VarInt(n).encode(&mut out);
        assert!(out.len() >= 1 && out.len() <= 5);
        out.push(0xaa);
        let (v, end) = VarInt::decode(out.as_slice(), 0).unwrap();
        assert_eq!(v.0, n);
        assert_eq!(end, out.len() - 1);
    }
}

#[test]
fn varlong_round_trip_sizes() {
    for n in [0i64, 1, -1, 1 << 40, -(1 << 50), i64::MAX, i64::MIN] {
        let mut out = Vec::new();
        VarLong(n).encode(&mut out);
        assert!(out.len() >= 1 && out.len() <= 10);
        let (v, end) = VarLong::decode(out.as_slice(), 0).unwrap();
        assert_eq!(v.0, n);
        assert_eq!(end, out.len());
    }
}

#[test]
fn varint_too_long_fails() {
    let bytes = vec![0x80, 0x80, 0x80, 0x80, 0x80, 0x01];
    assert_eq!(VarInt::decode(bytes.as_slice(), 0), Err(ProtocolError::VarIntTooLong));
    let long = vec![0x80; 11];
    assert_eq!(VarLong::decode(long.as_slice(), 0), Err(ProtocolError::VarIntTooLong));
}

#[test]
fn varint_truncated_fails() {
    let bytes = vec![0x80, 0x80];
    assert_eq!(VarInt::decode(bytes.as_slice(), 0), Err(ProtocolError::UnexpectedEnd));
    let empty: Vec<u8> = Vec::new();
    assert_eq!(VarLong::decode(empty.as_slice(), 0), Err(ProtocolError::UnexpectedEnd));
}

#[test]
fn varint_decodes_at_offset() {
    let bytes = vec![0x01, 0x02, 0x80, 0x01];
    let (v, end) = VarInt::decode(bytes.as_slice(), 2).unwrap();
    assert_eq!(v.0, 128);
    assert_eq!(end, 4);
}
