use cfb8::cipher::{AsyncStreamCipher, NewCipher};
use domo_arigato::error::ProtocolError;
use domo_arigato::transport::TransportSession;
use domo_arigato::varint::VarInt;

fn payload(n: usize) -> Vec<u8> {
    (0..n).map(|i| (i % 7) as u8).collect()
}

#[test]
fn plain_frame_layout() {
    let mut s = TransportSession::new();
    let w = s.write_packet(&[0x00, 0x05]).unwrap();
    assert_eq!(w, vec![0x02, 0x00, 0x05]);
    let (p, used) = s.read_packet(w.as_slice()).unwrap().unwrap();
    assert_eq!(p, vec![0x00, 0x05]);
    assert_eq!(used, 3);
}

#[test]
fn partial_frame_is_not_ready() {
    let s = TransportSession::new();
    assert_eq!(s.read_packet(&[]), Ok(None));
    assert_eq!(s.read_packet(&[0x80]), Ok(None));
    assert_eq!(s.read_packet(&[0x03, 0x00, 0x01]), Ok(None));
    assert_eq!(
        s.read_packet(&[0xff, 0xff, 0xff, 0xff, 0x0f]),
        Err(ProtocolError::BadLength)
    );
}

#[test]
fn compression_threshold_crossing() {
    let mut s = TransportSession::new();
    s.set_compression_threshold(Some(256));

    let small = payload(100);
    let w = s.write_packet(small.as_slice()).unwrap();
    // length 101, data length 0, then the payload as it is
    assert_eq!(&w[..2], &[101, 0x00]);
    assert_eq!(&w[2..], small.as_slice());
    let (p, used) = s.read_packet(w.as_slice()).unwrap().unwrap();
    assert_eq!(p, small);
    assert_eq!(used, w.len());

    let big = payload(4096);
    let w = s.write_packet(big.as_slice()).unwrap();
    let (outer, p1) = VarInt::decode(w.as_slice(), 0).unwrap();
    assert_eq!(outer.0 as usize, w.len() - p1);
    let (data_len, p2) = VarInt::decode(w.as_slice(), p1).unwrap();
    assert_eq!(data_len.0, 4096);
    assert!(w.len() - p2 < 4096);
    let (p, used) = s.read_packet(w.as_slice()).unwrap().unwrap();
    assert_eq!(p, big);
    assert_eq!(used, w.len());
}

#[test]
fn compression_off_again() {
    let mut s = TransportSession::new();
    s.set_compression_threshold(Some(0));
    let w = s.write_packet(&[1, 2, 3]).unwrap();
    assert_eq!(w[1..3], [0x03, 0x78]);
    s.set_compression_threshold(None);
    assert_eq!(s.write_packet(&[1, 2, 3]).unwrap(), vec![3, 1, 2, 3]);
}

#[test]
fn bad_compressed_frame_fails() {
    let mut s = TransportSession::new();
    s.set_compression_threshold(Some(1));
    assert_eq!(
        s.read_packet(&[0x03, 0x05, 0x01, 0x02]),
        Err(ProtocolError::BadCompression)
    );
}

#[test]
fn encryption_twice_fails() {
    let mut s = TransportSession::new();
    assert_eq!(s.enable_encryption([7u8; 16]), Ok(()));
    assert!(s.is_encrypting());
    assert_eq!(s.enable_encryption([9u8; 16]), Err(ProtocolError::AlreadyEncrypted));
    // the first cipher is still in place: a peer keyed with it reads our frames
    let mut peer = TransportSession::new();
    peer.enable_encryption([7u8; 16]).unwrap();
    let mut wire = s.write_packet(&[0x01, 0x02, 0x03]).unwrap();
    assert_ne!(wire, vec![0x03, 0x01, 0x02, 0x03]);
    peer.decrypt_incoming(&mut wire);
    assert_eq!(wire, vec![0x03, 0x01, 0x02, 0x03]);
}

#[test]
fn encrypted_stream_needs_the_cipher() {
    let mut server = TransportSession::new();
    server.enable_encryption([3u8; 16]).unwrap();
    let wire = server.write_packet(&[0x02, 0xaa, 0xbb]).unwrap();

    let mut client = TransportSession::new();
    client.enable_encryption([3u8; 16]).unwrap();
    let mut buf = wire.clone();
    client.decrypt_incoming(&mut buf);
    assert_eq!(client.read_packet(buf.as_slice()).unwrap().unwrap().0, vec![0x02, 0xaa, 0xbb]);

    let plain = TransportSession::new();
    assert_ne!(plain.read_packet(wire.as_slice()), Ok(Some((vec![0x02, 0xaa, 0xbb], 4))));
}

fn reference_cipher(secret: &[u8; 16]) -> cfb8::Cfb8<aes::Aes128> {
    cfb8::Cfb8::<aes::Aes128>::new_from_slices(secret, secret).unwrap()
}

#[test]
fn encryption_matches_a_continuous_cfb8_stream() {
    let secret = [0x5au8; 16];
    let mut s = TransportSession::new();
    s.enable_encryption(secret).unwrap();
    let a = s.write_packet(&[0x01; 40]).unwrap();
    let b = s.write_packet(&[0x02, 0x03]).unwrap();

    let mut plain = vec![40u8];
    plain.extend_from_slice(&[0x01; 40]);
    plain.extend_from_slice(&[0x02, 0x02, 0x03]);
    reference_cipher(&secret).encrypt(&mut plain);
    let mut wire = a.clone();
    wire.extend_from_slice(&b);
    assert_eq!(wire, plain);
}

#[test]
fn decryption_continues_across_split_reads() {
    let secret = [0x11u8; 16];
    let mut frames = vec![3u8, 0x00, 0xaa, 0xbb, 2, 0x01, 0xcc];
    let expected = frames.clone();
    reference_cipher(&secret).encrypt(&mut frames);

    let mut s = TransportSession::new();
    s.enable_encryption(secret).unwrap();
    let mut first = frames[..2].to_vec();
    let mut second = frames[2..].to_vec();
    s.decrypt_incoming(&mut first);
    s.decrypt_incoming(&mut second);
    first.extend_from_slice(&second);
    assert_eq!(first, expected);
    let (p, used) = s.read_packet(first.as_slice()).unwrap().unwrap();
    assert_eq!((p, used), (vec![0x00, 0xaa, 0xbb], 4));
    assert_eq!(s.read_packet(&first[4..]).unwrap().unwrap().0, vec![0x01, 0xcc]);
}
