use vstd::prelude::*;
use std::io::Read;
use std::io::Write;
use cfb8::cipher::{AsyncStreamCipher, NewCipher};
use crate::error::ProtocolError;
use crate::varint::{varint_bytes, parse_varint, lemma_varint_round_trip, lemma_parse_varint_len};
use crate::codec::{Parsed, parse_var_int, prefixed_bytes, read_var_int, write_prefixed,
    write_var_int, write_raw, copy_range, lemma_parse_var_int};

verus! {

/// AES-128/CFB8 encryption of `data` under `key`, starting from the 16-byte shift
/// register `register` (the IV, or the last 16 ciphertext bytes of what came before).
pub uninterp spec fn cfb8_encrypted(key: Seq<u8>, register: Seq<u8>, data: Seq<u8>) -> Seq<u8>;

/// AES-128/CFB8 decryption of `data` under `key`, starting from the shift register
/// `register`.
pub uninterp spec fn cfb8_decrypted(key: Seq<u8>, register: Seq<u8>, data: Seq<u8>) -> Seq<u8>;

/// What zlib makes of `data` at the default level.
pub uninterp spec fn zlib_deflated(data: Seq<u8>) -> Seq<u8>;

/// What zlib inflates `data` to, if it is a zlib stream.
pub uninterp spec fn zlib_inflated(data: Seq<u8>) -> Option<Seq<u8>>;

/// Relies on flate2's `ZlibEncoder` writing into a `Vec`, which cannot fail: the
/// zlib stream of `data` at the default level.
#[verifier::external_body]
fn deflate(data: &[u8]) -> (r: Vec<u8>)
    ensures
        r@ == zlib_deflated(data@),
{
    let mut encoder = flate2::write::ZlibEncoder::new(Vec::new(), flate2::Compression::default());
    encoder.write_all(data).unwrap();
    encoder.finish().unwrap()
}

/// Relies on flate2's `ZlibDecoder`: it inflates a zlib stream, and what the
/// encoder made of some bytes inflates back to those bytes.
#[verifier::external_body]
fn inflate(data: &[u8]) -> (r: Option<Vec<u8>>)
    ensures
        r is Some <==> zlib_inflated(data@) is Some,
        r is Some ==> r->Some_0@ == zlib_inflated(data@)->Some_0,
        r is Some <== exists|d: Seq<u8>| #[trigger] zlib_deflated(d) == data@,
        r is Some ==> forall|d: Seq<u8>| #[trigger] zlib_deflated(d) == data@ ==> r->Some_0@ == d,
{
    let mut out = Vec::new();
    match flate2::read::ZlibDecoder::new(data).read_to_end(&mut out) {
        Ok(_) => Some(out),
        Err(_) => None,
    }
}

/// Relies on `Cfb8::new_from_slices` (a 16-byte key and IV are accepted) and
/// `Cfb8::encrypt`: AES-128/CFB8 encryption of `data` in place, keeping its length.
#[verifier::external_body]
fn cfb8_encrypt(key: &[u8; 16], register: &[u8; 16], data: &mut Vec<u8>)
    ensures
        final(data)@ == cfb8_encrypted(key@, register@, old(data)@),
        final(data)@.len() == old(data)@.len(),
{
    cfb8::Cfb8::<aes::Aes128>::new_from_slices(key, register).unwrap().encrypt(data.as_mut_slice())
}

/// Relies on `Cfb8::new_from_slices` (a 16-byte key and IV are accepted) and
/// `Cfb8::decrypt`: AES-128/CFB8 decryption of `data` in place, keeping its length.
#[verifier::external_body]
fn cfb8_decrypt(key: &[u8; 16], register: &[u8; 16], data: &mut Vec<u8>)
    ensures
        final(data)@ == cfb8_decrypted(key@, register@, old(data)@),
        final(data)@.len() == old(data)@.len(),
{
    cfb8::Cfb8::<aes::Aes128>::new_from_slices(key, register).unwrap().decrypt(data.as_mut_slice())
}

/// The shift register after `ciphertext` passed through one that held `register`:
/// the last 16 bytes of the two together.
pub open spec fn next_register(register: Seq<u8>, ciphertext: Seq<u8>) -> Seq<u8> {
    let all = register + ciphertext;
    all.subrange(all.len() - 16, all.len() as int)
}

/// The last 16 bytes of `register` followed by `ciphertext`.
fn shift_register(register: &[u8; 16], ciphertext: &[u8]) -> (r: [u8; 16])
    ensures
        r@ == next_register(register@, ciphertext@),
{
    let n = ciphertext.len();
    let mut r: [u8; 16] = [0u8; 16];
    let mut i: usize = 0;
    while i < 16
        invariant
            i <= 16,
            n == ciphertext@.len(),
            register@.len() == 16,
            r@.len() == 16,
            forall|j: int| 0 <= j < i ==> r@[j] == (register@ + ciphertext@)[n + j],
        decreases 16 - i,
    {
        let b = if n < 16 - i {
            register[n + i]
        } else {
            ciphertext[n - (16 - i)]
        };
        r[i] = b;
        i = i + 1;
    }
    assert(r@ =~= next_register(register@, ciphertext@));
    r
}

/// The inner part of a compressed frame: a VarInt data length, 0 when the payload
/// is below the threshold and sent as it is, else the payload's length and its zlib
/// stream.
pub open spec fn compressed_inner(payload: Seq<u8>, threshold: nat) -> Seq<u8> {
    if payload.len() < threshold {
        varint_bytes(0) + payload
    } else {
        varint_bytes(payload.len() as i32) + zlib_deflated(payload)
    }
}

/// What goes into a frame's length prefix, with or without compression.
pub open spec fn frame_inner(payload: Seq<u8>, threshold: Option<usize>) -> Seq<u8> {
    match threshold {
        None => payload,
        Some(t) => compressed_inner(payload, t as nat),
    }
}

/// A whole frame: the inner bytes prefixed by their count.
pub open spec fn frame_bytes(payload: Seq<u8>, threshold: Option<usize>) -> Seq<u8> {
    prefixed_bytes(frame_inner(payload, threshold))
}

/// A frame can be written: its lengths fit a VarInt.
pub open spec fn frame_fits(payload: Seq<u8>, threshold: Option<usize>) -> bool {
    payload.len() <= 0x7fff_ffff && frame_inner(payload, threshold).len() <= 0x7fff_ffff
}

/// Splits the front of `s` into one frame's inner bytes and the count of bytes it
/// took; `None` when `s` does not yet hold a whole frame.
pub open spec fn parse_envelope(s: Seq<u8>) -> Result<Option<(Seq<u8>, nat)>, ProtocolError> {
    match parse_varint(s) {
        Err(ProtocolError::UnexpectedEnd) => Ok(None),
        Err(e) => Err(e),
        Ok((l, n)) => if l < 0 {
            Err(ProtocolError::BadLength)
        } else if s.len() < n + l {
            Ok(None)
        } else {
            Ok(Some((s.subrange(n as int, n + l), (n + l) as nat)))
        },
    }
}

/// The data length of a compressed frame's inner bytes, and the bytes after it.
pub open spec fn parse_compressed_header(inner: Seq<u8>) -> Parsed<i32> {
    match parse_var_int(inner) {
        Ok((d, rest)) => if d < 0 {
            Err(ProtocolError::BadLength)
        } else {
            Ok((d, rest))
        },
        Err(e) => Err(e),
    }
}

/// The payload that a frame's inner bytes carry.
pub open spec fn unpack_inner(inner: Seq<u8>, threshold: Option<usize>) -> Result<
    Seq<u8>,
    ProtocolError,
> {
    match threshold {
        None => Ok(inner),
        Some(_) => match parse_compressed_header(inner) {
            Ok((d, rest)) => if d == 0 {
                Ok(rest)
            } else {
                match zlib_inflated(rest) {
                    Some(p) => if p.len() == d {
                        Ok(p)
                    } else {
                        Err(ProtocolError::BadCompression)
                    },
                    None => Err(ProtocolError::BadCompression),
                }
            },
            Err(e) => Err(e),
        },
    }
}

/// Reads one frame from the front of `s`: its payload and the count of bytes it
/// took, or `None` when `s` does not yet hold a whole frame.
pub open spec fn read_frame_spec(s: Seq<u8>, threshold: Option<usize>) -> Result<
    Option<(Seq<u8>, nat)>,
    ProtocolError,
> {
    match parse_envelope(s) {
        Ok(Some((inner, n))) => match unpack_inner(inner, threshold) {
            Ok(p) => Ok(Some((p, n))),
            Err(e) => Err(e),
        },
        Ok(None) => Ok(None),
        Err(e) => Err(e),
    }
}

/// A written frame, whatever follows it, splits back into its inner bytes.
#[verifier::spinoff_prover]
#[verifier::rlimit(100)]
pub proof fn lemma_envelope_round_trip(payload: Seq<u8>, threshold: Option<usize>, rest: Seq<u8>)
    requires
        frame_fits(payload, threshold),
    ensures
        parse_envelope(frame_bytes(payload, threshold) + rest) == Ok::<
            Option<(Seq<u8>, nat)>,
            ProtocolError,
        >(Some((frame_inner(payload, threshold), frame_bytes(payload, threshold).len()))),
{
    let inner = frame_inner(payload, threshold);
    let l = inner.len() as i32;
    let s = frame_bytes(payload, threshold) + rest;
    assert(s =~= varint_bytes(l) + (inner + rest));
    lemma_varint_round_trip(l, inner + rest);
    let n = varint_bytes(l).len();
    assert(s.subrange(n as int, n + l) =~= inner);
}

/// Without compression, and with compression below the threshold, a written frame
/// reads back as its payload; at or above the threshold the reader is handed the
/// payload's length and its zlib stream.
#[verifier::spinoff_prover]
#[verifier::rlimit(100)]
pub proof fn lemma_frame_round_trip(payload: Seq<u8>, threshold: Option<usize>, rest: Seq<u8>)
    requires
        frame_fits(payload, threshold),
    ensures
        (threshold is None || payload.len() < threshold->Some_0) ==> read_frame_spec(
            frame_bytes(payload, threshold) + rest,
            threshold,
        ) == Ok::<Option<(Seq<u8>, nat)>, ProtocolError>(
            Some((payload, frame_bytes(payload, threshold).len())),
        ),
        (threshold matches Some(t) && payload.len() >= t) ==> parse_compressed_header(
            frame_inner(payload, threshold),
        ) == Ok::<(i32, Seq<u8>), ProtocolError>((payload.len() as i32, zlib_deflated(payload))),
{
    lemma_envelope_round_trip(payload, threshold, rest);
    if let Some(t) = threshold {
        if payload.len() < t {
            lemma_parse_var_int(0, payload);
        } else {
            lemma_parse_var_int(payload.len() as i32, zlib_deflated(payload));
        }
    }
}

/// The codec state of one connection: the cipher of each direction, once
/// encryption is on, and the compression threshold, while compression is on.
pub struct TransportSession {
    ciphers: Option<CipherPair>,
    compression_threshold: Option<usize>,
}

/// The cipher state of an encrypted session: the shared secret, and the shift
/// register of each direction.
struct CipherPair {
    key: [u8; 16],
    sent: [u8; 16],
    received: [u8; 16],
}

impl TransportSession {
    /// Encryption is on.
    pub closed spec fn encrypting(&self) -> bool {
        self.ciphers is Some
    }

    /// The compression threshold, `None` while compression is off.
    pub closed spec fn threshold(&self) -> Option<usize> {
        self.compression_threshold
    }

    /// The shared secret, key and IV of both directions, while encryption is on.
    pub closed spec fn secret(&self) -> Seq<u8> {
        self.ciphers->Some_0.key@
    }

    /// The shift register of the outgoing cipher.
    pub closed spec fn send_register(&self) -> Seq<u8> {
        self.ciphers->Some_0.sent@
    }

    /// The shift register of the incoming cipher.
    pub closed spec fn receive_register(&self) -> Seq<u8> {
        self.ciphers->Some_0.received@
    }

    /// A session with neither encryption nor compression.
    pub fn new() -> (r: TransportSession)
        ensures
            !r.encrypting(),
            r.threshold() is None,
    {
        TransportSession { ciphers: None, compression_threshold: None }
    }

    pub fn is_encrypting(&self) -> (r: bool)
        ensures
            r == self.encrypting(),
    {
        self.ciphers.is_some()
    }

    pub fn compression_threshold(&self) -> (r: Option<usize>)
        ensures
            r == self.threshold(),
    {
        self.compression_threshold
    }

    /// Turns encryption on with `shared_secret` as key and IV in both directions.
    /// Fails, changing nothing, when it is already on.
    pub fn enable_encryption(&mut self, shared_secret: [u8; 16]) -> (r: Result<(), ProtocolError>)
        ensures
            r is Ok <==> !old(self).encrypting(),
            r is Err ==> r == Err::<(), ProtocolError>(ProtocolError::AlreadyEncrypted),
            r is Err ==> *final(self) == *old(self),
            r is Ok ==> final(self).encrypting() && final(self).secret() == shared_secret@
                && final(self).send_register() == shared_secret@ && final(self).receive_register()
                == shared_secret@,
            final(self).threshold() == old(self).threshold(),
    {
        if self.ciphers.is_some() {
            return Err(ProtocolError::AlreadyEncrypted);
        }
        self.ciphers = Some(
            CipherPair { key: shared_secret, sent: shared_secret, received: shared_secret },
        );
        Ok(())
    }

    /// Sets the compression threshold; `None` turns compression off.
    pub fn set_compression_threshold(&mut self, threshold: Option<usize>)
        ensures
            final(self).threshold() == threshold,
            final(self).encrypting() == old(self).encrypting(),
            final(self).secret() == old(self).secret(),
            final(self).send_register() == old(self).send_register(),
            final(self).receive_register() == old(self).receive_register(),
    {
        self.compression_threshold = threshold;
    }

    /// The plain frame for `payload` under the current threshold.
    pub fn frame(&self, payload: &[u8]) -> (r: Result<Vec<u8>, ProtocolError>)
        ensures
            r is Ok <==> frame_fits(payload@, self.threshold()),
            r matches Ok(w) ==> w@ == frame_bytes(payload@, self.threshold()),
            r is Err ==> r == Err::<Vec<u8>, ProtocolError>(ProtocolError::BadLength),
    {
        if payload.len() > 0x7fff_ffff {
            return Err(ProtocolError::BadLength);
        }
        let mut inner: Vec<u8> = Vec::new();
        match self.compression_threshold {
            None => {
                write_raw(payload, &mut inner);
            },
            Some(t) => {
                if payload.len() < t {
                    write_var_int(0, &mut inner);
                    write_raw(payload, &mut inner);
                } else {
                    write_var_int(payload.len() as i32, &mut inner);
                    let z = deflate(payload);
                    write_raw(z.as_slice(), &mut inner);
                }
            },
        }
        assert(inner@ =~= frame_inner(payload@, self.threshold()));
        if inner.len() > 0x7fff_ffff {
            return Err(ProtocolError::BadLength);
        }
        let mut out: Vec<u8> = Vec::new();
        write_prefixed(inner.as_slice(), &mut out);
        assert(out@ =~= frame_bytes(payload@, self.threshold()));
        Ok(out)
    }

    /// The wire bytes for `payload`: its frame, encrypted when encryption is on.
    pub fn write_packet(&mut self, payload: &[u8]) -> (r: Result<Vec<u8>, ProtocolError>)
        ensures
            final(self).encrypting() == old(self).encrypting(),
            final(self).threshold() == old(self).threshold(),
            final(self).secret() == old(self).secret(),
            final(self).receive_register() == old(self).receive_register(),
            r is Ok <==> frame_fits(payload@, old(self).threshold()),
            r matches Ok(w) ==> w@.len() == frame_bytes(payload@, old(self).threshold()).len(),
            r matches Ok(w) ==> !old(self).encrypting() ==> w@ == frame_bytes(
                payload@,
                old(self).threshold(),
            ),
            r matches Ok(w) ==> old(self).encrypting() ==> w@ == cfb8_encrypted(
                old(self).secret(),
                old(self).send_register(),
                frame_bytes(payload@, old(self).threshold()),
            ) && final(self).send_register() == next_register(old(self).send_register(), w@),
            r is Err ==> *final(self) == *old(self),
            r is Err ==> r == Err::<Vec<u8>, ProtocolError>(ProtocolError::BadLength),
    {
        let mut out = match self.frame(payload) {
            Ok(w) => w,
            Err(e) => return Err(e),
        };
        match &mut self.ciphers {
            Some(c) => {
                cfb8_encrypt(&c.key, &c.sent, &mut out);
                c.sent = shift_register(&c.sent, out.as_slice());
            },
            None => {},
        }
        Ok(out)
    }

    /// Decrypts bytes read from the wire, in place, when encryption is on.
    pub fn decrypt_incoming(&mut self, data: &mut Vec<u8>)
        ensures
            final(self).encrypting() == old(self).encrypting(),
            final(self).threshold() == old(self).threshold(),
            final(self).secret() == old(self).secret(),
            final(self).send_register() == old(self).send_register(),
            final(data)@.len() == old(data)@.len(),
            !old(self).encrypting() ==> final(data)@ == old(data)@ && *final(self) == *old(self),
            old(self).encrypting() ==> final(data)@ == cfb8_decrypted(
                old(self).secret(),
                old(self).receive_register(),
                old(data)@,
            ) && final(self).receive_register() == next_register(
                old(self).receive_register(),
                old(data)@,
            ),
    {
        match &mut self.ciphers {
            Some(c) => {
                let next = shift_register(&c.received, data.as_slice());
                cfb8_decrypt(&c.key, &c.received, data);
                c.received = next;
            },
            None => {},
        }
    }

    /// Reads one frame from the front of the decrypted bytes `buf`: its payload and
    /// the count of bytes it took, or `None` while `buf` holds no whole frame yet.
    /// A frame of a non-empty payload `p`, followed by anything, reads back as `p`.
    pub fn read_packet(&self, buf: &[u8]) -> (r: Result<Option<(Vec<u8>, usize)>, ProtocolError>)
        ensures
            match read_frame_spec(buf@, self.threshold()) {
                Ok(Some((p, n))) => r matches Ok(Some((v, m))) && v@ == p && m == n,
                Ok(None) => r matches Ok(None),
                Err(e) => r == Err::<Option<(Vec<u8>, usize)>, ProtocolError>(e),
            },
            forall|p: Seq<u8>|
                frame_fits(p, self.threshold()) && p.len() > 0 && #[trigger] frame_bytes(
                    p,
                    self.threshold(),
                ) == buf@.take(frame_bytes(p, self.threshold()).len() as int) && frame_bytes(
                    p,
                    self.threshold(),
                ).len() <= buf@.len() ==> (r matches Ok(Some((v, m))) && v@ == p && m
                    == frame_bytes(p, self.threshold()).len()),
    {
        proof {
            assert forall|p: Seq<u8>|
                frame_fits(p, self.threshold()) && p.len() > 0 && #[trigger] frame_bytes(
                    p,
                    self.threshold(),
                ) == buf@.take(frame_bytes(p, self.threshold()).len() as int) && frame_bytes(
                    p,
                    self.threshold(),
                ).len() <= buf@.len() implies parse_envelope(buf@) == Ok::<
                Option<(Seq<u8>, nat)>,
                ProtocolError,
            >(Some((frame_inner(p, self.threshold()), frame_bytes(p, self.threshold()).len()))) by {
                let f = frame_bytes(p, self.threshold());
                let rest = buf@.skip(f.len() as int);
                assert(buf@ =~= f + rest);
                lemma_envelope_round_trip(p, self.threshold(), rest);
            }
        }
        let _len = buf.len();
        let (l, p) = match read_var_int(buf, 0) {
            Ok(x) => x,
            Err(ProtocolError::UnexpectedEnd) => {
                assert(buf@.skip(0) =~= buf@);
                return Ok(None);
            },
            Err(e) => {
                assert(buf@.skip(0) =~= buf@);
                return Err(e);
            },
        };
        assert(buf@.skip(0) =~= buf@);
        proof {
            let (w, n) = parse_varint(buf@)->Ok_0;
            lemma_parse_varint_len(buf@);
            assert(buf@.skip(p as int).len() == buf@.len() - p);
            assert(p == n);
        }
        if l < 0 {
            return Err(ProtocolError::BadLength);
        }
        if l as usize > buf.len() - p {
            return Ok(None);
        }
        let end = p + l as usize;
        let inner = copy_range(buf, p, l as usize);
        match self.unpack(inner) {
            Ok(v) => Ok(Some((v, end))),
            Err(e) => Err(e),
        }
    }

    /// The payload that a frame's inner bytes carry.
    fn unpack(&self, inner: Vec<u8>) -> (r: Result<Vec<u8>, ProtocolError>)
        ensures
            match unpack_inner(inner@, self.threshold()) {
                Ok(p) => r matches Ok(v) && v@ == p,
                Err(e) => r == Err::<Vec<u8>, ProtocolError>(e),
            },
            forall|p: Seq<u8>|
                #[trigger] frame_inner(p, self.threshold()) == inner@ && frame_fits(
                    p,
                    self.threshold(),
                ) && p.len() > 0 ==> (r matches Ok(v) && v@ == p),
    {
        let threshold = self.compression_threshold;
        proof {
            assert forall|p: Seq<u8>|
                #[trigger] frame_inner(p, threshold) == inner@ && frame_fits(p, threshold) && p.len()
                    > 0 implies inner_read_back(p, threshold, inner@) by {
                lemma_inner_read_back(p, threshold);
            }
        }
        match threshold {
            None => Ok(inner),
            Some(_) => {
                let (d, q) = match read_var_int(inner.as_slice(), 0) {
                    Ok(x) => x,
                    Err(e) => {
                        assert(inner@.skip(0) =~= inner@);
                        return Err(e);
                    },
                };
                assert(inner@.skip(0) =~= inner@);
                if d < 0 {
                    return Err(ProtocolError::BadLength);
                }
                let body = copy_range(inner.as_slice(), q, inner.len() - q);
                assert(body@ =~= inner@.skip(q as int));
                if d == 0 {
                    return Ok(body);
                }
                match inflate(body.as_slice()) {
                    Some(v) => {
                        if v.len() == d as usize {
                            Ok(v)
                        } else {
                            Err(ProtocolError::BadCompression)
                        }
                    },
                    None => Err(ProtocolError::BadCompression),
                }
            },
        }
    }
}

/// What the inner bytes written for `p` read as: without compression, `p` itself;
/// with it, the data length and what follows it.
pub open spec fn inner_read_back(p: Seq<u8>, threshold: Option<usize>, inner: Seq<u8>) -> bool {
    match threshold {
        None => inner == p,
        Some(t) => if p.len() < t {
            parse_compressed_header(inner) == Ok::<(i32, Seq<u8>), ProtocolError>((0, p))
        } else {
            parse_compressed_header(inner) == Ok::<(i32, Seq<u8>), ProtocolError>(
                (p.len() as i32, zlib_deflated(p)),
            )
        },
    }
}

proof fn lemma_inner_read_back(p: Seq<u8>, threshold: Option<usize>)
    requires
        frame_fits(p, threshold),
    ensures
        inner_read_back(p, threshold, frame_inner(p, threshold)),
{
    if let Some(t) = threshold {
        if p.len() < t {
            lemma_parse_var_int(0, p);
        } else {
            lemma_parse_var_int(p.len() as i32, zlib_deflated(p));
        }
    }
}

} // verus!
