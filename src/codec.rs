use vstd::prelude::*;
use crate::error::ProtocolError;
use crate::varint::{VarInt, VarLong, parse_varint, varint_bytes, lemma_varint_round_trip,
    parse_varlong, varlong_bytes, lemma_varlong_round_trip};

verus! {

/// What a parser makes of the front of its input: the value and the bytes after it.
pub type Parsed<T> = Result<(T, Seq<u8>), ProtocolError>;

/// An executable reader's result `r`, started at `pos` in `data`, agrees with the
/// parse `p` of `data` from `pos`: the same error, or the same value with `r`'s
/// position just before the bytes that `p` left over.
pub open spec fn agrees<T>(
    r: Result<(T, usize), ProtocolError>,
    data: Seq<u8>,
    pos: int,
    p: Parsed<T>,
) -> bool {
    match p {
        Ok((v, rest)) => r matches Ok((w, q)) && w == v && pos <= q <= data.len() && data.skip(
            q as int,
        ) == rest,
        Err(e) => r == Err::<(T, usize), ProtocolError>(e),
    }
}

/// `256` to the power `k`.
pub open spec fn pow256(k: nat) -> nat
    decreases k,
{
    if k == 0 {
        1
    } else {
        256 * pow256((k - 1) as nat)
    }
}

/// The `k` low bytes of `v`, most significant first.
pub open spec fn be_bytes(v: nat, k: nat) -> Seq<u8>
    decreases k,
{
    if k == 0 {
        seq![]
    } else {
        be_bytes(v / 256, (k - 1) as nat).push((v % 256) as u8)
    }
}

/// The number that `s` spells, most significant byte first.
pub open spec fn be_value(s: Seq<u8>) -> nat
    decreases s.len(),
{
    if s.len() == 0 {
        0
    } else {
        (be_value(s.drop_last()) * 256 + s.last()) as nat
    }
}

/// The `k`-byte two's-complement pattern of `n`.
pub open spec fn unsigned_in(n: int, k: nat) -> nat {
    if n < 0 {
        (n + pow256(k)) as nat
    } else {
        n as nat
    }
}

/// The signed number whose `k`-byte two's-complement pattern is `v`.
pub open spec fn signed_in(v: nat, k: nat) -> int {
    if v >= pow256(k) / 2 {
        v - pow256(k)
    } else {
        v as int
    }
}

/// Reads a `k`-byte big-endian unsigned number.
pub open spec fn parse_be(s: Seq<u8>, k: nat) -> Parsed<nat> {
    if s.len() < k {
        Err(ProtocolError::UnexpectedEnd)
    } else {
        Ok((be_value(s.take(k as int)), s.skip(k as int)))
    }
}

/// Reads a `k`-byte big-endian two's-complement number.
pub open spec fn parse_signed(s: Seq<u8>, k: nat) -> Parsed<int> {
    match parse_be(s, k) {
        Ok((v, rest)) => Ok((signed_in(v, k), rest)),
        Err(e) => Err(e),
    }
}

/// Wire form of a signed number in `k` bytes.
pub open spec fn signed_bytes(n: int, k: nat) -> Seq<u8> {
    be_bytes(unsigned_in(n, k), k)
}

pub open spec fn parse_u8(s: Seq<u8>) -> Parsed<u8> {
    match parse_be(s, 1) {
        Ok((v, rest)) => Ok((v as u8, rest)),
        Err(e) => Err(e),
    }
}

pub open spec fn parse_u16(s: Seq<u8>) -> Parsed<u16> {
    match parse_be(s, 2) {
        Ok((v, rest)) => Ok((v as u16, rest)),
        Err(e) => Err(e),
    }
}

pub open spec fn parse_u32(s: Seq<u8>) -> Parsed<u32> {
    match parse_be(s, 4) {
        Ok((v, rest)) => Ok((v as u32, rest)),
        Err(e) => Err(e),
    }
}

pub open spec fn parse_u64(s: Seq<u8>) -> Parsed<u64> {
    match parse_be(s, 8) {
        Ok((v, rest)) => Ok((v as u64, rest)),
        Err(e) => Err(e),
    }
}

pub open spec fn parse_u128(s: Seq<u8>) -> Parsed<u128> {
    match parse_be(s, 16) {
        Ok((v, rest)) => Ok((v as u128, rest)),
        Err(e) => Err(e),
    }
}

pub open spec fn parse_i8(s: Seq<u8>) -> Parsed<i8> {
    match parse_signed(s, 1) {
        Ok((v, rest)) => Ok((v as i8, rest)),
        Err(e) => Err(e),
    }
}

pub open spec fn parse_i16(s: Seq<u8>) -> Parsed<i16> {
    match parse_signed(s, 2) {
        Ok((v, rest)) => Ok((v as i16, rest)),
        Err(e) => Err(e),
    }
}

pub open spec fn parse_i32(s: Seq<u8>) -> Parsed<i32> {
    match parse_signed(s, 4) {
        Ok((v, rest)) => Ok((v as i32, rest)),
        Err(e) => Err(e),
    }
}

pub open spec fn parse_i64(s: Seq<u8>) -> Parsed<i64> {
    match parse_signed(s, 8) {
        Ok((v, rest)) => Ok((v as i64, rest)),
        Err(e) => Err(e),
    }
}

/// One byte, 0 or 1.
pub open spec fn bool_bytes(b: bool) -> Seq<u8> {
    seq![if b { 1u8 } else { 0u8 }]
}

pub open spec fn parse_bool(s: Seq<u8>) -> Parsed<bool> {
    if s.len() == 0 {
        Err(ProtocolError::UnexpectedEnd)
    } else if s[0] == 0 {
        Ok((false, s.skip(1)))
    } else if s[0] == 1 {
        Ok((true, s.skip(1)))
    } else {
        Err(ProtocolError::InvalidBool)
    }
}

/// A VarInt, with the rest of the input.
pub open spec fn parse_var_int(s: Seq<u8>) -> Parsed<i32> {
    match parse_varint(s) {
        Ok((v, n)) => Ok((v, s.skip(n as int))),
        Err(e) => Err(e),
    }
}

/// A VarLong, with the rest of the input.
pub open spec fn parse_var_long(s: Seq<u8>) -> Parsed<i64> {
    match parse_varlong(s) {
        Ok((v, n)) => Ok((v, s.skip(n as int))),
        Err(e) => Err(e),
    }
}

/// Bytes prefixed by their count as a VarInt.
pub open spec fn prefixed_bytes(b: Seq<u8>) -> Seq<u8> {
    varint_bytes(b.len() as i32) + b
}

/// Reads a VarInt count, then that many bytes.
pub open spec fn parse_prefixed(s: Seq<u8>) -> Parsed<Seq<u8>> {
    match parse_var_int(s) {
        Ok((n, rest)) => if n < 0 {
            Err(ProtocolError::BadLength)
        } else if rest.len() < n {
            Err(ProtocolError::UnexpectedEnd)
        } else {
            Ok((rest.take(n as int), rest.skip(n as int)))
        },
        Err(e) => Err(e),
    }
}

/// A protocol string: its UTF-8 bytes, prefixed by their count.
pub open spec fn string_bytes(s: Seq<char>) -> Seq<u8> {
    prefixed_bytes(vstd::utf8::encode_utf8(s))
}

/// Reads a protocol string; its bytes must be UTF-8.
pub open spec fn parse_string(s: Seq<u8>) -> Parsed<Seq<char>> {
    match parse_prefixed(s) {
        Ok((b, rest)) => if vstd::utf8::valid_utf8(b) {
            Ok((vstd::utf8::decode_utf8(b), rest))
        } else {
            Err(ProtocolError::InvalidUtf8)
        },
        Err(e) => Err(e),
    }
}

/// Reads a protocol string of at most 32767 bytes.
pub open spec fn parse_short_string(s: Seq<u8>) -> Parsed<Seq<char>> {
    match parse_string(s) {
        Ok((t, rest)) => if vstd::utf8::encode_utf8(t).len() > 32767 {
            Err(ProtocolError::StringTooLong)
        } else {
            Ok((t, rest))
        },
        Err(e) => Err(e),
    }
}

/// A string whose UTF-8 form fits a VarInt count.
pub open spec fn string_fits(s: Seq<char>) -> bool {
    vstd::utf8::encode_utf8(s).len() <= 0x7fff_ffff
}

/// A string whose UTF-8 form is at most 32767 bytes.
pub open spec fn short_string_fits(s: Seq<char>) -> bool {
    vstd::utf8::encode_utf8(s).len() <= 32767
}

// ---------------------------------------------------------------------------
// Lemmas

#[verifier::spinoff_prover]
#[verifier::rlimit(100)]
pub proof fn lemma_skip_append(a: Seq<u8>, b: Seq<u8>)
    ensures
        (a + b).skip(a.len() as int) == b,
        (a + b).take(a.len() as int) == a,
{
    assert((a + b).skip(a.len() as int) =~= b);
    assert((a + b).take(a.len() as int) =~= a);
}

#[verifier::spinoff_prover]
#[verifier::rlimit(100)]
pub proof fn lemma_pow256_pos(k: nat)
    ensures
        pow256(k) >= 1,
        k >= 1 ==> pow256(k) >= 256,
    decreases k,
{
    if k > 0 {
        lemma_pow256_pos((k - 1) as nat);
    }
}

#[verifier::spinoff_prover]
#[verifier::rlimit(100)]
pub proof fn lemma_pow256_values()
    ensures
        pow256(1) == 0x100,
        pow256(2) == 0x1_0000,
        pow256(4) == 0x1_0000_0000,
        pow256(8) == 0x1_0000_0000_0000_0000,
        pow256(16) == 0x1_0000_0000_0000_0000_0000_0000_0000_0000,
{
    reveal_with_fuel(pow256, 17);
}

#[verifier::spinoff_prover]
#[verifier::rlimit(100)]
pub proof fn lemma_be_len(v: nat, k: nat)
    ensures
        be_bytes(v, k).len() == k,
    decreases k,
{
    if k > 0 {
        lemma_be_len(v / 256, (k - 1) as nat);
    }
}

#[verifier::spinoff_prover]
#[verifier::rlimit(100)]
pub proof fn lemma_be_value_bound(s: Seq<u8>)
    ensures
        be_value(s) < pow256(s.len()),
    decreases s.len(),
{
    if s.len() > 0 {
        lemma_be_value_bound(s.drop_last());
        let a = be_value(s.drop_last());
        let p = pow256((s.len() - 1) as nat);
        assert(a * 256 + s.last() < 256 * p) by (nonlinear_arith)
            requires
                a < p,
                s.last() < 256,
        ;
    }
}

#[verifier::spinoff_prover]
#[verifier::rlimit(100)]
pub proof fn lemma_be_round_trip(v: nat, k: nat)
    requires
        v < pow256(k),
    ensures
        be_value(be_bytes(v, k)) == v,
        be_bytes(v, k).len() == k,
    decreases k,
{
    lemma_be_len(v, k);
    if k > 0 {
        let q = v / 256;
        assert(q < pow256((k - 1) as nat)) by (nonlinear_arith)
            requires
                v < 256 * pow256((k - 1) as nat),
                q == v / 256,
        ;
        lemma_be_round_trip(q, (k - 1) as nat);
        let s = be_bytes(v, k);
        assert(s.drop_last() =~= be_bytes(q, (k - 1) as nat));
    }
}

/// A fixed-width number, whatever follows it, reads back as written.
#[verifier::spinoff_prover]
#[verifier::rlimit(100)]
pub proof fn lemma_parse_be(v: nat, k: nat, rest: Seq<u8>)
    requires
        v < pow256(k),
    ensures
        parse_be(be_bytes(v, k) + rest, k) == Ok::<(nat, Seq<u8>), ProtocolError>((v, rest)),
{
    lemma_be_round_trip(v, k);
    lemma_skip_append(be_bytes(v, k), rest);
}

/// A signed number in its range, whatever follows it, reads back as written.
#[verifier::spinoff_prover]
#[verifier::rlimit(100)]
pub proof fn lemma_parse_signed(n: int, k: nat, rest: Seq<u8>)
    requires
        k >= 1,
        -(pow256(k) / 2) <= n < pow256(k) / 2,
    ensures
        parse_signed(signed_bytes(n, k) + rest, k) == Ok::<(int, Seq<u8>), ProtocolError>(
            (n, rest),
        ),
{
    lemma_pow256_pos(k);
    lemma_parse_be(unsigned_in(n, k), k, rest);
}

#[verifier::spinoff_prover]
#[verifier::rlimit(100)]
pub proof fn lemma_parse_bool(b: bool, rest: Seq<u8>)
    ensures
        parse_bool(bool_bytes(b) + rest) == Ok::<(bool, Seq<u8>), ProtocolError>((b, rest)),
{
    lemma_skip_append(bool_bytes(b), rest);
}

#[verifier::spinoff_prover]
#[verifier::rlimit(100)]
pub proof fn lemma_parse_var_int(n: i32, rest: Seq<u8>)
    ensures
        parse_var_int(varint_bytes(n) + rest) == Ok::<(i32, Seq<u8>), ProtocolError>((n, rest)),
{
    lemma_varint_round_trip(n, rest);
    lemma_skip_append(varint_bytes(n), rest);
}

#[verifier::spinoff_prover]
#[verifier::rlimit(100)]
pub proof fn lemma_parse_var_long(n: i64, rest: Seq<u8>)
    ensures
        parse_var_long(varlong_bytes(n) + rest) == Ok::<(i64, Seq<u8>), ProtocolError>(
            (n, rest),
        ),
{
    lemma_varlong_round_trip(n, rest);
    lemma_skip_append(varlong_bytes(n), rest);
}

#[verifier::spinoff_prover]
#[verifier::rlimit(100)]
pub proof fn lemma_parse_prefixed(b: Seq<u8>, rest: Seq<u8>)
    requires
        b.len() <= 0x7fff_ffff,
    ensures
        parse_prefixed(prefixed_bytes(b) + rest) == Ok::<(Seq<u8>, Seq<u8>), ProtocolError>(
            (b, rest),
        ),
{
    let s = prefixed_bytes(b) + rest;
    assert(s =~= varint_bytes(b.len() as i32) + (b + rest));
    lemma_parse_var_int(b.len() as i32, b + rest);
    lemma_skip_append(b, rest);
}

#[verifier::spinoff_prover]
#[verifier::rlimit(100)]
pub proof fn lemma_parse_string(t: Seq<char>, rest: Seq<u8>)
    requires
        string_fits(t),
    ensures
        parse_string(string_bytes(t) + rest) == Ok::<(Seq<char>, Seq<u8>), ProtocolError>(
            (t, rest),
        ),
{
    lemma_parse_prefixed(vstd::utf8::encode_utf8(t), rest);
    vstd::utf8::encode_utf8_valid_utf8(t);
    vstd::utf8::encode_utf8_decode_utf8(t);
}

#[verifier::spinoff_prover]
#[verifier::rlimit(100)]
pub proof fn lemma_parse_short_string(t: Seq<char>, rest: Seq<u8>)
    requires
        short_string_fits(t),
    ensures
        parse_short_string(string_bytes(t) + rest) == Ok::<(Seq<char>, Seq<u8>), ProtocolError>(
            (t, rest),
        ),
{
    lemma_parse_string(t, rest);
}

// ---------------------------------------------------------------------------
// Executable readers and writers

/// Appends the `k` low bytes of `v`, most significant first.
pub fn write_be(v: u128, k: usize, out: &mut Vec<u8>)
    requires
        k <= 16,
    ensures
        final(out)@ == old(out)@ + be_bytes(v as nat, k as nat),
    decreases k,
{
    if k > 0 {
        write_be(v / 256, k - 1, out);
        let ghost mid = out@;
        out.push((v % 256) as u8);
        assert(out@ =~= old(out)@ + be_bytes(v as nat, k as nat));
    }
}

/// The `k` bytes at `pos` as a big-endian number.
fn read_be_at(data: &[u8], pos: usize, k: usize) -> (r: u128)
    requires
        pos + k <= data@.len(),
        k <= 16,
    ensures
        r as nat == be_value(data@.subrange(pos as int, pos + k)),
    decreases k,
{
    let _len = data.len();
    if k == 0 {
        0
    } else {
        let hi = read_be_at(data, pos, k - 1);
        let ghost s = data@.subrange(pos as int, pos + k);
        assert(s.drop_last() =~= data@.subrange(pos as int, pos + k - 1));
        proof {
            lemma_be_value_bound(s.drop_last());
            lemma_pow256_values();
            lemma_pow256_mono((k - 1) as nat, 15);
            reveal_with_fuel(pow256, 17);
        }
        hi * 256 + data[pos + k - 1] as u128
    }
}

#[verifier::spinoff_prover]
#[verifier::rlimit(100)]
proof fn lemma_pow256_mono(i: nat, j: nat)
    requires
        i <= j,
    ensures
        pow256(i) <= pow256(j),
    decreases j,
{
    if j > i {
        lemma_pow256_mono(i, (j - 1) as nat);
        lemma_pow256_pos((j - 1) as nat);
    }
}

/// Reads a `k`-byte big-endian number at `pos`.
pub fn read_be(data: &[u8], pos: usize, k: usize) -> (r: Result<(u128, usize), ProtocolError>)
    requires
        pos <= data@.len(),
        k <= 16,
    ensures
        agrees(
            match r {
                Ok((v, p)) => Ok((v as nat, p)),
                Err(e) => Err(e),
            },
            data@,
            pos as int,
            parse_be(data@.skip(pos as int), k as nat),
        ),
        r matches Ok((v, p)) ==> v < pow256(k as nat),
{
    if k > data.len() - pos {
        return Err(ProtocolError::UnexpectedEnd);
    }
    let v = read_be_at(data, pos, k);
    proof {
        assert(data@.skip(pos as int).take(k as int) =~= data@.subrange(pos as int, pos + k));
        assert(data@.skip(pos as int).skip(k as int) =~= data@.skip(pos + k));
        lemma_be_value_bound(data@.subrange(pos as int, pos + k));
    }
    Ok((v, pos + k))
}

pub fn write_u8(v: u8, out: &mut Vec<u8>)
    ensures
        final(out)@ == old(out)@ + be_bytes(v as nat, 1),
{
    write_be(v as u128, 1, out);
}

pub fn write_u16(v: u16, out: &mut Vec<u8>)
    ensures
        final(out)@ == old(out)@ + be_bytes(v as nat, 2),
{
    write_be(v as u128, 2, out);
}

pub fn write_u32(v: u32, out: &mut Vec<u8>)
    ensures
        final(out)@ == old(out)@ + be_bytes(v as nat, 4),
{
    write_be(v as u128, 4, out);
}

pub fn write_u64(v: u64, out: &mut Vec<u8>)
    ensures
        final(out)@ == old(out)@ + be_bytes(v as nat, 8),
{
    write_be(v as u128, 8, out);
}

pub fn write_u128(v: u128, out: &mut Vec<u8>)
    ensures
        final(out)@ == old(out)@ + be_bytes(v as nat, 16),
{
    write_be(v, 16, out);
}

pub fn write_i8(v: i8, out: &mut Vec<u8>)
    ensures
        final(out)@ == old(out)@ + signed_bytes(v as int, 1),
{
    proof {
        lemma_pow256_values();
    }
    let u: u128 = if v < 0 {
        (v as i16 + 0x100) as u128
    } else {
        v as u128
    };
    write_be(u, 1, out);
}

pub fn write_i16(v: i16, out: &mut Vec<u8>)
    ensures
        final(out)@ == old(out)@ + signed_bytes(v as int, 2),
{
    proof {
        lemma_pow256_values();
    }
    let u: u128 = if v < 0 {
        (v as i32 + 0x1_0000) as u128
    } else {
        v as u128
    };
    write_be(u, 2, out);
}

pub fn write_i32(v: i32, out: &mut Vec<u8>)
    ensures
        final(out)@ == old(out)@ + signed_bytes(v as int, 4),
{
    proof {
        lemma_pow256_values();
    }
    let u: u128 = if v < 0 {
        (v as i64 + 0x1_0000_0000) as u128
    } else {
        v as u128
    };
    write_be(u, 4, out);
}

pub fn write_i64(v: i64, out: &mut Vec<u8>)
    ensures
        final(out)@ == old(out)@ + signed_bytes(v as int, 8),
{
    proof {
        lemma_pow256_values();
    }
    let u: u128 = if v < 0 {
        (v as i128 + 0x1_0000_0000_0000_0000) as u128
    } else {
        v as u128
    };
    write_be(u, 8, out);
}

pub fn read_u8(data: &[u8], pos: usize) -> (r: Result<(u8, usize), ProtocolError>)
    requires
        pos <= data@.len(),
    ensures
        agrees(r, data@, pos as int, parse_u8(data@.skip(pos as int))),
{
    proof {
        lemma_pow256_values();
    }
    match read_be(data, pos, 1) {
        Ok((v, p)) => Ok((v as u8, p)),
        Err(e) => Err(e),
    }
}

pub fn read_u16(data: &[u8], pos: usize) -> (r: Result<(u16, usize), ProtocolError>)
    requires
        pos <= data@.len(),
    ensures
        agrees(r, data@, pos as int, parse_u16(data@.skip(pos as int))),
{
    proof {
        lemma_pow256_values();
    }
    match read_be(data, pos, 2) {
        Ok((v, p)) => Ok((v as u16, p)),
        Err(e) => Err(e),
    }
}

pub fn read_u32(data: &[u8], pos: usize) -> (r: Result<(u32, usize), ProtocolError>)
    requires
        pos <= data@.len(),
    ensures
        agrees(r, data@, pos as int, parse_u32(data@.skip(pos as int))),
{
    proof {
        lemma_pow256_values();
    }
    match read_be(data, pos, 4) {
        Ok((v, p)) => Ok((v as u32, p)),
        Err(e) => Err(e),
    }
}

pub fn read_u64(data: &[u8], pos: usize) -> (r: Result<(u64, usize), ProtocolError>)
    requires
        pos <= data@.len(),
    ensures
        agrees(r, data@, pos as int, parse_u64(data@.skip(pos as int))),
{
    proof {
        lemma_pow256_values();
    }
    match read_be(data, pos, 8) {
        Ok((v, p)) => Ok((v as u64, p)),
        Err(e) => Err(e),
    }
}

pub fn read_u128(data: &[u8], pos: usize) -> (r: Result<(u128, usize), ProtocolError>)
    requires
        pos <= data@.len(),
    ensures
        agrees(r, data@, pos as int, parse_u128(data@.skip(pos as int))),
{
    proof {
        lemma_pow256_values();
    }
    read_be(data, pos, 16)
}

pub fn read_i8(data: &[u8], pos: usize) -> (r: Result<(i8, usize), ProtocolError>)
    requires
        pos <= data@.len(),
    ensures
        agrees(r, data@, pos as int, parse_i8(data@.skip(pos as int))),
{
    proof {
        lemma_pow256_values();
    }
    match read_be(data, pos, 1) {
        Ok((v, p)) => {
            let x: i8 = if v >= 0x80 {
                (v as i16 - 0x100) as i8
            } else {
                v as i8
            };
            Ok((x, p))
        },
        Err(e) => Err(e),
    }
}

pub fn read_i16(data: &[u8], pos: usize) -> (r: Result<(i16, usize), ProtocolError>)
    requires
        pos <= data@.len(),
    ensures
        agrees(r, data@, pos as int, parse_i16(data@.skip(pos as int))),
{
    proof {
        lemma_pow256_values();
    }
    match read_be(data, pos, 2) {
        Ok((v, p)) => {
            let x: i16 = if v >= 0x8000 {
                (v as i32 - 0x1_0000) as i16
            } else {
                v as i16
            };
            Ok((x, p))
        },
        Err(e) => Err(e),
    }
}

pub fn read_i32(data: &[u8], pos: usize) -> (r: Result<(i32, usize), ProtocolError>)
    requires
        pos <= data@.len(),
    ensures
        agrees(r, data@, pos as int, parse_i32(data@.skip(pos as int))),
{
    proof {
        lemma_pow256_values();
    }
    match read_be(data, pos, 4) {
        Ok((v, p)) => {
            let x: i32 = if v >= 0x8000_0000 {
                (v as i64 - 0x1_0000_0000) as i32
            } else {
                v as i32
            };
            Ok((x, p))
        },
        Err(e) => Err(e),
    }
}

pub fn read_i64(data: &[u8], pos: usize) -> (r: Result<(i64, usize), ProtocolError>)
    requires
        pos <= data@.len(),
    ensures
        agrees(r, data@, pos as int, parse_i64(data@.skip(pos as int))),
{
    proof {
        lemma_pow256_values();
    }
    match read_be(data, pos, 8) {
        Ok((v, p)) => {
            let x: i64 = if v >= 0x8000_0000_0000_0000 {
                (v as i128 - 0x1_0000_0000_0000_0000) as i64
            } else {
                v as i64
            };
            Ok((x, p))
        },
        Err(e) => Err(e),
    }
}

pub fn write_bool(b: bool, out: &mut Vec<u8>)
    ensures
        final(out)@ == old(out)@ + bool_bytes(b),
{
    out.push(if b { 1u8 } else { 0u8 });
    assert(out@ =~= old(out)@ + bool_bytes(b));
}

pub fn read_bool(data: &[u8], pos: usize) -> (r: Result<(bool, usize), ProtocolError>)
    requires
        pos <= data@.len(),
    ensures
        agrees(r, data@, pos as int, parse_bool(data@.skip(pos as int))),
{
    if pos >= data.len() {
        return Err(ProtocolError::UnexpectedEnd);
    }
    assert(data@.skip(pos as int).skip(1) =~= data@.skip(pos + 1));
    let b = data[pos];
    if b == 0 {
        Ok((false, pos + 1))
    } else if b == 1 {
        Ok((true, pos + 1))
    } else {
        Err(ProtocolError::InvalidBool)
    }
}

pub fn read_var_int(data: &[u8], pos: usize) -> (r: Result<(i32, usize), ProtocolError>)
    requires
        pos <= data@.len(),
    ensures
        agrees(r, data@, pos as int, parse_var_int(data@.skip(pos as int))),
{
    let _len = data.len();
    match VarInt::decode(data, pos) {
        Ok((v, p)) => {
            proof {
                let (w, n) = parse_varint(data@.skip(pos as int))->Ok_0;
                assert(p == pos + n);
                assert(w == v.0);
                assert(data@.skip(pos as int).skip(n as int) =~= data@.skip(p as int));
            }
            Ok((v.0, p))
        },
        Err(e) => Err(e),
    }
}

pub fn read_var_long(data: &[u8], pos: usize) -> (r: Result<(i64, usize), ProtocolError>)
    requires
        pos <= data@.len(),
    ensures
        agrees(r, data@, pos as int, parse_var_long(data@.skip(pos as int))),
{
    let _len = data.len();
    match VarLong::decode(data, pos) {
        Ok((v, p)) => {
            proof {
                let (w, n) = parse_varlong(data@.skip(pos as int))->Ok_0;
                assert(data@.skip(pos as int).skip(n as int) =~= data@.skip(p as int));
            }
            Ok((v.0, p))
        },
        Err(e) => Err(e),
    }
}

pub fn write_var_int(n: i32, out: &mut Vec<u8>)
    ensures
        final(out)@ == old(out)@ + varint_bytes(n),
{
    VarInt(n).encode(out);
}

pub fn write_var_long(n: i64, out: &mut Vec<u8>)
    ensures
        final(out)@ == old(out)@ + varlong_bytes(n),
{
    VarLong(n).encode(out);
}

/// Appends the bytes of `b` one by one.
pub fn write_raw(b: &[u8], out: &mut Vec<u8>)
    ensures
        final(out)@ == old(out)@ + b@,
{
    let mut i: usize = 0;
    while i < b.len()
        invariant
            i <= b@.len(),
            out@ == old(out)@ + b@.take(i as int),
        decreases b@.len() - i,
    {
        out.push(b[i]);
        i = i + 1;
        assert(out@ =~= old(out)@ + b@.take(i as int));
    }
    assert(b@.take(b@.len() as int) =~= b@);
}

/// Copies `n` bytes of `data` starting at `pos`.
pub fn copy_range(data: &[u8], pos: usize, n: usize) -> (r: Vec<u8>)
    requires
        pos + n <= data@.len(),
    ensures
        r@ == data@.subrange(pos as int, pos + n),
{
    let _len = data.len();
    let mut r: Vec<u8> = Vec::new();
    let mut i: usize = 0;
    while i < n
        invariant
            i <= n,
            pos + n <= data@.len(),
            data@.len() <= usize::MAX,
            r@ == data@.subrange(pos as int, pos + i),
        decreases n - i,
    {
        r.push(data[pos + i]);
        i = i + 1;
        assert(r@ =~= data@.subrange(pos as int, pos + i));
    }
    r
}

/// Appends `b` prefixed by its count as a VarInt.
pub fn write_prefixed(b: &[u8], out: &mut Vec<u8>)
    requires
        b@.len() <= 0x7fff_ffff,
    ensures
        final(out)@ == old(out)@ + prefixed_bytes(b@),
{
    write_var_int(b.len() as i32, out);
    write_raw(b, out);
    assert(out@ =~= old(out)@ + prefixed_bytes(b@));
}

/// Reads a VarInt count at `pos`, then that many bytes.
pub fn read_prefixed(data: &[u8], pos: usize) -> (r: Result<(Vec<u8>, usize), ProtocolError>)
    requires
        pos <= data@.len(),
    ensures
        agrees(
            match r {
                Ok((v, p)) => Ok((v@, p)),
                Err(e) => Err(e),
            },
            data@,
            pos as int,
            parse_prefixed(data@.skip(pos as int)),
        ),
{
    let (n, p) = match read_var_int(data, pos) {
        Ok(x) => x,
        Err(e) => return Err(e),
    };
    if n < 0 {
        return Err(ProtocolError::BadLength);
    }
    if n as usize > data.len() - p {
        return Err(ProtocolError::UnexpectedEnd);
    }
    let v = copy_range(data, p, n as usize);
    assert(data@.skip(p as int).take(n as int) =~= data@.subrange(p as int, p + n));
    assert(data@.skip(p as int).skip(n as int) =~= data@.skip(p + n));
    Ok((v, p + n as usize))
}

/// Bytes to the end of the input.
pub fn read_greedy(data: &[u8], pos: usize) -> (r: (Vec<u8>, usize))
    requires
        pos <= data@.len(),
    ensures
        r.0@ == data@.skip(pos as int),
        r.1 == data@.len(),
{
    let v = copy_range(data, pos, data.len() - pos);
    assert(v@ =~= data@.skip(pos as int));
    (v, data.len())
}

/// The count of UTF-8 bytes of `s`.
pub fn utf8_len(s: &std::string::String) -> (r: usize)
    ensures
        r == vstd::utf8::encode_utf8(s@).len(),
{
    s.as_str().as_bytes().len()
}

/// Appends a protocol string.
pub fn write_string(s: &str, out: &mut Vec<u8>)
    requires
        string_fits(s@),
    ensures
        final(out)@ == old(out)@ + string_bytes(s@),
{
    write_prefixed(s.as_bytes(), out);
}

/// Relies on `String::from_utf8`: it accepts exactly the valid UTF-8 byte strings
/// and decodes them.
#[verifier::external_body]
fn utf8_to_string(b: Vec<u8>) -> (r: Option<std::string::String>)
    ensures
        r is Some <==> vstd::utf8::valid_utf8(b@),
        r matches Some(s) ==> s@ == vstd::utf8::decode_utf8(b@),
{
    std::string::String::from_utf8(b).ok()
}

/// Reads a protocol string at `pos`.
pub fn read_string(data: &[u8], pos: usize) -> (r: Result<(std::string::String, usize), ProtocolError>)
    requires
        pos <= data@.len(),
    ensures
        agrees(
            match r {
                Ok((s, p)) => Ok((s@, p)),
                Err(e) => Err(e),
            },
            data@,
            pos as int,
            parse_string(data@.skip(pos as int)),
        ),
{
    let (b, p) = match read_prefixed(data, pos) {
        Ok(x) => x,
        Err(e) => return Err(e),
    };
    match utf8_to_string(b) {
        Some(s) => Ok((s, p)),
        None => Err(ProtocolError::InvalidUtf8),
    }
}

/// Reads a protocol string of at most 32767 bytes at `pos`.
pub fn read_short_string(data: &[u8], pos: usize) -> (r: Result<(std::string::String, usize), ProtocolError>)
    requires
        pos <= data@.len(),
    ensures
        agrees(
            match r {
                Ok((s, p)) => Ok((s@, p)),
                Err(e) => Err(e),
            },
            data@,
            pos as int,
            parse_short_string(data@.skip(pos as int)),
        ),
{
    let (s, p) = match read_string(data, pos) {
        Ok(x) => x,
        Err(e) => return Err(e),
    };
    if s.as_str().as_bytes().len() > 32767 {
        return Err(ProtocolError::StringTooLong);
    }
    Ok((s, p))
}

} // verus!
