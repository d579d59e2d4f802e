use vstd::prelude::*;
use crate::error::ProtocolError;

verus! {

/// `128` to the power `i`.
pub open spec fn pow128(i: nat) -> nat
    decreases i,
{
    if i == 0 {
        1
    } else {
        128 * pow128((i - 1) as nat)
    }
}

/// The 7-bit groups of `v`, least significant first; every byte but the last has
/// its high bit set.
pub open spec fn group_bytes(v: nat) -> Seq<u8>
    decreases v,
{
    if v < 128 {
        seq![v as u8]
    } else {
        seq![(v % 128 + 128) as u8] + group_bytes(v / 128)
    }
}

/// Reads 7-bit groups from the front of `s`, at most `max` of them: the number they
/// make and the count of bytes read.
pub open spec fn parse_groups(s: Seq<u8>, max: nat) -> Result<(nat, nat), ProtocolError>
    decreases max,
{
    if max == 0 {
        Err(ProtocolError::VarIntTooLong)
    } else if s.len() == 0 {
        Err(ProtocolError::UnexpectedEnd)
    } else if s[0] < 128 {
        Ok((s[0] as nat, 1))
    } else {
        match parse_groups(s.drop_first(), (max - 1) as nat) {
            Ok((v, n)) => Ok((((s[0] - 128) + 128 * v) as nat, n + 1)),
            Err(e) => Err(e),
        }
    }
}

/// Moves a parse result that counts bytes from `pos` to one that gives the position
/// after the value.
pub open spec fn advance<T>(r: Result<(T, nat), ProtocolError>, pos: usize) -> Result<
    (T, usize),
    ProtocolError,
> {
    match r {
        Ok((v, n)) => Ok((v, (pos + n) as usize)),
        Err(e) => Err(e),
    }
}

/// The unsigned 32-bit pattern of a signed number.
pub open spec fn unsigned32(n: int) -> nat {
    if n < 0 {
        (n + 0x1_0000_0000) as nat
    } else {
        n as nat
    }
}

/// The signed 32-bit number whose pattern is the low 32 bits of `v`.
pub open spec fn signed32(v: nat) -> int {
    let m = v % 0x1_0000_0000;
    if m >= 0x8000_0000 {
        m - 0x1_0000_0000
    } else {
        m as int
    }
}

/// The unsigned 64-bit pattern of a signed number.
pub open spec fn unsigned64(n: int) -> nat {
    if n < 0 {
        (n + 0x1_0000_0000_0000_0000) as nat
    } else {
        n as nat
    }
}

/// The signed 64-bit number whose pattern is the low 64 bits of `v`.
pub open spec fn signed64(v: nat) -> int {
    let m = v % 0x1_0000_0000_0000_0000;
    if m >= 0x8000_0000_0000_0000 {
        m - 0x1_0000_0000_0000_0000
    } else {
        m as int
    }
}

/// Wire form of a VarInt.
pub open spec fn varint_bytes(n: i32) -> Seq<u8> {
    group_bytes(unsigned32(n as int))
}

/// Reads a VarInt from the front of `s`: at most five bytes.
pub open spec fn parse_varint(s: Seq<u8>) -> Result<(i32, nat), ProtocolError> {
    match parse_groups(s, 5) {
        Ok((v, n)) => Ok((signed32(v) as i32, n)),
        Err(e) => Err(e),
    }
}

/// Wire form of a VarLong.
pub open spec fn varlong_bytes(n: i64) -> Seq<u8> {
    group_bytes(unsigned64(n as int))
}

/// Reads a VarLong from the front of `s`: at most ten bytes.
pub open spec fn parse_varlong(s: Seq<u8>) -> Result<(i64, nat), ProtocolError> {
    match parse_groups(s, 10) {
        Ok((v, n)) => Ok((signed64(v) as i64, n)),
        Err(e) => Err(e),
    }
}

#[verifier::spinoff_prover]
#[verifier::rlimit(100)]
proof fn lemma_pow128_mono(i: nat, j: nat)
    requires
        i <= j,
    ensures
        pow128(i) <= pow128(j),
        pow128(i) >= 1,
    decreases j,
{
    if j > i {
        lemma_pow128_mono(i, (j - 1) as nat);
    } else if i > 0 {
        lemma_pow128_mono((i - 1) as nat, (i - 1) as nat);
    }
}

#[verifier::spinoff_prover]
#[verifier::rlimit(100)]
proof fn lemma_pow128_values()
    ensures
        pow128(5) == 0x8_0000_0000,
        pow128(10) == 0x40_0000_0000_0000_0000,
{
    reveal_with_fuel(pow128, 11);
}

/// A successful parse of at most `max` groups is below `128^n`, `n` its byte count.
#[verifier::spinoff_prover]
#[verifier::rlimit(100)]
proof fn lemma_parse_groups_bound(s: Seq<u8>, max: nat)
    ensures
        parse_groups(s, max) matches Ok((v, n)) ==> 1 <= n <= max && n <= s.len() && v < pow128(n),
    decreases max,
{
    assert(pow128(1) == 128 * pow128(0));
    if max > 0 && s.len() > 0 && s[0] >= 128 {
        lemma_parse_groups_bound(s.drop_first(), (max - 1) as nat);
        if let Ok((v, n)) = parse_groups(s.drop_first(), (max - 1) as nat) {
            let b = (s[0] - 128) as nat;
            assert(b < 128);
            assert(pow128(n + 1) == 128 * pow128(n));
            assert(b + 128 * v < 128 * pow128(n)) by (nonlinear_arith)
                requires
                    b < 128,
                    v < pow128(n),
            ;
        }
    }
}

/// The groups of a number below `128^k` parse back to it within `k` groups.
#[verifier::spinoff_prover]
#[verifier::rlimit(100)]
proof fn lemma_groups_round_trip(v: nat, k: nat, rest: Seq<u8>)
    requires
        k >= 1,
        v < pow128(k),
    ensures
        1 <= group_bytes(v).len() <= k,
        parse_groups(group_bytes(v) + rest, k) == Ok::<(nat, nat), ProtocolError>(
            (v, group_bytes(v).len()),
        ),
    decreases v,
{
    let s = group_bytes(v) + rest;
    if v < 128 {
        assert(s[0] == v as u8);
    } else {
        let q = v / 128;
        let b = (v % 128 + 128) as u8;
        assert(v == 128 * q + v % 128);
        assert(q < pow128((k - 1) as nat)) by (nonlinear_arith)
            requires
                v < 128 * pow128((k - 1) as nat),
                q == v / 128,
        ;
        if k == 1 {
            assert(pow128(0) == 1);
        }
        lemma_groups_round_trip(q, (k - 1) as nat, rest);
        assert(s[0] == b);
        assert(s.drop_first() =~= group_bytes(q) + rest);
    }
}

/// Appends the groups of `v` to `out`.
fn write_groups(v: u64, out: &mut Vec<u8>)
    ensures
        final(out)@ == old(out)@ + group_bytes(v as nat),
{
    let ghost start = out@;
    let mut acc: u64 = v;
    loop
        invariant_except_break
            out@ + group_bytes(acc as nat) == start + group_bytes(v as nat),
        ensures
            out@ == start + group_bytes(v as nat),
        decreases acc,
    {
        let low = (acc % 128) as u8;
        if acc < 128 {
            let ghost before = out@;
            out.push(low);
            assert(group_bytes(acc as nat) =~= seq![low]);
            assert(out@ =~= before + group_bytes(acc as nat));
            break;
        }
        let ghost before = out@;
        out.push(low + 128);
        acc = acc / 128;
        assert(out@ + group_bytes(acc as nat) =~= before + group_bytes((acc * 128 + low) as nat));
    }
}

/// Reads at most `max` groups starting at `pos`.
fn read_groups(data: &[u8], pos: usize, max: usize) -> (r: Result<(u128, usize), ProtocolError>)
    requires
        pos <= data@.len(),
        max <= 10,
    ensures
        r == advance(
            match parse_groups(data@.skip(pos as int), max as nat) {
                Ok((v, n)) => Ok::<(u128, nat), ProtocolError>((v as u128, n)),
                Err(e) => Err(e),
            },
            pos,
        ),
{
    let ghost s = data@.skip(pos as int);
    proof {
        lemma_pow128_values();
        lemma_pow128_mono(max as nat, 10);
    }
    assert(s.skip(0) =~= s);
    let mut i: usize = 0;
    let mut acc: u128 = 0;
    let mut mult: u128 = 1;
    loop
        invariant
            i <= max,
            max <= 10,
            pos + i <= data@.len(),
            s == data@.skip(pos as int),
            mult == pow128(i as nat),
            pow128(max as nat) <= pow128(10),
            pow128(10) == 0x40_0000_0000_0000_0000,
            acc < mult,
            parse_groups(s, max as nat) == match parse_groups(s.skip(i as int), (max - i) as nat) {
                Ok((v, n)) => Ok::<(nat, nat), ProtocolError>(((acc + mult * v) as nat, (n + i) as nat)),
                Err(e) => Err(e),
            },
        decreases max - i,
    {
        proof {
            lemma_pow128_mono(i as nat, max as nat);
        }
        if i == max {
            return Err(ProtocolError::VarIntTooLong);
        }
        if i >= data.len() - pos {
            assert(s.skip(i as int).len() == 0);
            return Err(ProtocolError::UnexpectedEnd);
        }
        let b = data[pos + i];
        assert(s.skip(i as int)[0] == b);
        proof {
            lemma_pow128_mono((i + 1) as nat, max as nat);
        }
        if b < 128 {
            assert(acc + mult * (b as int) < mult * 128) by (nonlinear_arith)
                requires
                    acc < mult,
                    b < 128,
            ;
            return Ok((acc + mult * (b as u128), pos + i + 1));
        }
        let ghost t = s.skip(i as int);
        assert(t.drop_first() =~= s.skip(i + 1));
        let ghost old_acc = acc;
        let ghost old_mult = mult;
        assert(acc + mult * ((b - 128) as int) < mult * 128) by (nonlinear_arith)
            requires
                acc < mult,
                b < 256,
                b >= 128,
        ;
        acc = acc + mult * ((b - 128) as u128);
        mult = mult * 128;
        i = i + 1;
        proof {
            if let Ok((v, n)) = parse_groups(s.skip(i as int), (max - i) as nat) {
                assert(old_mult * ((b - 128) + 128 * v) == old_mult * (b - 128) + (old_mult * 128)
                    * v) by (nonlinear_arith);
            }
        }
    }
}

/// A signed 32-bit integer carried in 1 to 5 bytes.
#[derive(Debug, Clone, Copy, PartialEq, Eq, Structural)]
pub struct VarInt(pub i32);

impl VarInt {
    /// Appends the wire form of this value to `out`.
    pub fn encode(&self, out: &mut Vec<u8>)
        ensures
            final(out)@ == old(out)@ + varint_bytes(self.0),
    {
        let v: u32 = if self.0 < 0 {
            (self.0 as i64 + 0x1_0000_0000i64) as u32
        } else {
            self.0 as u32
        };
        write_groups(v as u64, out);
    }

    /// Reads a VarInt at `pos`; gives it and the position after it.
    pub fn decode(data: &[u8], pos: usize) -> (r: Result<(VarInt, usize), ProtocolError>)
        requires
            pos <= data@.len(),
        ensures
            r == advance(
                match parse_varint(data@.skip(pos as int)) {
                    Ok((v, n)) => Ok::<(VarInt, nat), ProtocolError>((VarInt(v), n)),
                    Err(e) => Err(e),
                },
                pos,
            ),
            parse_varint(data@.skip(pos as int)) matches Ok((v, n)) ==> pos + n <= data@.len(),
            r matches Ok((v, p)) ==> pos < p <= data@.len(),
    {
        let _len = data.len();
        proof {
            lemma_parse_groups_bound(data@.skip(pos as int), 5);
            lemma_pow128_values();
            if let Ok((sv, n)) = parse_groups(data@.skip(pos as int), 5) {
                lemma_pow128_mono(n, 5);
            }
        }
        match read_groups(data, pos, 5) {
            Ok((v, p)) => {
                let m = (v % 0x1_0000_0000u128) as i64;
                let x: i32 = if m >= 0x8000_0000i64 {
                    (m - 0x1_0000_0000i64) as i32
                } else {
                    m as i32
                };
                assert(x as int == signed32(v as nat));
                Ok((VarInt(x), p))
            },
            Err(e) => Err(e),
        }
    }
}

/// A signed 64-bit integer carried in 1 to 10 bytes.
#[derive(Debug, Clone, Copy, PartialEq, Eq, Structural)]
pub struct VarLong(pub i64);

impl VarLong {
    /// Appends the wire form of this value to `out`.
    pub fn encode(&self, out: &mut Vec<u8>)
        ensures
            final(out)@ == old(out)@ + varlong_bytes(self.0),
    {
        let v: u64 = if self.0 < 0 {
            (self.0 as i128 + 0x1_0000_0000_0000_0000i128) as u64
        } else {
            self.0 as u64
        };
        write_groups(v, out);
    }

    /// Reads a VarLong at `pos`; gives it and the position after it.
    pub fn decode(data: &[u8], pos: usize) -> (r: Result<(VarLong, usize), ProtocolError>)
        requires
            pos <= data@.len(),
        ensures
            r == advance(
                match parse_varlong(data@.skip(pos as int)) {
                    Ok((v, n)) => Ok::<(VarLong, nat), ProtocolError>((VarLong(v), n)),
                    Err(e) => Err(e),
                },
                pos,
            ),
            parse_varlong(data@.skip(pos as int)) matches Ok((v, n)) ==> pos + n <= data@.len(),
            r matches Ok((v, p)) ==> pos < p <= data@.len(),
    {
        let _len = data.len();
        proof {
            lemma_parse_groups_bound(data@.skip(pos as int), 10);
            lemma_pow128_values();
            if let Ok((sv, n)) = parse_groups(data@.skip(pos as int), 10) {
                lemma_pow128_mono(n, 10);
            }
        }
        match read_groups(data, pos, 10) {
            Ok((v, p)) => {
                let m = v % 0x1_0000_0000_0000_0000u128;
                let x: i64 = if m >= 0x8000_0000_0000_0000u128 {
                    (m as i128 - 0x1_0000_0000_0000_0000i128) as i64
                } else {
                    m as i64
                };
                assert(x as int == signed64(v as nat));
                Ok((VarLong(x), p))
            },
            Err(e) => Err(e),
        }
    }
}

/// A VarInt read takes 1 to 5 bytes, all of them from the input.
#[verifier::spinoff_prover]
#[verifier::rlimit(100)]
pub proof fn lemma_parse_varint_len(s: Seq<u8>)
    ensures
        parse_varint(s) matches Ok((v, n)) ==> 1 <= n <= 5 && n <= s.len(),
{
    lemma_parse_groups_bound(s, 5);
}

/// Every i32 survives a VarInt round trip, whatever follows it, in 1 to 5 bytes.
#[verifier::spinoff_prover]
#[verifier::rlimit(100)]
pub proof fn lemma_varint_round_trip(n: i32, rest: Seq<u8>)
    ensures
        1 <= varint_bytes(n).len() <= 5,
        parse_varint(varint_bytes(n) + rest) == Ok::<(i32, nat), ProtocolError>(
            (n, varint_bytes(n).len()),
        ),
{
    lemma_pow128_values();
    lemma_groups_round_trip(unsigned32(n as int), 5, rest);
}

/// Every i64 survives a VarLong round trip, whatever follows it, in 1 to 10 bytes.
#[verifier::spinoff_prover]
#[verifier::rlimit(100)]
pub proof fn lemma_varlong_round_trip(n: i64, rest: Seq<u8>)
    ensures
        1 <= varlong_bytes(n).len() <= 10,
        parse_varlong(varlong_bytes(n) + rest) == Ok::<(i64, nat), ProtocolError>(
            (n, varlong_bytes(n).len()),
        ),
{
    lemma_pow128_values();
    lemma_groups_round_trip(unsigned64(n as int), 10, rest);
}

} // verus!
