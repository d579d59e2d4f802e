use vstd::prelude::*;
use vstd::arithmetic::div_mod::lemma_fundamental_div_mod_converse;
use crate::error::ProtocolError;
use crate::codec::{Parsed, agrees, be_bytes, parse_be, parse_u8, parse_u128, string_bytes,
    parse_string, parse_short_string, string_fits, short_string_fits, write_u8, write_u64,
    write_u128, read_u8, read_be, read_u128, write_string, read_string, read_short_string,
    lemma_parse_be, lemma_pow256_values};

verus! {

/// A protocol string: UTF-8 bytes prefixed by their count as a VarInt.
#[derive(Debug, Clone, PartialEq)]
pub struct String(pub std::string::String);

/// A chat component: a protocol string of at most 32767 bytes.
#[derive(Debug, Clone, PartialEq)]
pub struct Chat(pub String);

/// A namespaced identifier: a protocol string of at most 32767 bytes.
#[derive(Debug, Clone, PartialEq)]
pub struct Identifier(pub String);

impl String {
    /// Appends the wire form.
    pub fn encode(&self, out: &mut Vec<u8>)
        requires
            string_fits(self.0@),
        ensures
            final(out)@ == old(out)@ + string_bytes(self.0@),
    {
        write_string(self.0.as_str(), out);
    }

    /// Reads a protocol string at `pos`.
    pub fn decode(data: &[u8], pos: usize) -> (r: Result<(String, usize), ProtocolError>)
        requires
            pos <= data@.len(),
        ensures
            agrees(
                match r {
                    Ok((s, p)) => Ok((s.0@, p)),
                    Err(e) => Err(e),
                },
                data@,
                pos as int,
                parse_string(data@.skip(pos as int)),
            ),
    {
        match read_string(data, pos) {
            Ok((s, p)) => Ok((String(s), p)),
            Err(e) => Err(e),
        }
    }
}

impl Chat {
    pub fn encode(&self, out: &mut Vec<u8>)
        requires
            short_string_fits(self.0.0@),
        ensures
            final(out)@ == old(out)@ + string_bytes(self.0.0@),
    {
        self.0.encode(out);
    }

    /// Reads a chat string at `pos`; more than 32767 bytes is refused.
    pub fn decode(data: &[u8], pos: usize) -> (r: Result<(Chat, usize), ProtocolError>)
        requires
            pos <= data@.len(),
        ensures
            agrees(
                match r {
                    Ok((s, p)) => Ok((s.0.0@, p)),
                    Err(e) => Err(e),
                },
                data@,
                pos as int,
                parse_short_string(data@.skip(pos as int)),
            ),
    {
        match read_short_string(data, pos) {
            Ok((s, p)) => Ok((Chat(String(s)), p)),
            Err(e) => Err(e),
        }
    }
}

impl Identifier {
    pub fn encode(&self, out: &mut Vec<u8>)
        requires
            short_string_fits(self.0.0@),
        ensures
            final(out)@ == old(out)@ + string_bytes(self.0.0@),
    {
        self.0.encode(out);
    }

    /// Reads an identifier at `pos`; more than 32767 bytes is refused.
    pub fn decode(data: &[u8], pos: usize) -> (r: Result<(Identifier, usize), ProtocolError>)
        requires
            pos <= data@.len(),
        ensures
            agrees(
                match r {
                    Ok((s, p)) => Ok((s.0.0@, p)),
                    Err(e) => Err(e),
                },
                data@,
                pos as int,
                parse_short_string(data@.skip(pos as int)),
            ),
    {
        match read_short_string(data, pos) {
            Ok((s, p)) => Ok((Identifier(String(s)), p)),
            Err(e) => Err(e),
        }
    }
}

/// A rotation in steps of 1/256 of a full turn.
#[derive(Debug, Clone, Copy, PartialEq, Eq, Structural)]
pub struct Angle(pub u8);

impl Angle {
    pub fn encode(&self, out: &mut Vec<u8>)
        ensures
            final(out)@ == old(out)@ + be_bytes(self.0 as nat, 1),
    {
        write_u8(self.0, out);
    }

    pub fn decode(data: &[u8], pos: usize) -> (r: Result<(Angle, usize), ProtocolError>)
        requires
            pos <= data@.len(),
        ensures
            agrees(
                match r {
                    Ok((a, p)) => Ok((a.0, p)),
                    Err(e) => Err(e),
                },
                data@,
                pos as int,
                parse_u8(data@.skip(pos as int)),
            ),
    {
        match read_u8(data, pos) {
            Ok((v, p)) => Ok((Angle(v), p)),
            Err(e) => Err(e),
        }
    }
}

/// A 128-bit identifier, sent as 16 big-endian bytes.
#[derive(Debug, Clone, Copy, PartialEq, Eq, Structural)]
pub struct Uuid(pub u128);

impl Uuid {
    pub fn encode(&self, out: &mut Vec<u8>)
        ensures
            final(out)@ == old(out)@ + be_bytes(self.0 as nat, 16),
    {
        write_u128(self.0, out);
    }

    pub fn decode(data: &[u8], pos: usize) -> (r: Result<(Uuid, usize), ProtocolError>)
        requires
            pos <= data@.len(),
        ensures
            agrees(
                match r {
                    Ok((u, p)) => Ok((u.0, p)),
                    Err(e) => Err(e),
                },
                data@,
                pos as int,
                parse_u128(data@.skip(pos as int)),
            ),
    {
        match read_u128(data, pos) {
            Ok((v, p)) => Ok((Uuid(v), p)),
            Err(e) => Err(e),
        }
    }
}

/// A block position: 26-bit `x` and `z`, 12-bit `y`, packed into one 64-bit word.
#[derive(Debug, Clone, Copy, PartialEq, Eq, Structural)]
pub struct Position {
    pub x: i32,
    pub z: i32,
    pub y: i32,
}

/// Each component fits its signed width.
pub open spec fn position_in_range(p: Position) -> bool {
    -0x200_0000 <= p.x < 0x200_0000 && -0x200_0000 <= p.z < 0x200_0000 && -0x800 <= p.y
        < 0x800
}

/// The `m`-value two's-complement pattern of `n`.
pub open spec fn pattern(n: int, m: nat) -> nat {
    if n < 0 {
        (n + m) as nat
    } else {
        n as nat
    }
}

/// The signed number whose `m`-value two's-complement pattern is `u`.
pub open spec fn sign_extend(u: nat, m: nat) -> int {
    if u >= m / 2 {
        u - m
    } else {
        u as int
    }
}

/// The packed word: `x` in the top 26 bits, then `z` in 26 bits, then `y` in 12.
pub open spec fn position_word(p: Position) -> nat {
    pattern(p.x as int, 0x400_0000) * 0x40_0000_0000 + pattern(p.z as int, 0x400_0000) * 0x1000
        + pattern(p.y as int, 0x1000)
}

pub open spec fn position_bytes(p: Position) -> Seq<u8> {
    be_bytes(position_word(p), 8)
}

/// Unpacks a word, sign-extending each component.
pub open spec fn position_of_word(v: nat) -> Position {
    Position {
        x: sign_extend((v / 0x1000) / 0x400_0000, 0x400_0000) as i32,
        z: sign_extend((v / 0x1000) % 0x400_0000, 0x400_0000) as i32,
        y: sign_extend(v % 0x1000, 0x1000) as i32,
    }
}

pub open spec fn parse_position(s: Seq<u8>) -> Parsed<Position> {
    match parse_be(s, 8) {
        Ok((v, rest)) => Ok((position_of_word(v), rest)),
        Err(e) => Err(e),
    }
}

/// A position whose components fit reads back as written, whatever follows it.
#[verifier::spinoff_prover]
#[verifier::rlimit(100)]
pub proof fn lemma_position_round_trip(p: Position, rest: Seq<u8>)
    requires
        position_in_range(p),
    ensures
        parse_position(position_bytes(p) + rest) == Ok::<(Position, Seq<u8>), ProtocolError>(
            (p, rest),
        ),
{
    let ux = pattern(p.x as int, 0x400_0000);
    let uz = pattern(p.z as int, 0x400_0000);
    let uy = pattern(p.y as int, 0x1000);
    let hi = ux * 0x400_0000 + uz;
    let v = position_word(p);
    assert(v == hi * 0x1000 + uy);
    lemma_fundamental_div_mod_converse(v as int, 0x1000, hi as int, uy as int);
    lemma_fundamental_div_mod_converse(hi as int, 0x400_0000, ux as int, uz as int);
    lemma_pow256_values();
    assert(v < 0x1_0000_0000_0000_0000);
    lemma_parse_be(v, 8, rest);
}

impl Position {
    /// Appends the packed word; fails, writing nothing, when a component is out of range.
    pub fn encode(&self, out: &mut Vec<u8>) -> (r: Result<(), ProtocolError>)
        ensures
            r is Ok <==> position_in_range(*self),
            r is Ok ==> final(out)@ == old(out)@ + position_bytes(*self),
            r is Err ==> r == Err::<(), ProtocolError>(ProtocolError::PositionOutOfRange)
                && final(out)@ == old(out)@,
    {
        if self.x >= 0x200_0000 || self.x < -0x200_0000 || self.z >= 0x200_0000 || self.z
            < -0x200_0000 || self.y >= 0x800 || self.y < -0x800 {
            return Err(ProtocolError::PositionOutOfRange);
        }
        let ux: u64 = if self.x < 0 {
            (self.x as i64 + 0x400_0000) as u64
        } else {
            self.x as u64
        };
        let uz: u64 = if self.z < 0 {
            (self.z as i64 + 0x400_0000) as u64
        } else {
            self.z as u64
        };
        let uy: u64 = if self.y < 0 {
            (self.y as i64 + 0x1000) as u64
        } else {
            self.y as u64
        };
        proof {
            lemma_pow256_values();
        }
        write_u64(ux * 0x40_0000_0000 + uz * 0x1000 + uy, out);
        Ok(())
    }

    /// Reads a packed word at `pos` and sign-extends its components.
    pub fn decode(data: &[u8], pos: usize) -> (r: Result<(Position, usize), ProtocolError>)
        requires
            pos <= data@.len(),
        ensures
            agrees(r, data@, pos as int, parse_position(data@.skip(pos as int))),
    {
        proof {
            lemma_pow256_values();
        }
        match read_be(data, pos, 8) {
            Ok((w, p)) => {
                let v = w as u64;
                let hi = v / 0x1000;
                let ux = (hi / 0x400_0000) as i64;
                let uz = (hi % 0x400_0000) as i64;
                let uy = (v % 0x1000) as i64;
                let x = if ux >= 0x200_0000 {
                    ux - 0x400_0000
                } else {
                    ux
                };
                let z = if uz >= 0x200_0000 {
                    uz - 0x400_0000
                } else {
                    uz
                };
                let y = if uy >= 0x800 {
                    uy - 0x1000
                } else {
                    uy
                };
                Ok((Position { x: x as i32, z: z as i32, y: y as i32 }, p))
            },
            Err(e) => Err(e),
        }
    }
}

} // verus!
