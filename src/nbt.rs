use vstd::prelude::*;
use crate::error::ProtocolError;
use crate::codec::{Parsed, agrees, be_bytes, be_value, signed_bytes, signed_in, parse_i8,
    parse_i16, parse_i32, parse_i64, parse_u16, parse_u32, parse_u64, read_i8, read_i16,
    read_i32, read_i64, read_u16, read_u32, read_u64, write_u8, write_i8, write_i16, write_i32,
    write_i64, write_u16, write_u32, write_u64, write_raw, copy_range, lemma_parse_be,
    lemma_parse_signed, lemma_pow256_values, lemma_skip_append};

verus! {

/// The kind of an NBT value, sent as one byte.
#[derive(Debug, Clone, Copy, PartialEq, Eq, Structural)]
pub enum Tag {
    End,
    Byte,
    Short,
    Int,
    Long,
    Float,
    Double,
    ByteArray,
    String,
    List,
    Compound,
    IntArray,
    LongArray,
}

pub open spec fn tag_id(t: Tag) -> u8 {
    match t {
        Tag::End => 0,
        Tag::Byte => 1,
        Tag::Short => 2,
        Tag::Int => 3,
        Tag::Long => 4,
        Tag::Float => 5,
        Tag::Double => 6,
        Tag::ByteArray => 7,
        Tag::String => 8,
        Tag::List => 9,
        Tag::Compound => 10,
        Tag::IntArray => 11,
        Tag::LongArray => 12,
    }
}

pub open spec fn tag_of_id(b: u8) -> Option<Tag> {
    if b == 0 {
        Some(Tag::End)
    } else if b == 1 {
        Some(Tag::Byte)
    } else if b == 2 {
        Some(Tag::Short)
    } else if b == 3 {
        Some(Tag::Int)
    } else if b == 4 {
        Some(Tag::Long)
    } else if b == 5 {
        Some(Tag::Float)
    } else if b == 6 {
        Some(Tag::Double)
    } else if b == 7 {
        Some(Tag::ByteArray)
    } else if b == 8 {
        Some(Tag::String)
    } else if b == 9 {
        Some(Tag::List)
    } else if b == 10 {
        Some(Tag::Compound)
    } else if b == 11 {
        Some(Tag::IntArray)
    } else if b == 12 {
        Some(Tag::LongArray)
    } else {
        None
    }
}

/// An NBT value as plain data. Floats are their IEEE-754 bit patterns; strings and
/// names are their CESU-8 bytes.
pub enum ValueV {
    End,
    Byte(i8),
    Short(i16),
    Int(i32),
    Long(i64),
    Float(u32),
    Double(u64),
    ByteArray(Seq<i8>),
    String(Seq<u8>),
    List(Seq<ValueV>),
    Compound(Seq<(Seq<u8>, ValueV)>),
    IntArray(Seq<i32>),
    LongArray(Seq<i64>),
}

pub open spec fn tag_of(v: ValueV) -> Tag {
    match v {
        ValueV::End => Tag::End,
        ValueV::Byte(..) => Tag::Byte,
        ValueV::Short(..) => Tag::Short,
        ValueV::Int(..) => Tag::Int,
        ValueV::Long(..) => Tag::Long,
        ValueV::Float(..) => Tag::Float,
        ValueV::Double(..) => Tag::Double,
        ValueV::ByteArray(..) => Tag::ByteArray,
        ValueV::String(..) => Tag::String,
        ValueV::List(..) => Tag::List,
        ValueV::Compound(..) => Tag::Compound,
        ValueV::IntArray(..) => Tag::IntArray,
        ValueV::LongArray(..) => Tag::LongArray,
    }
}

/// The element tag a list is sent with: its first element's, End when it is empty.
pub open spec fn list_tag(items: Seq<ValueV>) -> Tag {
    if items.len() == 0 {
        Tag::End
    } else {
        tag_of(items[0])
    }
}

/// A value that can be sent and read back: strings and names fit their 16-bit
/// lengths, arrays and lists their 32-bit ones, a list's elements share one tag
/// that is not End, and no compound holds an End value.
pub open spec fn wf(v: ValueV) -> bool
    decreases v,
{
    match v {
        ValueV::ByteArray(a) => a.len() <= 0x7fff_ffff,
        ValueV::IntArray(a) => a.len() <= 0x7fff_ffff,
        ValueV::LongArray(a) => a.len() <= 0x7fff_ffff,
        ValueV::String(b) => b.len() <= 0xffff && java_cesu8_decoded(b) is Some,
        ValueV::List(items) => items.len() <= 0x7fff_ffff && (forall|i: int|
            0 <= i < items.len() ==> tag_of(#[trigger] items[i]) == list_tag(items) && tag_of(
                items[i],
            ) != Tag::End && wf(items[i])),
        ValueV::Compound(es) => (forall|i: int|
            0 <= i < es.len() ==> (#[trigger] es[i]).0.len() <= 0xffff && java_cesu8_decoded(
                es[i].0,
            ) is Some && tag_of(es[i].1) != Tag::End && wf(es[i].1)) && names_unique(es),
        _ => true,
    }
}

/// Some entry of `es` is named `name`.
pub open spec fn has_name(es: Seq<(Seq<u8>, ValueV)>, name: Seq<u8>) -> bool {
    exists|k: int| 0 <= k < es.len() && (#[trigger] es[k]).0 == name
}

/// No two entries of `es` share a name.
pub open spec fn names_unique(es: Seq<(Seq<u8>, ValueV)>) -> bool {
    forall|i: int, j: int| 0 <= i < j < es.len() ==> (#[trigger] es[i]).0 != (#[trigger] es[j]).0
}

pub open spec fn i8s_bytes(a: Seq<i8>) -> Seq<u8>
    decreases a.len(),
{
    if a.len() == 0 {
        seq![]
    } else {
        signed_bytes(a[0] as int, 1) + i8s_bytes(a.drop_first())
    }
}

pub open spec fn i32s_bytes(a: Seq<i32>) -> Seq<u8>
    decreases a.len(),
{
    if a.len() == 0 {
        seq![]
    } else {
        signed_bytes(a[0] as int, 4) + i32s_bytes(a.drop_first())
    }
}

pub open spec fn i64s_bytes(a: Seq<i64>) -> Seq<u8>
    decreases a.len(),
{
    if a.len() == 0 {
        seq![]
    } else {
        signed_bytes(a[0] as int, 8) + i64s_bytes(a.drop_first())
    }
}

/// The payload of a value, without its tag.
pub open spec fn body_bytes(v: ValueV) -> Seq<u8>
    decreases v, 0nat,
{
    match v {
        ValueV::End => seq![],
        ValueV::Byte(x) => signed_bytes(x as int, 1),
        ValueV::Short(x) => signed_bytes(x as int, 2),
        ValueV::Int(x) => signed_bytes(x as int, 4),
        ValueV::Long(x) => signed_bytes(x as int, 8),
        ValueV::Float(x) => be_bytes(x as nat, 4),
        ValueV::Double(x) => be_bytes(x as nat, 8),
        ValueV::ByteArray(a) => signed_bytes(a.len() as int, 4) + i8s_bytes(a),
        ValueV::String(b) => be_bytes(b.len(), 2) + b,
        ValueV::List(items) => seq![tag_id(list_tag(items))] + signed_bytes(items.len() as int, 4)
            + items_bytes(items, 0),
        ValueV::Compound(es) => entries_bytes(es, 0) + seq![0u8],
        ValueV::IntArray(a) => signed_bytes(a.len() as int, 4) + i32s_bytes(a),
        ValueV::LongArray(a) => signed_bytes(a.len() as int, 4) + i64s_bytes(a),
    }
}

/// The payloads of `items` from index `i` on.
pub open spec fn items_bytes(items: Seq<ValueV>, i: nat) -> Seq<u8>
    decreases items, items.len() - i,
{
    if i >= items.len() {
        seq![]
    } else {
        body_bytes(items[i as int]) + items_bytes(items, i + 1)
    }
}

/// One compound entry: its tag, its name with a 16-bit length, its payload.
pub open spec fn entry_bytes(name: Seq<u8>, v: ValueV) -> Seq<u8>
    decreases v, 1nat,
{
    seq![tag_id(tag_of(v))] + be_bytes(name.len(), 2) + name + body_bytes(v)
}

/// The entries of a compound from index `i` on.
pub open spec fn entries_bytes(es: Seq<(Seq<u8>, ValueV)>, i: nat) -> Seq<u8>
    decreases es, es.len() - i,
{
    if i >= es.len() {
        seq![]
    } else {
        entry_bytes(es[i as int].0, es[i as int].1) + entries_bytes(es, i + 1)
    }
}

pub open spec fn parse_i8s(s: Seq<u8>, n: nat) -> Parsed<Seq<i8>>
    decreases n,
{
    if n == 0 {
        Ok((seq![], s))
    } else {
        match parse_i8(s) {
            Ok((x, rest)) => match parse_i8s(rest, (n - 1) as nat) {
                Ok((xs, rest)) => Ok((seq![x] + xs, rest)),
                Err(e) => Err(e),
            },
            Err(e) => Err(e),
        }
    }
}

pub open spec fn parse_i32s(s: Seq<u8>, n: nat) -> Parsed<Seq<i32>>
    decreases n,
{
    if n == 0 {
        Ok((seq![], s))
    } else {
        match parse_i32(s) {
            Ok((x, rest)) => match parse_i32s(rest, (n - 1) as nat) {
                Ok((xs, rest)) => Ok((seq![x] + xs, rest)),
                Err(e) => Err(e),
            },
            Err(e) => Err(e),
        }
    }
}

pub open spec fn parse_i64s(s: Seq<u8>, n: nat) -> Parsed<Seq<i64>>
    decreases n,
{
    if n == 0 {
        Ok((seq![], s))
    } else {
        match parse_i64(s) {
            Ok((x, rest)) => match parse_i64s(rest, (n - 1) as nat) {
                Ok((xs, rest)) => Ok((seq![x] + xs, rest)),
                Err(e) => Err(e),
            },
            Err(e) => Err(e),
        }
    }
}

/// Reads the payload of a value of tag `t`.
pub open spec fn parse_body(t: Tag, s: Seq<u8>) -> Parsed<ValueV>
    decreases s.len(), 1nat,
{
    match t {
        Tag::End => Ok((ValueV::End, s)),
        Tag::Byte => match parse_i8(s) {
            Ok((x, r)) => Ok((ValueV::Byte(x), r)),
            Err(e) => Err(e),
        },
        Tag::Short => match parse_i16(s) {
            Ok((x, r)) => Ok((ValueV::Short(x), r)),
            Err(e) => Err(e),
        },
        Tag::Int => match parse_i32(s) {
            Ok((x, r)) => Ok((ValueV::Int(x), r)),
            Err(e) => Err(e),
        },
        Tag::Long => match parse_i64(s) {
            Ok((x, r)) => Ok((ValueV::Long(x), r)),
            Err(e) => Err(e),
        },
        Tag::Float => match parse_u32(s) {
            Ok((x, r)) => Ok((ValueV::Float(x), r)),
            Err(e) => Err(e),
        },
        Tag::Double => match parse_u64(s) {
            Ok((x, r)) => Ok((ValueV::Double(x), r)),
            Err(e) => Err(e),
        },
        Tag::ByteArray => match parse_i32(s) {
            Ok((n, r)) => if n < 0 {
                Err(ProtocolError::BadLength)
            } else {
                match parse_i8s(r, n as nat) {
                    Ok((a, r)) => Ok((ValueV::ByteArray(a), r)),
                    Err(e) => Err(e),
                }
            },
            Err(e) => Err(e),
        },
        Tag::IntArray => match parse_i32(s) {
            Ok((n, r)) => if n < 0 {
                Err(ProtocolError::BadLength)
            } else {
                match parse_i32s(r, n as nat) {
                    Ok((a, r)) => Ok((ValueV::IntArray(a), r)),
                    Err(e) => Err(e),
                }
            },
            Err(e) => Err(e),
        },
        Tag::LongArray => match parse_i32(s) {
            Ok((n, r)) => if n < 0 {
                Err(ProtocolError::BadLength)
            } else {
                match parse_i64s(r, n as nat) {
                    Ok((a, r)) => Ok((ValueV::LongArray(a), r)),
                    Err(e) => Err(e),
                }
            },
            Err(e) => Err(e),
        },
        Tag::String => match parse_u16(s) {
            Ok((n, r)) => if r.len() < n {
                Err(ProtocolError::UnexpectedEnd)
            } else if java_cesu8_decoded(r.take(n as int)) is None {
                Err(ProtocolError::InvalidCesu8)
            } else {
                Ok((ValueV::String(r.take(n as int)), r.skip(n as int)))
            },
            Err(e) => Err(e),
        },
        Tag::List => if s.len() < 5 {
            Err(ProtocolError::UnexpectedEnd)
        } else {
            match tag_of_id(s[0]) {
                None => Err(ProtocolError::UnknownId),
                Some(et) => {
                    let n = signed_in(be_value(s.subrange(1, 5)), 4);
                    if n < 0 {
                        Err(ProtocolError::BadLength)
                    } else if et == Tag::End && n > 0 {
                        Err(ProtocolError::ListTypeMismatch)
                    } else {
                        match parse_items(et, s.skip(5), n as nat) {
                            Ok((items, r)) => Ok((ValueV::List(items), r)),
                            Err(e) => Err(e),
                        }
                    }
                },
            }
        },
        Tag::Compound => match parse_entries(s) {
            Ok((es, r)) => Ok((ValueV::Compound(es), r)),
            Err(e) => Err(e),
        },
    }
}

/// Reads `n` payloads of tag `t`.
pub open spec fn parse_items(t: Tag, s: Seq<u8>, n: nat) -> Parsed<Seq<ValueV>>
    decreases s.len(), 2nat,
{
    if n == 0 {
        Ok((seq![], s))
    } else {
        match parse_body(t, s) {
            Ok((v, r)) => if r.len() < s.len() {
                match parse_items(t, r, (n - 1) as nat) {
                    Ok((vs, r2)) => Ok((seq![v] + vs, r2)),
                    Err(e) => Err(e),
                }
            } else {
                Err(ProtocolError::BadLength)
            },
            Err(e) => Err(e),
        }
    }
}

/// Reads compound entries up to and including the End tag that closes them.
pub open spec fn parse_entries(s: Seq<u8>) -> Parsed<Seq<(Seq<u8>, ValueV)>>
    decreases s.len(), 0nat,
{
    if s.len() == 0 {
        Err(ProtocolError::UnexpectedEnd)
    } else if s[0] == 0 {
        Ok((seq![], s.skip(1)))
    } else {
        match tag_of_id(s[0]) {
            None => Err(ProtocolError::UnknownId),
            Some(t) => if s.len() < 3 {
                Err(ProtocolError::UnexpectedEnd)
            } else {
                let n = be_value(s.subrange(1, 3));
                if s.len() < 3 + n {
                    Err(ProtocolError::UnexpectedEnd)
                } else if java_cesu8_decoded(s.subrange(3, 3 + n as int)) is None {
                    Err(ProtocolError::InvalidCesu8)
                } else {
                    match parse_body(t, s.skip(3 + n as int)) {
                        Ok((v, r)) => if r.len() < s.len() {
                            match parse_entries(r) {
                                Ok((es, r2)) => if has_name(es, s.subrange(3, 3 + n as int)) {
                                    Err(ProtocolError::DuplicateName)
                                } else {
                                    Ok((seq![(s.subrange(3, 3 + n as int), v)] + es, r2))
                                },
                                Err(e) => Err(e),
                            }
                        } else {
                            Err(ProtocolError::BadLength)
                        },
                        Err(e) => Err(e),
                    }
                }
            },
        }
    }
}

#[verifier::spinoff_prover]
#[verifier::rlimit(100)]
proof fn lemma_tag_ids(t: Tag)
    ensures
        tag_of_id(tag_id(t)) == Some(t),
        tag_id(t) == 0 <==> t == Tag::End,
{
}

#[verifier::spinoff_prover]
#[verifier::rlimit(100)]
proof fn lemma_i8s(a: Seq<i8>, rest: Seq<u8>)
    ensures
        parse_i8s(i8s_bytes(a) + rest, a.len()) == Ok::<(Seq<i8>, Seq<u8>), ProtocolError>(
            (a, rest),
        ),
    decreases a.len(),
{
    lemma_pow256_values();
    if a.len() > 0 {
        let b = signed_bytes(a[0] as int, 1);
        assert(i8s_bytes(a) + rest =~= b + (i8s_bytes(a.drop_first()) + rest));
        lemma_parse_signed(a[0] as int, 1, i8s_bytes(a.drop_first()) + rest);
        lemma_i8s(a.drop_first(), rest);
        assert(seq![a[0]] + a.drop_first() =~= a);
    } else {
        assert(i8s_bytes(a) + rest =~= rest);
        assert(a =~= seq![]);
    }
}

#[verifier::spinoff_prover]
#[verifier::rlimit(100)]
proof fn lemma_i32s(a: Seq<i32>, rest: Seq<u8>)
    ensures
        parse_i32s(i32s_bytes(a) + rest, a.len()) == Ok::<(Seq<i32>, Seq<u8>), ProtocolError>(
            (a, rest),
        ),
    decreases a.len(),
{
    lemma_pow256_values();
    if a.len() > 0 {
        let b = signed_bytes(a[0] as int, 4);
        assert(i32s_bytes(a) + rest =~= b + (i32s_bytes(a.drop_first()) + rest));
        lemma_parse_signed(a[0] as int, 4, i32s_bytes(a.drop_first()) + rest);
        lemma_i32s(a.drop_first(), rest);
        assert(seq![a[0]] + a.drop_first() =~= a);
    } else {
        assert(i32s_bytes(a) + rest =~= rest);
        assert(a =~= seq![]);
    }
}

#[verifier::spinoff_prover]
#[verifier::rlimit(100)]
proof fn lemma_i64s(a: Seq<i64>, rest: Seq<u8>)
    ensures
        parse_i64s(i64s_bytes(a) + rest, a.len()) == Ok::<(Seq<i64>, Seq<u8>), ProtocolError>(
            (a, rest),
        ),
    decreases a.len(),
{
    lemma_pow256_values();
    if a.len() > 0 {
        let b = signed_bytes(a[0] as int, 8);
        assert(i64s_bytes(a) + rest =~= b + (i64s_bytes(a.drop_first()) + rest));
        lemma_parse_signed(a[0] as int, 8, i64s_bytes(a.drop_first()) + rest);
        lemma_i64s(a.drop_first(), rest);
        assert(seq![a[0]] + a.drop_first() =~= a);
    } else {
        assert(i64s_bytes(a) + rest =~= rest);
        assert(a =~= seq![]);
    }
}

/// The payload of a well-formed value reads back as the value, whatever follows it;
/// it is never empty unless the value is End.
#[verifier::spinoff_prover]
#[verifier::rlimit(100)]
proof fn lemma_body(v: ValueV, rest: Seq<u8>)
    requires
        wf(v),
    ensures
        parse_body(tag_of(v), body_bytes(v) + rest) == Ok::<(ValueV, Seq<u8>), ProtocolError>(
            (v, rest),
        ),
        tag_of(v) != Tag::End ==> body_bytes(v).len() > 0,
    decreases v, 1nat,
{
    lemma_pow256_values();
    match v {
        ValueV::End => {
            assert(body_bytes(v) + rest =~= rest);
        },
        ValueV::Byte(x) => {
            lemma_parse_signed(x as int, 1, rest);
        },
        ValueV::Short(x) => {
            lemma_parse_signed(x as int, 2, rest);
        },
        ValueV::Int(x) => {
            lemma_parse_signed(x as int, 4, rest);
        },
        ValueV::Long(x) => {
            lemma_parse_signed(x as int, 8, rest);
        },
        ValueV::Float(x) => {
            lemma_parse_be(x as nat, 4, rest);
        },
        ValueV::Double(x) => {
            lemma_parse_be(x as nat, 8, rest);
        },
        ValueV::List(items) => {
            lemma_body_list(v, rest);
        },
        ValueV::Compound(es) => {
            lemma_body_compound(v, rest);
        },
        _ => {
            lemma_body_array(v, rest);
        },
    }
}

#[verifier::spinoff_prover]
#[verifier::rlimit(100)]
proof fn lemma_body_array(v: ValueV, rest: Seq<u8>)
    requires
        wf(v),
        v is ByteArray || v is IntArray || v is LongArray || v is String,
    ensures
        parse_body(tag_of(v), body_bytes(v) + rest) == Ok::<(ValueV, Seq<u8>), ProtocolError>(
            (v, rest),
        ),
        body_bytes(v).len() > 0,
{
    lemma_pow256_values();
    let s = body_bytes(v) + rest;
    match v {
        ValueV::ByteArray(a) => {
            let h = signed_bytes(a.len() as int, 4);
            assert(s =~= h + (i8s_bytes(a) + rest));
            lemma_parse_signed(a.len() as int, 4, i8s_bytes(a) + rest);
            lemma_i8s(a, rest);
            crate::codec::lemma_be_len(crate::codec::unsigned_in(a.len() as int, 4), 4);
        },
        ValueV::IntArray(a) => {
            let h = signed_bytes(a.len() as int, 4);
            assert(s =~= h + (i32s_bytes(a) + rest));
            lemma_parse_signed(a.len() as int, 4, i32s_bytes(a) + rest);
            lemma_i32s(a, rest);
            crate::codec::lemma_be_len(crate::codec::unsigned_in(a.len() as int, 4), 4);
        },
        ValueV::LongArray(a) => {
            let h = signed_bytes(a.len() as int, 4);
            assert(s =~= h + (i64s_bytes(a) + rest));
            lemma_parse_signed(a.len() as int, 4, i64s_bytes(a) + rest);
            lemma_i64s(a, rest);
            crate::codec::lemma_be_len(crate::codec::unsigned_in(a.len() as int, 4), 4);
        },
        ValueV::String(b) => {
            let h = be_bytes(b.len(), 2);
            assert(s =~= h + (b + rest));
            lemma_parse_be(b.len(), 2, b + rest);
            lemma_skip_append(b, rest);
            crate::codec::lemma_be_len(b.len(), 2);
        },
        _ => {},
    }
}

#[verifier::spinoff_prover]
#[verifier::rlimit(100)]
proof fn lemma_body_list(v: ValueV, rest: Seq<u8>)
    requires
        wf(v),
        v is List,
    ensures
        parse_body(tag_of(v), body_bytes(v) + rest) == Ok::<(ValueV, Seq<u8>), ProtocolError>(
            (v, rest),
        ),
        body_bytes(v).len() > 0,
    decreases v, 0nat,
{
    lemma_pow256_values();
    let items = v->List_0;
    let s = body_bytes(v) + rest;
    let t = list_tag(items);
    let h = signed_bytes(items.len() as int, 4);
    let tail = items_bytes(items, 0) + rest;
    assert(s =~= seq![tag_id(t)] + (h + tail));
    lemma_tag_ids(t);
    lemma_parse_signed(items.len() as int, 4, tail);
    crate::codec::lemma_be_round_trip(crate::codec::unsigned_in(items.len() as int, 4), 4);
    assert(s.subrange(1, 5) =~= h);
    assert(s.skip(5) =~= tail);
    if items.len() > 0 {
        assert(tag_of(items[0]) != Tag::End);
    }
    lemma_items(items, t, 0, rest);
    assert(items.skip(0) =~= items);
}

#[verifier::spinoff_prover]
#[verifier::rlimit(100)]
proof fn lemma_body_compound(v: ValueV, rest: Seq<u8>)
    requires
        wf(v),
        v is Compound,
    ensures
        parse_body(tag_of(v), body_bytes(v) + rest) == Ok::<(ValueV, Seq<u8>), ProtocolError>(
            (v, rest),
        ),
        body_bytes(v).len() > 0,
    decreases v, 0nat,
{
    let es = v->Compound_0;
    let s = body_bytes(v) + rest;
    assert(s =~= entries_bytes(es, 0) + (seq![0u8] + rest));
    lemma_entries(es, 0, rest);
    assert(es.skip(0) =~= es);
}

/// The payloads of a well-formed list's items from `i` on read back as those items.
#[verifier::spinoff_prover]
#[verifier::rlimit(100)]
proof fn lemma_items(items: Seq<ValueV>, t: Tag, i: nat, rest: Seq<u8>)
    requires
        i <= items.len(),
        forall|j: int|
            0 <= j < items.len() ==> tag_of(#[trigger] items[j]) == t && t != Tag::End && wf(
                items[j],
            ),
    ensures
        parse_items(t, items_bytes(items, i) + rest, (items.len() - i) as nat) == Ok::<
            (Seq<ValueV>, Seq<u8>),
            ProtocolError,
        >((items.skip(i as int), rest)),
    decreases items, items.len() - i,
{
    if i < items.len() {
        let v = items[i as int];
        let tail = items_bytes(items, i + 1) + rest;
        let s = items_bytes(items, i) + rest;
        assert(s =~= body_bytes(v) + tail);
        lemma_body(v, tail);
        lemma_items(items, t, i + 1, rest);
        assert(seq![v] + items.skip(i as int + 1) =~= items.skip(i as int));
    } else {
        assert(items_bytes(items, i) + rest =~= rest);
        assert(items.skip(i as int) =~= seq![]);
    }
}

/// The entries of a well-formed compound from `i` on, with the closing End tag,
/// read back as those entries.
#[verifier::spinoff_prover]
#[verifier::rlimit(100)]
proof fn lemma_entries(es: Seq<(Seq<u8>, ValueV)>, i: nat, rest: Seq<u8>)
    requires
        i <= es.len(),
        forall|j: int|
            0 <= j < es.len() ==> (#[trigger] es[j]).0.len() <= 0xffff && java_cesu8_decoded(
                es[j].0,
            ) is Some && tag_of(es[j].1) != Tag::End && wf(es[j].1),
        names_unique(es),
    ensures
        parse_entries(entries_bytes(es, i) + (seq![0u8] + rest)) == Ok::<
            (Seq<(Seq<u8>, ValueV)>, Seq<u8>),
            ProtocolError,
        >((es.skip(i as int), rest)),
    decreases es, es.len() - i,
{
    lemma_pow256_values();
    let s = entries_bytes(es, i) + (seq![0u8] + rest);
    if i < es.len() {
        let (name, v) = es[i as int];
        let t = tag_of(v);
        let h = be_bytes(name.len(), 2);
        let tail = entries_bytes(es, i + 1) + (seq![0u8] + rest);
        assert(entries_bytes(es, i) == entry_bytes(name, v) + entries_bytes(es, i + 1));
        assert(entry_bytes(name, v) == seq![tag_id(t)] + h + name + body_bytes(v));
        assert(s =~= seq![tag_id(t)] + (h + (name + (body_bytes(v) + tail))));
        lemma_tag_ids(t);
        crate::codec::lemma_be_round_trip(name.len(), 2);
        assert(s.subrange(1, 3) =~= h);
        assert(s.subrange(3, 3 + name.len() as int) =~= name);
        assert(s.skip(3 + name.len() as int) =~= body_bytes(v) + tail);
        lemma_body(v, tail);
        lemma_entries(es, i + 1, rest);
        assert(!has_name(es.skip(i as int + 1), name)) by {
            assert forall|k: int| 0 <= k < es.skip(i as int + 1).len() implies (#[trigger] es.skip(
                i as int + 1,
            )[k]).0 != name by {
                assert(es.skip(i as int + 1)[k] == es[i + 1 + k]);
                assert(es[i as int].0 != es[i + 1 + k].0);
            }
        }
        assert(seq![(name, v)] + es.skip(i as int + 1) =~= es.skip(i as int));
    } else {
        assert(s =~= seq![0u8] + rest);
        assert(s.skip(1) =~= rest);
        assert(es.skip(i as int) =~= seq![]);
    }
}

/// Every well-formed value reads back as itself from its payload, whatever follows.
#[verifier::spinoff_prover]
#[verifier::rlimit(100)]
pub proof fn lemma_value_round_trip(v: ValueV, rest: Seq<u8>)
    requires
        wf(v),
    ensures
        parse_body(tag_of(v), body_bytes(v) + rest) == Ok::<(ValueV, Seq<u8>), ProtocolError>(
            (v, rest),
        ),
{
    lemma_body(v, rest);
}

/// A top-level NBT structure as plain data: its name's CESU-8 bytes and its value.
pub struct NbtV {
    pub name: Seq<u8>,
    pub value: ValueV,
}

/// Wire form of a top-level NBT: the value's tag, the name with a 16-bit length,
/// the value's payload.
pub open spec fn nbt_bytes(n: NbtV) -> Seq<u8> {
    entry_bytes(n.name, n.value)
}

pub open spec fn nbt_fits(n: NbtV) -> bool {
    n.name.len() <= 0xffff && java_cesu8_decoded(n.name) is Some && wf(n.value)
}

pub open spec fn parse_nbt(s: Seq<u8>) -> Parsed<NbtV> {
    if s.len() < 3 {
        Err(ProtocolError::UnexpectedEnd)
    } else {
        match tag_of_id(s[0]) {
            None => Err(ProtocolError::UnknownId),
            Some(t) => {
                let n = be_value(s.subrange(1, 3));
                if s.len() < 3 + n {
                    Err(ProtocolError::UnexpectedEnd)
                } else if java_cesu8_decoded(s.subrange(3, 3 + n as int)) is None {
                    Err(ProtocolError::InvalidCesu8)
                } else {
                    match parse_body(t, s.skip(3 + n as int)) {
                        Ok((v, r)) => Ok((NbtV { name: s.subrange(3, 3 + n as int), value: v }, r)),
                        Err(e) => Err(e),
                    }
                }
            },
        }
    }
}

/// Every well-formed NBT structure reads back as itself, whatever follows it.
#[verifier::spinoff_prover]
#[verifier::rlimit(100)]
pub proof fn lemma_nbt_round_trip(n: NbtV, rest: Seq<u8>)
    requires
        nbt_fits(n),
    ensures
        parse_nbt(nbt_bytes(n) + rest) == Ok::<(NbtV, Seq<u8>), ProtocolError>((n, rest)),
{
    lemma_pow256_values();
    let t = tag_of(n.value);
    let h = be_bytes(n.name.len(), 2);
    let s = nbt_bytes(n) + rest;
    assert(s =~= seq![tag_id(t)] + (h + (n.name + (body_bytes(n.value) + rest))));
    lemma_tag_ids(t);
    crate::codec::lemma_be_round_trip(n.name.len(), 2);
    assert(s.subrange(1, 3) =~= h);
    assert(s.subrange(3, 3 + n.name.len() as int) =~= n.name);
    assert(s.skip(3 + n.name.len() as int) =~= body_bytes(n.value) + rest);
    lemma_body(n.value, rest);
}

// ---------------------------------------------------------------------------
// Executable values

/// An NBT value. Floats are kept as their IEEE-754 bit patterns, strings as their
/// CESU-8 bytes; a compound keeps its entries in order.
#[derive(Debug, PartialEq)]
pub enum Value {
    End,
    Byte(i8),
    Short(i16),
    Int(i32),
    Long(i64),
    Float(u32),
    Double(u64),
    ByteArray(Vec<i8>),
    String(Vec<u8>),
    List(Vec<Value>),
    Compound(Vec<(Vec<u8>, Value)>),
    IntArray(Vec<i32>),
    LongArray(Vec<i64>),
}

/// The plain data of a value.
pub open spec fn value_view(v: Value) -> ValueV
    decreases v,
{
    match v {
        Value::End => ValueV::End,
        Value::Byte(x) => ValueV::Byte(x),
        Value::Short(x) => ValueV::Short(x),
        Value::Int(x) => ValueV::Int(x),
        Value::Long(x) => ValueV::Long(x),
        Value::Float(x) => ValueV::Float(x),
        Value::Double(x) => ValueV::Double(x),
        Value::ByteArray(a) => ValueV::ByteArray(a@),
        Value::String(b) => ValueV::String(b@),
        Value::List(items) => ValueV::List(
            Seq::new(
                items.len() as nat,
                |i: int|
                    if 0 <= i < items.len() {
                        value_view(items[i])
                    } else {
                        ValueV::End
                    },
            ),
        ),
        Value::Compound(es) => ValueV::Compound(
            Seq::new(
                es.len() as nat,
                |i: int|
                    if 0 <= i < es.len() {
                        (es[i].0@, value_view(es[i].1))
                    } else {
                        (seq![], ValueV::End)
                    },
            ),
        ),
        Value::IntArray(a) => ValueV::IntArray(a@),
        Value::LongArray(a) => ValueV::LongArray(a@),
    }
}

impl View for Value {
    type V = ValueV;

    open spec fn view(&self) -> ValueV {
        value_view(*self)
    }
}

/// The views of a sequence of values.
pub open spec fn values_view(items: Seq<Value>) -> Seq<ValueV> {
    Seq::new(items.len(), |i: int| items[i]@)
}

/// The views of a sequence of compound entries.
pub open spec fn entries_view(es: Seq<(Vec<u8>, Value)>) -> Seq<(Seq<u8>, ValueV)> {
    Seq::new(es.len(), |i: int| (es[i].0@, es[i].1@))
}


/// Whether `a` and `b` hold the same bytes.
fn bytes_eq(a: &[u8], b: &[u8]) -> (r: bool)
    ensures
        r == (a@ == b@),
{
    if a.len() != b.len() {
        return false;
    }
    let mut i: usize = 0;
    while i < a.len()
        invariant
            i <= a@.len(),
            a@.len() == b@.len(),
            forall|j: int| 0 <= j < i ==> a@[j] == b@[j],
        decreases a@.len() - i,
    {
        if a[i] != b[i] {
            return false;
        }
        i = i + 1;
    }
    assert(a@ =~= b@);
    true
}

/// Whether some entry from index `start` on is named `name`.
fn name_from(es: &Vec<(Vec<u8>, Value)>, start: usize, name: &[u8]) -> (r: bool)
    requires
        start <= es@.len(),
    ensures
        r == exists|k: int| start <= k < es@.len() && (#[trigger] es@[k]).0@ == name@,
{
    let mut k: usize = start;
    while k < es.len()
        invariant
            start <= k <= es@.len(),
            forall|j: int| start <= j < k ==> (#[trigger] es@[j]).0@ != name@,
        decreases es@.len() - k,
    {
        if bytes_eq(es[k].0.as_slice(), name) {
            return true;
        }
        k = k + 1;
    }
    false
}

impl Tag {
    pub fn id(&self) -> (r: u8)
        ensures
            r == tag_id(*self),
    {
        match self {
            Tag::End => 0,
            Tag::Byte => 1,
            Tag::Short => 2,
            Tag::Int => 3,
            Tag::Long => 4,
            Tag::Float => 5,
            Tag::Double => 6,
            Tag::ByteArray => 7,
            Tag::String => 8,
            Tag::List => 9,
            Tag::Compound => 10,
            Tag::IntArray => 11,
            Tag::LongArray => 12,
        }
    }

    pub fn from_id(b: u8) -> (r: Option<Tag>)
        ensures
            r == tag_of_id(b),
    {
        if b == 0 {
            Some(Tag::End)
        } else if b == 1 {
            Some(Tag::Byte)
        } else if b == 2 {
            Some(Tag::Short)
        } else if b == 3 {
            Some(Tag::Int)
        } else if b == 4 {
            Some(Tag::Long)
        } else if b == 5 {
            Some(Tag::Float)
        } else if b == 6 {
            Some(Tag::Double)
        } else if b == 7 {
            Some(Tag::ByteArray)
        } else if b == 8 {
            Some(Tag::String)
        } else if b == 9 {
            Some(Tag::List)
        } else if b == 10 {
            Some(Tag::Compound)
        } else if b == 11 {
            Some(Tag::IntArray)
        } else if b == 12 {
            Some(Tag::LongArray)
        } else {
            None
        }
    }
}

impl Value {
    pub fn tag(&self) -> (r: Tag)
        ensures
            r == tag_of(self@),
    {
        match self {
            Value::End => Tag::End,
            Value::Byte(..) => Tag::Byte,
            Value::Short(..) => Tag::Short,
            Value::Int(..) => Tag::Int,
            Value::Long(..) => Tag::Long,
            Value::Float(..) => Tag::Float,
            Value::Double(..) => Tag::Double,
            Value::ByteArray(..) => Tag::ByteArray,
            Value::String(..) => Tag::String,
            Value::List(..) => Tag::List,
            Value::Compound(..) => Tag::Compound,
            Value::IntArray(..) => Tag::IntArray,
            Value::LongArray(..) => Tag::LongArray,
        }
    }

    /// Whether this value can be written: see `wf`.
    pub fn is_wf(&self) -> (r: bool)
        ensures
            r == wf(self@),
        decreases self,
    {
        match self {
            Value::ByteArray(a) => a.len() <= 0x7fff_ffff,
            Value::IntArray(a) => a.len() <= 0x7fff_ffff,
            Value::LongArray(a) => a.len() <= 0x7fff_ffff,
            Value::String(b) => b.len() <= 0xffff && from_java_cesu8(b.as_slice()).is_some(),
            Value::List(items) => {
                let ghost iv = self@->List_0;
                assert(iv =~= values_view(items@));
                if items.len() > 0x7fff_ffff {
                    return false;
                }
                let first = if items.len() == 0 {
                    Tag::End
                } else {
                    items[0].tag()
                };
                let mut i: usize = 0;
                while i < items.len()
                    invariant
                        i <= items@.len(),
                        *self == Value::List(*items),
                        self@ == ValueV::List(iv),
                        iv == values_view(items@),
                        first == list_tag(iv),
                        forall|j: int|
                            0 <= j < i ==> tag_of(#[trigger] iv[j]) == list_tag(iv) && tag_of(
                                iv[j],
                            ) != Tag::End && wf(iv[j]),
                    decreases items@.len() - i,
                {
                    let t = items[i].tag();
                    assert(iv[i as int] == items@[i as int]@);
                    if t != first || t == Tag::End || !items[i].is_wf() {
                        assert(!(tag_of(iv[i as int]) == list_tag(iv) && tag_of(iv[i as int])
                            != Tag::End && wf(iv[i as int])));
                        return false;
                    }
                    i = i + 1;
                }
                true
            },
            Value::Compound(es) => {
                let ghost ev = self@->Compound_0;
                assert(ev =~= entries_view(es@));
                let mut i: usize = 0;
                while i < es.len()
                    invariant
                        i <= es@.len(),
                        *self == Value::Compound(*es),
                        self@ == ValueV::Compound(ev),
                        ev == entries_view(es@),
                        forall|j: int|
                            0 <= j < i ==> (#[trigger] ev[j]).0.len() <= 0xffff && java_cesu8_decoded(
                                ev[j].0,
                            ) is Some && tag_of(ev[j].1) != Tag::End && wf(ev[j].1),
                        forall|j: int, k: int|
                            0 <= j < i && j < k < ev.len() ==> (#[trigger] ev[j]).0 != (
                            #[trigger] ev[k]).0,
                    decreases es@.len() - i,
                {
                    assert(ev[i as int] == (es@[i as int].0@, es@[i as int].1@));
                    if es[i].0.len() > 0xffff || from_java_cesu8(es[i].0.as_slice()).is_none()
                        || es[i].1.tag() == Tag::End || !es[i].1.is_wf() {
                        assert(!(ev[i as int].0.len() <= 0xffff && java_cesu8_decoded(ev[i as int].0)
                            is Some && tag_of(ev[i as int].1) != Tag::End && wf(ev[i as int].1)));
                        return false;
                    }
                    let dup = name_from(es, i + 1, es[i].0.as_slice());
                    if dup {
                        proof {
                            let k = choose|k: int|
                                i + 1 <= k < es@.len() && (#[trigger] es@[k]).0@ == es@[i as int].0@;
                            assert(ev[k].0 == ev[i as int].0);
                        }
                        return false;
                    }
                    proof {
                        assert forall|j: int, k: int|
                            0 <= j < i + 1 && j < k < ev.len() implies (#[trigger] ev[j]).0 != (
                            #[trigger] ev[k]).0 by {
                            if j == i {
                                assert(ev[k].0 == es@[k].0@);
                            }
                        }
                    }
                    i = i + 1;
                }
                true
            },
            _ => true,
        }
    }

    /// Appends this value's payload.
    pub fn encode_body(&self, out: &mut Vec<u8>)
        requires
            wf(self@),
        ensures
            final(out)@ == old(out)@ + body_bytes(self@),
        decreases self,
    {
        match self {
            Value::End => {
                assert(body_bytes(self@) =~= seq![]);
                assert(out@ =~= old(out)@ + body_bytes(self@));
            },
            Value::Byte(x) => write_i8(*x, out),
            Value::Short(x) => write_i16(*x, out),
            Value::Int(x) => write_i32(*x, out),
            Value::Long(x) => write_i64(*x, out),
            Value::Float(x) => write_u32(*x, out),
            Value::Double(x) => write_u64(*x, out),
            Value::ByteArray(a) => {
                write_i32(a.len() as i32, out);
                let ghost mid = out@;
                let mut i: usize = 0;
                assert(a@.skip(0) =~= a@);
                while i < a.len()
                    invariant
                        i <= a@.len(),
                        out@ + i8s_bytes(a@.skip(i as int)) == mid + i8s_bytes(a@),
                    decreases a@.len() - i,
                {
                    assert(a@.skip(i as int).drop_first() =~= a@.skip(i + 1));
                    write_i8(a[i], out);
                    i = i + 1;
                    assert(out@ + i8s_bytes(a@.skip(i as int)) =~= mid + i8s_bytes(a@));
                }
                assert(a@.skip(i as int) =~= seq![]);
                assert(out@ =~= old(out)@ + body_bytes(self@));
            },
            Value::IntArray(a) => {
                write_i32(a.len() as i32, out);
                let ghost mid = out@;
                let mut i: usize = 0;
                assert(a@.skip(0) =~= a@);
                while i < a.len()
                    invariant
                        i <= a@.len(),
                        out@ + i32s_bytes(a@.skip(i as int)) == mid + i32s_bytes(a@),
                    decreases a@.len() - i,
                {
                    assert(a@.skip(i as int).drop_first() =~= a@.skip(i + 1));
                    write_i32(a[i], out);
                    i = i + 1;
                    assert(out@ + i32s_bytes(a@.skip(i as int)) =~= mid + i32s_bytes(a@));
                }
                assert(a@.skip(i as int) =~= seq![]);
                assert(out@ =~= old(out)@ + body_bytes(self@));
            },
            Value::LongArray(a) => {
                write_i32(a.len() as i32, out);
                let ghost mid = out@;
                let mut i: usize = 0;
                assert(a@.skip(0) =~= a@);
                while i < a.len()
                    invariant
                        i <= a@.len(),
                        out@ + i64s_bytes(a@.skip(i as int)) == mid + i64s_bytes(a@),
                    decreases a@.len() - i,
                {
                    assert(a@.skip(i as int).drop_first() =~= a@.skip(i + 1));
                    write_i64(a[i], out);
                    i = i + 1;
                    assert(out@ + i64s_bytes(a@.skip(i as int)) =~= mid + i64s_bytes(a@));
                }
                assert(a@.skip(i as int) =~= seq![]);
                assert(out@ =~= old(out)@ + body_bytes(self@));
            },
            Value::String(b) => {
                write_u16(b.len() as u16, out);
                write_raw(b.as_slice(), out);
                assert(out@ =~= old(out)@ + body_bytes(self@));
            },
            Value::List(items) => {
                let ghost iv = self@->List_0;
                assert(iv =~= values_view(items@));
                let t = if items.len() == 0 {
                    Tag::End
                } else {
                    items[0].tag()
                };
                write_u8(t.id(), out);
                write_i32(items.len() as i32, out);
                let ghost mid = out@;
                let mut i: usize = 0;
                while i < items.len()
                    invariant
                        i <= items@.len(),
                        *self == Value::List(*items),
                        iv == values_view(items@),
                        wf(ValueV::List(iv)),
                        out@ + items_bytes(iv, i as nat) == mid + items_bytes(iv, 0),
                    decreases items@.len() - i,
                {
                    proof {
                        vstd::std_specs::vec::axiom_vec_index_decreases(*items, i as int);
                        assert(decreases_to!(*self => (*self)->List_0));
                        assert(decreases_to!(*self => items@[i as int]));
                    }
                    items[i].encode_body(out);
                    i = i + 1;
                }
                proof {
                    crate::codec::lemma_be_len(tag_id(t) as nat, 1);
                }
                assert(out@ =~= old(out)@ + body_bytes(self@));
            },
            Value::Compound(es) => {
                let ghost ev = self@->Compound_0;
                assert(ev =~= entries_view(es@));
                let ghost start = out@;
                let mut i: usize = 0;
                while i < es.len()
                    invariant
                        i <= es@.len(),
                        *self == Value::Compound(*es),
                        ev == entries_view(es@),
                        wf(ValueV::Compound(ev)),
                        out@ + entries_bytes(ev, i as nat) == start + entries_bytes(ev, 0),
                    decreases es@.len() - i,
                {
                    let ghost before = out@;
                    proof {
                        vstd::std_specs::vec::axiom_vec_index_decreases(*es, i as int);
                        assert(decreases_to!(*self => (*self)->Compound_0));
                        assert(decreases_to!(es@[i as int] => es@[i as int].1));
                        assert(decreases_to!(*self => es@[i as int].1));
                    }
                    let name = &es[i].0;
                    let v = &es[i].1;
                    write_u8(v.tag().id(), out);
                    write_u16(name.len() as u16, out);
                    write_raw(name.as_slice(), out);
                    v.encode_body(out);
                    proof {
                        crate::codec::lemma_be_len(tag_id(tag_of(v@)) as nat, 1);
                        crate::codec::lemma_be_len(name@.len(), 2);
                        lemma_pow256_values();
                    }
                    assert(out@ =~= before + entry_bytes(ev[i as int].0, ev[i as int].1));
                    i = i + 1;
                }
                let ghost before = out@;
                write_u8(0, out);
                proof {
                    reveal_with_fuel(be_bytes, 2);
                }
                assert(entries_bytes(ev, i as nat) =~= seq![]);
                assert(out@ =~= before + seq![0u8]);
                assert(out@ =~= old(out)@ + body_bytes(self@));
            },
        }
    }
}

fn decode_i8s(data: &[u8], pos: usize, n: usize) -> (r: Result<(Vec<i8>, usize), ProtocolError>)
    requires
        pos <= data@.len(),
    ensures
        agrees(
            match r {
                Ok((v, p)) => Ok((v@, p)),
                Err(e) => Err(e),
            },
            data@,
            pos as int,
            parse_i8s(data@.skip(pos as int), n as nat),
        ),
{
    let mut v: Vec<i8> = Vec::new();
    let mut p: usize = pos;
    let mut k: usize = 0;
    assert(v@ + seq![] =~= v@);
    loop
        invariant
            k <= n,
            pos <= p <= data@.len(),
            parse_i8s(data@.skip(pos as int), n as nat) == match parse_i8s(
                data@.skip(p as int),
                (n - k) as nat,
            ) {
                Ok((xs, rest)) => Ok::<(Seq<i8>, Seq<u8>), ProtocolError>((v@ + xs, rest)),
                Err(e) => Err(e),
            },
        decreases n - k,
    {
        if k == n {
            assert(v@ + seq![] =~= v@);
            return Ok((v, p));
        }
        let (x, q) = match read_i8(data, p) {
            Ok(y) => y,
            Err(e) => return Err(e),
        };
        let ghost old_v = v@;
        v.push(x);
        proof {
            if let Ok((xs, rest)) = parse_i8s(data@.skip(q as int), (n - k - 1) as nat) {
                assert(old_v + (seq![x] + xs) =~= v@ + xs);
            }
        }
        p = q;
        k = k + 1;
    }
}

fn decode_i32s(data: &[u8], pos: usize, n: usize) -> (r: Result<(Vec<i32>, usize), ProtocolError>)
    requires
        pos <= data@.len(),
    ensures
        agrees(
            match r {
                Ok((v, p)) => Ok((v@, p)),
                Err(e) => Err(e),
            },
            data@,
            pos as int,
            parse_i32s(data@.skip(pos as int), n as nat),
        ),
{
    let mut v: Vec<i32> = Vec::new();
    let mut p: usize = pos;
    let mut k: usize = 0;
    assert(v@ + seq![] =~= v@);
    loop
        invariant
            k <= n,
            pos <= p <= data@.len(),
            parse_i32s(data@.skip(pos as int), n as nat) == match parse_i32s(
                data@.skip(p as int),
                (n - k) as nat,
            ) {
                Ok((xs, rest)) => Ok::<(Seq<i32>, Seq<u8>), ProtocolError>((v@ + xs, rest)),
                Err(e) => Err(e),
            },
        decreases n - k,
    {
        if k == n {
            assert(v@ + seq![] =~= v@);
            return Ok((v, p));
        }
        let (x, q) = match read_i32(data, p) {
            Ok(y) => y,
            Err(e) => return Err(e),
        };
        let ghost old_v = v@;
        v.push(x);
        proof {
            if let Ok((xs, rest)) = parse_i32s(data@.skip(q as int), (n - k - 1) as nat) {
                assert(old_v + (seq![x] + xs) =~= v@ + xs);
            }
        }
        p = q;
        k = k + 1;
    }
}

fn decode_i64s(data: &[u8], pos: usize, n: usize) -> (r: Result<(Vec<i64>, usize), ProtocolError>)
    requires
        pos <= data@.len(),
    ensures
        agrees(
            match r {
                Ok((v, p)) => Ok((v@, p)),
                Err(e) => Err(e),
            },
            data@,
            pos as int,
            parse_i64s(data@.skip(pos as int), n as nat),
        ),
{
    let mut v: Vec<i64> = Vec::new();
    let mut p: usize = pos;
    let mut k: usize = 0;
    assert(v@ + seq![] =~= v@);
    loop
        invariant
            k <= n,
            pos <= p <= data@.len(),
            parse_i64s(data@.skip(pos as int), n as nat) == match parse_i64s(
                data@.skip(p as int),
                (n - k) as nat,
            ) {
                Ok((xs, rest)) => Ok::<(Seq<i64>, Seq<u8>), ProtocolError>((v@ + xs, rest)),
                Err(e) => Err(e),
            },
        decreases n - k,
    {
        if k == n {
            assert(v@ + seq![] =~= v@);
            return Ok((v, p));
        }
        let (x, q) = match read_i64(data, p) {
            Ok(y) => y,
            Err(e) => return Err(e),
        };
        let ghost old_v = v@;
        v.push(x);
        proof {
            if let Ok((xs, rest)) = parse_i64s(data@.skip(q as int), (n - k - 1) as nat) {
                assert(old_v + (seq![x] + xs) =~= v@ + xs);
            }
        }
        p = q;
        k = k + 1;
    }
}

/// Reads `n` payloads of tag `t` at `pos`.
fn decode_items(t: Tag, data: &[u8], pos: usize, n: usize) -> (r: Result<(Vec<Value>, usize), ProtocolError>)
    requires
        pos <= data@.len(),
    ensures
        agrees(
            match r {
                Ok((vs, p)) => Ok((values_view(vs@), p)),
                Err(e) => Err(e),
            },
            data@,
            pos as int,
            parse_items(t, data@.skip(pos as int), n as nat),
        ),
    decreases data@.len() - pos, 3nat,
{
    if n == 0 {
        let empty: Vec<Value> = Vec::new();
        assert(values_view(empty@) =~= seq![]);
        return Ok((empty, pos));
    }
    let (v, p) = match decode_body(t, data, pos) {
        Ok(x) => x,
        Err(e) => return Err(e),
    };
    if p <= pos {
        return Err(ProtocolError::BadLength);
    }
    let (mut vs, q) = match decode_items(t, data, p, n - 1) {
        Ok(x) => x,
        Err(e) => return Err(e),
    };
    let ghost old_vs = vs@;
    vs.insert(0, v);
    assert(values_view(vs@) =~= seq![v@] + values_view(old_vs));
    Ok((vs, q))
}

/// Reads compound entries at `pos`, up to and including their closing End tag.
fn decode_entries(data: &[u8], pos: usize) -> (r: Result<(Vec<(Vec<u8>, Value)>, usize), ProtocolError>)
    requires
        pos <= data@.len(),
    ensures
        agrees(
            match r {
                Ok((es, p)) => Ok((entries_view(es@), p)),
                Err(e) => Err(e),
            },
            data@,
            pos as int,
            parse_entries(data@.skip(pos as int)),
        ),
    decreases data@.len() - pos, 0nat,
{
    let len = data.len();
    let ghost s = data@.skip(pos as int);
    proof {
        lemma_pow256_values();
    }
    if pos >= len {
        return Err(ProtocolError::UnexpectedEnd);
    }
    let b = data[pos];
    assert(s[0] == b);
    if b == 0 {
        assert(s.skip(1) =~= data@.skip(pos + 1));
        let empty: Vec<(Vec<u8>, Value)> = Vec::new();
        assert(entries_view(empty@) =~= seq![]);
        return Ok((empty, pos + 1));
    }
    let t = match Tag::from_id(b) {
        Some(t) => t,
        None => return Err(ProtocolError::UnknownId),
    };
    if len - pos < 3 {
        return Err(ProtocolError::UnexpectedEnd);
    }
    let (n, _) = match crate::codec::read_be(data, pos + 1, 2) {
        Ok(x) => x,
        Err(e) => return Err(e),
    };
    assert(data@.skip(pos + 1).take(2) =~= s.subrange(1, 3));
    let n = n as usize;
    if len - pos - 3 < n {
        return Err(ProtocolError::UnexpectedEnd);
    }
    let name = copy_range(data, pos + 3, n);
    if from_java_cesu8(name.as_slice()).is_none() {
        assert(name@ =~= s.subrange(3, 3 + n as int));
        return Err(ProtocolError::InvalidCesu8);
    }
    assert(name@ =~= s.subrange(3, 3 + n as int));
    assert(data@.skip(pos + 3 + n) =~= s.skip(3 + n as int));
    let (v, p) = match decode_body(t, data, pos + 3 + n) {
        Ok(x) => x,
        Err(e) => return Err(e),
    };
    if p <= pos {
        return Err(ProtocolError::BadLength);
    }
    let (mut es, q) = match decode_entries(data, p) {
        Ok(x) => x,
        Err(e) => return Err(e),
    };
    let ghost old_es = es@;
    let ghost nv = name@;
    let dup = name_from(&es, 0, name.as_slice());
    proof {
        let ev = entries_view(es@);
        if dup {
            let k = choose|k: int| 0 <= k < es@.len() && (#[trigger] es@[k]).0@ == nv;
            assert(ev[k].0 == nv);
        } else {
            assert forall|k: int| 0 <= k < ev.len() implies (#[trigger] ev[k]).0 != nv by {
                assert(ev[k].0 == es@[k].0@);
            }
        }
    }
    if dup {
        return Err(ProtocolError::DuplicateName);
    }
    es.insert(0, (name, v));
    assert(entries_view(es@) =~= seq![(nv, v@)] + entries_view(old_es));
    Ok((es, q))
}

/// Reads the payload of an array or string of tag `t` at `pos`.
fn decode_array(t: Tag, data: &[u8], pos: usize) -> (r: Result<(Value, usize), ProtocolError>)
    requires
        pos <= data@.len(),
        t == Tag::ByteArray || t == Tag::IntArray || t == Tag::LongArray || t == Tag::String,
    ensures
        agrees(
            match r {
                Ok((v, p)) => Ok((v@, p)),
                Err(e) => Err(e),
            },
            data@,
            pos as int,
            parse_body(t, data@.skip(pos as int)),
        ),
{
    let len = data.len();
    if t == Tag::String {
        let (n, p) = match read_u16(data, pos) {
            Ok(x) => x,
            Err(e) => return Err(e),
        };
        if (n as usize) > len - p {
            return Err(ProtocolError::UnexpectedEnd);
        }
        let b = copy_range(data, p, n as usize);
        if from_java_cesu8(b.as_slice()).is_none() {
            assert(b@ =~= data@.skip(p as int).take(n as int));
            return Err(ProtocolError::InvalidCesu8);
        }
        assert(b@ =~= data@.skip(p as int).take(n as int));
        assert(data@.skip(p as int).skip(n as int) =~= data@.skip(p + n));
        return Ok((Value::String(b), p + n as usize));
    }
    let (n, p) = match read_i32(data, pos) {
        Ok(x) => x,
        Err(e) => return Err(e),
    };
    if n < 0 {
        return Err(ProtocolError::BadLength);
    }
    if t == Tag::ByteArray {
        match decode_i8s(data, p, n as usize) {
            Ok((a, q)) => Ok((Value::ByteArray(a), q)),
            Err(e) => Err(e),
        }
    } else if t == Tag::IntArray {
        match decode_i32s(data, p, n as usize) {
            Ok((a, q)) => Ok((Value::IntArray(a), q)),
            Err(e) => Err(e),
        }
    } else {
        match decode_i64s(data, p, n as usize) {
            Ok((a, q)) => Ok((Value::LongArray(a), q)),
            Err(e) => Err(e),
        }
    }
}

/// Reads the payload of a list at `pos`.
fn decode_list(data: &[u8], pos: usize) -> (r: Result<(Value, usize), ProtocolError>)
    requires
        pos <= data@.len(),
    ensures
        agrees(
            match r {
                Ok((v, p)) => Ok((v@, p)),
                Err(e) => Err(e),
            },
            data@,
            pos as int,
            parse_body(Tag::List, data@.skip(pos as int)),
        ),
    decreases data@.len() - pos, 1nat,
{
    let len = data.len();
    let ghost s = data@.skip(pos as int);
    if len - pos < 5 {
        return Err(ProtocolError::UnexpectedEnd);
    }
    let b = data[pos];
    assert(s[0] == b);
    let et = match Tag::from_id(b) {
        Some(et) => et,
        None => return Err(ProtocolError::UnknownId),
    };
    let (n, _) = match read_i32(data, pos + 1) {
        Ok(x) => x,
        Err(e) => return Err(e),
    };
    assert(data@.skip(pos + 1).take(4) =~= s.subrange(1, 5));
    proof {
        lemma_pow256_values();
        crate::codec::lemma_be_value_bound(s.subrange(1, 5));
        assert(n as int == signed_in(be_value(s.subrange(1, 5)), 4));
    }
    if n < 0 {
        return Err(ProtocolError::BadLength);
    }
    if et == Tag::End && n > 0 {
        return Err(ProtocolError::ListTypeMismatch);
    }
    assert(data@.skip(pos + 5) =~= s.skip(5));
    match decode_items(et, data, pos + 5, n as usize) {
        Ok((items, q)) => {
            let v = Value::List(items);
            assert(v@->List_0 =~= values_view(items@));
            Ok((v, q))
        },
        Err(e) => Err(e),
    }
}

/// Reads the payload of a value of tag `t` at `pos`.
pub fn decode_body(t: Tag, data: &[u8], pos: usize) -> (r: Result<(Value, usize), ProtocolError>)
    requires
        pos <= data@.len(),
    ensures
        agrees(
            match r {
                Ok((v, p)) => Ok((v@, p)),
                Err(e) => Err(e),
            },
            data@,
            pos as int,
            parse_body(t, data@.skip(pos as int)),
        ),
    decreases data@.len() - pos, 2nat,
{
    match t {
        Tag::End => Ok((Value::End, pos)),
        Tag::Byte => match read_i8(data, pos) {
            Ok((x, p)) => Ok((Value::Byte(x), p)),
            Err(e) => Err(e),
        },
        Tag::Short => match read_i16(data, pos) {
            Ok((x, p)) => Ok((Value::Short(x), p)),
            Err(e) => Err(e),
        },
        Tag::Int => match read_i32(data, pos) {
            Ok((x, p)) => Ok((Value::Int(x), p)),
            Err(e) => Err(e),
        },
        Tag::Long => match read_i64(data, pos) {
            Ok((x, p)) => Ok((Value::Long(x), p)),
            Err(e) => Err(e),
        },
        Tag::Float => match read_u32(data, pos) {
            Ok((x, p)) => Ok((Value::Float(x), p)),
            Err(e) => Err(e),
        },
        Tag::Double => match read_u64(data, pos) {
            Ok((x, p)) => Ok((Value::Double(x), p)),
            Err(e) => Err(e),
        },
        Tag::List => decode_list(data, pos),
        Tag::Compound => match decode_entries(data, pos) {
            Ok((es, q)) => {
                let v = Value::Compound(es);
                assert(v@->Compound_0 =~= entries_view(es@));
                Ok((v, q))
            },
            Err(e) => Err(e),
        },
        _ => decode_array(t, data, pos),
    }
}

/// The three bytes of a UTF-16 surrogate `u` in CESU-8.
pub open spec fn surrogate_bytes(u: int) -> Seq<u8> {
    seq![(0xE0 + u / 0x1000) as u8, (0x80 + (u / 0x40) % 0x40) as u8, (0x80 + u % 0x40) as u8]
}

/// One character in Java-flavoured CESU-8: NUL as C0 80, other characters of the
/// basic plane as their UTF-8 bytes, and a supplementary character as its UTF-16
/// surrogate pair, three bytes each.
pub open spec fn java_cesu8_char(c: char) -> Seq<u8> {
    let cp = c as int;
    if cp == 0 {
        seq![0xC0u8, 0x80u8]
    } else if cp < 0x10000 {
        vstd::utf8::encode_utf8(seq![c])
    } else {
        surrogate_bytes(0xD800 + (cp - 0x10000) / 0x400) + surrogate_bytes(
            0xDC00 + (cp - 0x10000) % 0x400,
        )
    }
}

/// The Java-flavoured CESU-8 bytes of a string, character by character.
pub open spec fn java_cesu8_of(s: Seq<char>) -> Seq<u8>
    decreases s.len(),
{
    if s.len() == 0 {
        seq![]
    } else {
        java_cesu8_of(s.drop_last()) + java_cesu8_char(s.last())
    }
}

/// The string that Java-flavoured CESU-8 bytes decode to, if they decode.
pub uninterp spec fn java_cesu8_decoded(b: Seq<u8>) -> Option<Seq<char>>;

/// Relies on `cesu8::to_java_cesu8`: the Java CESU-8 form of `s`, character by
/// character as `java_cesu8_char` states.
#[verifier::external_body]
fn to_java_cesu8(s: &str) -> (r: Vec<u8>)
    ensures
        r@ == java_cesu8_of(s@),
{
    cesu8::to_java_cesu8(s).into_owned()
}

/// Relies on `cesu8::from_java_cesu8`: it decodes Java CESU-8 bytes, and the bytes
/// that `to_java_cesu8` made of a string decode back to that string.
#[verifier::external_body]
fn from_java_cesu8(b: &[u8]) -> (r: Option<std::string::String>)
    ensures
        r is Some <==> java_cesu8_decoded(b@) is Some,
        r is Some ==> r->Some_0@ == java_cesu8_decoded(b@)->Some_0,
        r is Some <== exists|s: Seq<char>| #[trigger] java_cesu8_of(s) == b@,
        r is Some ==> forall|s: Seq<char>| #[trigger] java_cesu8_of(s) == b@ ==> r->Some_0@ == s,
{
    match cesu8::from_java_cesu8(b) {
        Ok(c) => Some(c.into_owned()),
        Err(_) => None,
    }
}

impl Value {
    /// A compound entry named `name`, its name converted to Java CESU-8.
    pub fn entry(name: &str, value: Value) -> (r: (Vec<u8>, Value))
        ensures
            r.0@ == java_cesu8_of(name@),
            r.1 == value,
    {
        (to_java_cesu8(name), value)
    }

    /// A string value holding `s`.
    pub fn string(s: &str) -> (r: Value)
        ensures
            r@ == ValueV::String(java_cesu8_of(s@)),
    {
        Value::String(to_java_cesu8(s))
    }

    /// The text of a string value, when it is one and its bytes decode.
    pub fn as_string(&self) -> (r: Option<std::string::String>)
        ensures
            match self@ {
                ValueV::String(b) => (r is Some <==> java_cesu8_decoded(b) is Some) && (r is Some
                    ==> r->Some_0@ == java_cesu8_decoded(b)->Some_0),
                _ => r is None,
            },
    {
        match self {
            Value::String(b) => from_java_cesu8(b.as_slice()),
            _ => None,
        }
    }
}

/// A top-level NBT structure: a named value.
#[derive(Debug, PartialEq)]
pub struct Nbt {
    name: Vec<u8>,
    value: Value,
}

impl View for Nbt {
    type V = NbtV;

    closed spec fn view(&self) -> NbtV {
        NbtV { name: self.name@, value: self.value@ }
    }
}

impl Nbt {
    pub fn new(name: &str, value: Value) -> (r: Nbt)
        ensures
            r@.name == java_cesu8_of(name@),
            r@.value == value@,
    {
        Nbt { name: to_java_cesu8(name), value }
    }

    /// The name, when its bytes decode.
    pub fn name(&self) -> (r: Option<std::string::String>)
        ensures
            r is Some <==> java_cesu8_decoded(self@.name) is Some,
            r is Some ==> r->Some_0@ == java_cesu8_decoded(self@.name)->Some_0,
    {
        from_java_cesu8(self.name.as_slice())
    }

    pub fn value(&self) -> (r: &Value)
        ensures
            r@ == self@.value,
    {
        &self.value
    }

    /// The wire form. An over-long name fails with `BadLength`; a value that cannot
    /// be written (see `wf`: mixed list tags, End inside a list or compound, repeated
    /// names, lengths past their fields) fails with `ListTypeMismatch`.
    pub fn encode(&self) -> (r: Result<Vec<u8>, ProtocolError>)
        ensures
            r is Ok <==> nbt_fits(self@),
            r matches Ok(w) ==> w@ == nbt_bytes(self@),
            r is Err ==> r == Err::<Vec<u8>, ProtocolError>(
                if self@.name.len() > 0xffff {
                    ProtocolError::BadLength
                } else if java_cesu8_decoded(self@.name) is None {
                    ProtocolError::InvalidCesu8
                } else {
                    ProtocolError::ListTypeMismatch
                },
            ),
    {
        if self.name.len() > 0xffff {
            return Err(ProtocolError::BadLength);
        }
        if from_java_cesu8(self.name.as_slice()).is_none() {
            return Err(ProtocolError::InvalidCesu8);
        }
        if !self.value.is_wf() {
            return Err(ProtocolError::ListTypeMismatch);
        }
        let mut out: Vec<u8> = Vec::new();
        write_u8(self.value.tag().id(), &mut out);
        write_u16(self.name.len() as u16, &mut out);
        write_raw(self.name.as_slice(), &mut out);
        self.value.encode_body(&mut out);
        proof {
            crate::codec::lemma_be_len(tag_id(tag_of(self.value@)) as nat, 1);
            reveal_with_fuel(be_bytes, 2);
        }
        assert(out@ =~= nbt_bytes(self@));
        Ok(out)
    }

    /// Reads a structure at `pos`.
    pub fn decode(data: &[u8], pos: usize) -> (r: Result<(Nbt, usize), ProtocolError>)
        requires
            pos <= data@.len(),
        ensures
            agrees(
                match r {
                    Ok((n, p)) => Ok((n@, p)),
                    Err(e) => Err(e),
                },
                data@,
                pos as int,
                parse_nbt(data@.skip(pos as int)),
            ),
    {
        let len = data.len();
        let ghost s = data@.skip(pos as int);
        proof {
            lemma_pow256_values();
        }
        if len - pos < 3 {
            return Err(ProtocolError::UnexpectedEnd);
        }
        let b = data[pos];
        assert(s[0] == b);
        let t = match Tag::from_id(b) {
            Some(t) => t,
            None => return Err(ProtocolError::UnknownId),
        };
        let (n, _) = match crate::codec::read_be(data, pos + 1, 2) {
            Ok(x) => x,
            Err(e) => return Err(e),
        };
        assert(data@.skip(pos + 1).take(2) =~= s.subrange(1, 3));
        let n = n as usize;
        if len - pos - 3 < n {
            return Err(ProtocolError::UnexpectedEnd);
        }
        let name = copy_range(data, pos + 3, n);
        if from_java_cesu8(name.as_slice()).is_none() {
            assert(name@ =~= s.subrange(3, 3 + n as int));
            return Err(ProtocolError::InvalidCesu8);
        }
        assert(name@ =~= s.subrange(3, 3 + n as int));
        assert(data@.skip(pos + 3 + n) =~= s.skip(3 + n as int));
        match decode_body(t, data, pos + 3 + n) {
            Ok((value, p)) => Ok((Nbt { name, value }, p)),
            Err(e) => Err(e),
        }
    }
}

} // verus!
