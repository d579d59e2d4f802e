use vstd::prelude::*;
use crate::error::ProtocolError;
use crate::varint::{VarInt, varint_bytes};
use crate::types::{String, Chat, Identifier, Uuid};
use crate::codec::{Parsed, agrees, be_bytes, bool_bytes, signed_bytes, parse_var_int, parse_bool,
    parse_u8, parse_i8, parse_i32, parse_u128, parse_string, parse_short_string, string_bytes, string_fits,
    short_string_fits, read_var_int, read_bool, read_u8, read_i8, read_i32, read_u128, write_u128, write_var_int,
    write_bool, write_u8, write_i8, write_i32, utf8_len, lemma_parse_var_int, lemma_parse_bool,
    lemma_parse_be, lemma_parse_signed, lemma_parse_string, lemma_parse_short_string,
    lemma_pow256_values};

verus! {

/// A statistic and its value.
#[derive(Debug, Clone, Copy, PartialEq, Eq, Structural)]
pub struct Statistic {
    pub category_id: VarInt,
    pub statistic_id: VarInt,
    pub value: VarInt,
}

/// One block of a multi-block change.
#[derive(Debug, Clone, Copy, PartialEq, Eq, Structural)]
pub struct BlockChangeRecord {
    pub horizontal_position: u8,
    pub y_coordinate: u8,
    pub block_id: VarInt,
}

/// A block destroyed by an explosion, as offsets from its centre.
#[derive(Debug, Clone, Copy, PartialEq, Eq, Structural)]
pub struct ExplosionRecord {
    pub x: i8,
    pub y: i8,
    pub z: i8,
}

pub open spec fn statistic_bytes(s: Statistic) -> Seq<u8> {
    varint_bytes(s.category_id.0) + varint_bytes(s.statistic_id.0) + varint_bytes(s.value.0)
}

pub open spec fn parse_statistic(s: Seq<u8>) -> Parsed<Statistic> {
    match parse_var_int(s) {
        Ok((c, s)) => match parse_var_int(s) {
            Ok((i, s)) => match parse_var_int(s) {
                Ok((v, s)) => Ok(
                    (Statistic { category_id: VarInt(c), statistic_id: VarInt(i), value: VarInt(v) }, s),
                ),
                Err(e) => Err(e),
            },
            Err(e) => Err(e),
        },
        Err(e) => Err(e),
    }
}

pub open spec fn block_change_bytes(b: BlockChangeRecord) -> Seq<u8> {
    be_bytes(b.horizontal_position as nat, 1) + be_bytes(b.y_coordinate as nat, 1) + varint_bytes(
        b.block_id.0,
    )
}

pub open spec fn parse_block_change(s: Seq<u8>) -> Parsed<BlockChangeRecord> {
    match parse_u8(s) {
        Ok((h, s)) => match parse_u8(s) {
            Ok((y, s)) => match parse_var_int(s) {
                Ok((b, s)) => Ok(
                    (
                        BlockChangeRecord {
                            horizontal_position: h,
                            y_coordinate: y,
                            block_id: VarInt(b),
                        },
                        s,
                    ),
                ),
                Err(e) => Err(e),
            },
            Err(e) => Err(e),
        },
        Err(e) => Err(e),
    }
}

pub open spec fn explosion_bytes(r: ExplosionRecord) -> Seq<u8> {
    signed_bytes(r.x as int, 1) + signed_bytes(r.y as int, 1) + signed_bytes(r.z as int, 1)
}

pub open spec fn parse_explosion(s: Seq<u8>) -> Parsed<ExplosionRecord> {
    match parse_i8(s) {
        Ok((x, s)) => match parse_i8(s) {
            Ok((y, s)) => match parse_i8(s) {
                Ok((z, s)) => Ok((ExplosionRecord { x, y, z }, s)),
                Err(e) => Err(e),
            },
            Err(e) => Err(e),
        },
        Err(e) => Err(e),
    }
}

/// Statistics, block changes and explosion records read back as written.
#[verifier::spinoff_prover]
#[verifier::rlimit(100)]
pub proof fn lemma_plain_records_round_trip(
    st: Statistic,
    b: BlockChangeRecord,
    x: ExplosionRecord,
    rest: Seq<u8>,
)
    ensures
        parse_statistic(statistic_bytes(st) + rest) == Ok::<(Statistic, Seq<u8>), ProtocolError>(
            (st, rest),
        ),
        parse_block_change(block_change_bytes(b) + rest) == Ok::<
            (BlockChangeRecord, Seq<u8>),
            ProtocolError,
        >((b, rest)),
        parse_explosion(explosion_bytes(x) + rest) == Ok::<
            (ExplosionRecord, Seq<u8>),
            ProtocolError,
        >((x, rest)),
{
    lemma_pow256_values();
    let s2 = varint_bytes(st.value.0) + rest;
    let s1 = varint_bytes(st.statistic_id.0) + s2;
    assert(statistic_bytes(st) + rest =~= varint_bytes(st.category_id.0) + s1);
    lemma_parse_var_int(st.category_id.0, s1);
    lemma_parse_var_int(st.statistic_id.0, s2);
    lemma_parse_var_int(st.value.0, rest);
    let b2 = varint_bytes(b.block_id.0) + rest;
    let b1 = be_bytes(b.y_coordinate as nat, 1) + b2;
    assert(block_change_bytes(b) + rest =~= be_bytes(b.horizontal_position as nat, 1) + b1);
    lemma_parse_be(b.horizontal_position as nat, 1, b1);
    lemma_parse_be(b.y_coordinate as nat, 1, b2);
    lemma_parse_var_int(b.block_id.0, rest);
    let x2 = signed_bytes(x.z as int, 1) + rest;
    let x1 = signed_bytes(x.y as int, 1) + x2;
    assert(explosion_bytes(x) + rest =~= signed_bytes(x.x as int, 1) + x1);
    lemma_parse_signed(x.x as int, 1, x1);
    lemma_parse_signed(x.y as int, 1, x2);
    lemma_parse_signed(x.z as int, 1, rest);
}

impl Statistic {
    pub fn encode(&self, out: &mut Vec<u8>)
        ensures
            final(out)@ == old(out)@ + statistic_bytes(*self),
    {
        self.category_id.encode(out);
        self.statistic_id.encode(out);
        self.value.encode(out);
        assert(out@ =~= old(out)@ + statistic_bytes(*self));
    }

    pub fn decode(data: &[u8], pos: usize) -> (r: Result<(Statistic, usize), ProtocolError>)
        requires
            pos <= data@.len(),
        ensures
            agrees(r, data@, pos as int, parse_statistic(data@.skip(pos as int))),
    {
        let (c, p) = match read_var_int(data, pos) {
            Ok(x) => x,
            Err(e) => return Err(e),
        };
        let (i, p) = match read_var_int(data, p) {
            Ok(x) => x,
            Err(e) => return Err(e),
        };
        let (v, p) = match read_var_int(data, p) {
            Ok(x) => x,
            Err(e) => return Err(e),
        };
        Ok((Statistic { category_id: VarInt(c), statistic_id: VarInt(i), value: VarInt(v) }, p))
    }
}

impl BlockChangeRecord {
    pub fn encode(&self, out: &mut Vec<u8>)
        ensures
            final(out)@ == old(out)@ + block_change_bytes(*self),
    {
        write_u8(self.horizontal_position, out);
        write_u8(self.y_coordinate, out);
        self.block_id.encode(out);
        assert(out@ =~= old(out)@ + block_change_bytes(*self));
    }

    pub fn decode(data: &[u8], pos: usize) -> (r: Result<(BlockChangeRecord, usize), ProtocolError>)
        requires
            pos <= data@.len(),
        ensures
            agrees(r, data@, pos as int, parse_block_change(data@.skip(pos as int))),
    {
        let (h, p) = match read_u8(data, pos) {
            Ok(x) => x,
            Err(e) => return Err(e),
        };
        let (y, p) = match read_u8(data, p) {
            Ok(x) => x,
            Err(e) => return Err(e),
        };
        let (b, p) = match read_var_int(data, p) {
            Ok(x) => x,
            Err(e) => return Err(e),
        };
        Ok((BlockChangeRecord { horizontal_position: h, y_coordinate: y, block_id: VarInt(b) }, p))
    }
}

impl ExplosionRecord {
    pub fn encode(&self, out: &mut Vec<u8>)
        ensures
            final(out)@ == old(out)@ + explosion_bytes(*self),
    {
        write_i8(self.x, out);
        write_i8(self.y, out);
        write_i8(self.z, out);
        assert(out@ =~= old(out)@ + explosion_bytes(*self));
    }

    pub fn decode(data: &[u8], pos: usize) -> (r: Result<(ExplosionRecord, usize), ProtocolError>)
        requires
            pos <= data@.len(),
        ensures
            agrees(r, data@, pos as int, parse_explosion(data@.skip(pos as int))),
    {
        let (x, p) = match read_i8(data, pos) {
            Ok(v) => v,
            Err(e) => return Err(e),
        };
        let (y, p) = match read_i8(data, p) {
            Ok(v) => v,
            Err(e) => return Err(e),
        };
        let (z, p) = match read_i8(data, p) {
            Ok(v) => v,
            Err(e) => return Err(e),
        };
        Ok((ExplosionRecord { x, y, z }, p))
    }
}

/// A text that follows its flag only when the flag is set.
pub open spec fn flagged_bytes(flag: bool, text: Option<Seq<char>>) -> Seq<u8> {
    bool_bytes(flag) + if flag && text is Some {
        string_bytes(text->Some_0)
    } else {
        seq![]
    }
}

/// Reads a flag and, when it is set, a text of at most `max` bytes.
pub open spec fn parse_flagged(s: Seq<u8>, short: bool) -> Parsed<(bool, Option<Seq<char>>)> {
    match parse_bool(s) {
        Ok((false, s)) => Ok(((false, None), s)),
        Ok((true, s)) => match if short {
            parse_short_string(s)
        } else {
            parse_string(s)
        } {
            Ok((t, s)) => Ok(((true, Some(t)), s)),
            Err(e) => Err(e),
        },
        Err(e) => Err(e),
    }
}

/// A flag and its text agree, and the text fits.
pub open spec fn flagged_fits(flag: bool, text: Option<Seq<char>>, short: bool) -> bool {
    (flag <==> text is Some) && (text is Some ==> if short {
        short_string_fits(text->Some_0)
    } else {
        string_fits(text->Some_0)
    })
}

#[verifier::spinoff_prover]
#[verifier::rlimit(100)]
proof fn lemma_flagged(flag: bool, text: Option<Seq<char>>, short: bool, rest: Seq<u8>)
    requires
        flagged_fits(flag, text, short),
    ensures
        parse_flagged(flagged_bytes(flag, text) + rest, short) == Ok::<
            ((bool, Option<Seq<char>>), Seq<u8>),
            ProtocolError,
        >(((flag, text), rest)),
{
    if flag {
        let t = text->Some_0;
        assert(flagged_bytes(flag, text) + rest =~= bool_bytes(true) + (string_bytes(t) + rest));
        lemma_parse_bool(true, string_bytes(t) + rest);
        if short {
            lemma_parse_short_string(t, rest);
        } else {
            lemma_parse_string(t, rest);
        }
    } else {
        assert(flagged_bytes(flag, text) + rest =~= bool_bytes(false) + rest);
        lemma_parse_bool(false, rest);
    }
}

/// The view of an optional protocol string.
pub open spec fn opt_view(o: Option<String>) -> Option<Seq<char>> {
    match o {
        Some(s) => Some(s.0@),
        None => None,
    }
}

/// The view of an optional chat text.
pub open spec fn opt_chat_view(o: Option<Chat>) -> Option<Seq<char>> {
    match o {
        Some(c) => Some(c.0.0@),
        None => None,
    }
}

fn write_flagged(flag: bool, text: Option<&String>, out: &mut Vec<u8>)
    requires
        text matches Some(t) ==> string_fits(t.0@),
    ensures
        final(out)@ == old(out)@ + flagged_bytes(
            flag,
            match text {
                Some(t) => Some(t.0@),
                None => None,
            },
        ),
{
    write_bool(flag, out);
    let ghost mid = out@;
    if flag {
        match text {
            Some(t) => t.encode(out),
            None => {},
        }
    }
    assert(out@ =~= old(out)@ + flagged_bytes(
        flag,
        match text {
            Some(t) => Some(t.0@),
            None => None,
        },
    ));
}

fn read_flagged(data: &[u8], pos: usize, short: bool) -> (r: Result<(bool, Option<String>, usize), ProtocolError>)
    requires
        pos <= data@.len(),
    ensures
        agrees(
            match r {
                Ok((f, o, p)) => Ok(((f, opt_view(o)), p)),
                Err(e) => Err(e),
            },
            data@,
            pos as int,
            parse_flagged(data@.skip(pos as int), short),
        ),
{
    let (flag, p) = match read_bool(data, pos) {
        Ok(x) => x,
        Err(e) => return Err(e),
    };
    if !flag {
        return Ok((false, None, p));
    }
    if short {
        match Chat::decode(data, p) {
            Ok((c, q)) => Ok((true, Some(c.0), q)),
            Err(e) => Err(e),
        }
    } else {
        match String::decode(data, p) {
            Ok((s, q)) => Ok((true, Some(s), q)),
            Err(e) => Err(e),
        }
    }
}

/// One suggestion of a tab completion, with a tooltip only when its flag is set.
#[derive(Debug, Clone, PartialEq)]
pub struct TabCompleteMatch {
    pub match_: String,
    pub has_tooltip: bool,
    pub tooltip: Option<Chat>,
}

pub open spec fn tab_match_fits(m: TabCompleteMatch) -> bool {
    string_fits(m.match_.0@) && flagged_fits(m.has_tooltip, opt_chat_view(m.tooltip), true)
}

pub open spec fn tab_match_bytes(m: TabCompleteMatch) -> Seq<u8> {
    string_bytes(m.match_.0@) + flagged_bytes(m.has_tooltip, opt_chat_view(m.tooltip))
}

/// Reads a tab-completion suggestion: its text, and its tooltip.
pub open spec fn parse_tab_match(s: Seq<u8>) -> Parsed<(Seq<char>, (bool, Option<Seq<char>>))> {
    match parse_string(s) {
        Ok((m, s)) => match parse_flagged(s, true) {
            Ok((f, s)) => Ok(((m, f), s)),
            Err(e) => Err(e),
        },
        Err(e) => Err(e),
    }
}

/// A suggestion whose tooltip agrees with its flag reads back as written.
#[verifier::spinoff_prover]
#[verifier::rlimit(100)]
pub proof fn lemma_tab_match_round_trip(m: TabCompleteMatch, rest: Seq<u8>)
    requires
        tab_match_fits(m),
    ensures
        parse_tab_match(tab_match_bytes(m) + rest) == Ok::<
            ((Seq<char>, (bool, Option<Seq<char>>)), Seq<u8>),
            ProtocolError,
        >(((m.match_.0@, (m.has_tooltip, opt_chat_view(m.tooltip))), rest)),
{
    let t = flagged_bytes(m.has_tooltip, opt_chat_view(m.tooltip)) + rest;
    assert(tab_match_bytes(m) + rest =~= string_bytes(m.match_.0@) + t);
    lemma_parse_string(m.match_.0@, t);
    lemma_flagged(m.has_tooltip, opt_chat_view(m.tooltip), true, rest);
}

impl TabCompleteMatch {
    /// Appends the wire form; fails when a text is too long or the tooltip does not
    /// agree with its flag.
    pub fn encode(&self, out: &mut Vec<u8>) -> (r: Result<(), ProtocolError>)
        ensures
            r is Ok <==> tab_match_fits(*self),
            r is Ok ==> final(out)@ == old(out)@ + tab_match_bytes(*self),
            r is Err ==> final(out)@ == old(out)@ && r == Err::<(), ProtocolError>(
                ProtocolError::BadLength,
            ),
    {
        if utf8_len(&self.match_.0) > 0x7fff_ffff || self.has_tooltip != self.tooltip.is_some() {
            return Err(ProtocolError::BadLength);
        }
        let tip: Option<&String> = match &self.tooltip {
            Some(c) => {
                if utf8_len(&c.0.0) > 32767 {
                    return Err(ProtocolError::BadLength);
                }
                Some(&c.0)
            },
            None => None,
        };
        self.match_.encode(out);
        write_flagged(self.has_tooltip, tip, out);
        assert(out@ =~= old(out)@ + tab_match_bytes(*self));
        Ok(())
    }

    pub fn decode(data: &[u8], pos: usize) -> (r: Result<(TabCompleteMatch, usize), ProtocolError>)
        requires
            pos <= data@.len(),
        ensures
            agrees(
                match r {
                    Ok((m, p)) => Ok(((m.match_.0@, (m.has_tooltip, opt_chat_view(m.tooltip))), p)),
                    Err(e) => Err(e),
                },
                data@,
                pos as int,
                parse_tab_match(data@.skip(pos as int)),
            ),
    {
        let (m, p) = match String::decode(data, pos) {
            Ok(x) => x,
            Err(e) => return Err(e),
        };
        match read_flagged(data, p, true) {
            Ok((f, o, q)) => {
                let tooltip = match o {
                    Some(s) => Some(Chat(s)),
                    None => None,
                };
                Ok((TabCompleteMatch { match_: m, has_tooltip: f, tooltip }, q))
            },
            Err(e) => Err(e),
        }
    }
}

/// A property of a player's profile, with a signature only when its flag is set.
#[derive(Debug, Clone, PartialEq)]
pub struct PlayerProperty {
    pub name: String,
    pub value: String,
    pub is_signed: bool,
    pub signature: Option<String>,
}

pub open spec fn property_fits(p: PlayerProperty) -> bool {
    string_fits(p.name.0@) && string_fits(p.value.0@) && flagged_fits(
        p.is_signed,
        opt_view(p.signature),
        false,
    )
}

pub open spec fn property_bytes(p: PlayerProperty) -> Seq<u8> {
    string_bytes(p.name.0@) + string_bytes(p.value.0@) + flagged_bytes(
        p.is_signed,
        opt_view(p.signature),
    )
}

pub open spec fn parse_property(s: Seq<u8>) -> Parsed<(Seq<char>, Seq<char>, (bool, Option<Seq<char>>))> {
    match parse_string(s) {
        Ok((n, s)) => match parse_string(s) {
            Ok((v, s)) => match parse_flagged(s, false) {
                Ok((f, s)) => Ok(((n, v, f), s)),
                Err(e) => Err(e),
            },
            Err(e) => Err(e),
        },
        Err(e) => Err(e),
    }
}

/// A property whose signature agrees with its flag reads back as written.
#[verifier::spinoff_prover]
#[verifier::rlimit(100)]
pub proof fn lemma_property_round_trip(p: PlayerProperty, rest: Seq<u8>)
    requires
        property_fits(p),
    ensures
        parse_property(property_bytes(p) + rest) == Ok::<
            ((Seq<char>, Seq<char>, (bool, Option<Seq<char>>)), Seq<u8>),
            ProtocolError,
        >(((p.name.0@, p.value.0@, (p.is_signed, opt_view(p.signature))), rest)),
{
    let t2 = flagged_bytes(p.is_signed, opt_view(p.signature)) + rest;
    let t1 = string_bytes(p.value.0@) + t2;
    assert(property_bytes(p) + rest =~= string_bytes(p.name.0@) + t1);
    lemma_parse_string(p.name.0@, t1);
    lemma_parse_string(p.value.0@, t2);
    lemma_flagged(p.is_signed, opt_view(p.signature), false, rest);
}

impl PlayerProperty {
    /// Appends the wire form; fails when a text is too long or the signature does
    /// not agree with its flag.
    pub fn encode(&self, out: &mut Vec<u8>) -> (r: Result<(), ProtocolError>)
        ensures
            r is Ok <==> property_fits(*self),
            r is Ok ==> final(out)@ == old(out)@ + property_bytes(*self),
            r is Err ==> final(out)@ == old(out)@ && r == Err::<(), ProtocolError>(
                ProtocolError::BadLength,
            ),
    {
        if utf8_len(&self.name.0) > 0x7fff_ffff || utf8_len(&self.value.0) > 0x7fff_ffff
            || self.is_signed != self.signature.is_some() {
            return Err(ProtocolError::BadLength);
        }
        let sig: Option<&String> = match &self.signature {
            Some(s) => {
                if utf8_len(&s.0) > 0x7fff_ffff {
                    return Err(ProtocolError::BadLength);
                }
                Some(s)
            },
            None => None,
        };
        self.name.encode(out);
        self.value.encode(out);
        write_flagged(self.is_signed, sig, out);
        assert(out@ =~= old(out)@ + property_bytes(*self));
        Ok(())
    }

    pub fn decode(data: &[u8], pos: usize) -> (r: Result<(PlayerProperty, usize), ProtocolError>)
        requires
            pos <= data@.len(),
        ensures
            agrees(
                match r {
                    Ok((q, p)) => Ok(((q.name.0@, q.value.0@, (q.is_signed, opt_view(q.signature))), p)),
                    Err(e) => Err(e),
                },
                data@,
                pos as int,
                parse_property(data@.skip(pos as int)),
            ),
    {
        let (name, p) = match String::decode(data, pos) {
            Ok(x) => x,
            Err(e) => return Err(e),
        };
        let (value, p) = match String::decode(data, p) {
            Ok(x) => x,
            Err(e) => return Err(e),
        };
        match read_flagged(data, p, false) {
            Ok((f, o, q)) => Ok((PlayerProperty { name, value, is_signed: f, signature: o }, q)),
            Err(e) => Err(e),
        }
    }
}

/// A map decoration, with a display name only when its flag is set.
#[derive(Debug, Clone, PartialEq)]
pub struct MapIcon {
    pub type_: VarInt,
    pub x: i8,
    pub z: i8,
    pub direction: i8,
    pub has_display_name: bool,
    pub display_name: Option<Chat>,
}

pub open spec fn map_icon_fits(m: MapIcon) -> bool {
    flagged_fits(m.has_display_name, opt_chat_view(m.display_name), true)
}

pub open spec fn map_icon_bytes(m: MapIcon) -> Seq<u8> {
    varint_bytes(m.type_.0) + signed_bytes(m.x as int, 1) + signed_bytes(m.z as int, 1)
        + signed_bytes(m.direction as int, 1) + flagged_bytes(
        m.has_display_name,
        opt_chat_view(m.display_name),
    )
}

pub open spec fn parse_map_icon(s: Seq<u8>) -> Parsed<(i32, i8, i8, i8, (bool, Option<Seq<char>>))> {
    match parse_var_int(s) {
        Ok((t, s)) => match parse_i8(s) {
            Ok((x, s)) => match parse_i8(s) {
                Ok((z, s)) => match parse_i8(s) {
                    Ok((d, s)) => match parse_flagged(s, true) {
                        Ok((f, s)) => Ok(((t, x, z, d, f), s)),
                        Err(e) => Err(e),
                    },
                    Err(e) => Err(e),
                },
                Err(e) => Err(e),
            },
            Err(e) => Err(e),
        },
        Err(e) => Err(e),
    }
}

/// A map icon whose display name agrees with its flag reads back as written.
#[verifier::spinoff_prover]
#[verifier::rlimit(100)]
pub proof fn lemma_map_icon_round_trip(m: MapIcon, rest: Seq<u8>)
    requires
        map_icon_fits(m),
    ensures
        parse_map_icon(map_icon_bytes(m) + rest) == Ok::<
            ((i32, i8, i8, i8, (bool, Option<Seq<char>>)), Seq<u8>),
            ProtocolError,
        >(
            (
                (m.type_.0, m.x, m.z, m.direction, (m.has_display_name, opt_chat_view(m.display_name))),
                rest,
            ),
        ),
{
    lemma_pow256_values();
    let t4 = flagged_bytes(m.has_display_name, opt_chat_view(m.display_name)) + rest;
    let t3 = signed_bytes(m.direction as int, 1) + t4;
    let t2 = signed_bytes(m.z as int, 1) + t3;
    let t1 = signed_bytes(m.x as int, 1) + t2;
    assert(map_icon_bytes(m) + rest =~= varint_bytes(m.type_.0) + t1);
    lemma_parse_var_int(m.type_.0, t1);
    lemma_parse_signed(m.x as int, 1, t2);
    lemma_parse_signed(m.z as int, 1, t3);
    lemma_parse_signed(m.direction as int, 1, t4);
    lemma_flagged(m.has_display_name, opt_chat_view(m.display_name), true, rest);
}

impl MapIcon {
    /// Appends the wire form; fails when the name is too long or does not agree
    /// with its flag.
    pub fn encode(&self, out: &mut Vec<u8>) -> (r: Result<(), ProtocolError>)
        ensures
            r is Ok <==> map_icon_fits(*self),
            r is Ok ==> final(out)@ == old(out)@ + map_icon_bytes(*self),
            r is Err ==> final(out)@ == old(out)@ && r == Err::<(), ProtocolError>(
                ProtocolError::BadLength,
            ),
    {
        if self.has_display_name != self.display_name.is_some() {
            return Err(ProtocolError::BadLength);
        }
        let name: Option<&String> = match &self.display_name {
            Some(c) => {
                if utf8_len(&c.0.0) > 32767 {
                    return Err(ProtocolError::BadLength);
                }
                Some(&c.0)
            },
            None => None,
        };
        self.type_.encode(out);
        write_i8(self.x, out);
        write_i8(self.z, out);
        write_i8(self.direction, out);
        write_flagged(self.has_display_name, name, out);
        assert(out@ =~= old(out)@ + map_icon_bytes(*self));
        Ok(())
    }
}

/// A combat event: entering combat, leaving it, or a death.
#[derive(Debug, Clone, PartialEq)]
pub enum CombatEvent {
    EnterCombat,
    EndCombat { duration: VarInt, entity_id: i32 },
    EntityDead { player_id: VarInt, entity_id: i32, message: Chat },
}

pub enum CombatEventV {
    EnterCombat,
    EndCombat { duration: i32, entity_id: i32 },
    EntityDead { player_id: i32, entity_id: i32, message: Seq<char> },
}

impl View for CombatEvent {
    type V = CombatEventV;

    open spec fn view(&self) -> CombatEventV {
        match self {
            CombatEvent::EnterCombat => CombatEventV::EnterCombat,
            CombatEvent::EndCombat { duration, entity_id } => CombatEventV::EndCombat {
                duration: duration.0,
                entity_id: *entity_id,
            },
            CombatEvent::EntityDead { player_id, entity_id, message } => CombatEventV::EntityDead {
                player_id: player_id.0,
                entity_id: *entity_id,
                message: message.0.0@,
            },
        }
    }
}

/// Wire form: VarInt id 0, 1 or 2, then the fields.
pub open spec fn combat_bytes(c: CombatEventV) -> Seq<u8> {
    match c {
        CombatEventV::EnterCombat => varint_bytes(0),
        CombatEventV::EndCombat { duration, entity_id } => varint_bytes(1) + varint_bytes(duration)
            + signed_bytes(entity_id as int, 4),
        CombatEventV::EntityDead { player_id, entity_id, message } => varint_bytes(2)
            + varint_bytes(player_id) + signed_bytes(entity_id as int, 4) + string_bytes(message),
    }
}

pub open spec fn parse_combat(s: Seq<u8>) -> Parsed<CombatEventV> {
    match parse_var_int(s) {
        Ok((0, s)) => Ok((CombatEventV::EnterCombat, s)),
        Ok((1, s)) => match parse_var_int(s) {
            Ok((duration, s)) => match parse_i32(s) {
                Ok((entity_id, s)) => Ok((CombatEventV::EndCombat { duration, entity_id }, s)),
                Err(e) => Err(e),
            },
            Err(e) => Err(e),
        },
        Ok((2, s)) => match parse_var_int(s) {
            Ok((player_id, s)) => match parse_i32(s) {
                Ok((entity_id, s)) => match parse_short_string(s) {
                    Ok((message, s)) => Ok(
                        (CombatEventV::EntityDead { player_id, entity_id, message }, s),
                    ),
                    Err(e) => Err(e),
                },
                Err(e) => Err(e),
            },
            Err(e) => Err(e),
        },
        Ok(_) => Err(ProtocolError::UnknownId),
        Err(e) => Err(e),
    }
}

pub open spec fn combat_fits(c: CombatEventV) -> bool {
    match c {
        CombatEventV::EntityDead { message, .. } => short_string_fits(message),
        _ => true,
    }
}

/// Every combat event whose message fits reads back as written.
#[verifier::spinoff_prover]
#[verifier::rlimit(100)]
pub proof fn lemma_combat_round_trip(c: CombatEventV, rest: Seq<u8>)
    requires
        combat_fits(c),
    ensures
        parse_combat(combat_bytes(c) + rest) == Ok::<(CombatEventV, Seq<u8>), ProtocolError>(
            (c, rest),
        ),
{
    lemma_pow256_values();
    match c {
        CombatEventV::EnterCombat => {
            lemma_parse_var_int(0, rest);
        },
        CombatEventV::EndCombat { duration, entity_id } => {
            let t2 = signed_bytes(entity_id as int, 4) + rest;
            let t1 = varint_bytes(duration) + t2;
            assert(combat_bytes(c) + rest =~= varint_bytes(1) + t1);
            lemma_parse_var_int(1, t1);
            lemma_parse_var_int(duration, t2);
            lemma_parse_signed(entity_id as int, 4, rest);
        },
        CombatEventV::EntityDead { player_id, entity_id, message } => {
            let t3 = string_bytes(message) + rest;
            let t2 = signed_bytes(entity_id as int, 4) + t3;
            let t1 = varint_bytes(player_id) + t2;
            assert(combat_bytes(c) + rest =~= varint_bytes(2) + t1);
            lemma_parse_var_int(2, t1);
            lemma_parse_var_int(player_id, t2);
            lemma_parse_signed(entity_id as int, 4, t3);
            lemma_parse_short_string(message, rest);
        },
    }
}

impl CombatEvent {
    pub fn encode(&self, out: &mut Vec<u8>) -> (r: Result<(), ProtocolError>)
        ensures
            r is Ok <==> combat_fits(self@),
            r is Ok ==> final(out)@ == old(out)@ + combat_bytes(self@),
            r is Err ==> final(out)@ == old(out)@ && r == Err::<(), ProtocolError>(
                ProtocolError::BadLength,
            ),
    {
        match self {
            CombatEvent::EnterCombat => write_var_int(0, out),
            CombatEvent::EndCombat { duration, entity_id } => {
                write_var_int(1, out);
                duration.encode(out);
                write_i32(*entity_id, out);
            },
            CombatEvent::EntityDead { player_id, entity_id, message } => {
                if utf8_len(&message.0.0) > 32767 {
                    return Err(ProtocolError::BadLength);
                }
                write_var_int(2, out);
                player_id.encode(out);
                write_i32(*entity_id, out);
                message.encode(out);
            },
        }
        assert(out@ =~= old(out)@ + combat_bytes(self@));
        Ok(())
    }

    pub fn decode(data: &[u8], pos: usize) -> (r: Result<(CombatEvent, usize), ProtocolError>)
        requires
            pos <= data@.len(),
        ensures
            agrees(
                match r {
                    Ok((c, p)) => Ok((c@, p)),
                    Err(e) => Err(e),
                },
                data@,
                pos as int,
                parse_combat(data@.skip(pos as int)),
            ),
    {
        let (id, p) = match read_var_int(data, pos) {
            Ok(x) => x,
            Err(e) => return Err(e),
        };
        if id == 0 {
            Ok((CombatEvent::EnterCombat, p))
        } else if id == 1 {
            let (duration, p) = match read_var_int(data, p) {
                Ok(x) => x,
                Err(e) => return Err(e),
            };
            let (entity_id, p) = match read_i32(data, p) {
                Ok(x) => x,
                Err(e) => return Err(e),
            };
            Ok((CombatEvent::EndCombat { duration: VarInt(duration), entity_id }, p))
        } else if id == 2 {
            let (player_id, p) = match read_var_int(data, p) {
                Ok(x) => x,
                Err(e) => return Err(e),
            };
            let (entity_id, p) = match read_i32(data, p) {
                Ok(x) => x,
                Err(e) => return Err(e),
            };
            let (message, p) = match Chat::decode(data, p) {
                Ok(x) => x,
                Err(e) => return Err(e),
            };
            Ok((CombatEvent::EntityDead { player_id: VarInt(player_id), entity_id, message }, p))
        } else {
            Err(ProtocolError::UnknownId)
        }
    }
}

/// A player's new game mode.
#[derive(Debug, Clone, Copy, PartialEq, Eq, Structural)]
pub struct PlayerInfoUpdateGamemode {
    pub uuid: Uuid,
    pub gamemode: VarInt,
}

/// A player's new latency.
#[derive(Debug, Clone, Copy, PartialEq, Eq, Structural)]
pub struct PlayerInfoUpdateLatency {
    pub uuid: Uuid,
    pub ping: VarInt,
}

/// A player leaving the list.
#[derive(Debug, Clone, Copy, PartialEq, Eq, Structural)]
pub struct PlayerInfoRemovePlayer {
    pub uuid: Uuid,
}

/// A UUID then a VarInt: the wire form of a game-mode or latency update.
pub open spec fn uuid_varint_bytes(u: u128, v: i32) -> Seq<u8> {
    be_bytes(u as nat, 16) + varint_bytes(v)
}

pub open spec fn parse_uuid_varint(s: Seq<u8>) -> Parsed<(u128, i32)> {
    match parse_u128(s) {
        Ok((u, s)) => match parse_var_int(s) {
            Ok((v, s)) => Ok(((u, v), s)),
            Err(e) => Err(e),
        },
        Err(e) => Err(e),
    }
}

/// A UUID and a VarInt read back as written.
#[verifier::spinoff_prover]
#[verifier::rlimit(100)]
pub proof fn lemma_uuid_varint_round_trip(u: u128, v: i32, rest: Seq<u8>)
    ensures
        parse_uuid_varint(uuid_varint_bytes(u, v) + rest) == Ok::<((u128, i32), Seq<u8>), ProtocolError>(
            ((u, v), rest),
        ),
{
    lemma_pow256_values();
    assert(uuid_varint_bytes(u, v) + rest =~= be_bytes(u as nat, 16) + (varint_bytes(v) + rest));
    lemma_parse_be(u as nat, 16, varint_bytes(v) + rest);
    lemma_parse_var_int(v, rest);
}

/// Reads a UUID then a VarInt at `pos`.
fn read_uuid_varint(data: &[u8], pos: usize) -> (r: Result<(u128, i32, usize), ProtocolError>)
    requires
        pos <= data@.len(),
    ensures
        agrees(
            match r {
                Ok((u, v, p)) => Ok(((u, v), p)),
                Err(e) => Err(e),
            },
            data@,
            pos as int,
            parse_uuid_varint(data@.skip(pos as int)),
        ),
{
    let (u, p) = match read_u128(data, pos) {
        Ok(x) => x,
        Err(e) => return Err(e),
    };
    match read_var_int(data, p) {
        Ok((v, q)) => Ok((u, v, q)),
        Err(e) => Err(e),
    }
}

impl PlayerInfoUpdateGamemode {
    pub fn encode(&self, out: &mut Vec<u8>)
        ensures
            final(out)@ == old(out)@ + uuid_varint_bytes(self.uuid.0, self.gamemode.0),
    {
        write_u128(self.uuid.0, out);
        self.gamemode.encode(out);
        assert(out@ =~= old(out)@ + uuid_varint_bytes(self.uuid.0, self.gamemode.0));
    }

    pub fn decode(data: &[u8], pos: usize) -> (r: Result<(PlayerInfoUpdateGamemode, usize), ProtocolError>)
        requires
            pos <= data@.len(),
        ensures
            agrees(
                match r {
                    Ok((g, p)) => Ok(((g.uuid.0, g.gamemode.0), p)),
                    Err(e) => Err(e),
                },
                data@,
                pos as int,
                parse_uuid_varint(data@.skip(pos as int)),
            ),
    {
        match read_uuid_varint(data, pos) {
            Ok((u, v, p)) => Ok((PlayerInfoUpdateGamemode { uuid: Uuid(u), gamemode: VarInt(v) }, p)),
            Err(e) => Err(e),
        }
    }
}

impl PlayerInfoUpdateLatency {
    pub fn encode(&self, out: &mut Vec<u8>)
        ensures
            final(out)@ == old(out)@ + uuid_varint_bytes(self.uuid.0, self.ping.0),
    {
        write_u128(self.uuid.0, out);
        self.ping.encode(out);
        assert(out@ =~= old(out)@ + uuid_varint_bytes(self.uuid.0, self.ping.0));
    }

    pub fn decode(data: &[u8], pos: usize) -> (r: Result<(PlayerInfoUpdateLatency, usize), ProtocolError>)
        requires
            pos <= data@.len(),
        ensures
            agrees(
                match r {
                    Ok((g, p)) => Ok(((g.uuid.0, g.ping.0), p)),
                    Err(e) => Err(e),
                },
                data@,
                pos as int,
                parse_uuid_varint(data@.skip(pos as int)),
            ),
    {
        match read_uuid_varint(data, pos) {
            Ok((u, v, p)) => Ok((PlayerInfoUpdateLatency { uuid: Uuid(u), ping: VarInt(v) }, p)),
            Err(e) => Err(e),
        }
    }
}

impl PlayerInfoRemovePlayer {
    pub fn encode(&self, out: &mut Vec<u8>)
        ensures
            final(out)@ == old(out)@ + be_bytes(self.uuid.0 as nat, 16),
    {
        self.uuid.encode(out);
    }

    pub fn decode(data: &[u8], pos: usize) -> (r: Result<(PlayerInfoRemovePlayer, usize), ProtocolError>)
        requires
            pos <= data@.len(),
        ensures
            agrees(
                match r {
                    Ok((g, p)) => Ok((g.uuid.0, p)),
                    Err(e) => Err(e),
                },
                data@,
                pos as int,
                parse_u128(data@.skip(pos as int)),
            ),
    {
        match Uuid::decode(data, pos) {
            Ok((u, p)) => Ok((PlayerInfoRemovePlayer { uuid: u }, p)),
            Err(e) => Err(e),
        }
    }
}

/// A player's new display name, present only when its flag is set.
#[derive(Debug, Clone, PartialEq)]
pub struct PlayerInfoUpdateDisplayName {
    pub uuid: Uuid,
    pub has_display_name: bool,
    pub display_name: Option<Chat>,
}

pub open spec fn display_name_fits(d: PlayerInfoUpdateDisplayName) -> bool {
    flagged_fits(d.has_display_name, opt_chat_view(d.display_name), true)
}

pub open spec fn display_name_bytes(d: PlayerInfoUpdateDisplayName) -> Seq<u8> {
    be_bytes(d.uuid.0 as nat, 16) + flagged_bytes(d.has_display_name, opt_chat_view(d.display_name))
}

pub open spec fn parse_display_name(s: Seq<u8>) -> Parsed<(u128, (bool, Option<Seq<char>>))> {
    match parse_u128(s) {
        Ok((u, s)) => match parse_flagged(s, true) {
            Ok((f, s)) => Ok(((u, f), s)),
            Err(e) => Err(e),
        },
        Err(e) => Err(e),
    }
}

/// A display-name update whose name agrees with its flag reads back as written.
#[verifier::spinoff_prover]
#[verifier::rlimit(100)]
pub proof fn lemma_display_name_round_trip(d: PlayerInfoUpdateDisplayName, rest: Seq<u8>)
    requires
        display_name_fits(d),
    ensures
        parse_display_name(display_name_bytes(d) + rest) == Ok::<
            ((u128, (bool, Option<Seq<char>>)), Seq<u8>),
            ProtocolError,
        >(((d.uuid.0, (d.has_display_name, opt_chat_view(d.display_name))), rest)),
{
    lemma_pow256_values();
    let t = flagged_bytes(d.has_display_name, opt_chat_view(d.display_name)) + rest;
    assert(display_name_bytes(d) + rest =~= be_bytes(d.uuid.0 as nat, 16) + t);
    lemma_parse_be(d.uuid.0 as nat, 16, t);
    lemma_flagged(d.has_display_name, opt_chat_view(d.display_name), true, rest);
}

impl PlayerInfoUpdateDisplayName {
    /// Appends the wire form; fails when the name is too long or does not agree
    /// with its flag.
    pub fn encode(&self, out: &mut Vec<u8>) -> (r: Result<(), ProtocolError>)
        ensures
            r is Ok <==> display_name_fits(*self),
            r is Ok ==> final(out)@ == old(out)@ + display_name_bytes(*self),
            r is Err ==> final(out)@ == old(out)@ && r == Err::<(), ProtocolError>(
                ProtocolError::BadLength,
            ),
    {
        if self.has_display_name != self.display_name.is_some() {
            return Err(ProtocolError::BadLength);
        }
        let name: Option<&String> = match &self.display_name {
            Some(c) => {
                if utf8_len(&c.0.0) > 32767 {
                    return Err(ProtocolError::BadLength);
                }
                Some(&c.0)
            },
            None => None,
        };
        self.uuid.encode(out);
        write_flagged(self.has_display_name, name, out);
        assert(out@ =~= old(out)@ + display_name_bytes(*self));
        Ok(())
    }
}

/// What a title packet does.
#[derive(Debug, Clone, PartialEq)]
pub enum TitleAction {
    SetTitle { text: Chat },
    SetSubtitle { text: Chat },
    SetActionBar { text: Chat },
    SetTimesAndDisplay { fade_in: i32, stay: i32, fade_out: i32 },
    Hide,
    Reset,
}

pub enum TitleActionV {
    SetTitle { text: Seq<char> },
    SetSubtitle { text: Seq<char> },
    SetActionBar { text: Seq<char> },
    SetTimesAndDisplay { fade_in: i32, stay: i32, fade_out: i32 },
    Hide,
    Reset,
}

impl View for TitleAction {
    type V = TitleActionV;

    open spec fn view(&self) -> TitleActionV {
        match self {
            TitleAction::SetTitle { text } => TitleActionV::SetTitle { text: text.0.0@ },
            TitleAction::SetSubtitle { text } => TitleActionV::SetSubtitle { text: text.0.0@ },
            TitleAction::SetActionBar { text } => TitleActionV::SetActionBar { text: text.0.0@ },
            TitleAction::SetTimesAndDisplay { fade_in, stay, fade_out } =>
                TitleActionV::SetTimesAndDisplay { fade_in: *fade_in, stay: *stay, fade_out: *fade_out },
            TitleAction::Hide => TitleActionV::Hide,
            TitleAction::Reset => TitleActionV::Reset,
        }
    }
}

pub open spec fn title_fits(t: TitleActionV) -> bool {
    match t {
        TitleActionV::SetTitle { text } => short_string_fits(text),
        TitleActionV::SetSubtitle { text } => short_string_fits(text),
        TitleActionV::SetActionBar { text } => short_string_fits(text),
        _ => true,
    }
}

/// Wire form: VarInt id 0 to 5, then the fields.
pub open spec fn title_bytes(t: TitleActionV) -> Seq<u8> {
    match t {
        TitleActionV::SetTitle { text } => varint_bytes(0) + string_bytes(text),
        TitleActionV::SetSubtitle { text } => varint_bytes(1) + string_bytes(text),
        TitleActionV::SetActionBar { text } => varint_bytes(2) + string_bytes(text),
        TitleActionV::SetTimesAndDisplay { fade_in, stay, fade_out } => varint_bytes(3)
            + signed_bytes(fade_in as int, 4) + signed_bytes(stay as int, 4) + signed_bytes(
            fade_out as int,
            4,
        ),
        TitleActionV::Hide => varint_bytes(4),
        TitleActionV::Reset => varint_bytes(5),
    }
}

pub open spec fn parse_title(s: Seq<u8>) -> Parsed<TitleActionV> {
    match parse_var_int(s) {
        Ok((id, s)) => if id == 0 || id == 1 || id == 2 {
            match parse_short_string(s) {
                Ok((text, s)) => Ok(
                    (
                        if id == 0 {
                            TitleActionV::SetTitle { text }
                        } else if id == 1 {
                            TitleActionV::SetSubtitle { text }
                        } else {
                            TitleActionV::SetActionBar { text }
                        },
                        s,
                    ),
                ),
                Err(e) => Err(e),
            }
        } else if id == 3 {
            match parse_i32(s) {
                Ok((fade_in, s)) => match parse_i32(s) {
                    Ok((stay, s)) => match parse_i32(s) {
                        Ok((fade_out, s)) => Ok(
                            (TitleActionV::SetTimesAndDisplay { fade_in, stay, fade_out }, s),
                        ),
                        Err(e) => Err(e),
                    },
                    Err(e) => Err(e),
                },
                Err(e) => Err(e),
            }
        } else if id == 4 {
            Ok((TitleActionV::Hide, s))
        } else if id == 5 {
            Ok((TitleActionV::Reset, s))
        } else {
            Err(ProtocolError::UnknownId)
        },
        Err(e) => Err(e),
    }
}

/// Every title action whose text fits reads back as written.
#[verifier::spinoff_prover]
#[verifier::rlimit(100)]
pub proof fn lemma_title_round_trip(t: TitleActionV, rest: Seq<u8>)
    requires
        title_fits(t),
    ensures
        parse_title(title_bytes(t) + rest) == Ok::<(TitleActionV, Seq<u8>), ProtocolError>(
            (t, rest),
        ),
{
    lemma_pow256_values();
    match t {
        TitleActionV::SetTitle { text } => {
            assert(title_bytes(t) + rest =~= varint_bytes(0) + (string_bytes(text) + rest));
            lemma_parse_var_int(0, string_bytes(text) + rest);
            lemma_parse_short_string(text, rest);
        },
        TitleActionV::SetSubtitle { text } => {
            assert(title_bytes(t) + rest =~= varint_bytes(1) + (string_bytes(text) + rest));
            lemma_parse_var_int(1, string_bytes(text) + rest);
            lemma_parse_short_string(text, rest);
        },
        TitleActionV::SetActionBar { text } => {
            assert(title_bytes(t) + rest =~= varint_bytes(2) + (string_bytes(text) + rest));
            lemma_parse_var_int(2, string_bytes(text) + rest);
            lemma_parse_short_string(text, rest);
        },
        TitleActionV::SetTimesAndDisplay { fade_in, stay, fade_out } => {
            let t3 = signed_bytes(fade_out as int, 4) + rest;
            let t2 = signed_bytes(stay as int, 4) + t3;
            let t1 = signed_bytes(fade_in as int, 4) + t2;
            assert(title_bytes(t) + rest =~= varint_bytes(3) + t1);
            lemma_parse_var_int(3, t1);
            lemma_parse_signed(fade_in as int, 4, t2);
            lemma_parse_signed(stay as int, 4, t3);
            lemma_parse_signed(fade_out as int, 4, rest);
        },
        TitleActionV::Hide => {
            lemma_parse_var_int(4, rest);
        },
        TitleActionV::Reset => {
            lemma_parse_var_int(5, rest);
        },
    }
}

impl TitleAction {
    pub fn encode(&self, out: &mut Vec<u8>) -> (r: Result<(), ProtocolError>)
        ensures
            r is Ok <==> title_fits(self@),
            r is Ok ==> final(out)@ == old(out)@ + title_bytes(self@),
            r is Err ==> final(out)@ == old(out)@ && r == Err::<(), ProtocolError>(
                ProtocolError::BadLength,
            ),
    {
        match self {
            TitleAction::SetTitle { text } | TitleAction::SetSubtitle { text }
            | TitleAction::SetActionBar { text } => {
                if utf8_len(&text.0.0) > 32767 {
                    return Err(ProtocolError::BadLength);
                }
            },
            _ => {},
        }
        match self {
            TitleAction::SetTitle { text } => {
                write_var_int(0, out);
                text.encode(out);
            },
            TitleAction::SetSubtitle { text } => {
                write_var_int(1, out);
                text.encode(out);
            },
            TitleAction::SetActionBar { text } => {
                write_var_int(2, out);
                text.encode(out);
            },
            TitleAction::SetTimesAndDisplay { fade_in, stay, fade_out } => {
                write_var_int(3, out);
                write_i32(*fade_in, out);
                write_i32(*stay, out);
                write_i32(*fade_out, out);
            },
            TitleAction::Hide => write_var_int(4, out),
            TitleAction::Reset => write_var_int(5, out),
        }
        assert(out@ =~= old(out)@ + title_bytes(self@));
        Ok(())
    }

    pub fn decode(data: &[u8], pos: usize) -> (r: Result<(TitleAction, usize), ProtocolError>)
        requires
            pos <= data@.len(),
        ensures
            agrees(
                match r {
                    Ok((t, p)) => Ok((t@, p)),
                    Err(e) => Err(e),
                },
                data@,
                pos as int,
                parse_title(data@.skip(pos as int)),
            ),
    {
        let (id, p) = match read_var_int(data, pos) {
            Ok(x) => x,
            Err(e) => return Err(e),
        };
        if id == 0 || id == 1 || id == 2 {
            let (text, p) = match Chat::decode(data, p) {
                Ok(x) => x,
                Err(e) => return Err(e),
            };
            let t = if id == 0 {
                TitleAction::SetTitle { text }
            } else if id == 1 {
                TitleAction::SetSubtitle { text }
            } else {
                TitleAction::SetActionBar { text }
            };
            Ok((t, p))
        } else if id == 3 {
            let (fade_in, p) = match read_i32(data, p) {
                Ok(x) => x,
                Err(e) => return Err(e),
            };
            let (stay, p) = match read_i32(data, p) {
                Ok(x) => x,
                Err(e) => return Err(e),
            };
            let (fade_out, p) = match read_i32(data, p) {
                Ok(x) => x,
                Err(e) => return Err(e),
            };
            Ok((TitleAction::SetTimesAndDisplay { fade_in, stay, fade_out }, p))
        } else if id == 4 {
            Ok((TitleAction::Hide, p))
        } else if id == 5 {
            Ok((TitleAction::Reset, p))
        } else {
            Err(ProtocolError::UnknownId)
        }
    }
}

/// VarInts from index `i` on.
pub open spec fn varints_bytes(xs: Seq<i32>, i: nat) -> Seq<u8>
    decreases xs.len() - i,
{
    if i >= xs.len() {
        seq![]
    } else {
        varint_bytes(xs[i as int]) + varints_bytes(xs, i + 1)
    }
}

pub open spec fn parse_varints(s: Seq<u8>, n: nat) -> Parsed<Seq<i32>>
    decreases n,
{
    if n == 0 {
        Ok((seq![], s))
    } else {
        match parse_var_int(s) {
            Ok((x, r)) => match parse_varints(r, (n - 1) as nat) {
                Ok((xs, r)) => Ok((seq![x] + xs, r)),
                Err(e) => Err(e),
            },
            Err(e) => Err(e),
        }
    }
}

#[verifier::spinoff_prover]
#[verifier::rlimit(100)]
proof fn lemma_varints(xs: Seq<i32>, i: nat, rest: Seq<u8>)
    requires
        i <= xs.len(),
    ensures
        parse_varints(varints_bytes(xs, i) + rest, (xs.len() - i) as nat) == Ok::<
            (Seq<i32>, Seq<u8>),
            ProtocolError,
        >((xs.skip(i as int), rest)),
    decreases xs.len() - i,
{
    if i < xs.len() {
        let tail = varints_bytes(xs, i + 1) + rest;
        assert(varints_bytes(xs, i) + rest =~= varint_bytes(xs[i as int]) + tail);
        lemma_parse_var_int(xs[i as int], tail);
        lemma_varints(xs, i + 1, rest);
        assert(seq![xs[i as int]] + xs.skip(i as int + 1) =~= xs.skip(i as int));
    } else {
        assert(varints_bytes(xs, i) + rest =~= rest);
        assert(xs.skip(i as int) =~= seq![]);
    }
}

/// Protocol strings from index `i` on.
pub open spec fn strings_bytes(ws: Seq<Seq<char>>, i: nat) -> Seq<u8>
    decreases ws.len() - i,
{
    if i >= ws.len() {
        seq![]
    } else {
        string_bytes(ws[i as int]) + strings_bytes(ws, i + 1)
    }
}

pub open spec fn parse_strings(s: Seq<u8>, n: nat) -> Parsed<Seq<Seq<char>>>
    decreases n,
{
    if n == 0 {
        Ok((seq![], s))
    } else {
        match parse_string(s) {
            Ok((w, r)) => match parse_strings(r, (n - 1) as nat) {
                Ok((ws, r)) => Ok((seq![w] + ws, r)),
                Err(e) => Err(e),
            },
            Err(e) => Err(e),
        }
    }
}

#[verifier::spinoff_prover]
#[verifier::rlimit(100)]
proof fn lemma_strings(ws: Seq<Seq<char>>, i: nat, rest: Seq<u8>)
    requires
        i <= ws.len(),
        forall|j: int| 0 <= j < ws.len() ==> string_fits(#[trigger] ws[j]),
    ensures
        parse_strings(strings_bytes(ws, i) + rest, (ws.len() - i) as nat) == Ok::<
            (Seq<Seq<char>>, Seq<u8>),
            ProtocolError,
        >((ws.skip(i as int), rest)),
    decreases ws.len() - i,
{
    if i < ws.len() {
        let tail = strings_bytes(ws, i + 1) + rest;
        assert(strings_bytes(ws, i) + rest =~= string_bytes(ws[i as int]) + tail);
        lemma_parse_string(ws[i as int], tail);
        lemma_strings(ws, i + 1, rest);
        assert(seq![ws[i as int]] + ws.skip(i as int + 1) =~= ws.skip(i as int));
    } else {
        assert(strings_bytes(ws, i) + rest =~= rest);
        assert(ws.skip(i as int) =~= seq![]);
    }
}

/// The views of a list of protocol strings.
pub open spec fn strings_view(v: Seq<String>) -> Seq<Seq<char>> {
    Seq::new(v.len(), |i: int| v[i].0@)
}

fn write_strings(v: &Vec<String>, out: &mut Vec<u8>)
    requires
        forall|j: int| 0 <= j < v@.len() ==> string_fits(#[trigger] v@[j].0@),
    ensures
        final(out)@ == old(out)@ + strings_bytes(strings_view(v@), 0),
{
    let ghost ws = strings_view(v@);
    let mut i: usize = 0;
    while i < v.len()
        invariant
            i <= v@.len(),
            ws == strings_view(v@),
            forall|j: int| 0 <= j < v@.len() ==> string_fits(#[trigger] v@[j].0@),
            out@ + strings_bytes(ws, i as nat) == old(out)@ + strings_bytes(ws, 0),
        decreases v@.len() - i,
    {
        let ghost before = out@;
        v[i].encode(out);
        assert(before + strings_bytes(ws, i as nat) =~= out@ + strings_bytes(ws, (i + 1) as nat));
        i = i + 1;
    }
    assert(strings_bytes(ws, i as nat) =~= seq![]);
    assert(out@ =~= old(out)@ + strings_bytes(ws, 0));
}

fn read_strings(data: &[u8], pos: usize, n: usize) -> (r: Result<(Vec<String>, usize), ProtocolError>)
    requires
        pos <= data@.len(),
    ensures
        agrees(
            match r {
                Ok((v, p)) => Ok((strings_view(v@), p)),
                Err(e) => Err(e),
            },
            data@,
            pos as int,
            parse_strings(data@.skip(pos as int), n as nat),
        ),
{
    let mut v: Vec<String> = Vec::new();
    let mut p: usize = pos;
    let mut k: usize = 0;
    loop
        invariant
            k <= n,
            pos <= p <= data@.len(),
            parse_strings(data@.skip(pos as int), n as nat) == match parse_strings(
                data@.skip(p as int),
                (n - k) as nat,
            ) {
                Ok((xs, rest)) => Ok::<(Seq<Seq<char>>, Seq<u8>), ProtocolError>(
                    (strings_view(v@) + xs, rest),
                ),
                Err(e) => Err(e),
            },
        decreases n - k,
    {
        if k == n {
            assert(strings_view(v@) + seq![] =~= strings_view(v@));
            return Ok((v, p));
        }
        let (x, q) = match String::decode(data, p) {
            Ok(y) => y,
            Err(e) => return Err(e),
        };
        let ghost old_view = strings_view(v@);
        let ghost xv = x.0@;
        v.push(x);
        proof {
            if let Ok((xs, rest)) = parse_strings(data@.skip(q as int), (n - k - 1) as nat) {
                assert(old_view + (seq![xv] + xs) =~= strings_view(v@) + xs);
            }
        }
        p = q;
        k = k + 1;
    }
}

/// A registry tag: its name and the ids it holds.
#[derive(Debug, Clone, PartialEq)]
pub struct Tag {
    pub name: Identifier,
    pub entries: Vec<VarInt>,
}

pub open spec fn tag_entries_view(e: Seq<VarInt>) -> Seq<i32> {
    Seq::new(e.len(), |i: int| e[i].0)
}

pub open spec fn tag_fits(t: Tag) -> bool {
    short_string_fits(t.name.0.0@) && t.entries@.len() <= 0x7fff_ffff
}

pub open spec fn tag_bytes(t: Tag) -> Seq<u8> {
    string_bytes(t.name.0.0@) + varint_bytes(t.entries@.len() as i32) + varints_bytes(
        tag_entries_view(t.entries@),
        0,
    )
}

pub open spec fn parse_tag(s: Seq<u8>) -> Parsed<(Seq<char>, Seq<i32>)> {
    match parse_short_string(s) {
        Ok((name, s)) => match parse_var_int(s) {
            Ok((n, s)) => if n < 0 {
                Err(ProtocolError::BadLength)
            } else {
                match parse_varints(s, n as nat) {
                    Ok((xs, s)) => Ok(((name, xs), s)),
                    Err(e) => Err(e),
                }
            },
            Err(e) => Err(e),
        },
        Err(e) => Err(e),
    }
}

/// A tag whose name and count fit reads back as written.
#[verifier::spinoff_prover]
#[verifier::rlimit(100)]
pub proof fn lemma_tag_round_trip(t: Tag, rest: Seq<u8>)
    requires
        tag_fits(t),
    ensures
        parse_tag(tag_bytes(t) + rest) == Ok::<((Seq<char>, Seq<i32>), Seq<u8>), ProtocolError>(
            ((t.name.0.0@, tag_entries_view(t.entries@)), rest),
        ),
{
    let xs = tag_entries_view(t.entries@);
    let t2 = varints_bytes(xs, 0) + rest;
    let t1 = varint_bytes(t.entries@.len() as i32) + t2;
    assert(tag_bytes(t) + rest =~= string_bytes(t.name.0.0@) + t1);
    lemma_parse_short_string(t.name.0.0@, t1);
    lemma_parse_var_int(t.entries@.len() as i32, t2);
    lemma_varints(xs, 0, rest);
    assert(xs.skip(0) =~= xs);
}

impl Tag {
    /// Appends the wire form; fails when the name or the count is too long.
    pub fn encode(&self, out: &mut Vec<u8>) -> (r: Result<(), ProtocolError>)
        ensures
            r is Ok <==> tag_fits(*self),
            r is Ok ==> final(out)@ == old(out)@ + tag_bytes(*self),
            r is Err ==> final(out)@ == old(out)@ && r == Err::<(), ProtocolError>(
                ProtocolError::BadLength,
            ),
    {
        if utf8_len(&self.name.0.0) > 32767 || self.entries.len() > 0x7fff_ffff {
            return Err(ProtocolError::BadLength);
        }
        self.name.encode(out);
        write_var_int(self.entries.len() as i32, out);
        let ghost xs = tag_entries_view(self.entries@);
        let ghost mid = out@;
        let mut i: usize = 0;
        while i < self.entries.len()
            invariant
                i <= self.entries@.len(),
                xs == tag_entries_view(self.entries@),
                out@ + varints_bytes(xs, i as nat) == mid + varints_bytes(xs, 0),
            decreases self.entries@.len() - i,
        {
            let ghost before = out@;
            self.entries[i].encode(out);
            assert(before + varints_bytes(xs, i as nat) =~= out@ + varints_bytes(xs, (i + 1) as nat));
            i = i + 1;
        }
        assert(varints_bytes(xs, i as nat) =~= seq![]);
        assert(out@ =~= old(out)@ + tag_bytes(*self));
        Ok(())
    }
}

/// What a teams packet does to a team. Sent with a signed-byte discriminant.
#[derive(Debug, Clone, PartialEq)]
pub enum TeamsAction {
    CreateTeam {
        display_name: Chat,
        friendly_flags: i8,
        name_tag_visibility: String,
        collision_rule: String,
        team_color: VarInt,
        team_prefix: Chat,
        team_suffix: Chat,
        entities: Vec<String>,
    },
    RemoveTeam,
    UpdateTeamInfo {
        team_display_name: Chat,
        friendly_flags: i8,
        name_tag_visibility: String,
        collision_rule: String,
        team_color: VarInt,
        team_prefix: Chat,
        team_suffix: Chat,
    },
    AddPlayers { entities: Vec<String> },
    RemovePlayers { entities: Vec<String> },
}

/// The team fields shared by creating and updating a team, as plain values.
pub struct TeamInfoV {
    pub display_name: Seq<char>,
    pub friendly_flags: i8,
    pub name_tag_visibility: Seq<char>,
    pub collision_rule: Seq<char>,
    pub team_color: i32,
    pub team_prefix: Seq<char>,
    pub team_suffix: Seq<char>,
}

pub enum TeamsActionV {
    CreateTeam { info: TeamInfoV, entities: Seq<Seq<char>> },
    RemoveTeam,
    UpdateTeamInfo { info: TeamInfoV },
    AddPlayers { entities: Seq<Seq<char>> },
    RemovePlayers { entities: Seq<Seq<char>> },
}

impl View for TeamsAction {
    type V = TeamsActionV;

    open spec fn view(&self) -> TeamsActionV {
        match self {
            TeamsAction::CreateTeam {
                display_name,
                friendly_flags,
                name_tag_visibility,
                collision_rule,
                team_color,
                team_prefix,
                team_suffix,
                entities,
            } => TeamsActionV::CreateTeam {
                info: TeamInfoV {
                    display_name: display_name.0.0@,
                    friendly_flags: *friendly_flags,
                    name_tag_visibility: name_tag_visibility.0@,
                    collision_rule: collision_rule.0@,
                    team_color: team_color.0,
                    team_prefix: team_prefix.0.0@,
                    team_suffix: team_suffix.0.0@,
                },
                entities: strings_view(entities@),
            },
            TeamsAction::RemoveTeam => TeamsActionV::RemoveTeam,
            TeamsAction::UpdateTeamInfo {
                team_display_name,
                friendly_flags,
                name_tag_visibility,
                collision_rule,
                team_color,
                team_prefix,
                team_suffix,
            } => TeamsActionV::UpdateTeamInfo {
                info: TeamInfoV {
                    display_name: team_display_name.0.0@,
                    friendly_flags: *friendly_flags,
                    name_tag_visibility: name_tag_visibility.0@,
                    collision_rule: collision_rule.0@,
                    team_color: team_color.0,
                    team_prefix: team_prefix.0.0@,
                    team_suffix: team_suffix.0.0@,
                },
            },
            TeamsAction::AddPlayers { entities } => TeamsActionV::AddPlayers {
                entities: strings_view(entities@),
            },
            TeamsAction::RemovePlayers { entities } => TeamsActionV::RemovePlayers {
                entities: strings_view(entities@),
            },
        }
    }
}

pub open spec fn team_info_fits(i: TeamInfoV) -> bool {
    short_string_fits(i.display_name) && string_fits(i.name_tag_visibility) && string_fits(
        i.collision_rule,
    ) && short_string_fits(i.team_prefix) && short_string_fits(i.team_suffix)
}

pub open spec fn entities_fit(es: Seq<Seq<char>>) -> bool {
    es.len() <= 0x7fff_ffff && forall|j: int| 0 <= j < es.len() ==> string_fits(#[trigger] es[j])
}

pub open spec fn teams_fits(t: TeamsActionV) -> bool {
    match t {
        TeamsActionV::CreateTeam { info, entities } => team_info_fits(info) && entities_fit(entities),
        TeamsActionV::RemoveTeam => true,
        TeamsActionV::UpdateTeamInfo { info } => team_info_fits(info),
        TeamsActionV::AddPlayers { entities } => entities_fit(entities),
        TeamsActionV::RemovePlayers { entities } => entities_fit(entities),
    }
}

pub open spec fn team_info_bytes(i: TeamInfoV) -> Seq<u8> {
    string_bytes(i.display_name) + signed_bytes(i.friendly_flags as int, 1) + string_bytes(
        i.name_tag_visibility,
    ) + string_bytes(i.collision_rule) + varint_bytes(i.team_color) + string_bytes(i.team_prefix)
        + string_bytes(i.team_suffix)
}

pub open spec fn entities_bytes(es: Seq<Seq<char>>) -> Seq<u8> {
    varint_bytes(es.len() as i32) + strings_bytes(es, 0)
}

/// Wire form: a signed byte 0 to 4, then the fields.
pub open spec fn teams_bytes(t: TeamsActionV) -> Seq<u8> {
    match t {
        TeamsActionV::CreateTeam { info, entities } => signed_bytes(0, 1) + team_info_bytes(info)
            + entities_bytes(entities),
        TeamsActionV::RemoveTeam => signed_bytes(1, 1),
        TeamsActionV::UpdateTeamInfo { info } => signed_bytes(2, 1) + team_info_bytes(info),
        TeamsActionV::AddPlayers { entities } => signed_bytes(3, 1) + entities_bytes(entities),
        TeamsActionV::RemovePlayers { entities } => signed_bytes(4, 1) + entities_bytes(entities),
    }
}

#[verifier::opaque]
pub open spec fn parse_team_info(s: Seq<u8>) -> Parsed<TeamInfoV> {
    match parse_short_string(s) {
        Ok((display_name, s)) => match parse_i8(s) {
            Ok((friendly_flags, s)) => match parse_string(s) {
                Ok((name_tag_visibility, s)) => match parse_string(s) {
                    Ok((collision_rule, s)) => match parse_var_int(s) {
                        Ok((team_color, s)) => match parse_short_string(s) {
                            Ok((team_prefix, s)) => match parse_short_string(s) {
                                Ok((team_suffix, s)) => Ok(
                                    (
                                        TeamInfoV {
                                            display_name,
                                            friendly_flags,
                                            name_tag_visibility,
                                            collision_rule,
                                            team_color,
                                            team_prefix,
                                            team_suffix,
                                        },
                                        s,
                                    ),
                                ),
                                Err(e) => Err(e),
                            },
                            Err(e) => Err(e),
                        },
                        Err(e) => Err(e),
                    },
                    Err(e) => Err(e),
                },
                Err(e) => Err(e),
            },
            Err(e) => Err(e),
        },
        Err(e) => Err(e),
    }
}

pub open spec fn parse_entities(s: Seq<u8>) -> Parsed<Seq<Seq<char>>> {
    match parse_var_int(s) {
        Ok((n, s)) => if n < 0 {
            Err(ProtocolError::BadLength)
        } else {
            parse_strings(s, n as nat)
        },
        Err(e) => Err(e),
    }
}

pub open spec fn parse_teams(s: Seq<u8>) -> Parsed<TeamsActionV> {
    match parse_i8(s) {
        Ok((0, s)) => match parse_team_info(s) {
            Ok((info, s)) => match parse_entities(s) {
                Ok((entities, s)) => Ok((TeamsActionV::CreateTeam { info, entities }, s)),
                Err(e) => Err(e),
            },
            Err(e) => Err(e),
        },
        Ok((1, s)) => Ok((TeamsActionV::RemoveTeam, s)),
        Ok((2, s)) => match parse_team_info(s) {
            Ok((info, s)) => Ok((TeamsActionV::UpdateTeamInfo { info }, s)),
            Err(e) => Err(e),
        },
        Ok((3, s)) => match parse_entities(s) {
            Ok((entities, s)) => Ok((TeamsActionV::AddPlayers { entities }, s)),
            Err(e) => Err(e),
        },
        Ok((4, s)) => match parse_entities(s) {
            Ok((entities, s)) => Ok((TeamsActionV::RemovePlayers { entities }, s)),
            Err(e) => Err(e),
        },
        Ok(_) => Err(ProtocolError::UnknownId),
        Err(e) => Err(e),
    }
}

#[verifier::spinoff_prover]
#[verifier::rlimit(100)]
proof fn lemma_assoc(a: Seq<u8>, b: Seq<u8>, c: Seq<u8>)
    ensures
        (a + b) + c == a + (b + c),
{
    assert((a + b) + c =~= a + (b + c));
}

#[verifier::rlimit(100)]
#[verifier::spinoff_prover]
proof fn lemma_team_info(i: TeamInfoV, rest: Seq<u8>)
    requires
        team_info_fits(i),
    ensures
        parse_team_info(team_info_bytes(i) + rest) == Ok::<(TeamInfoV, Seq<u8>), ProtocolError>(
            (i, rest),
        ),
{
    reveal(parse_team_info);
    lemma_pow256_values();
    let t6 = string_bytes(i.team_suffix) + rest;
    let t5 = string_bytes(i.team_prefix) + t6;
    let t4 = varint_bytes(i.team_color) + t5;
    let t3 = string_bytes(i.collision_rule) + t4;
    let t2 = string_bytes(i.name_tag_visibility) + t3;
    let t1 = signed_bytes(i.friendly_flags as int, 1) + t2;
    let u1 = string_bytes(i.display_name);
    let u2 = u1 + signed_bytes(i.friendly_flags as int, 1);
    let u3 = u2 + string_bytes(i.name_tag_visibility);
    let u4 = u3 + string_bytes(i.collision_rule);
    let u5 = u4 + varint_bytes(i.team_color);
    let u6 = u5 + string_bytes(i.team_prefix);
    assert(team_info_bytes(i) == u6 + string_bytes(i.team_suffix));
    lemma_assoc(u6, string_bytes(i.team_suffix), rest);
    lemma_assoc(u5, string_bytes(i.team_prefix), t6);
    lemma_assoc(u4, varint_bytes(i.team_color), t5);
    lemma_assoc(u3, string_bytes(i.collision_rule), t4);
    lemma_assoc(u2, string_bytes(i.name_tag_visibility), t3);
    lemma_assoc(u1, signed_bytes(i.friendly_flags as int, 1), t2);
    assert(team_info_bytes(i) + rest == string_bytes(i.display_name) + t1);
    lemma_parse_short_string(i.display_name, t1);
    lemma_parse_signed(i.friendly_flags as int, 1, t2);
    lemma_parse_string(i.name_tag_visibility, t3);
    lemma_parse_string(i.collision_rule, t4);
    lemma_parse_var_int(i.team_color, t5);
    lemma_parse_short_string(i.team_prefix, t6);
    lemma_parse_short_string(i.team_suffix, rest);
}

#[verifier::spinoff_prover]
#[verifier::rlimit(100)]
proof fn lemma_entities(es: Seq<Seq<char>>, rest: Seq<u8>)
    requires
        entities_fit(es),
    ensures
        parse_entities(entities_bytes(es) + rest) == Ok::<(Seq<Seq<char>>, Seq<u8>), ProtocolError>(
            (es, rest),
        ),
{
    let t = strings_bytes(es, 0) + rest;
    assert(entities_bytes(es) + rest =~= varint_bytes(es.len() as i32) + t);
    lemma_parse_var_int(es.len() as i32, t);
    lemma_strings(es, 0, rest);
    assert(es.skip(0) =~= es);
}

/// Every teams action whose texts and lists fit reads back as written.
#[verifier::rlimit(100)]
#[verifier::spinoff_prover]
pub proof fn lemma_teams_round_trip(t: TeamsActionV, rest: Seq<u8>)
    requires
        teams_fits(t),
    ensures
        parse_teams(teams_bytes(t) + rest) == Ok::<(TeamsActionV, Seq<u8>), ProtocolError>(
            (t, rest),
        ),
{
    lemma_pow256_values();
    match t {
        TeamsActionV::CreateTeam { info, entities } => {
            let t2 = entities_bytes(entities) + rest;
            let t1 = team_info_bytes(info) + t2;
            assert(teams_bytes(t) + rest =~= signed_bytes(0, 1) + t1);
            lemma_parse_signed(0, 1, t1);
            lemma_team_info(info, t2);
            lemma_entities(entities, rest);
        },
        TeamsActionV::RemoveTeam => {
            lemma_parse_signed(1, 1, rest);
        },
        TeamsActionV::UpdateTeamInfo { info } => {
            let t1 = team_info_bytes(info) + rest;
            assert(teams_bytes(t) + rest =~= signed_bytes(2, 1) + t1);
            lemma_parse_signed(2, 1, t1);
            lemma_team_info(info, rest);
        },
        TeamsActionV::AddPlayers { entities } => {
            let t1 = entities_bytes(entities) + rest;
            assert(teams_bytes(t) + rest =~= signed_bytes(3, 1) + t1);
            lemma_parse_signed(3, 1, t1);
            lemma_entities(entities, rest);
        },
        TeamsActionV::RemovePlayers { entities } => {
            let t1 = entities_bytes(entities) + rest;
            assert(teams_bytes(t) + rest =~= signed_bytes(4, 1) + t1);
            lemma_parse_signed(4, 1, t1);
            lemma_entities(entities, rest);
        },
    }
}

fn read_entities(data: &[u8], pos: usize) -> (r: Result<(Vec<String>, usize), ProtocolError>)
    requires
        pos <= data@.len(),
    ensures
        agrees(
            match r {
                Ok((v, p)) => Ok((strings_view(v@), p)),
                Err(e) => Err(e),
            },
            data@,
            pos as int,
            parse_entities(data@.skip(pos as int)),
        ),
{
    let (n, p) = match read_var_int(data, pos) {
        Ok(x) => x,
        Err(e) => return Err(e),
    };
    if n < 0 {
        return Err(ProtocolError::BadLength);
    }
    read_strings(data, p, n as usize)
}

fn read_team_info(data: &[u8], pos: usize) -> (r: Result<(Chat, i8, String, String, VarInt, Chat, Chat, usize), ProtocolError>)
    requires
        pos <= data@.len(),
    ensures
        agrees(
            match r {
                Ok((d, f, n, c, col, pre, suf, p)) => Ok(
                    (
                        TeamInfoV {
                            display_name: d.0.0@,
                            friendly_flags: f,
                            name_tag_visibility: n.0@,
                            collision_rule: c.0@,
                            team_color: col.0,
                            team_prefix: pre.0.0@,
                            team_suffix: suf.0.0@,
                        },
                        p,
                    ),
                ),
                Err(e) => Err(e),
            },
            data@,
            pos as int,
            parse_team_info(data@.skip(pos as int)),
        ),
{
    proof {
        reveal(parse_team_info);
    }
    let (d, p) = match Chat::decode(data, pos) {
        Ok(x) => x,
        Err(e) => return Err(e),
    };
    let (f, p) = match read_i8(data, p) {
        Ok(x) => x,
        Err(e) => return Err(e),
    };
    let (n, p) = match String::decode(data, p) {
        Ok(x) => x,
        Err(e) => return Err(e),
    };
    let (c, p) = match String::decode(data, p) {
        Ok(x) => x,
        Err(e) => return Err(e),
    };
    let (col, p) = match read_var_int(data, p) {
        Ok(x) => x,
        Err(e) => return Err(e),
    };
    let (pre, p) = match Chat::decode(data, p) {
        Ok(x) => x,
        Err(e) => return Err(e),
    };
    let (suf, p) = match Chat::decode(data, p) {
        Ok(x) => x,
        Err(e) => return Err(e),
    };
    Ok((d, f, n, c, VarInt(col), pre, suf, p))
}

impl TeamsAction {
    /// Reads a teams action at `pos`.
    #[verifier::spinoff_prover]
    #[verifier::rlimit(100)]
    pub fn decode(data: &[u8], pos: usize) -> (r: Result<(TeamsAction, usize), ProtocolError>)
        requires
            pos <= data@.len(),
        ensures
            agrees(
                match r {
                    Ok((t, p)) => Ok((t@, p)),
                    Err(e) => Err(e),
                },
                data@,
                pos as int,
                parse_teams(data@.skip(pos as int)),
            ),
    {
        let (id, p) = match read_i8(data, pos) {
            Ok(x) => x,
            Err(e) => return Err(e),
        };
        if id == 0 || id == 2 {
            let (d, f, n, c, col, pre, suf, p) = match read_team_info(data, p) {
                Ok(x) => x,
                Err(e) => return Err(e),
            };
            if id == 2 {
                return Ok(
                    (
                        TeamsAction::UpdateTeamInfo {
                            team_display_name: d,
                            friendly_flags: f,
                            name_tag_visibility: n,
                            collision_rule: c,
                            team_color: col,
                            team_prefix: pre,
                            team_suffix: suf,
                        },
                        p,
                    ),
                );
            }
            let (entities, p) = match read_entities(data, p) {
                Ok(x) => x,
                Err(e) => return Err(e),
            };
            Ok(
                (
                    TeamsAction::CreateTeam {
                        display_name: d,
                        friendly_flags: f,
                        name_tag_visibility: n,
                        collision_rule: c,
                        team_color: col,
                        team_prefix: pre,
                        team_suffix: suf,
                        entities,
                    },
                    p,
                ),
            )
        } else if id == 1 {
            Ok((TeamsAction::RemoveTeam, p))
        } else if id == 3 || id == 4 {
            let (entities, p) = match read_entities(data, p) {
                Ok(x) => x,
                Err(e) => return Err(e),
            };
            if id == 3 {
                Ok((TeamsAction::AddPlayers { entities }, p))
            } else {
                Ok((TeamsAction::RemovePlayers { entities }, p))
            }
        } else {
            Err(ProtocolError::UnknownId)
        }
    }
}

} // verus!
