use vstd::prelude::*;
use crate::error::ProtocolError;
use crate::varint::{VarInt, VarLong, varint_bytes, varlong_bytes};
use crate::types::{String, Chat, Identifier, Position, Angle, Uuid, position_in_range,
    position_bytes, parse_position, lemma_position_round_trip};
use crate::nbt::{Nbt, NbtV, nbt_bytes, nbt_fits, parse_nbt, lemma_nbt_round_trip};
use crate::proto::play::{Gamemode, gamemode_id, parse_gamemode};
use crate::proto::records::{CombatEvent, CombatEventV, combat_bytes, parse_combat, combat_fits,
    lemma_combat_round_trip, TitleAction, TitleActionV, title_bytes, parse_title, title_fits,
    lemma_title_round_trip};
use crate::codec::{Parsed, agrees, be_bytes, bool_bytes, signed_bytes, prefixed_bytes,
    parse_var_int, parse_var_long, parse_bool, parse_u8, parse_u16, parse_u32, parse_u64,
    parse_u128, parse_i8, parse_i16, parse_i32, parse_i64, parse_string, parse_short_string,
    parse_prefixed, string_bytes, string_fits, short_string_fits, read_var_int, read_var_long,
    read_bool, read_u8, read_u16, read_u32, read_u64, read_i8, read_i16, read_i32, read_i64,
    read_prefixed, read_greedy, write_bool, write_u8, write_u16, write_u32, write_u64, write_i8,
    write_i16, write_i32, write_i64, write_raw, write_prefixed, utf8_len, lemma_parse_var_int,
    lemma_parse_var_long, lemma_parse_bool, lemma_parse_be, lemma_parse_signed,
    lemma_parse_string, lemma_parse_short_string, lemma_parse_prefixed, lemma_pow256_values};

verus! {

proof fn lemma_assoc(a: Seq<u8>, b: Seq<u8>, c: Seq<u8>)
    ensures
        (a + b) + c == a + (b + c),
{
    assert((a + b) + c =~= a + (b + c));
}

/// The fields of the QueryBlockNbt packet (id 0x01).
#[derive(Debug, PartialEq)]
pub struct QueryBlockNbt {
    pub transaction_id: VarInt,
    pub location: Position,
}

pub struct QueryBlockNbtV {
    pub transaction_id: i32,
    pub location: Position,
}

impl View for QueryBlockNbt {
    type V = QueryBlockNbtV;

    open spec fn view(&self) -> QueryBlockNbtV {
        QueryBlockNbtV { transaction_id: self.transaction_id.0, location: self.location }
    }
}

pub open spec fn query_block_nbt_fits(v: QueryBlockNbtV) -> bool {
    position_in_range(v.location)
}

pub open spec fn query_block_nbt_bytes(v: QueryBlockNbtV) -> Seq<u8> {
    varint_bytes(v.transaction_id) + (position_bytes(v.location))
}

pub open spec fn parse_query_block_nbt(s: Seq<u8>) -> Parsed<QueryBlockNbtV> {
    match parse_var_int(s) {
        Ok((transaction_id, s)) => match parse_position(s) {
        Ok((location, s)) => Ok((QueryBlockNbtV { transaction_id, location }, s)),
        Err(e) => Err(e),
    },
        Err(e) => Err(e),
    }
}

/// Every QueryBlockNbt packet whose fields fit reads back as itself, whatever follows.
#[verifier::spinoff_prover]
#[verifier::rlimit(100)]
pub proof fn lemma_query_block_nbt_round_trip(v: QueryBlockNbtV, rest: Seq<u8>)
    requires
        query_block_nbt_fits(v),
    ensures
        parse_query_block_nbt(query_block_nbt_bytes(v) + rest) == Ok::<(QueryBlockNbtV, Seq<u8>), ProtocolError>((v, rest)),
{
    lemma_pow256_values();
    let t2 = rest;
    let t1 = position_bytes(v.location) + t2;
    let t0 = varint_bytes(v.transaction_id) + t1;
    lemma_assoc(varint_bytes(v.transaction_id), position_bytes(v.location), rest);
    assert(query_block_nbt_bytes(v) + rest == t0);
    lemma_parse_var_int(v.transaction_id, t1);
    lemma_position_round_trip(v.location, t2);
}

impl QueryBlockNbt {
    /// Appends the fields' wire form; fails, writing nothing, when a field does
    /// not fit.
    #[verifier::spinoff_prover]
    #[verifier::rlimit(100)]
    pub fn encode(&self, out: &mut Vec<u8>) -> (r: Result<(), ProtocolError>)
        ensures
            r is Ok <==> query_block_nbt_fits(self@),
            r is Ok ==> final(out)@ == old(out)@ + query_block_nbt_bytes(self@),
            r is Err ==> final(out)@ == old(out)@,
    {
        let mut w: Vec<u8> = Vec::new();
        self.transaction_id.encode(&mut w);
        assert(w@ =~= varint_bytes(self@.transaction_id));
        match self.location.encode(&mut w) {
            Ok(()) => {},
            Err(e) => return Err(e),
        }
        assert(w@ == query_block_nbt_bytes(self@));
        write_raw(w.as_slice(), out);
        Ok(())
    }

    /// Reads the fields at `pos`.
    #[verifier::spinoff_prover]
    #[verifier::rlimit(100)]
    pub fn decode(input: &[u8], pos: usize) -> (r: Result<(QueryBlockNbt, usize), ProtocolError>)
        requires
            pos <= input@.len(),
        ensures
            agrees(
                match r {
                    Ok((v, p)) => Ok((v@, p)),
                    Err(e) => Err(e),
                },
                input@,
                pos as int,
                parse_query_block_nbt(input@.skip(pos as int)),
            ),
    {
        let cursor = pos;
        let (transaction_id, cursor) = match read_var_int(input, cursor) {
            Ok((x, q)) => (VarInt(x), q),
            Err(e) => return Err(e),
        };
        let (location, cursor) = match Position::decode(input, cursor) {
            Ok((x, q)) => (x, q),
            Err(e) => return Err(e),
        };
        Ok((QueryBlockNbt { transaction_id, location }, cursor))
    }
}

/// The fields of the QueryEntityNbt packet (id 0x0d).
#[derive(Debug, PartialEq)]
pub struct QueryEntityNbt {
    pub transaction_id: VarInt,
    pub entity_id: VarInt,
}

pub struct QueryEntityNbtV {
    pub transaction_id: i32,
    pub entity_id: i32,
}

impl View for QueryEntityNbt {
    type V = QueryEntityNbtV;

    open spec fn view(&self) -> QueryEntityNbtV {
        QueryEntityNbtV { transaction_id: self.transaction_id.0, entity_id: self.entity_id.0 }
    }
}

pub open spec fn query_entity_nbt_fits(v: QueryEntityNbtV) -> bool {
    true
}

pub open spec fn query_entity_nbt_bytes(v: QueryEntityNbtV) -> Seq<u8> {
    varint_bytes(v.transaction_id) + (varint_bytes(v.entity_id))
}

pub open spec fn parse_query_entity_nbt(s: Seq<u8>) -> Parsed<QueryEntityNbtV> {
    match parse_var_int(s) {
        Ok((transaction_id, s)) => match parse_var_int(s) {
        Ok((entity_id, s)) => Ok((QueryEntityNbtV { transaction_id, entity_id }, s)),
        Err(e) => Err(e),
    },
        Err(e) => Err(e),
    }
}

/// Every QueryEntityNbt packet whose fields fit reads back as itself, whatever follows.
#[verifier::spinoff_prover]
#[verifier::rlimit(100)]
pub proof fn lemma_query_entity_nbt_round_trip(v: QueryEntityNbtV, rest: Seq<u8>)
    requires
        query_entity_nbt_fits(v),
    ensures
        parse_query_entity_nbt(query_entity_nbt_bytes(v) + rest) == Ok::<(QueryEntityNbtV, Seq<u8>), ProtocolError>((v, rest)),
{
    lemma_pow256_values();
    let t2 = rest;
    let t1 = varint_bytes(v.entity_id) + t2;
    let t0 = varint_bytes(v.transaction_id) + t1;
    lemma_assoc(varint_bytes(v.transaction_id), varint_bytes(v.entity_id), rest);
    assert(query_entity_nbt_bytes(v) + rest == t0);
    lemma_parse_var_int(v.transaction_id, t1);
    lemma_parse_var_int(v.entity_id, t2);
}

impl QueryEntityNbt {
    /// Appends the fields' wire form; fails, writing nothing, when a field does
    /// not fit.
    #[verifier::spinoff_prover]
    #[verifier::rlimit(100)]
    pub fn encode(&self, out: &mut Vec<u8>) -> (r: Result<(), ProtocolError>)
        ensures
            r is Ok <==> query_entity_nbt_fits(self@),
            r is Ok ==> final(out)@ == old(out)@ + query_entity_nbt_bytes(self@),
            r is Err ==> final(out)@ == old(out)@,
    {
        let mut w: Vec<u8> = Vec::new();
        self.transaction_id.encode(&mut w);
        assert(w@ =~= varint_bytes(self@.transaction_id));
        self.entity_id.encode(&mut w);
        assert(w@ == query_entity_nbt_bytes(self@));
        write_raw(w.as_slice(), out);
        Ok(())
    }

    /// Reads the fields at `pos`.
    #[verifier::spinoff_prover]
    #[verifier::rlimit(100)]
    pub fn decode(input: &[u8], pos: usize) -> (r: Result<(QueryEntityNbt, usize), ProtocolError>)
        requires
            pos <= input@.len(),
        ensures
            agrees(
                match r {
                    Ok((v, p)) => Ok((v@, p)),
                    Err(e) => Err(e),
                },
                input@,
                pos as int,
                parse_query_entity_nbt(input@.skip(pos as int)),
            ),
    {
        let cursor = pos;
        let (transaction_id, cursor) = match read_var_int(input, cursor) {
            Ok((x, q)) => (VarInt(x), q),
            Err(e) => return Err(e),
        };
        let (entity_id, cursor) = match read_var_int(input, cursor) {
            Ok((x, q)) => (VarInt(x), q),
            Err(e) => return Err(e),
        };
        Ok((QueryEntityNbt { transaction_id, entity_id }, cursor))
    }
}

/// The fields of the SetDifficulty packet (id 0x02).
#[derive(Debug, PartialEq)]
pub struct SetDifficulty {
    pub difficulty: i8,
}

pub struct SetDifficultyV {
    pub difficulty: i8,
}

impl View for SetDifficulty {
    type V = SetDifficultyV;

    open spec fn view(&self) -> SetDifficultyV {
        SetDifficultyV { difficulty: self.difficulty }
    }
}

pub open spec fn set_difficulty_fits(v: SetDifficultyV) -> bool {
    true
}

pub open spec fn set_difficulty_bytes(v: SetDifficultyV) -> Seq<u8> {
    signed_bytes(v.difficulty as int, 1)
}

pub open spec fn parse_set_difficulty(s: Seq<u8>) -> Parsed<SetDifficultyV> {
    match parse_i8(s) {
        Ok((difficulty, s)) => Ok((SetDifficultyV { difficulty }, s)),
        Err(e) => Err(e),
    }
}

/// Every SetDifficulty packet whose fields fit reads back as itself, whatever follows.
#[verifier::spinoff_prover]
#[verifier::rlimit(100)]
pub proof fn lemma_set_difficulty_round_trip(v: SetDifficultyV, rest: Seq<u8>)
    requires
        set_difficulty_fits(v),
    ensures
        parse_set_difficulty(set_difficulty_bytes(v) + rest) == Ok::<(SetDifficultyV, Seq<u8>), ProtocolError>((v, rest)),
{
    lemma_pow256_values();
    let t1 = rest;
    let t0 = signed_bytes(v.difficulty as int, 1) + t1;
    assert(set_difficulty_bytes(v) + rest == t0);
    lemma_parse_signed(v.difficulty as int, 1, t1);
}

impl SetDifficulty {
    /// Appends the fields' wire form; fails, writing nothing, when a field does
    /// not fit.
    #[verifier::spinoff_prover]
    #[verifier::rlimit(100)]
    pub fn encode(&self, out: &mut Vec<u8>) -> (r: Result<(), ProtocolError>)
        ensures
            r is Ok <==> set_difficulty_fits(self@),
            r is Ok ==> final(out)@ == old(out)@ + set_difficulty_bytes(self@),
            r is Err ==> final(out)@ == old(out)@,
    {
        let mut w: Vec<u8> = Vec::new();
        write_i8(self.difficulty, &mut w);
        assert(w@ =~= signed_bytes(self@.difficulty as int, 1));
        assert(w@ == set_difficulty_bytes(self@));
        write_raw(w.as_slice(), out);
        Ok(())
    }

    /// Reads the fields at `pos`.
    #[verifier::spinoff_prover]
    #[verifier::rlimit(100)]
    pub fn decode(input: &[u8], pos: usize) -> (r: Result<(SetDifficulty, usize), ProtocolError>)
        requires
            pos <= input@.len(),
        ensures
            agrees(
                match r {
                    Ok((v, p)) => Ok((v@, p)),
                    Err(e) => Err(e),
                },
                input@,
                pos as int,
                parse_set_difficulty(input@.skip(pos as int)),
            ),
    {
        let cursor = pos;
        let (difficulty, cursor) = match read_i8(input, cursor) {
            Ok((x, q)) => (x, q),
            Err(e) => return Err(e),
        };
        Ok((SetDifficulty { difficulty }, cursor))
    }
}

/// The fields of the ChatMessage packet (id 0x03).
#[derive(Debug, PartialEq)]
pub struct ChatMessage {
    pub message: String,
}

pub struct ChatMessageV {
    pub message: Seq<char>,
}

impl View for ChatMessage {
    type V = ChatMessageV;

    open spec fn view(&self) -> ChatMessageV {
        ChatMessageV { message: self.message.0@ }
    }
}

pub open spec fn chat_message_fits(v: ChatMessageV) -> bool {
    string_fits(v.message)
}

pub open spec fn chat_message_bytes(v: ChatMessageV) -> Seq<u8> {
    string_bytes(v.message)
}

pub open spec fn parse_chat_message(s: Seq<u8>) -> Parsed<ChatMessageV> {
    match parse_string(s) {
        Ok((message, s)) => Ok((ChatMessageV { message }, s)),
        Err(e) => Err(e),
    }
}

/// Every ChatMessage packet whose fields fit reads back as itself, whatever follows.
#[verifier::spinoff_prover]
#[verifier::rlimit(100)]
pub proof fn lemma_chat_message_round_trip(v: ChatMessageV, rest: Seq<u8>)
    requires
        chat_message_fits(v),
    ensures
        parse_chat_message(chat_message_bytes(v) + rest) == Ok::<(ChatMessageV, Seq<u8>), ProtocolError>((v, rest)),
{
    lemma_pow256_values();
    let t1 = rest;
    let t0 = string_bytes(v.message) + t1;
    assert(chat_message_bytes(v) + rest == t0);
    lemma_parse_string(v.message, t1);
}

impl ChatMessage {
    /// Appends the fields' wire form; fails, writing nothing, when a field does
    /// not fit.
    #[verifier::spinoff_prover]
    #[verifier::rlimit(100)]
    pub fn encode(&self, out: &mut Vec<u8>) -> (r: Result<(), ProtocolError>)
        ensures
            r is Ok <==> chat_message_fits(self@),
            r is Ok ==> final(out)@ == old(out)@ + chat_message_bytes(self@),
            r is Err ==> final(out)@ == old(out)@,
    {
        let mut w: Vec<u8> = Vec::new();
        if utf8_len(&self.message.0) > 0x7fff_ffff {
            return Err(ProtocolError::BadLength);
        }
        self.message.encode(&mut w);
        assert(w@ =~= string_bytes(self@.message));
        assert(w@ == chat_message_bytes(self@));
        write_raw(w.as_slice(), out);
        Ok(())
    }

    /// Reads the fields at `pos`.
    #[verifier::spinoff_prover]
    #[verifier::rlimit(100)]
    pub fn decode(input: &[u8], pos: usize) -> (r: Result<(ChatMessage, usize), ProtocolError>)
        requires
            pos <= input@.len(),
        ensures
            agrees(
                match r {
                    Ok((v, p)) => Ok((v@, p)),
                    Err(e) => Err(e),
                },
                input@,
                pos as int,
                parse_chat_message(input@.skip(pos as int)),
            ),
    {
        let cursor = pos;
        let (message, cursor) = match String::decode(input, cursor) {
            Ok((x, q)) => (x, q),
            Err(e) => return Err(e),
        };
        Ok((ChatMessage { message }, cursor))
    }
}

/// The fields of the ClientStatus packet (id 0x04).
#[derive(Debug, PartialEq)]
pub struct ClientStatus {
    pub action: VarInt,
}

pub struct ClientStatusV {
    pub action: i32,
}

impl View for ClientStatus {
    type V = ClientStatusV;

    open spec fn view(&self) -> ClientStatusV {
        ClientStatusV { action: self.action.0 }
    }
}

pub open spec fn client_status_fits(v: ClientStatusV) -> bool {
    true
}

pub open spec fn client_status_bytes(v: ClientStatusV) -> Seq<u8> {
    varint_bytes(v.action)
}

pub open spec fn parse_client_status(s: Seq<u8>) -> Parsed<ClientStatusV> {
    match parse_var_int(s) {
        Ok((action, s)) => Ok((ClientStatusV { action }, s)),
        Err(e) => Err(e),
    }
}

/// Every ClientStatus packet whose fields fit reads back as itself, whatever follows.
#[verifier::spinoff_prover]
#[verifier::rlimit(100)]
pub proof fn lemma_client_status_round_trip(v: ClientStatusV, rest: Seq<u8>)
    requires
        client_status_fits(v),
    ensures
        parse_client_status(client_status_bytes(v) + rest) == Ok::<(ClientStatusV, Seq<u8>), ProtocolError>((v, rest)),
{
    lemma_pow256_values();
    let t1 = rest;
    let t0 = varint_bytes(v.action) + t1;
    assert(client_status_bytes(v) + rest == t0);
    lemma_parse_var_int(v.action, t1);
}

impl ClientStatus {
    /// Appends the fields' wire form; fails, writing nothing, when a field does
    /// not fit.
    #[verifier::spinoff_prover]
    #[verifier::rlimit(100)]
    pub fn encode(&self, out: &mut Vec<u8>) -> (r: Result<(), ProtocolError>)
        ensures
            r is Ok <==> client_status_fits(self@),
            r is Ok ==> final(out)@ == old(out)@ + client_status_bytes(self@),
            r is Err ==> final(out)@ == old(out)@,
    {
        let mut w: Vec<u8> = Vec::new();
        self.action.encode(&mut w);
        assert(w@ =~= varint_bytes(self@.action));
        assert(w@ == client_status_bytes(self@));
        write_raw(w.as_slice(), out);
        Ok(())
    }

    /// Reads the fields at `pos`.
    #[verifier::spinoff_prover]
    #[verifier::rlimit(100)]
    pub fn decode(input: &[u8], pos: usize) -> (r: Result<(ClientStatus, usize), ProtocolError>)
        requires
            pos <= input@.len(),
        ensures
            agrees(
                match r {
                    Ok((v, p)) => Ok((v@, p)),
                    Err(e) => Err(e),
                },
                input@,
                pos as int,
                parse_client_status(input@.skip(pos as int)),
            ),
    {
        let cursor = pos;
        let (action, cursor) = match read_var_int(input, cursor) {
            Ok((x, q)) => (VarInt(x), q),
            Err(e) => return Err(e),
        };
        Ok((ClientStatus { action }, cursor))
    }
}

/// The fields of the TabComplete packet (id 0x06).
#[derive(Debug, PartialEq)]
pub struct TabComplete {
    pub transaction_id: VarInt,
    pub text: String,
}

pub struct TabCompleteV {
    pub transaction_id: i32,
    pub text: Seq<char>,
}

impl View for TabComplete {
    type V = TabCompleteV;

    open spec fn view(&self) -> TabCompleteV {
        TabCompleteV { transaction_id: self.transaction_id.0, text: self.text.0@ }
    }
}

pub open spec fn tab_complete_fits(v: TabCompleteV) -> bool {
    string_fits(v.text)
}

pub open spec fn tab_complete_bytes(v: TabCompleteV) -> Seq<u8> {
    varint_bytes(v.transaction_id) + (string_bytes(v.text))
}

pub open spec fn parse_tab_complete(s: Seq<u8>) -> Parsed<TabCompleteV> {
    match parse_var_int(s) {
        Ok((transaction_id, s)) => match parse_string(s) {
        Ok((text, s)) => Ok((TabCompleteV { transaction_id, text }, s)),
        Err(e) => Err(e),
    },
        Err(e) => Err(e),
    }
}

/// Every TabComplete packet whose fields fit reads back as itself, whatever follows.
#[verifier::spinoff_prover]
#[verifier::rlimit(100)]
pub proof fn lemma_tab_complete_round_trip(v: TabCompleteV, rest: Seq<u8>)
    requires
        tab_complete_fits(v),
    ensures
        parse_tab_complete(tab_complete_bytes(v) + rest) == Ok::<(TabCompleteV, Seq<u8>), ProtocolError>((v, rest)),
{
    lemma_pow256_values();
    let t2 = rest;
    let t1 = string_bytes(v.text) + t2;
    let t0 = varint_bytes(v.transaction_id) + t1;
    lemma_assoc(varint_bytes(v.transaction_id), string_bytes(v.text), rest);
    assert(tab_complete_bytes(v) + rest == t0);
    lemma_parse_var_int(v.transaction_id, t1);
    lemma_parse_string(v.text, t2);
}

impl TabComplete {
    /// Appends the fields' wire form; fails, writing nothing, when a field does
    /// not fit.
    #[verifier::spinoff_prover]
    #[verifier::rlimit(100)]
    pub fn encode(&self, out: &mut Vec<u8>) -> (r: Result<(), ProtocolError>)
        ensures
            r is Ok <==> tab_complete_fits(self@),
            r is Ok ==> final(out)@ == old(out)@ + tab_complete_bytes(self@),
            r is Err ==> final(out)@ == old(out)@,
    {
        let mut w: Vec<u8> = Vec::new();
        self.transaction_id.encode(&mut w);
        assert(w@ =~= varint_bytes(self@.transaction_id));
        if utf8_len(&self.text.0) > 0x7fff_ffff {
            return Err(ProtocolError::BadLength);
        }
        self.text.encode(&mut w);
        assert(w@ == tab_complete_bytes(self@));
        write_raw(w.as_slice(), out);
        Ok(())
    }

    /// Reads the fields at `pos`.
    #[verifier::spinoff_prover]
    #[verifier::rlimit(100)]
    pub fn decode(input: &[u8], pos: usize) -> (r: Result<(TabComplete, usize), ProtocolError>)
        requires
            pos <= input@.len(),
        ensures
            agrees(
                match r {
                    Ok((v, p)) => Ok((v@, p)),
                    Err(e) => Err(e),
                },
                input@,
                pos as int,
                parse_tab_complete(input@.skip(pos as int)),
            ),
    {
        let cursor = pos;
        let (transaction_id, cursor) = match read_var_int(input, cursor) {
            Ok((x, q)) => (VarInt(x), q),
            Err(e) => return Err(e),
        };
        let (text, cursor) = match String::decode(input, cursor) {
            Ok((x, q)) => (x, q),
            Err(e) => return Err(e),
        };
        Ok((TabComplete { transaction_id, text }, cursor))
    }
}

/// The fields of the WindowConfirmation packet (id 0x07).
#[derive(Debug, PartialEq)]
pub struct WindowConfirmation {
    pub window_id: u8,
    pub action_number: i16,
    pub accepted: bool,
}

pub struct WindowConfirmationV {
    pub window_id: u8,
    pub action_number: i16,
    pub accepted: bool,
}

impl View for WindowConfirmation {
    type V = WindowConfirmationV;

    open spec fn view(&self) -> WindowConfirmationV {
        WindowConfirmationV { window_id: self.window_id, action_number: self.action_number, accepted: self.accepted }
    }
}

pub open spec fn window_confirmation_fits(v: WindowConfirmationV) -> bool {
    true
}

pub open spec fn window_confirmation_bytes(v: WindowConfirmationV) -> Seq<u8> {
    be_bytes(v.window_id as nat, 1) + (signed_bytes(v.action_number as int, 2) + (bool_bytes(v.accepted)))
}

pub open spec fn parse_window_confirmation(s: Seq<u8>) -> Parsed<WindowConfirmationV> {
    match parse_u8(s) {
        Ok((window_id, s)) => match parse_i16(s) {
        Ok((action_number, s)) => match parse_bool(s) {
        Ok((accepted, s)) => Ok((WindowConfirmationV { window_id, action_number, accepted }, s)),
        Err(e) => Err(e),
    },
        Err(e) => Err(e),
    },
        Err(e) => Err(e),
    }
}

/// Every WindowConfirmation packet whose fields fit reads back as itself, whatever follows.
#[verifier::spinoff_prover]
#[verifier::rlimit(100)]
pub proof fn lemma_window_confirmation_round_trip(v: WindowConfirmationV, rest: Seq<u8>)
    requires
        window_confirmation_fits(v),
    ensures
        parse_window_confirmation(window_confirmation_bytes(v) + rest) == Ok::<(WindowConfirmationV, Seq<u8>), ProtocolError>((v, rest)),
{
    lemma_pow256_values();
    let t3 = rest;
    let t2 = bool_bytes(v.accepted) + t3;
    let t1 = signed_bytes(v.action_number as int, 2) + t2;
    let t0 = be_bytes(v.window_id as nat, 1) + t1;
    lemma_assoc(be_bytes(v.window_id as nat, 1), signed_bytes(v.action_number as int, 2) + (bool_bytes(v.accepted)), rest);
    lemma_assoc(signed_bytes(v.action_number as int, 2), bool_bytes(v.accepted), rest);
    assert(window_confirmation_bytes(v) + rest == t0);
    lemma_parse_be(v.window_id as nat, 1, t1);
    lemma_parse_signed(v.action_number as int, 2, t2);
    lemma_parse_bool(v.accepted, t3);
}

impl WindowConfirmation {
    /// Appends the fields' wire form; fails, writing nothing, when a field does
    /// not fit.
    #[verifier::spinoff_prover]
    #[verifier::rlimit(100)]
    pub fn encode(&self, out: &mut Vec<u8>) -> (r: Result<(), ProtocolError>)
        ensures
            r is Ok <==> window_confirmation_fits(self@),
            r is Ok ==> final(out)@ == old(out)@ + window_confirmation_bytes(self@),
            r is Err ==> final(out)@ == old(out)@,
    {
        let mut w: Vec<u8> = Vec::new();
        write_u8(self.window_id, &mut w);
        assert(w@ =~= be_bytes(self@.window_id as nat, 1));
        write_i16(self.action_number, &mut w);
        write_bool(self.accepted, &mut w);
        assert(w@ == window_confirmation_bytes(self@));
        write_raw(w.as_slice(), out);
        Ok(())
    }

    /// Reads the fields at `pos`.
    #[verifier::spinoff_prover]
    #[verifier::rlimit(100)]
    pub fn decode(input: &[u8], pos: usize) -> (r: Result<(WindowConfirmation, usize), ProtocolError>)
        requires
            pos <= input@.len(),
        ensures
            agrees(
                match r {
                    Ok((v, p)) => Ok((v@, p)),
                    Err(e) => Err(e),
                },
                input@,
                pos as int,
                parse_window_confirmation(input@.skip(pos as int)),
            ),
    {
        let cursor = pos;
        let (window_id, cursor) = match read_u8(input, cursor) {
            Ok((x, q)) => (x, q),
            Err(e) => return Err(e),
        };
        let (action_number, cursor) = match read_i16(input, cursor) {
            Ok((x, q)) => (x, q),
            Err(e) => return Err(e),
        };
        let (accepted, cursor) = match read_bool(input, cursor) {
            Ok((x, q)) => (x, q),
            Err(e) => return Err(e),
        };
        Ok((WindowConfirmation { window_id, action_number, accepted }, cursor))
    }
}

/// The fields of the ClickWindowButton packet (id 0x08).
#[derive(Debug, PartialEq)]
pub struct ClickWindowButton {
    pub button_id: i8,
}

pub struct ClickWindowButtonV {
    pub button_id: i8,
}

impl View for ClickWindowButton {
    type V = ClickWindowButtonV;

    open spec fn view(&self) -> ClickWindowButtonV {
        ClickWindowButtonV { button_id: self.button_id }
    }
}

pub open spec fn click_window_button_fits(v: ClickWindowButtonV) -> bool {
    true
}

pub open spec fn click_window_button_bytes(v: ClickWindowButtonV) -> Seq<u8> {
    signed_bytes(v.button_id as int, 1)
}

pub open spec fn parse_click_window_button(s: Seq<u8>) -> Parsed<ClickWindowButtonV> {
    match parse_i8(s) {
        Ok((button_id, s)) => Ok((ClickWindowButtonV { button_id }, s)),
        Err(e) => Err(e),
    }
}

/// Every ClickWindowButton packet whose fields fit reads back as itself, whatever follows.
#[verifier::spinoff_prover]
#[verifier::rlimit(100)]
pub proof fn lemma_click_window_button_round_trip(v: ClickWindowButtonV, rest: Seq<u8>)
    requires
        click_window_button_fits(v),
    ensures
        parse_click_window_button(click_window_button_bytes(v) + rest) == Ok::<(ClickWindowButtonV, Seq<u8>), ProtocolError>((v, rest)),
{
    lemma_pow256_values();
    let t1 = rest;
    let t0 = signed_bytes(v.button_id as int, 1) + t1;
    assert(click_window_button_bytes(v) + rest == t0);
    lemma_parse_signed(v.button_id as int, 1, t1);
}

impl ClickWindowButton {
    /// Appends the fields' wire form; fails, writing nothing, when a field does
    /// not fit.
    #[verifier::spinoff_prover]
    #[verifier::rlimit(100)]
    pub fn encode(&self, out: &mut Vec<u8>) -> (r: Result<(), ProtocolError>)
        ensures
            r is Ok <==> click_window_button_fits(self@),
            r is Ok ==> final(out)@ == old(out)@ + click_window_button_bytes(self@),
            r is Err ==> final(out)@ == old(out)@,
    {
        let mut w: Vec<u8> = Vec::new();
        write_i8(self.button_id, &mut w);
        assert(w@ =~= signed_bytes(self@.button_id as int, 1));
        assert(w@ == click_window_button_bytes(self@));
        write_raw(w.as_slice(), out);
        Ok(())
    }

    /// Reads the fields at `pos`.
    #[verifier::spinoff_prover]
    #[verifier::rlimit(100)]
    pub fn decode(input: &[u8], pos: usize) -> (r: Result<(ClickWindowButton, usize), ProtocolError>)
        requires
            pos <= input@.len(),
        ensures
            agrees(
                match r {
                    Ok((v, p)) => Ok((v@, p)),
                    Err(e) => Err(e),
                },
                input@,
                pos as int,
                parse_click_window_button(input@.skip(pos as int)),
            ),
    {
        let cursor = pos;
        let (button_id, cursor) = match read_i8(input, cursor) {
            Ok((x, q)) => (x, q),
            Err(e) => return Err(e),
        };
        Ok((ClickWindowButton { button_id }, cursor))
    }
}

/// The fields of the CloseWindow packet (id 0x0a).
#[derive(Debug, PartialEq)]
pub struct CloseWindow {
    pub window_id: u8,
}

pub struct CloseWindowV {
    pub window_id: u8,
}

impl View for CloseWindow {
    type V = CloseWindowV;

    open spec fn view(&self) -> CloseWindowV {
        CloseWindowV { window_id: self.window_id }
    }
}

pub open spec fn close_window_fits(v: CloseWindowV) -> bool {
    true
}

pub open spec fn close_window_bytes(v: CloseWindowV) -> Seq<u8> {
    be_bytes(v.window_id as nat, 1)
}

pub open spec fn parse_close_window(s: Seq<u8>) -> Parsed<CloseWindowV> {
    match parse_u8(s) {
        Ok((window_id, s)) => Ok((CloseWindowV { window_id }, s)),
        Err(e) => Err(e),
    }
}

/// Every CloseWindow packet whose fields fit reads back as itself, whatever follows.
#[verifier::spinoff_prover]
#[verifier::rlimit(100)]
pub proof fn lemma_close_window_round_trip(v: CloseWindowV, rest: Seq<u8>)
    requires
        close_window_fits(v),
    ensures
        parse_close_window(close_window_bytes(v) + rest) == Ok::<(CloseWindowV, Seq<u8>), ProtocolError>((v, rest)),
{
    lemma_pow256_values();
    let t1 = rest;
    let t0 = be_bytes(v.window_id as nat, 1) + t1;
    assert(close_window_bytes(v) + rest == t0);
    lemma_parse_be(v.window_id as nat, 1, t1);
}

impl CloseWindow {
    /// Appends the fields' wire form; fails, writing nothing, when a field does
    /// not fit.
    #[verifier::spinoff_prover]
    #[verifier::rlimit(100)]
    pub fn encode(&self, out: &mut Vec<u8>) -> (r: Result<(), ProtocolError>)
        ensures
            r is Ok <==> close_window_fits(self@),
            r is Ok ==> final(out)@ == old(out)@ + close_window_bytes(self@),
            r is Err ==> final(out)@ == old(out)@,
    {
        let mut w: Vec<u8> = Vec::new();
        write_u8(self.window_id, &mut w);
        assert(w@ =~= be_bytes(self@.window_id as nat, 1));
        assert(w@ == close_window_bytes(self@));
        write_raw(w.as_slice(), out);
        Ok(())
    }

    /// Reads the fields at `pos`.
    #[verifier::spinoff_prover]
    #[verifier::rlimit(100)]
    pub fn decode(input: &[u8], pos: usize) -> (r: Result<(CloseWindow, usize), ProtocolError>)
        requires
            pos <= input@.len(),
        ensures
            agrees(
                match r {
                    Ok((v, p)) => Ok((v@, p)),
                    Err(e) => Err(e),
                },
                input@,
                pos as int,
                parse_close_window(input@.skip(pos as int)),
            ),
    {
        let cursor = pos;
        let (window_id, cursor) = match read_u8(input, cursor) {
            Ok((x, q)) => (x, q),
            Err(e) => return Err(e),
        };
        Ok((CloseWindow { window_id }, cursor))
    }
}

/// The fields of the PluginMessage packet (id 0x0b).
#[derive(Debug, PartialEq)]
pub struct PluginMessage {
    pub channel: Identifier,
    pub data: Vec<u8>,
}

pub struct PluginMessageV {
    pub channel: Seq<char>,
    pub data: Seq<u8>,
}

impl View for PluginMessage {
    type V = PluginMessageV;

    open spec fn view(&self) -> PluginMessageV {
        PluginMessageV { channel: self.channel.0.0@, data: self.data@ }
    }
}

pub open spec fn plugin_message_fits(v: PluginMessageV) -> bool {
    short_string_fits(v.channel)
}

pub open spec fn plugin_message_bytes(v: PluginMessageV) -> Seq<u8> {
    string_bytes(v.channel) + (v.data)
}

pub open spec fn parse_plugin_message(s: Seq<u8>) -> Parsed<PluginMessageV> {
    match parse_short_string(s) {
        Ok((channel, s)) => Ok((PluginMessageV { channel, data: s }, seq![])),
        Err(e) => Err(e),
    }
}

/// Every PluginMessage packet whose fields fit reads back as itself, filling the frame.
#[verifier::spinoff_prover]
#[verifier::rlimit(100)]
pub proof fn lemma_plugin_message_round_trip(v: PluginMessageV)
    requires
        plugin_message_fits(v),
    ensures
        parse_plugin_message(plugin_message_bytes(v) + seq![]) == Ok::<(PluginMessageV, Seq<u8>), ProtocolError>((v, seq![])),
{
    let rest = Seq::<u8>::empty();
    lemma_pow256_values();
    let t2 = rest;
    let t1 = v.data + t2;
    let t0 = string_bytes(v.channel) + t1;
    lemma_assoc(string_bytes(v.channel), v.data, rest);
    assert(plugin_message_bytes(v) + rest == t0);
    lemma_parse_short_string(v.channel, t1);
    assert(v.data + rest =~= v.data);
}

impl PluginMessage {
    /// Appends the fields' wire form; fails, writing nothing, when a field does
    /// not fit.
    #[verifier::spinoff_prover]
    #[verifier::rlimit(100)]
    pub fn encode(&self, out: &mut Vec<u8>) -> (r: Result<(), ProtocolError>)
        ensures
            r is Ok <==> plugin_message_fits(self@),
            r is Ok ==> final(out)@ == old(out)@ + plugin_message_bytes(self@),
            r is Err ==> final(out)@ == old(out)@,
    {
        let mut w: Vec<u8> = Vec::new();
        if utf8_len(&self.channel.0.0) > 32767 {
            return Err(ProtocolError::StringTooLong);
        }
        self.channel.encode(&mut w);
        assert(w@ =~= string_bytes(self@.channel));
        write_raw(self.data.as_slice(), &mut w);
        assert(w@ == plugin_message_bytes(self@));
        write_raw(w.as_slice(), out);
        Ok(())
    }

    /// Reads the fields at `pos`.
    #[verifier::spinoff_prover]
    #[verifier::rlimit(100)]
    pub fn decode(input: &[u8], pos: usize) -> (r: Result<(PluginMessage, usize), ProtocolError>)
        requires
            pos <= input@.len(),
        ensures
            agrees(
                match r {
                    Ok((v, p)) => Ok((v@, p)),
                    Err(e) => Err(e),
                },
                input@,
                pos as int,
                parse_plugin_message(input@.skip(pos as int)),
            ),
    {
        let cursor = pos;
        let (channel, cursor) = match Identifier::decode(input, cursor) {
            Ok((x, q)) => (x, q),
            Err(e) => return Err(e),
        };
        let (data, cursor) = read_greedy(input, cursor);
        assert(input@.skip(cursor as int) =~= seq![]);
        Ok((PluginMessage { channel, data }, cursor))
    }
}

/// The fields of the GenerateStructure packet (id 0x0f).
#[derive(Debug, PartialEq)]
pub struct GenerateStructure {
    pub location: Position,
    pub levels: VarInt,
    pub keep_jigsaws: bool,
}

pub struct GenerateStructureV {
    pub location: Position,
    pub levels: i32,
    pub keep_jigsaws: bool,
}

impl View for GenerateStructure {
    type V = GenerateStructureV;

    open spec fn view(&self) -> GenerateStructureV {
        GenerateStructureV { location: self.location, levels: self.levels.0, keep_jigsaws: self.keep_jigsaws }
    }
}

pub open spec fn generate_structure_fits(v: GenerateStructureV) -> bool {
    position_in_range(v.location)
}

pub open spec fn generate_structure_bytes(v: GenerateStructureV) -> Seq<u8> {
    position_bytes(v.location) + (varint_bytes(v.levels) + (bool_bytes(v.keep_jigsaws)))
}

pub open spec fn parse_generate_structure(s: Seq<u8>) -> Parsed<GenerateStructureV> {
    match parse_position(s) {
        Ok((location, s)) => match parse_var_int(s) {
        Ok((levels, s)) => match parse_bool(s) {
        Ok((keep_jigsaws, s)) => Ok((GenerateStructureV { location, levels, keep_jigsaws }, s)),
        Err(e) => Err(e),
    },
        Err(e) => Err(e),
    },
        Err(e) => Err(e),
    }
}

/// Every GenerateStructure packet whose fields fit reads back as itself, whatever follows.
#[verifier::spinoff_prover]
#[verifier::rlimit(100)]
pub proof fn lemma_generate_structure_round_trip(v: GenerateStructureV, rest: Seq<u8>)
    requires
        generate_structure_fits(v),
    ensures
        parse_generate_structure(generate_structure_bytes(v) + rest) == Ok::<(GenerateStructureV, Seq<u8>), ProtocolError>((v, rest)),
{
    lemma_pow256_values();
    let t3 = rest;
    let t2 = bool_bytes(v.keep_jigsaws) + t3;
    let t1 = varint_bytes(v.levels) + t2;
    let t0 = position_bytes(v.location) + t1;
    lemma_assoc(position_bytes(v.location), varint_bytes(v.levels) + (bool_bytes(v.keep_jigsaws)), rest);
    lemma_assoc(varint_bytes(v.levels), bool_bytes(v.keep_jigsaws), rest);
    assert(generate_structure_bytes(v) + rest == t0);
    lemma_position_round_trip(v.location, t1);
    lemma_parse_var_int(v.levels, t2);
    lemma_parse_bool(v.keep_jigsaws, t3);
}

impl GenerateStructure {
    /// Appends the fields' wire form; fails, writing nothing, when a field does
    /// not fit.
    #[verifier::spinoff_prover]
    #[verifier::rlimit(100)]
    pub fn encode(&self, out: &mut Vec<u8>) -> (r: Result<(), ProtocolError>)
        ensures
            r is Ok <==> generate_structure_fits(self@),
            r is Ok ==> final(out)@ == old(out)@ + generate_structure_bytes(self@),
            r is Err ==> final(out)@ == old(out)@,
    {
        let mut w: Vec<u8> = Vec::new();
        match self.location.encode(&mut w) {
            Ok(()) => {},
            Err(e) => return Err(e),
        }
        assert(w@ =~= position_bytes(self@.location));
        self.levels.encode(&mut w);
        write_bool(self.keep_jigsaws, &mut w);
        assert(w@ == generate_structure_bytes(self@));
        write_raw(w.as_slice(), out);
        Ok(())
    }

    /// Reads the fields at `pos`.
    #[verifier::spinoff_prover]
    #[verifier::rlimit(100)]
    pub fn decode(input: &[u8], pos: usize) -> (r: Result<(GenerateStructure, usize), ProtocolError>)
        requires
            pos <= input@.len(),
        ensures
            agrees(
                match r {
                    Ok((v, p)) => Ok((v@, p)),
                    Err(e) => Err(e),
                },
                input@,
                pos as int,
                parse_generate_structure(input@.skip(pos as int)),
            ),
    {
        let cursor = pos;
        let (location, cursor) = match Position::decode(input, cursor) {
            Ok((x, q)) => (x, q),
            Err(e) => return Err(e),
        };
        let (levels, cursor) = match read_var_int(input, cursor) {
            Ok((x, q)) => (VarInt(x), q),
            Err(e) => return Err(e),
        };
        let (keep_jigsaws, cursor) = match read_bool(input, cursor) {
            Ok((x, q)) => (x, q),
            Err(e) => return Err(e),
        };
        Ok((GenerateStructure { location, levels, keep_jigsaws }, cursor))
    }
}

/// The fields of the LockDifficulty packet (id 0x11).
#[derive(Debug, PartialEq)]
pub struct LockDifficulty {
    pub locked: bool,
}

pub struct LockDifficultyV {
    pub locked: bool,
}

impl View for LockDifficulty {
    type V = LockDifficultyV;

    open spec fn view(&self) -> LockDifficultyV {
        LockDifficultyV { locked: self.locked }
    }
}

pub open spec fn lock_difficulty_fits(v: LockDifficultyV) -> bool {
    true
}

pub open spec fn lock_difficulty_bytes(v: LockDifficultyV) -> Seq<u8> {
    bool_bytes(v.locked)
}

pub open spec fn parse_lock_difficulty(s: Seq<u8>) -> Parsed<LockDifficultyV> {
    match parse_bool(s) {
        Ok((locked, s)) => Ok((LockDifficultyV { locked }, s)),
        Err(e) => Err(e),
    }
}

/// Every LockDifficulty packet whose fields fit reads back as itself, whatever follows.
#[verifier::spinoff_prover]
#[verifier::rlimit(100)]
pub proof fn lemma_lock_difficulty_round_trip(v: LockDifficultyV, rest: Seq<u8>)
    requires
        lock_difficulty_fits(v),
    ensures
        parse_lock_difficulty(lock_difficulty_bytes(v) + rest) == Ok::<(LockDifficultyV, Seq<u8>), ProtocolError>((v, rest)),
{
    lemma_pow256_values();
    let t1 = rest;
    let t0 = bool_bytes(v.locked) + t1;
    assert(lock_difficulty_bytes(v) + rest == t0);
    lemma_parse_bool(v.locked, t1);
}

impl LockDifficulty {
    /// Appends the fields' wire form; fails, writing nothing, when a field does
    /// not fit.
    #[verifier::spinoff_prover]
    #[verifier::rlimit(100)]
    pub fn encode(&self, out: &mut Vec<u8>) -> (r: Result<(), ProtocolError>)
        ensures
            r is Ok <==> lock_difficulty_fits(self@),
            r is Ok ==> final(out)@ == old(out)@ + lock_difficulty_bytes(self@),
            r is Err ==> final(out)@ == old(out)@,
    {
        let mut w: Vec<u8> = Vec::new();
        write_bool(self.locked, &mut w);
        assert(w@ =~= bool_bytes(self@.locked));
        assert(w@ == lock_difficulty_bytes(self@));
        write_raw(w.as_slice(), out);
        Ok(())
    }

    /// Reads the fields at `pos`.
    #[verifier::spinoff_prover]
    #[verifier::rlimit(100)]
    pub fn decode(input: &[u8], pos: usize) -> (r: Result<(LockDifficulty, usize), ProtocolError>)
        requires
            pos <= input@.len(),
        ensures
            agrees(
                match r {
                    Ok((v, p)) => Ok((v@, p)),
                    Err(e) => Err(e),
                },
                input@,
                pos as int,
                parse_lock_difficulty(input@.skip(pos as int)),
            ),
    {
        let cursor = pos;
        let (locked, cursor) = match read_bool(input, cursor) {
            Ok((x, q)) => (x, q),
            Err(e) => return Err(e),
        };
        Ok((LockDifficulty { locked }, cursor))
    }
}

/// The fields of the PlayerPosition packet (id 0x12).
#[derive(Debug, PartialEq)]
pub struct PlayerPosition {
    pub x: u64,
    pub y: u64,
    pub z: u64,
    pub on_ground: bool,
}

pub struct PlayerPositionV {
    pub x: u64,
    pub y: u64,
    pub z: u64,
    pub on_ground: bool,
}

impl View for PlayerPosition {
    type V = PlayerPositionV;

    open spec fn view(&self) -> PlayerPositionV {
        PlayerPositionV { x: self.x, y: self.y, z: self.z, on_ground: self.on_ground }
    }
}

pub open spec fn player_position_fits(v: PlayerPositionV) -> bool {
    true
}

pub open spec fn player_position_bytes(v: PlayerPositionV) -> Seq<u8> {
    be_bytes(v.x as nat, 8) + (be_bytes(v.y as nat, 8) + (be_bytes(v.z as nat, 8) + (bool_bytes(v.on_ground))))
}

pub open spec fn parse_player_position(s: Seq<u8>) -> Parsed<PlayerPositionV> {
    match parse_u64(s) {
        Ok((x, s)) => match parse_u64(s) {
        Ok((y, s)) => match parse_u64(s) {
        Ok((z, s)) => match parse_bool(s) {
        Ok((on_ground, s)) => Ok((PlayerPositionV { x, y, z, on_ground }, s)),
        Err(e) => Err(e),
    },
        Err(e) => Err(e),
    },
        Err(e) => Err(e),
    },
        Err(e) => Err(e),
    }
}

/// Every PlayerPosition packet whose fields fit reads back as itself, whatever follows.
#[verifier::spinoff_prover]
#[verifier::rlimit(100)]
pub proof fn lemma_player_position_round_trip(v: PlayerPositionV, rest: Seq<u8>)
    requires
        player_position_fits(v),
    ensures
        parse_player_position(player_position_bytes(v) + rest) == Ok::<(PlayerPositionV, Seq<u8>), ProtocolError>((v, rest)),
{
    lemma_pow256_values();
    let t4 = rest;
    let t3 = bool_bytes(v.on_ground) + t4;
    let t2 = be_bytes(v.z as nat, 8) + t3;
    let t1 = be_bytes(v.y as nat, 8) + t2;
    let t0 = be_bytes(v.x as nat, 8) + t1;
    lemma_assoc(be_bytes(v.x as nat, 8), be_bytes(v.y as nat, 8) + (be_bytes(v.z as nat, 8) + (bool_bytes(v.on_ground))), rest);
    lemma_assoc(be_bytes(v.y as nat, 8), be_bytes(v.z as nat, 8) + (bool_bytes(v.on_ground)), rest);
    lemma_assoc(be_bytes(v.z as nat, 8), bool_bytes(v.on_ground), rest);
    assert(player_position_bytes(v) + rest == t0);
    lemma_parse_be(v.x as nat, 8, t1);
    lemma_parse_be(v.y as nat, 8, t2);
    lemma_parse_be(v.z as nat, 8, t3);
    lemma_parse_bool(v.on_ground, t4);
}

impl PlayerPosition {
    /// Appends the fields' wire form; fails, writing nothing, when a field does
    /// not fit.
    #[verifier::spinoff_prover]
    #[verifier::rlimit(100)]
    pub fn encode(&self, out: &mut Vec<u8>) -> (r: Result<(), ProtocolError>)
        ensures
            r is Ok <==> player_position_fits(self@),
            r is Ok ==> final(out)@ == old(out)@ + player_position_bytes(self@),
            r is Err ==> final(out)@ == old(out)@,
    {
        let mut w: Vec<u8> = Vec::new();
        write_u64(self.x, &mut w);
        assert(w@ =~= be_bytes(self@.x as nat, 8));
        write_u64(self.y, &mut w);
        write_u64(self.z, &mut w);
        write_bool(self.on_ground, &mut w);
        assert(w@ == player_position_bytes(self@));
        write_raw(w.as_slice(), out);
        Ok(())
    }

    /// Reads the fields at `pos`.
    #[verifier::spinoff_prover]
    #[verifier::rlimit(100)]
    pub fn decode(input: &[u8], pos: usize) -> (r: Result<(PlayerPosition, usize), ProtocolError>)
        requires
            pos <= input@.len(),
        ensures
            agrees(
                match r {
                    Ok((v, p)) => Ok((v@, p)),
                    Err(e) => Err(e),
                },
                input@,
                pos as int,
                parse_player_position(input@.skip(pos as int)),
            ),
    {
        let cursor = pos;
        let (x, cursor) = match read_u64(input, cursor) {
            Ok((x, q)) => (x, q),
            Err(e) => return Err(e),
        };
        let (y, cursor) = match read_u64(input, cursor) {
            Ok((x, q)) => (x, q),
            Err(e) => return Err(e),
        };
        let (z, cursor) = match read_u64(input, cursor) {
            Ok((x, q)) => (x, q),
            Err(e) => return Err(e),
        };
        let (on_ground, cursor) = match read_bool(input, cursor) {
            Ok((x, q)) => (x, q),
            Err(e) => return Err(e),
        };
        Ok((PlayerPosition { x, y, z, on_ground }, cursor))
    }
}

/// The fields of the PlayerRotation packet (id 0x14).
#[derive(Debug, PartialEq)]
pub struct PlayerRotation {
    pub yaw: u32,
    pub pitch: u32,
    pub on_ground: bool,
}

pub struct PlayerRotationV {
    pub yaw: u32,
    pub pitch: u32,
    pub on_ground: bool,
}

impl View for PlayerRotation {
    type V = PlayerRotationV;

    open spec fn view(&self) -> PlayerRotationV {
        PlayerRotationV { yaw: self.yaw, pitch: self.pitch, on_ground: self.on_ground }
    }
}

pub open spec fn player_rotation_fits(v: PlayerRotationV) -> bool {
    true
}

pub open spec fn player_rotation_bytes(v: PlayerRotationV) -> Seq<u8> {
    be_bytes(v.yaw as nat, 4) + (be_bytes(v.pitch as nat, 4) + (bool_bytes(v.on_ground)))
}

pub open spec fn parse_player_rotation(s: Seq<u8>) -> Parsed<PlayerRotationV> {
    match parse_u32(s) {
        Ok((yaw, s)) => match parse_u32(s) {
        Ok((pitch, s)) => match parse_bool(s) {
        Ok((on_ground, s)) => Ok((PlayerRotationV { yaw, pitch, on_ground }, s)),
        Err(e) => Err(e),
    },
        Err(e) => Err(e),
    },
        Err(e) => Err(e),
    }
}

/// Every PlayerRotation packet whose fields fit reads back as itself, whatever follows.
#[verifier::spinoff_prover]
#[verifier::rlimit(100)]
pub proof fn lemma_player_rotation_round_trip(v: PlayerRotationV, rest: Seq<u8>)
    requires
        player_rotation_fits(v),
    ensures
        parse_player_rotation(player_rotation_bytes(v) + rest) == Ok::<(PlayerRotationV, Seq<u8>), ProtocolError>((v, rest)),
{
    lemma_pow256_values();
    let t3 = rest;
    let t2 = bool_bytes(v.on_ground) + t3;
    let t1 = be_bytes(v.pitch as nat, 4) + t2;
    let t0 = be_bytes(v.yaw as nat, 4) + t1;
    lemma_assoc(be_bytes(v.yaw as nat, 4), be_bytes(v.pitch as nat, 4) + (bool_bytes(v.on_ground)), rest);
    lemma_assoc(be_bytes(v.pitch as nat, 4), bool_bytes(v.on_ground), rest);
    assert(player_rotation_bytes(v) + rest == t0);
    lemma_parse_be(v.yaw as nat, 4, t1);
    lemma_parse_be(v.pitch as nat, 4, t2);
    lemma_parse_bool(v.on_ground, t3);
}

impl PlayerRotation {
    /// Appends the fields' wire form; fails, writing nothing, when a field does
    /// not fit.
    #[verifier::spinoff_prover]
    #[verifier::rlimit(100)]
    pub fn encode(&self, out: &mut Vec<u8>) -> (r: Result<(), ProtocolError>)
        ensures
            r is Ok <==> player_rotation_fits(self@),
            r is Ok ==> final(out)@ == old(out)@ + player_rotation_bytes(self@),
            r is Err ==> final(out)@ == old(out)@,
    {
        let mut w: Vec<u8> = Vec::new();
        write_u32(self.yaw, &mut w);
        assert(w@ =~= be_bytes(self@.yaw as nat, 4));
        write_u32(self.pitch, &mut w);
        write_bool(self.on_ground, &mut w);
        assert(w@ == player_rotation_bytes(self@));
        write_raw(w.as_slice(), out);
        Ok(())
    }

    /// Reads the fields at `pos`.
    #[verifier::spinoff_prover]
    #[verifier::rlimit(100)]
    pub fn decode(input: &[u8], pos: usize) -> (r: Result<(PlayerRotation, usize), ProtocolError>)
        requires
            pos <= input@.len(),
        ensures
            agrees(
                match r {
                    Ok((v, p)) => Ok((v@, p)),
                    Err(e) => Err(e),
                },
                input@,
                pos as int,
                parse_player_rotation(input@.skip(pos as int)),
            ),
    {
        let cursor = pos;
        let (yaw, cursor) = match read_u32(input, cursor) {
            Ok((x, q)) => (x, q),
            Err(e) => return Err(e),
        };
        let (pitch, cursor) = match read_u32(input, cursor) {
            Ok((x, q)) => (x, q),
            Err(e) => return Err(e),
        };
        let (on_ground, cursor) = match read_bool(input, cursor) {
            Ok((x, q)) => (x, q),
            Err(e) => return Err(e),
        };
        Ok((PlayerRotation { yaw, pitch, on_ground }, cursor))
    }
}

/// The fields of the PlayerMovement packet (id 0x15).
#[derive(Debug, PartialEq)]
pub struct PlayerMovement {
    pub on_ground: bool,
}

pub struct PlayerMovementV {
    pub on_ground: bool,
}

impl View for PlayerMovement {
    type V = PlayerMovementV;

    open spec fn view(&self) -> PlayerMovementV {
        PlayerMovementV { on_ground: self.on_ground }
    }
}

pub open spec fn player_movement_fits(v: PlayerMovementV) -> bool {
    true
}

pub open spec fn player_movement_bytes(v: PlayerMovementV) -> Seq<u8> {
    bool_bytes(v.on_ground)
}

pub open spec fn parse_player_movement(s: Seq<u8>) -> Parsed<PlayerMovementV> {
    match parse_bool(s) {
        Ok((on_ground, s)) => Ok((PlayerMovementV { on_ground }, s)),
        Err(e) => Err(e),
    }
}

/// Every PlayerMovement packet whose fields fit reads back as itself, whatever follows.
#[verifier::spinoff_prover]
#[verifier::rlimit(100)]
pub proof fn lemma_player_movement_round_trip(v: PlayerMovementV, rest: Seq<u8>)
    requires
        player_movement_fits(v),
    ensures
        parse_player_movement(player_movement_bytes(v) + rest) == Ok::<(PlayerMovementV, Seq<u8>), ProtocolError>((v, rest)),
{
    lemma_pow256_values();
    let t1 = rest;
    let t0 = bool_bytes(v.on_ground) + t1;
    assert(player_movement_bytes(v) + rest == t0);
    lemma_parse_bool(v.on_ground, t1);
}

impl PlayerMovement {
    /// Appends the fields' wire form; fails, writing nothing, when a field does
    /// not fit.
    #[verifier::spinoff_prover]
    #[verifier::rlimit(100)]
    pub fn encode(&self, out: &mut Vec<u8>) -> (r: Result<(), ProtocolError>)
        ensures
            r is Ok <==> player_movement_fits(self@),
            r is Ok ==> final(out)@ == old(out)@ + player_movement_bytes(self@),
            r is Err ==> final(out)@ == old(out)@,
    {
        let mut w: Vec<u8> = Vec::new();
        write_bool(self.on_ground, &mut w);
        assert(w@ =~= bool_bytes(self@.on_ground));
        assert(w@ == player_movement_bytes(self@));
        write_raw(w.as_slice(), out);
        Ok(())
    }

    /// Reads the fields at `pos`.
    #[verifier::spinoff_prover]
    #[verifier::rlimit(100)]
    pub fn decode(input: &[u8], pos: usize) -> (r: Result<(PlayerMovement, usize), ProtocolError>)
        requires
            pos <= input@.len(),
        ensures
            agrees(
                match r {
                    Ok((v, p)) => Ok((v@, p)),
                    Err(e) => Err(e),
                },
                input@,
                pos as int,
                parse_player_movement(input@.skip(pos as int)),
            ),
    {
        let cursor = pos;
        let (on_ground, cursor) = match read_bool(input, cursor) {
            Ok((x, q)) => (x, q),
            Err(e) => return Err(e),
        };
        Ok((PlayerMovement { on_ground }, cursor))
    }
}

/// The fields of the VehicleMove packet (id 0x16).
#[derive(Debug, PartialEq)]
pub struct VehicleMove {
    pub x: u64,
    pub y: u64,
    pub z: u64,
    pub yaw: u32,
    pub pitch: u32,
}

pub struct VehicleMoveV {
    pub x: u64,
    pub y: u64,
    pub z: u64,
    pub yaw: u32,
    pub pitch: u32,
}

impl View for VehicleMove {
    type V = VehicleMoveV;

    open spec fn view(&self) -> VehicleMoveV {
        VehicleMoveV { x: self.x, y: self.y, z: self.z, yaw: self.yaw, pitch: self.pitch }
    }
}

pub open spec fn vehicle_move_fits(v: VehicleMoveV) -> bool {
    true
}

pub open spec fn vehicle_move_bytes(v: VehicleMoveV) -> Seq<u8> {
    be_bytes(v.x as nat, 8) + (be_bytes(v.y as nat, 8) + (be_bytes(v.z as nat, 8) + (be_bytes(v.yaw as nat, 4) + (be_bytes(v.pitch as nat, 4)))))
}

pub open spec fn parse_vehicle_move(s: Seq<u8>) -> Parsed<VehicleMoveV> {
    match parse_u64(s) {
        Ok((x, s)) => match parse_u64(s) {
        Ok((y, s)) => match parse_u64(s) {
        Ok((z, s)) => match parse_u32(s) {
        Ok((yaw, s)) => match parse_u32(s) {
        Ok((pitch, s)) => Ok((VehicleMoveV { x, y, z, yaw, pitch }, s)),
        Err(e) => Err(e),
    },
        Err(e) => Err(e),
    },
        Err(e) => Err(e),
    },
        Err(e) => Err(e),
    },
        Err(e) => Err(e),
    }
}

/// Every VehicleMove packet whose fields fit reads back as itself, whatever follows.
#[verifier::spinoff_prover]
#[verifier::rlimit(100)]
pub proof fn lemma_vehicle_move_round_trip(v: VehicleMoveV, rest: Seq<u8>)
    requires
        vehicle_move_fits(v),
    ensures
        parse_vehicle_move(vehicle_move_bytes(v) + rest) == Ok::<(VehicleMoveV, Seq<u8>), ProtocolError>((v, rest)),
{
    lemma_pow256_values();
    let t5 = rest;
    let t4 = be_bytes(v.pitch as nat, 4) + t5;
    let t3 = be_bytes(v.yaw as nat, 4) + t4;
    let t2 = be_bytes(v.z as nat, 8) + t3;
    let t1 = be_bytes(v.y as nat, 8) + t2;
    let t0 = be_bytes(v.x as nat, 8) + t1;
    lemma_assoc(be_bytes(v.x as nat, 8), be_bytes(v.y as nat, 8) + (be_bytes(v.z as nat, 8) + (be_bytes(v.yaw as nat, 4) + (be_bytes(v.pitch as nat, 4)))), rest);
    lemma_assoc(be_bytes(v.y as nat, 8), be_bytes(v.z as nat, 8) + (be_bytes(v.yaw as nat, 4) + (be_bytes(v.pitch as nat, 4))), rest);
    lemma_assoc(be_bytes(v.z as nat, 8), be_bytes(v.yaw as nat, 4) + (be_bytes(v.pitch as nat, 4)), rest);
    lemma_assoc(be_bytes(v.yaw as nat, 4), be_bytes(v.pitch as nat, 4), rest);
    assert(vehicle_move_bytes(v) + rest == t0);
    lemma_parse_be(v.x as nat, 8, t1);
    lemma_parse_be(v.y as nat, 8, t2);
    lemma_parse_be(v.z as nat, 8, t3);
    lemma_parse_be(v.yaw as nat, 4, t4);
    lemma_parse_be(v.pitch as nat, 4, t5);
}

impl VehicleMove {
    /// Appends the fields' wire form; fails, writing nothing, when a field does
    /// not fit.
    #[verifier::spinoff_prover]
    #[verifier::rlimit(100)]
    pub fn encode(&self, out: &mut Vec<u8>) -> (r: Result<(), ProtocolError>)
        ensures
            r is Ok <==> vehicle_move_fits(self@),
            r is Ok ==> final(out)@ == old(out)@ + vehicle_move_bytes(self@),
            r is Err ==> final(out)@ == old(out)@,
    {
        let mut w: Vec<u8> = Vec::new();
        write_u64(self.x, &mut w);
        assert(w@ =~= be_bytes(self@.x as nat, 8));
        write_u64(self.y, &mut w);
        write_u64(self.z, &mut w);
        write_u32(self.yaw, &mut w);
        write_u32(self.pitch, &mut w);
        assert(w@ == vehicle_move_bytes(self@));
        write_raw(w.as_slice(), out);
        Ok(())
    }

    /// Reads the fields at `pos`.
    #[verifier::spinoff_prover]
    #[verifier::rlimit(100)]
    pub fn decode(input: &[u8], pos: usize) -> (r: Result<(VehicleMove, usize), ProtocolError>)
        requires
            pos <= input@.len(),
        ensures
            agrees(
                match r {
                    Ok((v, p)) => Ok((v@, p)),
                    Err(e) => Err(e),
                },
                input@,
                pos as int,
                parse_vehicle_move(input@.skip(pos as int)),
            ),
    {
        let cursor = pos;
        let (x, cursor) = match read_u64(input, cursor) {
            Ok((x, q)) => (x, q),
            Err(e) => return Err(e),
        };
        let (y, cursor) = match read_u64(input, cursor) {
            Ok((x, q)) => (x, q),
            Err(e) => return Err(e),
        };
        let (z, cursor) = match read_u64(input, cursor) {
            Ok((x, q)) => (x, q),
            Err(e) => return Err(e),
        };
        let (yaw, cursor) = match read_u32(input, cursor) {
            Ok((x, q)) => (x, q),
            Err(e) => return Err(e),
        };
        let (pitch, cursor) = match read_u32(input, cursor) {
            Ok((x, q)) => (x, q),
            Err(e) => return Err(e),
        };
        Ok((VehicleMove { x, y, z, yaw, pitch }, cursor))
    }
}

/// The fields of the SteerBoat packet (id 0x17).
#[derive(Debug, PartialEq)]
pub struct SteerBoat {
    pub left_paddle_turning: bool,
    pub right_paddle_turning: bool,
}

pub struct SteerBoatV {
    pub left_paddle_turning: bool,
    pub right_paddle_turning: bool,
}

impl View for SteerBoat {
    type V = SteerBoatV;

    open spec fn view(&self) -> SteerBoatV {
        SteerBoatV { left_paddle_turning: self.left_paddle_turning, right_paddle_turning: self.right_paddle_turning }
    }
}

pub open spec fn steer_boat_fits(v: SteerBoatV) -> bool {
    true
}

pub open spec fn steer_boat_bytes(v: SteerBoatV) -> Seq<u8> {
    bool_bytes(v.left_paddle_turning) + (bool_bytes(v.right_paddle_turning))
}

pub open spec fn parse_steer_boat(s: Seq<u8>) -> Parsed<SteerBoatV> {
    match parse_bool(s) {
        Ok((left_paddle_turning, s)) => match parse_bool(s) {
        Ok((right_paddle_turning, s)) => Ok((SteerBoatV { left_paddle_turning, right_paddle_turning }, s)),
        Err(e) => Err(e),
    },
        Err(e) => Err(e),
    }
}

/// Every SteerBoat packet whose fields fit reads back as itself, whatever follows.
#[verifier::spinoff_prover]
#[verifier::rlimit(100)]
pub proof fn lemma_steer_boat_round_trip(v: SteerBoatV, rest: Seq<u8>)
    requires
        steer_boat_fits(v),
    ensures
        parse_steer_boat(steer_boat_bytes(v) + rest) == Ok::<(SteerBoatV, Seq<u8>), ProtocolError>((v, rest)),
{
    lemma_pow256_values();
    let t2 = rest;
    let t1 = bool_bytes(v.right_paddle_turning) + t2;
    let t0 = bool_bytes(v.left_paddle_turning) + t1;
    lemma_assoc(bool_bytes(v.left_paddle_turning), bool_bytes(v.right_paddle_turning), rest);
    assert(steer_boat_bytes(v) + rest == t0);
    lemma_parse_bool(v.left_paddle_turning, t1);
    lemma_parse_bool(v.right_paddle_turning, t2);
}

impl SteerBoat {
    /// Appends the fields' wire form; fails, writing nothing, when a field does
    /// not fit.
    #[verifier::spinoff_prover]
    #[verifier::rlimit(100)]
    pub fn encode(&self, out: &mut Vec<u8>) -> (r: Result<(), ProtocolError>)
        ensures
            r is Ok <==> steer_boat_fits(self@),
            r is Ok ==> final(out)@ == old(out)@ + steer_boat_bytes(self@),
            r is Err ==> final(out)@ == old(out)@,
    {
        let mut w: Vec<u8> = Vec::new();
        write_bool(self.left_paddle_turning, &mut w);
        assert(w@ =~= bool_bytes(self@.left_paddle_turning));
        write_bool(self.right_paddle_turning, &mut w);
        assert(w@ == steer_boat_bytes(self@));
        write_raw(w.as_slice(), out);
        Ok(())
    }

    /// Reads the fields at `pos`.
    #[verifier::spinoff_prover]
    #[verifier::rlimit(100)]
    pub fn decode(input: &[u8], pos: usize) -> (r: Result<(SteerBoat, usize), ProtocolError>)
        requires
            pos <= input@.len(),
        ensures
            agrees(
                match r {
                    Ok((v, p)) => Ok((v@, p)),
                    Err(e) => Err(e),
                },
                input@,
                pos as int,
                parse_steer_boat(input@.skip(pos as int)),
            ),
    {
        let cursor = pos;
        let (left_paddle_turning, cursor) = match read_bool(input, cursor) {
            Ok((x, q)) => (x, q),
            Err(e) => return Err(e),
        };
        let (right_paddle_turning, cursor) = match read_bool(input, cursor) {
            Ok((x, q)) => (x, q),
            Err(e) => return Err(e),
        };
        Ok((SteerBoat { left_paddle_turning, right_paddle_turning }, cursor))
    }
}

/// The fields of the PickItem packet (id 0x18).
#[derive(Debug, PartialEq)]
pub struct PickItem {
    pub slot: VarInt,
}

pub struct PickItemV {
    pub slot: i32,
}

impl View for PickItem {
    type V = PickItemV;

    open spec fn view(&self) -> PickItemV {
        PickItemV { slot: self.slot.0 }
    }
}

pub open spec fn pick_item_fits(v: PickItemV) -> bool {
    true
}

pub open spec fn pick_item_bytes(v: PickItemV) -> Seq<u8> {
    varint_bytes(v.slot)
}

pub open spec fn parse_pick_item(s: Seq<u8>) -> Parsed<PickItemV> {
    match parse_var_int(s) {
        Ok((slot, s)) => Ok((PickItemV { slot }, s)),
        Err(e) => Err(e),
    }
}

/// Every PickItem packet whose fields fit reads back as itself, whatever follows.
#[verifier::spinoff_prover]
#[verifier::rlimit(100)]
pub proof fn lemma_pick_item_round_trip(v: PickItemV, rest: Seq<u8>)
    requires
        pick_item_fits(v),
    ensures
        parse_pick_item(pick_item_bytes(v) + rest) == Ok::<(PickItemV, Seq<u8>), ProtocolError>((v, rest)),
{
    lemma_pow256_values();
    let t1 = rest;
    let t0 = varint_bytes(v.slot) + t1;
    assert(pick_item_bytes(v) + rest == t0);
    lemma_parse_var_int(v.slot, t1);
}

impl PickItem {
    /// Appends the fields' wire form; fails, writing nothing, when a field does
    /// not fit.
    #[verifier::spinoff_prover]
    #[verifier::rlimit(100)]
    pub fn encode(&self, out: &mut Vec<u8>) -> (r: Result<(), ProtocolError>)
        ensures
            r is Ok <==> pick_item_fits(self@),
            r is Ok ==> final(out)@ == old(out)@ + pick_item_bytes(self@),
            r is Err ==> final(out)@ == old(out)@,
    {
        let mut w: Vec<u8> = Vec::new();
        self.slot.encode(&mut w);
        assert(w@ =~= varint_bytes(self@.slot));
        assert(w@ == pick_item_bytes(self@));
        write_raw(w.as_slice(), out);
        Ok(())
    }

    /// Reads the fields at `pos`.
    #[verifier::spinoff_prover]
    #[verifier::rlimit(100)]
    pub fn decode(input: &[u8], pos: usize) -> (r: Result<(PickItem, usize), ProtocolError>)
        requires
            pos <= input@.len(),
        ensures
            agrees(
                match r {
                    Ok((v, p)) => Ok((v@, p)),
                    Err(e) => Err(e),
                },
                input@,
                pos as int,
                parse_pick_item(input@.skip(pos as int)),
            ),
    {
        let cursor = pos;
        let (slot, cursor) = match read_var_int(input, cursor) {
            Ok((x, q)) => (VarInt(x), q),
            Err(e) => return Err(e),
        };
        Ok((PickItem { slot }, cursor))
    }
}

/// The fields of the CraftRecipeRequest packet (id 0x19).
#[derive(Debug, PartialEq)]
pub struct CraftRecipeRequest {
    pub window_id: u8,
    pub recipe: Identifier,
    pub make_all: bool,
}

pub struct CraftRecipeRequestV {
    pub window_id: u8,
    pub recipe: Seq<char>,
    pub make_all: bool,
}

impl View for CraftRecipeRequest {
    type V = CraftRecipeRequestV;

    open spec fn view(&self) -> CraftRecipeRequestV {
        CraftRecipeRequestV { window_id: self.window_id, recipe: self.recipe.0.0@, make_all: self.make_all }
    }
}

pub open spec fn craft_recipe_request_fits(v: CraftRecipeRequestV) -> bool {
    short_string_fits(v.recipe)
}

pub open spec fn craft_recipe_request_bytes(v: CraftRecipeRequestV) -> Seq<u8> {
    be_bytes(v.window_id as nat, 1) + (string_bytes(v.recipe) + (bool_bytes(v.make_all)))
}

pub open spec fn parse_craft_recipe_request(s: Seq<u8>) -> Parsed<CraftRecipeRequestV> {
    match parse_u8(s) {
        Ok((window_id, s)) => match parse_short_string(s) {
        Ok((recipe, s)) => match parse_bool(s) {
        Ok((make_all, s)) => Ok((CraftRecipeRequestV { window_id, recipe, make_all }, s)),
        Err(e) => Err(e),
    },
        Err(e) => Err(e),
    },
        Err(e) => Err(e),
    }
}

/// Every CraftRecipeRequest packet whose fields fit reads back as itself, whatever follows.
#[verifier::spinoff_prover]
#[verifier::rlimit(100)]
pub proof fn lemma_craft_recipe_request_round_trip(v: CraftRecipeRequestV, rest: Seq<u8>)
    requires
        craft_recipe_request_fits(v),
    ensures
        parse_craft_recipe_request(craft_recipe_request_bytes(v) + rest) == Ok::<(CraftRecipeRequestV, Seq<u8>), ProtocolError>((v, rest)),
{
    lemma_pow256_values();
    let t3 = rest;
    let t2 = bool_bytes(v.make_all) + t3;
    let t1 = string_bytes(v.recipe) + t2;
    let t0 = be_bytes(v.window_id as nat, 1) + t1;
    lemma_assoc(be_bytes(v.window_id as nat, 1), string_bytes(v.recipe) + (bool_bytes(v.make_all)), rest);
    lemma_assoc(string_bytes(v.recipe), bool_bytes(v.make_all), rest);
    assert(craft_recipe_request_bytes(v) + rest == t0);
    lemma_parse_be(v.window_id as nat, 1, t1);
    lemma_parse_short_string(v.recipe, t2);
    lemma_parse_bool(v.make_all, t3);
}

impl CraftRecipeRequest {
    /// Appends the fields' wire form; fails, writing nothing, when a field does
    /// not fit.
    #[verifier::spinoff_prover]
    #[verifier::rlimit(100)]
    pub fn encode(&self, out: &mut Vec<u8>) -> (r: Result<(), ProtocolError>)
        ensures
            r is Ok <==> craft_recipe_request_fits(self@),
            r is Ok ==> final(out)@ == old(out)@ + craft_recipe_request_bytes(self@),
            r is Err ==> final(out)@ == old(out)@,
    {
        let mut w: Vec<u8> = Vec::new();
        write_u8(self.window_id, &mut w);
        assert(w@ =~= be_bytes(self@.window_id as nat, 1));
        if utf8_len(&self.recipe.0.0) > 32767 {
            return Err(ProtocolError::StringTooLong);
        }
        self.recipe.encode(&mut w);
        write_bool(self.make_all, &mut w);
        assert(w@ == craft_recipe_request_bytes(self@));
        write_raw(w.as_slice(), out);
        Ok(())
    }

    /// Reads the fields at `pos`.
    #[verifier::spinoff_prover]
    #[verifier::rlimit(100)]
    pub fn decode(input: &[u8], pos: usize) -> (r: Result<(CraftRecipeRequest, usize), ProtocolError>)
        requires
            pos <= input@.len(),
        ensures
            agrees(
                match r {
                    Ok((v, p)) => Ok((v@, p)),
                    Err(e) => Err(e),
                },
                input@,
                pos as int,
                parse_craft_recipe_request(input@.skip(pos as int)),
            ),
    {
        let cursor = pos;
        let (window_id, cursor) = match read_u8(input, cursor) {
            Ok((x, q)) => (x, q),
            Err(e) => return Err(e),
        };
        let (recipe, cursor) = match Identifier::decode(input, cursor) {
            Ok((x, q)) => (x, q),
            Err(e) => return Err(e),
        };
        let (make_all, cursor) = match read_bool(input, cursor) {
            Ok((x, q)) => (x, q),
            Err(e) => return Err(e),
        };
        Ok((CraftRecipeRequest { window_id, recipe, make_all }, cursor))
    }
}

/// The fields of the PlayerAbilities packet (id 0x1a).
#[derive(Debug, PartialEq)]
pub struct PlayerAbilities {
    pub flags: i8,
}

pub struct PlayerAbilitiesV {
    pub flags: i8,
}

impl View for PlayerAbilities {
    type V = PlayerAbilitiesV;

    open spec fn view(&self) -> PlayerAbilitiesV {
        PlayerAbilitiesV { flags: self.flags }
    }
}

pub open spec fn player_abilities_fits(v: PlayerAbilitiesV) -> bool {
    true
}

pub open spec fn player_abilities_bytes(v: PlayerAbilitiesV) -> Seq<u8> {
    signed_bytes(v.flags as int, 1)
}

pub open spec fn parse_player_abilities(s: Seq<u8>) -> Parsed<PlayerAbilitiesV> {
    match parse_i8(s) {
        Ok((flags, s)) => Ok((PlayerAbilitiesV { flags }, s)),
        Err(e) => Err(e),
    }
}

/// Every PlayerAbilities packet whose fields fit reads back as itself, whatever follows.
#[verifier::spinoff_prover]
#[verifier::rlimit(100)]
pub proof fn lemma_player_abilities_round_trip(v: PlayerAbilitiesV, rest: Seq<u8>)
    requires
        player_abilities_fits(v),
    ensures
        parse_player_abilities(player_abilities_bytes(v) + rest) == Ok::<(PlayerAbilitiesV, Seq<u8>), ProtocolError>((v, rest)),
{
    lemma_pow256_values();
    let t1 = rest;
    let t0 = signed_bytes(v.flags as int, 1) + t1;
    assert(player_abilities_bytes(v) + rest == t0);
    lemma_parse_signed(v.flags as int, 1, t1);
}

impl PlayerAbilities {
    /// Appends the fields' wire form; fails, writing nothing, when a field does
    /// not fit.
    #[verifier::spinoff_prover]
    #[verifier::rlimit(100)]
    pub fn encode(&self, out: &mut Vec<u8>) -> (r: Result<(), ProtocolError>)
        ensures
            r is Ok <==> player_abilities_fits(self@),
            r is Ok ==> final(out)@ == old(out)@ + player_abilities_bytes(self@),
            r is Err ==> final(out)@ == old(out)@,
    {
        let mut w: Vec<u8> = Vec::new();
        write_i8(self.flags, &mut w);
        assert(w@ =~= signed_bytes(self@.flags as int, 1));
        assert(w@ == player_abilities_bytes(self@));
        write_raw(w.as_slice(), out);
        Ok(())
    }

    /// Reads the fields at `pos`.
    #[verifier::spinoff_prover]
    #[verifier::rlimit(100)]
    pub fn decode(input: &[u8], pos: usize) -> (r: Result<(PlayerAbilities, usize), ProtocolError>)
        requires
            pos <= input@.len(),
        ensures
            agrees(
                match r {
                    Ok((v, p)) => Ok((v@, p)),
                    Err(e) => Err(e),
                },
                input@,
                pos as int,
                parse_player_abilities(input@.skip(pos as int)),
            ),
    {
        let cursor = pos;
        let (flags, cursor) = match read_i8(input, cursor) {
            Ok((x, q)) => (x, q),
            Err(e) => return Err(e),
        };
        Ok((PlayerAbilities { flags }, cursor))
    }
}

/// The fields of the PlayerDigging packet (id 0x1b).
#[derive(Debug, PartialEq)]
pub struct PlayerDigging {
    pub status: VarInt,
    pub location: Position,
    pub face: i8,
}

pub struct PlayerDiggingV {
    pub status: i32,
    pub location: Position,
    pub face: i8,
}

impl View for PlayerDigging {
    type V = PlayerDiggingV;

    open spec fn view(&self) -> PlayerDiggingV {
        PlayerDiggingV { status: self.status.0, location: self.location, face: self.face }
    }
}

pub open spec fn player_digging_fits(v: PlayerDiggingV) -> bool {
    position_in_range(v.location)
}

pub open spec fn player_digging_bytes(v: PlayerDiggingV) -> Seq<u8> {
    varint_bytes(v.status) + (position_bytes(v.location) + (signed_bytes(v.face as int, 1)))
}

pub open spec fn parse_player_digging(s: Seq<u8>) -> Parsed<PlayerDiggingV> {
    match parse_var_int(s) {
        Ok((status, s)) => match parse_position(s) {
        Ok((location, s)) => match parse_i8(s) {
        Ok((face, s)) => Ok((PlayerDiggingV { status, location, face }, s)),
        Err(e) => Err(e),
    },
        Err(e) => Err(e),
    },
        Err(e) => Err(e),
    }
}

/// Every PlayerDigging packet whose fields fit reads back as itself, whatever follows.
#[verifier::spinoff_prover]
#[verifier::rlimit(100)]
pub proof fn lemma_player_digging_round_trip(v: PlayerDiggingV, rest: Seq<u8>)
    requires
        player_digging_fits(v),
    ensures
        parse_player_digging(player_digging_bytes(v) + rest) == Ok::<(PlayerDiggingV, Seq<u8>), ProtocolError>((v, rest)),
{
    lemma_pow256_values();
    let t3 = rest;
    let t2 = signed_bytes(v.face as int, 1) + t3;
    let t1 = position_bytes(v.location) + t2;
    let t0 = varint_bytes(v.status) + t1;
    lemma_assoc(varint_bytes(v.status), position_bytes(v.location) + (signed_bytes(v.face as int, 1)), rest);
    lemma_assoc(position_bytes(v.location), signed_bytes(v.face as int, 1), rest);
    assert(player_digging_bytes(v) + rest == t0);
    lemma_parse_var_int(v.status, t1);
    lemma_position_round_trip(v.location, t2);
    lemma_parse_signed(v.face as int, 1, t3);
}

impl PlayerDigging {
    /// Appends the fields' wire form; fails, writing nothing, when a field does
    /// not fit.
    #[verifier::spinoff_prover]
    #[verifier::rlimit(100)]
    pub fn encode(&self, out: &mut Vec<u8>) -> (r: Result<(), ProtocolError>)
        ensures
            r is Ok <==> player_digging_fits(self@),
            r is Ok ==> final(out)@ == old(out)@ + player_digging_bytes(self@),
            r is Err ==> final(out)@ == old(out)@,
    {
        let mut w: Vec<u8> = Vec::new();
        self.status.encode(&mut w);
        assert(w@ =~= varint_bytes(self@.status));
        match self.location.encode(&mut w) {
            Ok(()) => {},
            Err(e) => return Err(e),
        }
        write_i8(self.face, &mut w);
        assert(w@ == player_digging_bytes(self@));
        write_raw(w.as_slice(), out);
        Ok(())
    }

    /// Reads the fields at `pos`.
    #[verifier::spinoff_prover]
    #[verifier::rlimit(100)]
    pub fn decode(input: &[u8], pos: usize) -> (r: Result<(PlayerDigging, usize), ProtocolError>)
        requires
            pos <= input@.len(),
        ensures
            agrees(
                match r {
                    Ok((v, p)) => Ok((v@, p)),
                    Err(e) => Err(e),
                },
                input@,
                pos as int,
                parse_player_digging(input@.skip(pos as int)),
            ),
    {
        let cursor = pos;
        let (status, cursor) = match read_var_int(input, cursor) {
            Ok((x, q)) => (VarInt(x), q),
            Err(e) => return Err(e),
        };
        let (location, cursor) = match Position::decode(input, cursor) {
            Ok((x, q)) => (x, q),
            Err(e) => return Err(e),
        };
        let (face, cursor) = match read_i8(input, cursor) {
            Ok((x, q)) => (x, q),
            Err(e) => return Err(e),
        };
        Ok((PlayerDigging { status, location, face }, cursor))
    }
}

/// The fields of the EntityAction packet (id 0x1c).
#[derive(Debug, PartialEq)]
pub struct EntityAction {
    pub entity_id: VarInt,
    pub action_id: VarInt,
    pub jump_boost: VarInt,
}

pub struct EntityActionV {
    pub entity_id: i32,
    pub action_id: i32,
    pub jump_boost: i32,
}

impl View for EntityAction {
    type V = EntityActionV;

    open spec fn view(&self) -> EntityActionV {
        EntityActionV { entity_id: self.entity_id.0, action_id: self.action_id.0, jump_boost: self.jump_boost.0 }
    }
}

pub open spec fn entity_action_fits(v: EntityActionV) -> bool {
    true
}

pub open spec fn entity_action_bytes(v: EntityActionV) -> Seq<u8> {
    varint_bytes(v.entity_id) + (varint_bytes(v.action_id) + (varint_bytes(v.jump_boost)))
}

pub open spec fn parse_entity_action(s: Seq<u8>) -> Parsed<EntityActionV> {
    match parse_var_int(s) {
        Ok((entity_id, s)) => match parse_var_int(s) {
        Ok((action_id, s)) => match parse_var_int(s) {
        Ok((jump_boost, s)) => Ok((EntityActionV { entity_id, action_id, jump_boost }, s)),
        Err(e) => Err(e),
    },
        Err(e) => Err(e),
    },
        Err(e) => Err(e),
    }
}

/// Every EntityAction packet whose fields fit reads back as itself, whatever follows.
#[verifier::spinoff_prover]
#[verifier::rlimit(100)]
pub proof fn lemma_entity_action_round_trip(v: EntityActionV, rest: Seq<u8>)
    requires
        entity_action_fits(v),
    ensures
        parse_entity_action(entity_action_bytes(v) + rest) == Ok::<(EntityActionV, Seq<u8>), ProtocolError>((v, rest)),
{
    lemma_pow256_values();
    let t3 = rest;
    let t2 = varint_bytes(v.jump_boost) + t3;
    let t1 = varint_bytes(v.action_id) + t2;
    let t0 = varint_bytes(v.entity_id) + t1;
    lemma_assoc(varint_bytes(v.entity_id), varint_bytes(v.action_id) + (varint_bytes(v.jump_boost)), rest);
    lemma_assoc(varint_bytes(v.action_id), varint_bytes(v.jump_boost), rest);
    assert(entity_action_bytes(v) + rest == t0);
    lemma_parse_var_int(v.entity_id, t1);
    lemma_parse_var_int(v.action_id, t2);
    lemma_parse_var_int(v.jump_boost, t3);
}

impl EntityAction {
    /// Appends the fields' wire form; fails, writing nothing, when a field does
    /// not fit.
    #[verifier::spinoff_prover]
    #[verifier::rlimit(100)]
    pub fn encode(&self, out: &mut Vec<u8>) -> (r: Result<(), ProtocolError>)
        ensures
            r is Ok <==> entity_action_fits(self@),
            r is Ok ==> final(out)@ == old(out)@ + entity_action_bytes(self@),
            r is Err ==> final(out)@ == old(out)@,
    {
        let mut w: Vec<u8> = Vec::new();
        self.entity_id.encode(&mut w);
        assert(w@ =~= varint_bytes(self@.entity_id));
        self.action_id.encode(&mut w);
        self.jump_boost.encode(&mut w);
        assert(w@ == entity_action_bytes(self@));
        write_raw(w.as_slice(), out);
        Ok(())
    }

    /// Reads the fields at `pos`.
    #[verifier::spinoff_prover]
    #[verifier::rlimit(100)]
    pub fn decode(input: &[u8], pos: usize) -> (r: Result<(EntityAction, usize), ProtocolError>)
        requires
            pos <= input@.len(),
        ensures
            agrees(
                match r {
                    Ok((v, p)) => Ok((v@, p)),
                    Err(e) => Err(e),
                },
                input@,
                pos as int,
                parse_entity_action(input@.skip(pos as int)),
            ),
    {
        let cursor = pos;
        let (entity_id, cursor) = match read_var_int(input, cursor) {
            Ok((x, q)) => (VarInt(x), q),
            Err(e) => return Err(e),
        };
        let (action_id, cursor) = match read_var_int(input, cursor) {
            Ok((x, q)) => (VarInt(x), q),
            Err(e) => return Err(e),
        };
        let (jump_boost, cursor) = match read_var_int(input, cursor) {
            Ok((x, q)) => (VarInt(x), q),
            Err(e) => return Err(e),
        };
        Ok((EntityAction { entity_id, action_id, jump_boost }, cursor))
    }
}

/// The fields of the SteerVehicle packet (id 0x1d).
#[derive(Debug, PartialEq)]
pub struct SteerVehicle {
    pub sideways: u32,
    pub forward: u32,
    pub flags: u8,
}

pub struct SteerVehicleV {
    pub sideways: u32,
    pub forward: u32,
    pub flags: u8,
}

impl View for SteerVehicle {
    type V = SteerVehicleV;

    open spec fn view(&self) -> SteerVehicleV {
        SteerVehicleV { sideways: self.sideways, forward: self.forward, flags: self.flags }
    }
}

pub open spec fn steer_vehicle_fits(v: SteerVehicleV) -> bool {
    true
}

pub open spec fn steer_vehicle_bytes(v: SteerVehicleV) -> Seq<u8> {
    be_bytes(v.sideways as nat, 4) + (be_bytes(v.forward as nat, 4) + (be_bytes(v.flags as nat, 1)))
}

pub open spec fn parse_steer_vehicle(s: Seq<u8>) -> Parsed<SteerVehicleV> {
    match parse_u32(s) {
        Ok((sideways, s)) => match parse_u32(s) {
        Ok((forward, s)) => match parse_u8(s) {
        Ok((flags, s)) => Ok((SteerVehicleV { sideways, forward, flags }, s)),
        Err(e) => Err(e),
    },
        Err(e) => Err(e),
    },
        Err(e) => Err(e),
    }
}

/// Every SteerVehicle packet whose fields fit reads back as itself, whatever follows.
#[verifier::spinoff_prover]
#[verifier::rlimit(100)]
pub proof fn lemma_steer_vehicle_round_trip(v: SteerVehicleV, rest: Seq<u8>)
    requires
        steer_vehicle_fits(v),
    ensures
        parse_steer_vehicle(steer_vehicle_bytes(v) + rest) == Ok::<(SteerVehicleV, Seq<u8>), ProtocolError>((v, rest)),
{
    lemma_pow256_values();
    let t3 = rest;
    let t2 = be_bytes(v.flags as nat, 1) + t3;
    let t1 = be_bytes(v.forward as nat, 4) + t2;
    let t0 = be_bytes(v.sideways as nat, 4) + t1;
    lemma_assoc(be_bytes(v.sideways as nat, 4), be_bytes(v.forward as nat, 4) + (be_bytes(v.flags as nat, 1)), rest);
    lemma_assoc(be_bytes(v.forward as nat, 4), be_bytes(v.flags as nat, 1), rest);
    assert(steer_vehicle_bytes(v) + rest == t0);
    lemma_parse_be(v.sideways as nat, 4, t1);
    lemma_parse_be(v.forward as nat, 4, t2);
    lemma_parse_be(v.flags as nat, 1, t3);
}

impl SteerVehicle {
    /// Appends the fields' wire form; fails, writing nothing, when a field does
    /// not fit.
    #[verifier::spinoff_prover]
    #[verifier::rlimit(100)]
    pub fn encode(&self, out: &mut Vec<u8>) -> (r: Result<(), ProtocolError>)
        ensures
            r is Ok <==> steer_vehicle_fits(self@),
            r is Ok ==> final(out)@ == old(out)@ + steer_vehicle_bytes(self@),
            r is Err ==> final(out)@ == old(out)@,
    {
        let mut w: Vec<u8> = Vec::new();
        write_u32(self.sideways, &mut w);
        assert(w@ =~= be_bytes(self@.sideways as nat, 4));
        write_u32(self.forward, &mut w);
        write_u8(self.flags, &mut w);
        assert(w@ == steer_vehicle_bytes(self@));
        write_raw(w.as_slice(), out);
        Ok(())
    }

    /// Reads the fields at `pos`.
    #[verifier::spinoff_prover]
    #[verifier::rlimit(100)]
    pub fn decode(input: &[u8], pos: usize) -> (r: Result<(SteerVehicle, usize), ProtocolError>)
        requires
            pos <= input@.len(),
        ensures
            agrees(
                match r {
                    Ok((v, p)) => Ok((v@, p)),
                    Err(e) => Err(e),
                },
                input@,
                pos as int,
                parse_steer_vehicle(input@.skip(pos as int)),
            ),
    {
        let cursor = pos;
        let (sideways, cursor) = match read_u32(input, cursor) {
            Ok((x, q)) => (x, q),
            Err(e) => return Err(e),
        };
        let (forward, cursor) = match read_u32(input, cursor) {
            Ok((x, q)) => (x, q),
            Err(e) => return Err(e),
        };
        let (flags, cursor) = match read_u8(input, cursor) {
            Ok((x, q)) => (x, q),
            Err(e) => return Err(e),
        };
        Ok((SteerVehicle { sideways, forward, flags }, cursor))
    }
}

/// The fields of the SetDisplayedRecipe packet (id 0x1e).
#[derive(Debug, PartialEq)]
pub struct SetDisplayedRecipe {
    pub recipe_id: Identifier,
}

pub struct SetDisplayedRecipeV {
    pub recipe_id: Seq<char>,
}

impl View for SetDisplayedRecipe {
    type V = SetDisplayedRecipeV;

    open spec fn view(&self) -> SetDisplayedRecipeV {
        SetDisplayedRecipeV { recipe_id: self.recipe_id.0.0@ }
    }
}

pub open spec fn set_displayed_recipe_fits(v: SetDisplayedRecipeV) -> bool {
    short_string_fits(v.recipe_id)
}

pub open spec fn set_displayed_recipe_bytes(v: SetDisplayedRecipeV) -> Seq<u8> {
    string_bytes(v.recipe_id)
}

pub open spec fn parse_set_displayed_recipe(s: Seq<u8>) -> Parsed<SetDisplayedRecipeV> {
    match parse_short_string(s) {
        Ok((recipe_id, s)) => Ok((SetDisplayedRecipeV { recipe_id }, s)),
        Err(e) => Err(e),
    }
}

/// Every SetDisplayedRecipe packet whose fields fit reads back as itself, whatever follows.
#[verifier::spinoff_prover]
#[verifier::rlimit(100)]
pub proof fn lemma_set_displayed_recipe_round_trip(v: SetDisplayedRecipeV, rest: Seq<u8>)
    requires
        set_displayed_recipe_fits(v),
    ensures
        parse_set_displayed_recipe(set_displayed_recipe_bytes(v) + rest) == Ok::<(SetDisplayedRecipeV, Seq<u8>), ProtocolError>((v, rest)),
{
    lemma_pow256_values();
    let t1 = rest;
    let t0 = string_bytes(v.recipe_id) + t1;
    assert(set_displayed_recipe_bytes(v) + rest == t0);
    lemma_parse_short_string(v.recipe_id, t1);
}

impl SetDisplayedRecipe {
    /// Appends the fields' wire form; fails, writing nothing, when a field does
    /// not fit.
    #[verifier::spinoff_prover]
    #[verifier::rlimit(100)]
    pub fn encode(&self, out: &mut Vec<u8>) -> (r: Result<(), ProtocolError>)
        ensures
            r is Ok <==> set_displayed_recipe_fits(self@),
            r is Ok ==> final(out)@ == old(out)@ + set_displayed_recipe_bytes(self@),
            r is Err ==> final(out)@ == old(out)@,
    {
        let mut w: Vec<u8> = Vec::new();
        if utf8_len(&self.recipe_id.0.0) > 32767 {
            return Err(ProtocolError::StringTooLong);
        }
        self.recipe_id.encode(&mut w);
        assert(w@ =~= string_bytes(self@.recipe_id));
        assert(w@ == set_displayed_recipe_bytes(self@));
        write_raw(w.as_slice(), out);
        Ok(())
    }

    /// Reads the fields at `pos`.
    #[verifier::spinoff_prover]
    #[verifier::rlimit(100)]
    pub fn decode(input: &[u8], pos: usize) -> (r: Result<(SetDisplayedRecipe, usize), ProtocolError>)
        requires
            pos <= input@.len(),
        ensures
            agrees(
                match r {
                    Ok((v, p)) => Ok((v@, p)),
                    Err(e) => Err(e),
                },
                input@,
                pos as int,
                parse_set_displayed_recipe(input@.skip(pos as int)),
            ),
    {
        let cursor = pos;
        let (recipe_id, cursor) = match Identifier::decode(input, cursor) {
            Ok((x, q)) => (x, q),
            Err(e) => return Err(e),
        };
        Ok((SetDisplayedRecipe { recipe_id }, cursor))
    }
}

/// The fields of the SetRecipeBookState packet (id 0x1f).
#[derive(Debug, PartialEq)]
pub struct SetRecipeBookState {
    pub book_id: VarInt,
    pub book_open: bool,
    pub filter_active: bool,
}

pub struct SetRecipeBookStateV {
    pub book_id: i32,
    pub book_open: bool,
    pub filter_active: bool,
}

impl View for SetRecipeBookState {
    type V = SetRecipeBookStateV;

    open spec fn view(&self) -> SetRecipeBookStateV {
        SetRecipeBookStateV { book_id: self.book_id.0, book_open: self.book_open, filter_active: self.filter_active }
    }
}

pub open spec fn set_recipe_book_state_fits(v: SetRecipeBookStateV) -> bool {
    true
}

pub open spec fn set_recipe_book_state_bytes(v: SetRecipeBookStateV) -> Seq<u8> {
    varint_bytes(v.book_id) + (bool_bytes(v.book_open) + (bool_bytes(v.filter_active)))
}

pub open spec fn parse_set_recipe_book_state(s: Seq<u8>) -> Parsed<SetRecipeBookStateV> {
    match parse_var_int(s) {
        Ok((book_id, s)) => match parse_bool(s) {
        Ok((book_open, s)) => match parse_bool(s) {
        Ok((filter_active, s)) => Ok((SetRecipeBookStateV { book_id, book_open, filter_active }, s)),
        Err(e) => Err(e),
    },
        Err(e) => Err(e),
    },
        Err(e) => Err(e),
    }
}

/// Every SetRecipeBookState packet whose fields fit reads back as itself, whatever follows.
#[verifier::spinoff_prover]
#[verifier::rlimit(100)]
pub proof fn lemma_set_recipe_book_state_round_trip(v: SetRecipeBookStateV, rest: Seq<u8>)
    requires
        set_recipe_book_state_fits(v),
    ensures
        parse_set_recipe_book_state(set_recipe_book_state_bytes(v) + rest) == Ok::<(SetRecipeBookStateV, Seq<u8>), ProtocolError>((v, rest)),
{
    lemma_pow256_values();
    let t3 = rest;
    let t2 = bool_bytes(v.filter_active) + t3;
    let t1 = bool_bytes(v.book_open) + t2;
    let t0 = varint_bytes(v.book_id) + t1;
    lemma_assoc(varint_bytes(v.book_id), bool_bytes(v.book_open) + (bool_bytes(v.filter_active)), rest);
    lemma_assoc(bool_bytes(v.book_open), bool_bytes(v.filter_active), rest);
    assert(set_recipe_book_state_bytes(v) + rest == t0);
    lemma_parse_var_int(v.book_id, t1);
    lemma_parse_bool(v.book_open, t2);
    lemma_parse_bool(v.filter_active, t3);
}

impl SetRecipeBookState {
    /// Appends the fields' wire form; fails, writing nothing, when a field does
    /// not fit.
    #[verifier::spinoff_prover]
    #[verifier::rlimit(100)]
    pub fn encode(&self, out: &mut Vec<u8>) -> (r: Result<(), ProtocolError>)
        ensures
            r is Ok <==> set_recipe_book_state_fits(self@),
            r is Ok ==> final(out)@ == old(out)@ + set_recipe_book_state_bytes(self@),
            r is Err ==> final(out)@ == old(out)@,
    {
        let mut w: Vec<u8> = Vec::new();
        self.book_id.encode(&mut w);
        assert(w@ =~= varint_bytes(self@.book_id));
        write_bool(self.book_open, &mut w);
        write_bool(self.filter_active, &mut w);
        assert(w@ == set_recipe_book_state_bytes(self@));
        write_raw(w.as_slice(), out);
        Ok(())
    }

    /// Reads the fields at `pos`.
    #[verifier::spinoff_prover]
    #[verifier::rlimit(100)]
    pub fn decode(input: &[u8], pos: usize) -> (r: Result<(SetRecipeBookState, usize), ProtocolError>)
        requires
            pos <= input@.len(),
        ensures
            agrees(
                match r {
                    Ok((v, p)) => Ok((v@, p)),
                    Err(e) => Err(e),
                },
                input@,
                pos as int,
                parse_set_recipe_book_state(input@.skip(pos as int)),
            ),
    {
        let cursor = pos;
        let (book_id, cursor) = match read_var_int(input, cursor) {
            Ok((x, q)) => (VarInt(x), q),
            Err(e) => return Err(e),
        };
        let (book_open, cursor) = match read_bool(input, cursor) {
            Ok((x, q)) => (x, q),
            Err(e) => return Err(e),
        };
        let (filter_active, cursor) = match read_bool(input, cursor) {
            Ok((x, q)) => (x, q),
            Err(e) => return Err(e),
        };
        Ok((SetRecipeBookState { book_id, book_open, filter_active }, cursor))
    }
}

/// The fields of the NameItem packet (id 0x20).
#[derive(Debug, PartialEq)]
pub struct NameItem {
    pub item_name: String,
}

pub struct NameItemV {
    pub item_name: Seq<char>,
}

impl View for NameItem {
    type V = NameItemV;

    open spec fn view(&self) -> NameItemV {
        NameItemV { item_name: self.item_name.0@ }
    }
}

pub open spec fn name_item_fits(v: NameItemV) -> bool {
    string_fits(v.item_name)
}

pub open spec fn name_item_bytes(v: NameItemV) -> Seq<u8> {
    string_bytes(v.item_name)
}

pub open spec fn parse_name_item(s: Seq<u8>) -> Parsed<NameItemV> {
    match parse_string(s) {
        Ok((item_name, s)) => Ok((NameItemV { item_name }, s)),
        Err(e) => Err(e),
    }
}

/// Every NameItem packet whose fields fit reads back as itself, whatever follows.
#[verifier::spinoff_prover]
#[verifier::rlimit(100)]
pub proof fn lemma_name_item_round_trip(v: NameItemV, rest: Seq<u8>)
    requires
        name_item_fits(v),
    ensures
        parse_name_item(name_item_bytes(v) + rest) == Ok::<(NameItemV, Seq<u8>), ProtocolError>((v, rest)),
{
    lemma_pow256_values();
    let t1 = rest;
    let t0 = string_bytes(v.item_name) + t1;
    assert(name_item_bytes(v) + rest == t0);
    lemma_parse_string(v.item_name, t1);
}

impl NameItem {
    /// Appends the fields' wire form; fails, writing nothing, when a field does
    /// not fit.
    #[verifier::spinoff_prover]
    #[verifier::rlimit(100)]
    pub fn encode(&self, out: &mut Vec<u8>) -> (r: Result<(), ProtocolError>)
        ensures
            r is Ok <==> name_item_fits(self@),
            r is Ok ==> final(out)@ == old(out)@ + name_item_bytes(self@),
            r is Err ==> final(out)@ == old(out)@,
    {
        let mut w: Vec<u8> = Vec::new();
        if utf8_len(&self.item_name.0) > 0x7fff_ffff {
            return Err(ProtocolError::BadLength);
        }
        self.item_name.encode(&mut w);
        assert(w@ =~= string_bytes(self@.item_name));
        assert(w@ == name_item_bytes(self@));
        write_raw(w.as_slice(), out);
        Ok(())
    }

    /// Reads the fields at `pos`.
    #[verifier::spinoff_prover]
    #[verifier::rlimit(100)]
    pub fn decode(input: &[u8], pos: usize) -> (r: Result<(NameItem, usize), ProtocolError>)
        requires
            pos <= input@.len(),
        ensures
            agrees(
                match r {
                    Ok((v, p)) => Ok((v@, p)),
                    Err(e) => Err(e),
                },
                input@,
                pos as int,
                parse_name_item(input@.skip(pos as int)),
            ),
    {
        let cursor = pos;
        let (item_name, cursor) = match String::decode(input, cursor) {
            Ok((x, q)) => (x, q),
            Err(e) => return Err(e),
        };
        Ok((NameItem { item_name }, cursor))
    }
}

/// The fields of the ResourcePackStatus packet (id 0x21).
#[derive(Debug, PartialEq)]
pub struct ResourcePackStatus {
    pub result: VarInt,
}

pub struct ResourcePackStatusV {
    pub result: i32,
}

impl View for ResourcePackStatus {
    type V = ResourcePackStatusV;

    open spec fn view(&self) -> ResourcePackStatusV {
        ResourcePackStatusV { result: self.result.0 }
    }
}

pub open spec fn resource_pack_status_fits(v: ResourcePackStatusV) -> bool {
    true
}

pub open spec fn resource_pack_status_bytes(v: ResourcePackStatusV) -> Seq<u8> {
    varint_bytes(v.result)
}

pub open spec fn parse_resource_pack_status(s: Seq<u8>) -> Parsed<ResourcePackStatusV> {
    match parse_var_int(s) {
        Ok((result, s)) => Ok((ResourcePackStatusV { result }, s)),
        Err(e) => Err(e),
    }
}

/// Every ResourcePackStatus packet whose fields fit reads back as itself, whatever follows.
#[verifier::spinoff_prover]
#[verifier::rlimit(100)]
pub proof fn lemma_resource_pack_status_round_trip(v: ResourcePackStatusV, rest: Seq<u8>)
    requires
        resource_pack_status_fits(v),
    ensures
        parse_resource_pack_status(resource_pack_status_bytes(v) + rest) == Ok::<(ResourcePackStatusV, Seq<u8>), ProtocolError>((v, rest)),
{
    lemma_pow256_values();
    let t1 = rest;
    let t0 = varint_bytes(v.result) + t1;
    assert(resource_pack_status_bytes(v) + rest == t0);
    lemma_parse_var_int(v.result, t1);
}

impl ResourcePackStatus {
    /// Appends the fields' wire form; fails, writing nothing, when a field does
    /// not fit.
    #[verifier::spinoff_prover]
    #[verifier::rlimit(100)]
    pub fn encode(&self, out: &mut Vec<u8>) -> (r: Result<(), ProtocolError>)
        ensures
            r is Ok <==> resource_pack_status_fits(self@),
            r is Ok ==> final(out)@ == old(out)@ + resource_pack_status_bytes(self@),
            r is Err ==> final(out)@ == old(out)@,
    {
        let mut w: Vec<u8> = Vec::new();
        self.result.encode(&mut w);
        assert(w@ =~= varint_bytes(self@.result));
        assert(w@ == resource_pack_status_bytes(self@));
        write_raw(w.as_slice(), out);
        Ok(())
    }

    /// Reads the fields at `pos`.
    #[verifier::spinoff_prover]
    #[verifier::rlimit(100)]
    pub fn decode(input: &[u8], pos: usize) -> (r: Result<(ResourcePackStatus, usize), ProtocolError>)
        requires
            pos <= input@.len(),
        ensures
            agrees(
                match r {
                    Ok((v, p)) => Ok((v@, p)),
                    Err(e) => Err(e),
                },
                input@,
                pos as int,
                parse_resource_pack_status(input@.skip(pos as int)),
            ),
    {
        let cursor = pos;
        let (result, cursor) = match read_var_int(input, cursor) {
            Ok((x, q)) => (VarInt(x), q),
            Err(e) => return Err(e),
        };
        Ok((ResourcePackStatus { result }, cursor))
    }
}

/// The fields of the SelectTrade packet (id 0x23).
#[derive(Debug, PartialEq)]
pub struct SelectTrade {
    pub slot: VarInt,
}

pub struct SelectTradeV {
    pub slot: i32,
}

impl View for SelectTrade {
    type V = SelectTradeV;

    open spec fn view(&self) -> SelectTradeV {
        SelectTradeV { slot: self.slot.0 }
    }
}

pub open spec fn select_trade_fits(v: SelectTradeV) -> bool {
    true
}

pub open spec fn select_trade_bytes(v: SelectTradeV) -> Seq<u8> {
    varint_bytes(v.slot)
}

pub open spec fn parse_select_trade(s: Seq<u8>) -> Parsed<SelectTradeV> {
    match parse_var_int(s) {
        Ok((slot, s)) => Ok((SelectTradeV { slot }, s)),
        Err(e) => Err(e),
    }
}

/// Every SelectTrade packet whose fields fit reads back as itself, whatever follows.
#[verifier::spinoff_prover]
#[verifier::rlimit(100)]
pub proof fn lemma_select_trade_round_trip(v: SelectTradeV, rest: Seq<u8>)
    requires
        select_trade_fits(v),
    ensures
        parse_select_trade(select_trade_bytes(v) + rest) == Ok::<(SelectTradeV, Seq<u8>), ProtocolError>((v, rest)),
{
    lemma_pow256_values();
    let t1 = rest;
    let t0 = varint_bytes(v.slot) + t1;
    assert(select_trade_bytes(v) + rest == t0);
    lemma_parse_var_int(v.slot, t1);
}

impl SelectTrade {
    /// Appends the fields' wire form; fails, writing nothing, when a field does
    /// not fit.
    #[verifier::spinoff_prover]
    #[verifier::rlimit(100)]
    pub fn encode(&self, out: &mut Vec<u8>) -> (r: Result<(), ProtocolError>)
        ensures
            r is Ok <==> select_trade_fits(self@),
            r is Ok ==> final(out)@ == old(out)@ + select_trade_bytes(self@),
            r is Err ==> final(out)@ == old(out)@,
    {
        let mut w: Vec<u8> = Vec::new();
        self.slot.encode(&mut w);
        assert(w@ =~= varint_bytes(self@.slot));
        assert(w@ == select_trade_bytes(self@));
        write_raw(w.as_slice(), out);
        Ok(())
    }

    /// Reads the fields at `pos`.
    #[verifier::spinoff_prover]
    #[verifier::rlimit(100)]
    pub fn decode(input: &[u8], pos: usize) -> (r: Result<(SelectTrade, usize), ProtocolError>)
        requires
            pos <= input@.len(),
        ensures
            agrees(
                match r {
                    Ok((v, p)) => Ok((v@, p)),
                    Err(e) => Err(e),
                },
                input@,
                pos as int,
                parse_select_trade(input@.skip(pos as int)),
            ),
    {
        let cursor = pos;
        let (slot, cursor) = match read_var_int(input, cursor) {
            Ok((x, q)) => (VarInt(x), q),
            Err(e) => return Err(e),
        };
        Ok((SelectTrade { slot }, cursor))
    }
}

/// The fields of the SetBeaconEffect packet (id 0x24).
#[derive(Debug, PartialEq)]
pub struct SetBeaconEffect {
    pub primary_effect: VarInt,
    pub secondary_effect: VarInt,
}

pub struct SetBeaconEffectV {
    pub primary_effect: i32,
    pub secondary_effect: i32,
}

impl View for SetBeaconEffect {
    type V = SetBeaconEffectV;

    open spec fn view(&self) -> SetBeaconEffectV {
        SetBeaconEffectV { primary_effect: self.primary_effect.0, secondary_effect: self.secondary_effect.0 }
    }
}

pub open spec fn set_beacon_effect_fits(v: SetBeaconEffectV) -> bool {
    true
}

pub open spec fn set_beacon_effect_bytes(v: SetBeaconEffectV) -> Seq<u8> {
    varint_bytes(v.primary_effect) + (varint_bytes(v.secondary_effect))
}

pub open spec fn parse_set_beacon_effect(s: Seq<u8>) -> Parsed<SetBeaconEffectV> {
    match parse_var_int(s) {
        Ok((primary_effect, s)) => match parse_var_int(s) {
        Ok((secondary_effect, s)) => Ok((SetBeaconEffectV { primary_effect, secondary_effect }, s)),
        Err(e) => Err(e),
    },
        Err(e) => Err(e),
    }
}

/// Every SetBeaconEffect packet whose fields fit reads back as itself, whatever follows.
#[verifier::spinoff_prover]
#[verifier::rlimit(100)]
pub proof fn lemma_set_beacon_effect_round_trip(v: SetBeaconEffectV, rest: Seq<u8>)
    requires
        set_beacon_effect_fits(v),
    ensures
        parse_set_beacon_effect(set_beacon_effect_bytes(v) + rest) == Ok::<(SetBeaconEffectV, Seq<u8>), ProtocolError>((v, rest)),
{
    lemma_pow256_values();
    let t2 = rest;
    let t1 = varint_bytes(v.secondary_effect) + t2;
    let t0 = varint_bytes(v.primary_effect) + t1;
    lemma_assoc(varint_bytes(v.primary_effect), varint_bytes(v.secondary_effect), rest);
    assert(set_beacon_effect_bytes(v) + rest == t0);
    lemma_parse_var_int(v.primary_effect, t1);
    lemma_parse_var_int(v.secondary_effect, t2);
}

impl SetBeaconEffect {
    /// Appends the fields' wire form; fails, writing nothing, when a field does
    /// not fit.
    #[verifier::spinoff_prover]
    #[verifier::rlimit(100)]
    pub fn encode(&self, out: &mut Vec<u8>) -> (r: Result<(), ProtocolError>)
        ensures
            r is Ok <==> set_beacon_effect_fits(self@),
            r is Ok ==> final(out)@ == old(out)@ + set_beacon_effect_bytes(self@),
            r is Err ==> final(out)@ == old(out)@,
    {
        let mut w: Vec<u8> = Vec::new();
        self.primary_effect.encode(&mut w);
        assert(w@ =~= varint_bytes(self@.primary_effect));
        self.secondary_effect.encode(&mut w);
        assert(w@ == set_beacon_effect_bytes(self@));
        write_raw(w.as_slice(), out);
        Ok(())
    }

    /// Reads the fields at `pos`.
    #[verifier::spinoff_prover]
    #[verifier::rlimit(100)]
    pub fn decode(input: &[u8], pos: usize) -> (r: Result<(SetBeaconEffect, usize), ProtocolError>)
        requires
            pos <= input@.len(),
        ensures
            agrees(
                match r {
                    Ok((v, p)) => Ok((v@, p)),
                    Err(e) => Err(e),
                },
                input@,
                pos as int,
                parse_set_beacon_effect(input@.skip(pos as int)),
            ),
    {
        let cursor = pos;
        let (primary_effect, cursor) = match read_var_int(input, cursor) {
            Ok((x, q)) => (VarInt(x), q),
            Err(e) => return Err(e),
        };
        let (secondary_effect, cursor) = match read_var_int(input, cursor) {
            Ok((x, q)) => (VarInt(x), q),
            Err(e) => return Err(e),
        };
        Ok((SetBeaconEffect { primary_effect, secondary_effect }, cursor))
    }
}

/// The fields of the HeldItemChange packet (id 0x25).
#[derive(Debug, PartialEq)]
pub struct HeldItemChange {
    pub slot: i16,
}

pub struct HeldItemChangeV {
    pub slot: i16,
}

impl View for HeldItemChange {
    type V = HeldItemChangeV;

    open spec fn view(&self) -> HeldItemChangeV {
        HeldItemChangeV { slot: self.slot }
    }
}

pub open spec fn held_item_change_fits(v: HeldItemChangeV) -> bool {
    true
}

pub open spec fn held_item_change_bytes(v: HeldItemChangeV) -> Seq<u8> {
    signed_bytes(v.slot as int, 2)
}

pub open spec fn parse_held_item_change(s: Seq<u8>) -> Parsed<HeldItemChangeV> {
    match parse_i16(s) {
        Ok((slot, s)) => Ok((HeldItemChangeV { slot }, s)),
        Err(e) => Err(e),
    }
}

/// Every HeldItemChange packet whose fields fit reads back as itself, whatever follows.
#[verifier::spinoff_prover]
#[verifier::rlimit(100)]
pub proof fn lemma_held_item_change_round_trip(v: HeldItemChangeV, rest: Seq<u8>)
    requires
        held_item_change_fits(v),
    ensures
        parse_held_item_change(held_item_change_bytes(v) + rest) == Ok::<(HeldItemChangeV, Seq<u8>), ProtocolError>((v, rest)),
{
    lemma_pow256_values();
    let t1 = rest;
    let t0 = signed_bytes(v.slot as int, 2) + t1;
    assert(held_item_change_bytes(v) + rest == t0);
    lemma_parse_signed(v.slot as int, 2, t1);
}

impl HeldItemChange {
    /// Appends the fields' wire form; fails, writing nothing, when a field does
    /// not fit.
    #[verifier::spinoff_prover]
    #[verifier::rlimit(100)]
    pub fn encode(&self, out: &mut Vec<u8>) -> (r: Result<(), ProtocolError>)
        ensures
            r is Ok <==> held_item_change_fits(self@),
            r is Ok ==> final(out)@ == old(out)@ + held_item_change_bytes(self@),
            r is Err ==> final(out)@ == old(out)@,
    {
        let mut w: Vec<u8> = Vec::new();
        write_i16(self.slot, &mut w);
        assert(w@ =~= signed_bytes(self@.slot as int, 2));
        assert(w@ == held_item_change_bytes(self@));
        write_raw(w.as_slice(), out);
        Ok(())
    }

    /// Reads the fields at `pos`.
    #[verifier::spinoff_prover]
    #[verifier::rlimit(100)]
    pub fn decode(input: &[u8], pos: usize) -> (r: Result<(HeldItemChange, usize), ProtocolError>)
        requires
            pos <= input@.len(),
        ensures
            agrees(
                match r {
                    Ok((v, p)) => Ok((v@, p)),
                    Err(e) => Err(e),
                },
                input@,
                pos as int,
                parse_held_item_change(input@.skip(pos as int)),
            ),
    {
        let cursor = pos;
        let (slot, cursor) = match read_i16(input, cursor) {
            Ok((x, q)) => (x, q),
            Err(e) => return Err(e),
        };
        Ok((HeldItemChange { slot }, cursor))
    }
}

/// The fields of the UpdateCommandBlock packet (id 0x26).
#[derive(Debug, PartialEq)]
pub struct UpdateCommandBlock {
    pub location: Position,
    pub command: String,
    pub mode: VarInt,
    pub flags: i8,
}

pub struct UpdateCommandBlockV {
    pub location: Position,
    pub command: Seq<char>,
    pub mode: i32,
    pub flags: i8,
}

impl View for UpdateCommandBlock {
    type V = UpdateCommandBlockV;

    open spec fn view(&self) -> UpdateCommandBlockV {
        UpdateCommandBlockV { location: self.location, command: self.command.0@, mode: self.mode.0, flags: self.flags }
    }
}

pub open spec fn update_command_block_fits(v: UpdateCommandBlockV) -> bool {
    position_in_range(v.location) && string_fits(v.command)
}

pub open spec fn update_command_block_bytes(v: UpdateCommandBlockV) -> Seq<u8> {
    position_bytes(v.location) + (string_bytes(v.command) + (varint_bytes(v.mode) + (signed_bytes(v.flags as int, 1))))
}

pub open spec fn parse_update_command_block(s: Seq<u8>) -> Parsed<UpdateCommandBlockV> {
    match parse_position(s) {
        Ok((location, s)) => match parse_string(s) {
        Ok((command, s)) => match parse_var_int(s) {
        Ok((mode, s)) => match parse_i8(s) {
        Ok((flags, s)) => Ok((UpdateCommandBlockV { location, command, mode, flags }, s)),
        Err(e) => Err(e),
    },
        Err(e) => Err(e),
    },
        Err(e) => Err(e),
    },
        Err(e) => Err(e),
    }
}

/// Every UpdateCommandBlock packet whose fields fit reads back as itself, whatever follows.
#[verifier::spinoff_prover]
#[verifier::rlimit(100)]
pub proof fn lemma_update_command_block_round_trip(v: UpdateCommandBlockV, rest: Seq<u8>)
    requires
        update_command_block_fits(v),
    ensures
        parse_update_command_block(update_command_block_bytes(v) + rest) == Ok::<(UpdateCommandBlockV, Seq<u8>), ProtocolError>((v, rest)),
{
    lemma_pow256_values();
    let t4 = rest;
    let t3 = signed_bytes(v.flags as int, 1) + t4;
    let t2 = varint_bytes(v.mode) + t3;
    let t1 = string_bytes(v.command) + t2;
    let t0 = position_bytes(v.location) + t1;
    lemma_assoc(position_bytes(v.location), string_bytes(v.command) + (varint_bytes(v.mode) + (signed_bytes(v.flags as int, 1))), rest);
    lemma_assoc(string_bytes(v.command), varint_bytes(v.mode) + (signed_bytes(v.flags as int, 1)), rest);
    lemma_assoc(varint_bytes(v.mode), signed_bytes(v.flags as int, 1), rest);
    assert(update_command_block_bytes(v) + rest == t0);
    lemma_position_round_trip(v.location, t1);
    lemma_parse_string(v.command, t2);
    lemma_parse_var_int(v.mode, t3);
    lemma_parse_signed(v.flags as int, 1, t4);
}

impl UpdateCommandBlock {
    /// Appends the fields' wire form; fails, writing nothing, when a field does
    /// not fit.
    #[verifier::spinoff_prover]
    #[verifier::rlimit(100)]
    pub fn encode(&self, out: &mut Vec<u8>) -> (r: Result<(), ProtocolError>)
        ensures
            r is Ok <==> update_command_block_fits(self@),
            r is Ok ==> final(out)@ == old(out)@ + update_command_block_bytes(self@),
            r is Err ==> final(out)@ == old(out)@,
    {
        let mut w: Vec<u8> = Vec::new();
        match self.location.encode(&mut w) {
            Ok(()) => {},
            Err(e) => return Err(e),
        }
        assert(w@ =~= position_bytes(self@.location));
        if utf8_len(&self.command.0) > 0x7fff_ffff {
            return Err(ProtocolError::BadLength);
        }
        self.command.encode(&mut w);
        self.mode.encode(&mut w);
        write_i8(self.flags, &mut w);
        assert(w@ == update_command_block_bytes(self@));
        write_raw(w.as_slice(), out);
        Ok(())
    }

    /// Reads the fields at `pos`.
    #[verifier::spinoff_prover]
    #[verifier::rlimit(100)]
    pub fn decode(input: &[u8], pos: usize) -> (r: Result<(UpdateCommandBlock, usize), ProtocolError>)
        requires
            pos <= input@.len(),
        ensures
            agrees(
                match r {
                    Ok((v, p)) => Ok((v@, p)),
                    Err(e) => Err(e),
                },
                input@,
                pos as int,
                parse_update_command_block(input@.skip(pos as int)),
            ),
    {
        let cursor = pos;
        let (location, cursor) = match Position::decode(input, cursor) {
            Ok((x, q)) => (x, q),
            Err(e) => return Err(e),
        };
        let (command, cursor) = match String::decode(input, cursor) {
            Ok((x, q)) => (x, q),
            Err(e) => return Err(e),
        };
        let (mode, cursor) = match read_var_int(input, cursor) {
            Ok((x, q)) => (VarInt(x), q),
            Err(e) => return Err(e),
        };
        let (flags, cursor) = match read_i8(input, cursor) {
            Ok((x, q)) => (x, q),
            Err(e) => return Err(e),
        };
        Ok((UpdateCommandBlock { location, command, mode, flags }, cursor))
    }
}

/// The fields of the UpdateCommandBlockMinecart packet (id 0x27).
#[derive(Debug, PartialEq)]
pub struct UpdateCommandBlockMinecart {
    pub entity_id: VarInt,
    pub command: String,
    pub track_output: bool,
}

pub struct UpdateCommandBlockMinecartV {
    pub entity_id: i32,
    pub command: Seq<char>,
    pub track_output: bool,
}

impl View for UpdateCommandBlockMinecart {
    type V = UpdateCommandBlockMinecartV;

    open spec fn view(&self) -> UpdateCommandBlockMinecartV {
        UpdateCommandBlockMinecartV { entity_id: self.entity_id.0, command: self.command.0@, track_output: self.track_output }
    }
}

pub open spec fn update_command_block_minecart_fits(v: UpdateCommandBlockMinecartV) -> bool {
    string_fits(v.command)
}

pub open spec fn update_command_block_minecart_bytes(v: UpdateCommandBlockMinecartV) -> Seq<u8> {
    varint_bytes(v.entity_id) + (string_bytes(v.command) + (bool_bytes(v.track_output)))
}

pub open spec fn parse_update_command_block_minecart(s: Seq<u8>) -> Parsed<UpdateCommandBlockMinecartV> {
    match parse_var_int(s) {
        Ok((entity_id, s)) => match parse_string(s) {
        Ok((command, s)) => match parse_bool(s) {
        Ok((track_output, s)) => Ok((UpdateCommandBlockMinecartV { entity_id, command, track_output }, s)),
        Err(e) => Err(e),
    },
        Err(e) => Err(e),
    },
        Err(e) => Err(e),
    }
}

/// Every UpdateCommandBlockMinecart packet whose fields fit reads back as itself, whatever follows.
#[verifier::spinoff_prover]
#[verifier::rlimit(100)]
pub proof fn lemma_update_command_block_minecart_round_trip(v: UpdateCommandBlockMinecartV, rest: Seq<u8>)
    requires
        update_command_block_minecart_fits(v),
    ensures
        parse_update_command_block_minecart(update_command_block_minecart_bytes(v) + rest) == Ok::<(UpdateCommandBlockMinecartV, Seq<u8>), ProtocolError>((v, rest)),
{
    lemma_pow256_values();
    let t3 = rest;
    let t2 = bool_bytes(v.track_output) + t3;
    let t1 = string_bytes(v.command) + t2;
    let t0 = varint_bytes(v.entity_id) + t1;
    lemma_assoc(varint_bytes(v.entity_id), string_bytes(v.command) + (bool_bytes(v.track_output)), rest);
    lemma_assoc(string_bytes(v.command), bool_bytes(v.track_output), rest);
    assert(update_command_block_minecart_bytes(v) + rest == t0);
    lemma_parse_var_int(v.entity_id, t1);
    lemma_parse_string(v.command, t2);
    lemma_parse_bool(v.track_output, t3);
}

impl UpdateCommandBlockMinecart {
    /// Appends the fields' wire form; fails, writing nothing, when a field does
    /// not fit.
    #[verifier::spinoff_prover]
    #[verifier::rlimit(100)]
    pub fn encode(&self, out: &mut Vec<u8>) -> (r: Result<(), ProtocolError>)
        ensures
            r is Ok <==> update_command_block_minecart_fits(self@),
            r is Ok ==> final(out)@ == old(out)@ + update_command_block_minecart_bytes(self@),
            r is Err ==> final(out)@ == old(out)@,
    {
        let mut w: Vec<u8> = Vec::new();
        self.entity_id.encode(&mut w);
        assert(w@ =~= varint_bytes(self@.entity_id));
        if utf8_len(&self.command.0) > 0x7fff_ffff {
            return Err(ProtocolError::BadLength);
        }
        self.command.encode(&mut w);
        write_bool(self.track_output, &mut w);
        assert(w@ == update_command_block_minecart_bytes(self@));
        write_raw(w.as_slice(), out);
        Ok(())
    }

    /// Reads the fields at `pos`.
    #[verifier::spinoff_prover]
    #[verifier::rlimit(100)]
    pub fn decode(input: &[u8], pos: usize) -> (r: Result<(UpdateCommandBlockMinecart, usize), ProtocolError>)
        requires
            pos <= input@.len(),
        ensures
            agrees(
                match r {
                    Ok((v, p)) => Ok((v@, p)),
                    Err(e) => Err(e),
                },
                input@,
                pos as int,
                parse_update_command_block_minecart(input@.skip(pos as int)),
            ),
    {
        let cursor = pos;
        let (entity_id, cursor) = match read_var_int(input, cursor) {
            Ok((x, q)) => (VarInt(x), q),
            Err(e) => return Err(e),
        };
        let (command, cursor) = match String::decode(input, cursor) {
            Ok((x, q)) => (x, q),
            Err(e) => return Err(e),
        };
        let (track_output, cursor) = match read_bool(input, cursor) {
            Ok((x, q)) => (x, q),
            Err(e) => return Err(e),
        };
        Ok((UpdateCommandBlockMinecart { entity_id, command, track_output }, cursor))
    }
}

/// The fields of the UpdateJigsawBlock packet (id 0x29).
#[derive(Debug, PartialEq)]
pub struct UpdateJigsawBlock {
    pub location: Position,
    pub name: Identifier,
    pub target: Identifier,
    pub pool: Identifier,
    pub final_state: String,
    pub joint_type: String,
}

pub struct UpdateJigsawBlockV {
    pub location: Position,
    pub name: Seq<char>,
    pub target: Seq<char>,
    pub pool: Seq<char>,
    pub final_state: Seq<char>,
    pub joint_type: Seq<char>,
}

impl View for UpdateJigsawBlock {
    type V = UpdateJigsawBlockV;

    open spec fn view(&self) -> UpdateJigsawBlockV {
        UpdateJigsawBlockV { location: self.location, name: self.name.0.0@, target: self.target.0.0@, pool: self.pool.0.0@, final_state: self.final_state.0@, joint_type: self.joint_type.0@ }
    }
}

pub open spec fn update_jigsaw_block_fits(v: UpdateJigsawBlockV) -> bool {
    position_in_range(v.location) && short_string_fits(v.name) && short_string_fits(v.target) && short_string_fits(v.pool) && string_fits(v.final_state) && string_fits(v.joint_type)
}

pub open spec fn update_jigsaw_block_bytes(v: UpdateJigsawBlockV) -> Seq<u8> {
    position_bytes(v.location) + (string_bytes(v.name) + (string_bytes(v.target) + (string_bytes(v.pool) + (string_bytes(v.final_state) + (string_bytes(v.joint_type))))))
}

pub open spec fn parse_update_jigsaw_block(s: Seq<u8>) -> Parsed<UpdateJigsawBlockV> {
    match parse_position(s) {
        Ok((location, s)) => match parse_short_string(s) {
        Ok((name, s)) => match parse_short_string(s) {
        Ok((target, s)) => match parse_short_string(s) {
        Ok((pool, s)) => match parse_string(s) {
        Ok((final_state, s)) => match parse_string(s) {
        Ok((joint_type, s)) => Ok((UpdateJigsawBlockV { location, name, target, pool, final_state, joint_type }, s)),
        Err(e) => Err(e),
    },
        Err(e) => Err(e),
    },
        Err(e) => Err(e),
    },
        Err(e) => Err(e),
    },
        Err(e) => Err(e),
    },
        Err(e) => Err(e),
    }
}

/// Every UpdateJigsawBlock packet whose fields fit reads back as itself, whatever follows.
#[verifier::spinoff_prover]
#[verifier::rlimit(100)]
pub proof fn lemma_update_jigsaw_block_round_trip(v: UpdateJigsawBlockV, rest: Seq<u8>)
    requires
        update_jigsaw_block_fits(v),
    ensures
        parse_update_jigsaw_block(update_jigsaw_block_bytes(v) + rest) == Ok::<(UpdateJigsawBlockV, Seq<u8>), ProtocolError>((v, rest)),
{
    lemma_pow256_values();
    let t6 = rest;
    let t5 = string_bytes(v.joint_type) + t6;
    let t4 = string_bytes(v.final_state) + t5;
    let t3 = string_bytes(v.pool) + t4;
    let t2 = string_bytes(v.target) + t3;
    let t1 = string_bytes(v.name) + t2;
    let t0 = position_bytes(v.location) + t1;
    lemma_assoc(position_bytes(v.location), string_bytes(v.name) + (string_bytes(v.target) + (string_bytes(v.pool) + (string_bytes(v.final_state) + (string_bytes(v.joint_type))))), rest);
    lemma_assoc(string_bytes(v.name), string_bytes(v.target) + (string_bytes(v.pool) + (string_bytes(v.final_state) + (string_bytes(v.joint_type)))), rest);
    lemma_assoc(string_bytes(v.target), string_bytes(v.pool) + (string_bytes(v.final_state) + (string_bytes(v.joint_type))), rest);
    lemma_assoc(string_bytes(v.pool), string_bytes(v.final_state) + (string_bytes(v.joint_type)), rest);
    lemma_assoc(string_bytes(v.final_state), string_bytes(v.joint_type), rest);
    assert(update_jigsaw_block_bytes(v) + rest == t0);
    lemma_position_round_trip(v.location, t1);
    lemma_parse_short_string(v.name, t2);
    lemma_parse_short_string(v.target, t3);
    lemma_parse_short_string(v.pool, t4);
    lemma_parse_string(v.final_state, t5);
    lemma_parse_string(v.joint_type, t6);
}

impl UpdateJigsawBlock {
    /// Appends the fields' wire form; fails, writing nothing, when a field does
    /// not fit.
    #[verifier::spinoff_prover]
    #[verifier::rlimit(100)]
    pub fn encode(&self, out: &mut Vec<u8>) -> (r: Result<(), ProtocolError>)
        ensures
            r is Ok <==> update_jigsaw_block_fits(self@),
            r is Ok ==> final(out)@ == old(out)@ + update_jigsaw_block_bytes(self@),
            r is Err ==> final(out)@ == old(out)@,
    {
        let mut w: Vec<u8> = Vec::new();
        match self.location.encode(&mut w) {
            Ok(()) => {},
            Err(e) => return Err(e),
        }
        assert(w@ =~= position_bytes(self@.location));
        if utf8_len(&self.name.0.0) > 32767 {
            return Err(ProtocolError::StringTooLong);
        }
        self.name.encode(&mut w);
        if utf8_len(&self.target.0.0) > 32767 {
            return Err(ProtocolError::StringTooLong);
        }
        self.target.encode(&mut w);
        if utf8_len(&self.pool.0.0) > 32767 {
            return Err(ProtocolError::StringTooLong);
        }
        self.pool.encode(&mut w);
        if utf8_len(&self.final_state.0) > 0x7fff_ffff {
            return Err(ProtocolError::BadLength);
        }
        self.final_state.encode(&mut w);
        if utf8_len(&self.joint_type.0) > 0x7fff_ffff {
            return Err(ProtocolError::BadLength);
        }
        self.joint_type.encode(&mut w);
        assert(w@ == update_jigsaw_block_bytes(self@));
        write_raw(w.as_slice(), out);
        Ok(())
    }

    /// Reads the fields at `pos`.
    #[verifier::spinoff_prover]
    #[verifier::rlimit(100)]
    pub fn decode(input: &[u8], pos: usize) -> (r: Result<(UpdateJigsawBlock, usize), ProtocolError>)
        requires
            pos <= input@.len(),
        ensures
            agrees(
                match r {
                    Ok((v, p)) => Ok((v@, p)),
                    Err(e) => Err(e),
                },
                input@,
                pos as int,
                parse_update_jigsaw_block(input@.skip(pos as int)),
            ),
    {
        let cursor = pos;
        let (location, cursor) = match Position::decode(input, cursor) {
            Ok((x, q)) => (x, q),
            Err(e) => return Err(e),
        };
        let (name, cursor) = match Identifier::decode(input, cursor) {
            Ok((x, q)) => (x, q),
            Err(e) => return Err(e),
        };
        let (target, cursor) = match Identifier::decode(input, cursor) {
            Ok((x, q)) => (x, q),
            Err(e) => return Err(e),
        };
        let (pool, cursor) = match Identifier::decode(input, cursor) {
            Ok((x, q)) => (x, q),
            Err(e) => return Err(e),
        };
        let (final_state, cursor) = match String::decode(input, cursor) {
            Ok((x, q)) => (x, q),
            Err(e) => return Err(e),
        };
        let (joint_type, cursor) = match String::decode(input, cursor) {
            Ok((x, q)) => (x, q),
            Err(e) => return Err(e),
        };
        Ok((UpdateJigsawBlock { location, name, target, pool, final_state, joint_type }, cursor))
    }
}

/// The fields of the UpdateStructureBlock packet (id 0x2a).
#[derive(Debug, PartialEq)]
pub struct UpdateStructureBlock {
    pub location: Position,
    pub action: VarInt,
    pub mode: VarInt,
    pub name: String,
    pub offset_x: i8,
    pub offset_y: i8,
    pub offset_z: i8,
    pub size_x: i8,
    pub size_y: i8,
    pub size_z: i8,
    pub mirror: VarInt,
    pub rotation: VarInt,
    pub metadata: String,
    pub integrity: u32,
    pub seed: VarLong,
    pub flags: i8,
}

pub struct UpdateStructureBlockV {
    pub location: Position,
    pub action: i32,
    pub mode: i32,
    pub name: Seq<char>,
    pub offset_x: i8,
    pub offset_y: i8,
    pub offset_z: i8,
    pub size_x: i8,
    pub size_y: i8,
    pub size_z: i8,
    pub mirror: i32,
    pub rotation: i32,
    pub metadata: Seq<char>,
    pub integrity: u32,
    pub seed: i64,
    pub flags: i8,
}

impl View for UpdateStructureBlock {
    type V = UpdateStructureBlockV;

    open spec fn view(&self) -> UpdateStructureBlockV {
        UpdateStructureBlockV { location: self.location, action: self.action.0, mode: self.mode.0, name: self.name.0@, offset_x: self.offset_x, offset_y: self.offset_y, offset_z: self.offset_z, size_x: self.size_x, size_y: self.size_y, size_z: self.size_z, mirror: self.mirror.0, rotation: self.rotation.0, metadata: self.metadata.0@, integrity: self.integrity, seed: self.seed.0, flags: self.flags }
    }
}

pub open spec fn update_structure_block_fits(v: UpdateStructureBlockV) -> bool {
    position_in_range(v.location) && string_fits(v.name) && string_fits(v.metadata)
}

pub open spec fn update_structure_block_bytes(v: UpdateStructureBlockV) -> Seq<u8> {
    position_bytes(v.location) + (varint_bytes(v.action) + (varint_bytes(v.mode) + (string_bytes(v.name) + (signed_bytes(v.offset_x as int, 1) + (signed_bytes(v.offset_y as int, 1) + (signed_bytes(v.offset_z as int, 1) + (signed_bytes(v.size_x as int, 1) + (signed_bytes(v.size_y as int, 1) + (signed_bytes(v.size_z as int, 1) + (varint_bytes(v.mirror) + (varint_bytes(v.rotation) + (string_bytes(v.metadata) + (be_bytes(v.integrity as nat, 4) + (varlong_bytes(v.seed) + (signed_bytes(v.flags as int, 1))))))))))))))))
}

pub open spec fn parse_update_structure_block(s: Seq<u8>) -> Parsed<UpdateStructureBlockV> {
    match parse_position(s) {
        Ok((location, s)) => match parse_var_int(s) {
        Ok((action, s)) => match parse_var_int(s) {
        Ok((mode, s)) => match parse_string(s) {
        Ok((name, s)) => match parse_i8(s) {
        Ok((offset_x, s)) => match parse_i8(s) {
        Ok((offset_y, s)) => match parse_i8(s) {
        Ok((offset_z, s)) => match parse_i8(s) {
        Ok((size_x, s)) => match parse_i8(s) {
        Ok((size_y, s)) => match parse_i8(s) {
        Ok((size_z, s)) => match parse_var_int(s) {
        Ok((mirror, s)) => match parse_var_int(s) {
        Ok((rotation, s)) => match parse_string(s) {
        Ok((metadata, s)) => match parse_u32(s) {
        Ok((integrity, s)) => match parse_var_long(s) {
        Ok((seed, s)) => match parse_i8(s) {
        Ok((flags, s)) => Ok((UpdateStructureBlockV { location, action, mode, name, offset_x, offset_y, offset_z, size_x, size_y, size_z, mirror, rotation, metadata, integrity, seed, flags }, s)),
        Err(e) => Err(e),
    },
        Err(e) => Err(e),
    },
        Err(e) => Err(e),
    },
        Err(e) => Err(e),
    },
        Err(e) => Err(e),
    },
        Err(e) => Err(e),
    },
        Err(e) => Err(e),
    },
        Err(e) => Err(e),
    },
        Err(e) => Err(e),
    },
        Err(e) => Err(e),
    },
        Err(e) => Err(e),
    },
        Err(e) => Err(e),
    },
        Err(e) => Err(e),
    },
        Err(e) => Err(e),
    },
        Err(e) => Err(e),
    },
        Err(e) => Err(e),
    }
}

/// Every UpdateStructureBlock packet whose fields fit reads back as itself, whatever follows.
#[verifier::spinoff_prover]
#[verifier::rlimit(100)]
pub proof fn lemma_update_structure_block_round_trip(v: UpdateStructureBlockV, rest: Seq<u8>)
    requires
        update_structure_block_fits(v),
    ensures
        parse_update_structure_block(update_structure_block_bytes(v) + rest) == Ok::<(UpdateStructureBlockV, Seq<u8>), ProtocolError>((v, rest)),
{
    lemma_pow256_values();
    let t16 = rest;
    let t15 = signed_bytes(v.flags as int, 1) + t16;
    let t14 = varlong_bytes(v.seed) + t15;
    let t13 = be_bytes(v.integrity as nat, 4) + t14;
    let t12 = string_bytes(v.metadata) + t13;
    let t11 = varint_bytes(v.rotation) + t12;
    let t10 = varint_bytes(v.mirror) + t11;
    let t9 = signed_bytes(v.size_z as int, 1) + t10;
    let t8 = signed_bytes(v.size_y as int, 1) + t9;
    let t7 = signed_bytes(v.size_x as int, 1) + t8;
    let t6 = signed_bytes(v.offset_z as int, 1) + t7;
    let t5 = signed_bytes(v.offset_y as int, 1) + t6;
    let t4 = signed_bytes(v.offset_x as int, 1) + t5;
    let t3 = string_bytes(v.name) + t4;
    let t2 = varint_bytes(v.mode) + t3;
    let t1 = varint_bytes(v.action) + t2;
    let t0 = position_bytes(v.location) + t1;
    lemma_assoc(position_bytes(v.location), varint_bytes(v.action) + (varint_bytes(v.mode) + (string_bytes(v.name) + (signed_bytes(v.offset_x as int, 1) + (signed_bytes(v.offset_y as int, 1) + (signed_bytes(v.offset_z as int, 1) + (signed_bytes(v.size_x as int, 1) + (signed_bytes(v.size_y as int, 1) + (signed_bytes(v.size_z as int, 1) + (varint_bytes(v.mirror) + (varint_bytes(v.rotation) + (string_bytes(v.metadata) + (be_bytes(v.integrity as nat, 4) + (varlong_bytes(v.seed) + (signed_bytes(v.flags as int, 1))))))))))))))), rest);
    lemma_assoc(varint_bytes(v.action), varint_bytes(v.mode) + (string_bytes(v.name) + (signed_bytes(v.offset_x as int, 1) + (signed_bytes(v.offset_y as int, 1) + (signed_bytes(v.offset_z as int, 1) + (signed_bytes(v.size_x as int, 1) + (signed_bytes(v.size_y as int, 1) + (signed_bytes(v.size_z as int, 1) + (varint_bytes(v.mirror) + (varint_bytes(v.rotation) + (string_bytes(v.metadata) + (be_bytes(v.integrity as nat, 4) + (varlong_bytes(v.seed) + (signed_bytes(v.flags as int, 1)))))))))))))), rest);
    lemma_assoc(varint_bytes(v.mode), string_bytes(v.name) + (signed_bytes(v.offset_x as int, 1) + (signed_bytes(v.offset_y as int, 1) + (signed_bytes(v.offset_z as int, 1) + (signed_bytes(v.size_x as int, 1) + (signed_bytes(v.size_y as int, 1) + (signed_bytes(v.size_z as int, 1) + (varint_bytes(v.mirror) + (varint_bytes(v.rotation) + (string_bytes(v.metadata) + (be_bytes(v.integrity as nat, 4) + (varlong_bytes(v.seed) + (signed_bytes(v.flags as int, 1))))))))))))), rest);
    lemma_assoc(string_bytes(v.name), signed_bytes(v.offset_x as int, 1) + (signed_bytes(v.offset_y as int, 1) + (signed_bytes(v.offset_z as int, 1) + (signed_bytes(v.size_x as int, 1) + (signed_bytes(v.size_y as int, 1) + (signed_bytes(v.size_z as int, 1) + (varint_bytes(v.mirror) + (varint_bytes(v.rotation) + (string_bytes(v.metadata) + (be_bytes(v.integrity as nat, 4) + (varlong_bytes(v.seed) + (signed_bytes(v.flags as int, 1)))))))))))), rest);
    lemma_assoc(signed_bytes(v.offset_x as int, 1), signed_bytes(v.offset_y as int, 1) + (signed_bytes(v.offset_z as int, 1) + (signed_bytes(v.size_x as int, 1) + (signed_bytes(v.size_y as int, 1) + (signed_bytes(v.size_z as int, 1) + (varint_bytes(v.mirror) + (varint_bytes(v.rotation) + (string_bytes(v.metadata) + (be_bytes(v.integrity as nat, 4) + (varlong_bytes(v.seed) + (signed_bytes(v.flags as int, 1))))))))))), rest);
    lemma_assoc(signed_bytes(v.offset_y as int, 1), signed_bytes(v.offset_z as int, 1) + (signed_bytes(v.size_x as int, 1) + (signed_bytes(v.size_y as int, 1) + (signed_bytes(v.size_z as int, 1) + (varint_bytes(v.mirror) + (varint_bytes(v.rotation) + (string_bytes(v.metadata) + (be_bytes(v.integrity as nat, 4) + (varlong_bytes(v.seed) + (signed_bytes(v.flags as int, 1)))))))))), rest);
    lemma_assoc(signed_bytes(v.offset_z as int, 1), signed_bytes(v.size_x as int, 1) + (signed_bytes(v.size_y as int, 1) + (signed_bytes(v.size_z as int, 1) + (varint_bytes(v.mirror) + (varint_bytes(v.rotation) + (string_bytes(v.metadata) + (be_bytes(v.integrity as nat, 4) + (varlong_bytes(v.seed) + (signed_bytes(v.flags as int, 1))))))))), rest);
    lemma_assoc(signed_bytes(v.size_x as int, 1), signed_bytes(v.size_y as int, 1) + (signed_bytes(v.size_z as int, 1) + (varint_bytes(v.mirror) + (varint_bytes(v.rotation) + (string_bytes(v.metadata) + (be_bytes(v.integrity as nat, 4) + (varlong_bytes(v.seed) + (signed_bytes(v.flags as int, 1)))))))), rest);
    lemma_assoc(signed_bytes(v.size_y as int, 1), signed_bytes(v.size_z as int, 1) + (varint_bytes(v.mirror) + (varint_bytes(v.rotation) + (string_bytes(v.metadata) + (be_bytes(v.integrity as nat, 4) + (varlong_bytes(v.seed) + (signed_bytes(v.flags as int, 1))))))), rest);
    lemma_assoc(signed_bytes(v.size_z as int, 1), varint_bytes(v.mirror) + (varint_bytes(v.rotation) + (string_bytes(v.metadata) + (be_bytes(v.integrity as nat, 4) + (varlong_bytes(v.seed) + (signed_bytes(v.flags as int, 1)))))), rest);
    lemma_assoc(varint_bytes(v.mirror), varint_bytes(v.rotation) + (string_bytes(v.metadata) + (be_bytes(v.integrity as nat, 4) + (varlong_bytes(v.seed) + (signed_bytes(v.flags as int, 1))))), rest);
    lemma_assoc(varint_bytes(v.rotation), string_bytes(v.metadata) + (be_bytes(v.integrity as nat, 4) + (varlong_bytes(v.seed) + (signed_bytes(v.flags as int, 1)))), rest);
    lemma_assoc(string_bytes(v.metadata), be_bytes(v.integrity as nat, 4) + (varlong_bytes(v.seed) + (signed_bytes(v.flags as int, 1))), rest);
    lemma_assoc(be_bytes(v.integrity as nat, 4), varlong_bytes(v.seed) + (signed_bytes(v.flags as int, 1)), rest);
    lemma_assoc(varlong_bytes(v.seed), signed_bytes(v.flags as int, 1), rest);
    assert(update_structure_block_bytes(v) + rest == t0);
    lemma_position_round_trip(v.location, t1);
    lemma_parse_var_int(v.action, t2);
    lemma_parse_var_int(v.mode, t3);
    lemma_parse_string(v.name, t4);
    lemma_parse_signed(v.offset_x as int, 1, t5);
    lemma_parse_signed(v.offset_y as int, 1, t6);
    lemma_parse_signed(v.offset_z as int, 1, t7);
    lemma_parse_signed(v.size_x as int, 1, t8);
    lemma_parse_signed(v.size_y as int, 1, t9);
    lemma_parse_signed(v.size_z as int, 1, t10);
    lemma_parse_var_int(v.mirror, t11);
    lemma_parse_var_int(v.rotation, t12);
    lemma_parse_string(v.metadata, t13);
    lemma_parse_be(v.integrity as nat, 4, t14);
    lemma_parse_var_long(v.seed, t15);
    lemma_parse_signed(v.flags as int, 1, t16);
}

impl UpdateStructureBlock {
    /// Appends the fields' wire form; fails, writing nothing, when a field does
    /// not fit.
    #[verifier::spinoff_prover]
    #[verifier::rlimit(100)]
    pub fn encode(&self, out: &mut Vec<u8>) -> (r: Result<(), ProtocolError>)
        ensures
            r is Ok <==> update_structure_block_fits(self@),
            r is Ok ==> final(out)@ == old(out)@ + update_structure_block_bytes(self@),
            r is Err ==> final(out)@ == old(out)@,
    {
        let mut w: Vec<u8> = Vec::new();
        match self.location.encode(&mut w) {
            Ok(()) => {},
            Err(e) => return Err(e),
        }
        assert(w@ =~= position_bytes(self@.location));
        self.action.encode(&mut w);
        self.mode.encode(&mut w);
        if utf8_len(&self.name.0) > 0x7fff_ffff {
            return Err(ProtocolError::BadLength);
        }
        self.name.encode(&mut w);
        write_i8(self.offset_x, &mut w);
        write_i8(self.offset_y, &mut w);
        write_i8(self.offset_z, &mut w);
        write_i8(self.size_x, &mut w);
        write_i8(self.size_y, &mut w);
        write_i8(self.size_z, &mut w);
        self.mirror.encode(&mut w);
        self.rotation.encode(&mut w);
        if utf8_len(&self.metadata.0) > 0x7fff_ffff {
            return Err(ProtocolError::BadLength);
        }
        self.metadata.encode(&mut w);
        write_u32(self.integrity, &mut w);
        self.seed.encode(&mut w);
        write_i8(self.flags, &mut w);
        assert(w@ == update_structure_block_bytes(self@));
        write_raw(w.as_slice(), out);
        Ok(())
    }

    /// Reads the fields at `pos`.
    #[verifier::spinoff_prover]
    #[verifier::rlimit(100)]
    pub fn decode(input: &[u8], pos: usize) -> (r: Result<(UpdateStructureBlock, usize), ProtocolError>)
        requires
            pos <= input@.len(),
        ensures
            agrees(
                match r {
                    Ok((v, p)) => Ok((v@, p)),
                    Err(e) => Err(e),
                },
                input@,
                pos as int,
                parse_update_structure_block(input@.skip(pos as int)),
            ),
    {
        let cursor = pos;
        let (location, cursor) = match Position::decode(input, cursor) {
            Ok((x, q)) => (x, q),
            Err(e) => return Err(e),
        };
        let (action, cursor) = match read_var_int(input, cursor) {
            Ok((x, q)) => (VarInt(x), q),
            Err(e) => return Err(e),
        };
        let (mode, cursor) = match read_var_int(input, cursor) {
            Ok((x, q)) => (VarInt(x), q),
            Err(e) => return Err(e),
        };
        let (name, cursor) = match String::decode(input, cursor) {
            Ok((x, q)) => (x, q),
            Err(e) => return Err(e),
        };
        let (offset_x, cursor) = match read_i8(input, cursor) {
            Ok((x, q)) => (x, q),
            Err(e) => return Err(e),
        };
        let (offset_y, cursor) = match read_i8(input, cursor) {
            Ok((x, q)) => (x, q),
            Err(e) => return Err(e),
        };
        let (offset_z, cursor) = match read_i8(input, cursor) {
            Ok((x, q)) => (x, q),
            Err(e) => return Err(e),
        };
        let (size_x, cursor) = match read_i8(input, cursor) {
            Ok((x, q)) => (x, q),
            Err(e) => return Err(e),
        };
        let (size_y, cursor) = match read_i8(input, cursor) {
            Ok((x, q)) => (x, q),
            Err(e) => return Err(e),
        };
        let (size_z, cursor) = match read_i8(input, cursor) {
            Ok((x, q)) => (x, q),
            Err(e) => return Err(e),
        };
        let (mirror, cursor) = match read_var_int(input, cursor) {
            Ok((x, q)) => (VarInt(x), q),
            Err(e) => return Err(e),
        };
        let (rotation, cursor) = match read_var_int(input, cursor) {
            Ok((x, q)) => (VarInt(x), q),
            Err(e) => return Err(e),
        };
        let (metadata, cursor) = match String::decode(input, cursor) {
            Ok((x, q)) => (x, q),
            Err(e) => return Err(e),
        };
        let (integrity, cursor) = match read_u32(input, cursor) {
            Ok((x, q)) => (x, q),
            Err(e) => return Err(e),
        };
        let (seed, cursor) = match read_var_long(input, cursor) {
            Ok((x, q)) => (VarLong(x), q),
            Err(e) => return Err(e),
        };
        let (flags, cursor) = match read_i8(input, cursor) {
            Ok((x, q)) => (x, q),
            Err(e) => return Err(e),
        };
        Ok((UpdateStructureBlock { location, action, mode, name, offset_x, offset_y, offset_z, size_x, size_y, size_z, mirror, rotation, metadata, integrity, seed, flags }, cursor))
    }
}

/// The fields of the UpdateSign packet (id 0x2b).
#[derive(Debug, PartialEq)]
pub struct UpdateSign {
    pub location: Position,
    pub line_1: String,
    pub line_2: String,
    pub line_3: String,
    pub line_4: String,
}

pub struct UpdateSignV {
    pub location: Position,
    pub line_1: Seq<char>,
    pub line_2: Seq<char>,
    pub line_3: Seq<char>,
    pub line_4: Seq<char>,
}

impl View for UpdateSign {
    type V = UpdateSignV;

    open spec fn view(&self) -> UpdateSignV {
        UpdateSignV { location: self.location, line_1: self.line_1.0@, line_2: self.line_2.0@, line_3: self.line_3.0@, line_4: self.line_4.0@ }
    }
}

pub open spec fn update_sign_fits(v: UpdateSignV) -> bool {
    position_in_range(v.location) && string_fits(v.line_1) && string_fits(v.line_2) && string_fits(v.line_3) && string_fits(v.line_4)
}

pub open spec fn update_sign_bytes(v: UpdateSignV) -> Seq<u8> {
    position_bytes(v.location) + (string_bytes(v.line_1) + (string_bytes(v.line_2) + (string_bytes(v.line_3) + (string_bytes(v.line_4)))))
}

pub open spec fn parse_update_sign(s: Seq<u8>) -> Parsed<UpdateSignV> {
    match parse_position(s) {
        Ok((location, s)) => match parse_string(s) {
        Ok((line_1, s)) => match parse_string(s) {
        Ok((line_2, s)) => match parse_string(s) {
        Ok((line_3, s)) => match parse_string(s) {
        Ok((line_4, s)) => Ok((UpdateSignV { location, line_1, line_2, line_3, line_4 }, s)),
        Err(e) => Err(e),
    },
        Err(e) => Err(e),
    },
        Err(e) => Err(e),
    },
        Err(e) => Err(e),
    },
        Err(e) => Err(e),
    }
}

/// Every UpdateSign packet whose fields fit reads back as itself, whatever follows.
#[verifier::spinoff_prover]
#[verifier::rlimit(100)]
pub proof fn lemma_update_sign_round_trip(v: UpdateSignV, rest: Seq<u8>)
    requires
        update_sign_fits(v),
    ensures
        parse_update_sign(update_sign_bytes(v) + rest) == Ok::<(UpdateSignV, Seq<u8>), ProtocolError>((v, rest)),
{
    lemma_pow256_values();
    let t5 = rest;
    let t4 = string_bytes(v.line_4) + t5;
    let t3 = string_bytes(v.line_3) + t4;
    let t2 = string_bytes(v.line_2) + t3;
    let t1 = string_bytes(v.line_1) + t2;
    let t0 = position_bytes(v.location) + t1;
    lemma_assoc(position_bytes(v.location), string_bytes(v.line_1) + (string_bytes(v.line_2) + (string_bytes(v.line_3) + (string_bytes(v.line_4)))), rest);
    lemma_assoc(string_bytes(v.line_1), string_bytes(v.line_2) + (string_bytes(v.line_3) + (string_bytes(v.line_4))), rest);
    lemma_assoc(string_bytes(v.line_2), string_bytes(v.line_3) + (string_bytes(v.line_4)), rest);
    lemma_assoc(string_bytes(v.line_3), string_bytes(v.line_4), rest);
    assert(update_sign_bytes(v) + rest == t0);
    lemma_position_round_trip(v.location, t1);
    lemma_parse_string(v.line_1, t2);
    lemma_parse_string(v.line_2, t3);
    lemma_parse_string(v.line_3, t4);
    lemma_parse_string(v.line_4, t5);
}

impl UpdateSign {
    /// Appends the fields' wire form; fails, writing nothing, when a field does
    /// not fit.
    #[verifier::spinoff_prover]
    #[verifier::rlimit(100)]
    pub fn encode(&self, out: &mut Vec<u8>) -> (r: Result<(), ProtocolError>)
        ensures
            r is Ok <==> update_sign_fits(self@),
            r is Ok ==> final(out)@ == old(out)@ + update_sign_bytes(self@),
            r is Err ==> final(out)@ == old(out)@,
    {
        let mut w: Vec<u8> = Vec::new();
        match self.location.encode(&mut w) {
            Ok(()) => {},
            Err(e) => return Err(e),
        }
        assert(w@ =~= position_bytes(self@.location));
        if utf8_len(&self.line_1.0) > 0x7fff_ffff {
            return Err(ProtocolError::BadLength);
        }
        self.line_1.encode(&mut w);
        if utf8_len(&self.line_2.0) > 0x7fff_ffff {
            return Err(ProtocolError::BadLength);
        }
        self.line_2.encode(&mut w);
        if utf8_len(&self.line_3.0) > 0x7fff_ffff {
            return Err(ProtocolError::BadLength);
        }
        self.line_3.encode(&mut w);
        if utf8_len(&self.line_4.0) > 0x7fff_ffff {
            return Err(ProtocolError::BadLength);
        }
        self.line_4.encode(&mut w);
        assert(w@ == update_sign_bytes(self@));
        write_raw(w.as_slice(), out);
        Ok(())
    }

    /// Reads the fields at `pos`.
    #[verifier::spinoff_prover]
    #[verifier::rlimit(100)]
    pub fn decode(input: &[u8], pos: usize) -> (r: Result<(UpdateSign, usize), ProtocolError>)
        requires
            pos <= input@.len(),
        ensures
            agrees(
                match r {
                    Ok((v, p)) => Ok((v@, p)),
                    Err(e) => Err(e),
                },
                input@,
                pos as int,
                parse_update_sign(input@.skip(pos as int)),
            ),
    {
        let cursor = pos;
        let (location, cursor) = match Position::decode(input, cursor) {
            Ok((x, q)) => (x, q),
            Err(e) => return Err(e),
        };
        let (line_1, cursor) = match String::decode(input, cursor) {
            Ok((x, q)) => (x, q),
            Err(e) => return Err(e),
        };
        let (line_2, cursor) = match String::decode(input, cursor) {
            Ok((x, q)) => (x, q),
            Err(e) => return Err(e),
        };
        let (line_3, cursor) = match String::decode(input, cursor) {
            Ok((x, q)) => (x, q),
            Err(e) => return Err(e),
        };
        let (line_4, cursor) = match String::decode(input, cursor) {
            Ok((x, q)) => (x, q),
            Err(e) => return Err(e),
        };
        Ok((UpdateSign { location, line_1, line_2, line_3, line_4 }, cursor))
    }
}

/// The fields of the Animation packet (id 0x2c).
#[derive(Debug, PartialEq)]
pub struct Animation {
    pub hand: VarInt,
}

pub struct AnimationV {
    pub hand: i32,
}

impl View for Animation {
    type V = AnimationV;

    open spec fn view(&self) -> AnimationV {
        AnimationV { hand: self.hand.0 }
    }
}

pub open spec fn animation_fits(v: AnimationV) -> bool {
    true
}

pub open spec fn animation_bytes(v: AnimationV) -> Seq<u8> {
    varint_bytes(v.hand)
}

pub open spec fn parse_animation(s: Seq<u8>) -> Parsed<AnimationV> {
    match parse_var_int(s) {
        Ok((hand, s)) => Ok((AnimationV { hand }, s)),
        Err(e) => Err(e),
    }
}

/// Every Animation packet whose fields fit reads back as itself, whatever follows.
#[verifier::spinoff_prover]
#[verifier::rlimit(100)]
pub proof fn lemma_animation_round_trip(v: AnimationV, rest: Seq<u8>)
    requires
        animation_fits(v),
    ensures
        parse_animation(animation_bytes(v) + rest) == Ok::<(AnimationV, Seq<u8>), ProtocolError>((v, rest)),
{
    lemma_pow256_values();
    let t1 = rest;
    let t0 = varint_bytes(v.hand) + t1;
    assert(animation_bytes(v) + rest == t0);
    lemma_parse_var_int(v.hand, t1);
}

impl Animation {
    /// Appends the fields' wire form; fails, writing nothing, when a field does
    /// not fit.
    #[verifier::spinoff_prover]
    #[verifier::rlimit(100)]
    pub fn encode(&self, out: &mut Vec<u8>) -> (r: Result<(), ProtocolError>)
        ensures
            r is Ok <==> animation_fits(self@),
            r is Ok ==> final(out)@ == old(out)@ + animation_bytes(self@),
            r is Err ==> final(out)@ == old(out)@,
    {
        let mut w: Vec<u8> = Vec::new();
        self.hand.encode(&mut w);
        assert(w@ =~= varint_bytes(self@.hand));
        assert(w@ == animation_bytes(self@));
        write_raw(w.as_slice(), out);
        Ok(())
    }

    /// Reads the fields at `pos`.
    #[verifier::spinoff_prover]
    #[verifier::rlimit(100)]
    pub fn decode(input: &[u8], pos: usize) -> (r: Result<(Animation, usize), ProtocolError>)
        requires
            pos <= input@.len(),
        ensures
            agrees(
                match r {
                    Ok((v, p)) => Ok((v@, p)),
                    Err(e) => Err(e),
                },
                input@,
                pos as int,
                parse_animation(input@.skip(pos as int)),
            ),
    {
        let cursor = pos;
        let (hand, cursor) = match read_var_int(input, cursor) {
            Ok((x, q)) => (VarInt(x), q),
            Err(e) => return Err(e),
        };
        Ok((Animation { hand }, cursor))
    }
}

/// The fields of the Spectate packet (id 0x2d).
#[derive(Debug, PartialEq)]
pub struct Spectate {
    pub target_player: Uuid,
}

pub struct SpectateV {
    pub target_player: u128,
}

impl View for Spectate {
    type V = SpectateV;

    open spec fn view(&self) -> SpectateV {
        SpectateV { target_player: self.target_player.0 }
    }
}

pub open spec fn spectate_fits(v: SpectateV) -> bool {
    true
}

pub open spec fn spectate_bytes(v: SpectateV) -> Seq<u8> {
    be_bytes(v.target_player as nat, 16)
}

pub open spec fn parse_spectate(s: Seq<u8>) -> Parsed<SpectateV> {
    match parse_u128(s) {
        Ok((target_player, s)) => Ok((SpectateV { target_player }, s)),
        Err(e) => Err(e),
    }
}

/// Every Spectate packet whose fields fit reads back as itself, whatever follows.
#[verifier::spinoff_prover]
#[verifier::rlimit(100)]
pub proof fn lemma_spectate_round_trip(v: SpectateV, rest: Seq<u8>)
    requires
        spectate_fits(v),
    ensures
        parse_spectate(spectate_bytes(v) + rest) == Ok::<(SpectateV, Seq<u8>), ProtocolError>((v, rest)),
{
    lemma_pow256_values();
    let t1 = rest;
    let t0 = be_bytes(v.target_player as nat, 16) + t1;
    assert(spectate_bytes(v) + rest == t0);
    lemma_parse_be(v.target_player as nat, 16, t1);
}

impl Spectate {
    /// Appends the fields' wire form; fails, writing nothing, when a field does
    /// not fit.
    #[verifier::spinoff_prover]
    #[verifier::rlimit(100)]
    pub fn encode(&self, out: &mut Vec<u8>) -> (r: Result<(), ProtocolError>)
        ensures
            r is Ok <==> spectate_fits(self@),
            r is Ok ==> final(out)@ == old(out)@ + spectate_bytes(self@),
            r is Err ==> final(out)@ == old(out)@,
    {
        let mut w: Vec<u8> = Vec::new();
        self.target_player.encode(&mut w);
        assert(w@ =~= be_bytes(self@.target_player as nat, 16));
        assert(w@ == spectate_bytes(self@));
        write_raw(w.as_slice(), out);
        Ok(())
    }

    /// Reads the fields at `pos`.
    #[verifier::spinoff_prover]
    #[verifier::rlimit(100)]
    pub fn decode(input: &[u8], pos: usize) -> (r: Result<(Spectate, usize), ProtocolError>)
        requires
            pos <= input@.len(),
        ensures
            agrees(
                match r {
                    Ok((v, p)) => Ok((v@, p)),
                    Err(e) => Err(e),
                },
                input@,
                pos as int,
                parse_spectate(input@.skip(pos as int)),
            ),
    {
        let cursor = pos;
        let (target_player, cursor) = match Uuid::decode(input, cursor) {
            Ok((x, q)) => (x, q),
            Err(e) => return Err(e),
        };
        Ok((Spectate { target_player }, cursor))
    }
}

/// The fields of the PlayerBlockPlacement packet (id 0x2e).
#[derive(Debug, PartialEq)]
pub struct PlayerBlockPlacement {
    pub hand: VarInt,
    pub location: Position,
    pub face: VarInt,
    pub cursor_position_x: u32,
    pub cursor_position_y: u32,
    pub cursor_position_z: u32,
    pub inside_block: bool,
}

pub struct PlayerBlockPlacementV {
    pub hand: i32,
    pub location: Position,
    pub face: i32,
    pub cursor_position_x: u32,
    pub cursor_position_y: u32,
    pub cursor_position_z: u32,
    pub inside_block: bool,
}

impl View for PlayerBlockPlacement {
    type V = PlayerBlockPlacementV;

    open spec fn view(&self) -> PlayerBlockPlacementV {
        PlayerBlockPlacementV { hand: self.hand.0, location: self.location, face: self.face.0, cursor_position_x: self.cursor_position_x, cursor_position_y: self.cursor_position_y, cursor_position_z: self.cursor_position_z, inside_block: self.inside_block }
    }
}

pub open spec fn player_block_placement_fits(v: PlayerBlockPlacementV) -> bool {
    position_in_range(v.location)
}

pub open spec fn player_block_placement_bytes(v: PlayerBlockPlacementV) -> Seq<u8> {
    varint_bytes(v.hand) + (position_bytes(v.location) + (varint_bytes(v.face) + (be_bytes(v.cursor_position_x as nat, 4) + (be_bytes(v.cursor_position_y as nat, 4) + (be_bytes(v.cursor_position_z as nat, 4) + (bool_bytes(v.inside_block)))))))
}

pub open spec fn parse_player_block_placement(s: Seq<u8>) -> Parsed<PlayerBlockPlacementV> {
    match parse_var_int(s) {
        Ok((hand, s)) => match parse_position(s) {
        Ok((location, s)) => match parse_var_int(s) {
        Ok((face, s)) => match parse_u32(s) {
        Ok((cursor_position_x, s)) => match parse_u32(s) {
        Ok((cursor_position_y, s)) => match parse_u32(s) {
        Ok((cursor_position_z, s)) => match parse_bool(s) {
        Ok((inside_block, s)) => Ok((PlayerBlockPlacementV { hand, location, face, cursor_position_x, cursor_position_y, cursor_position_z, inside_block }, s)),
        Err(e) => Err(e),
    },
        Err(e) => Err(e),
    },
        Err(e) => Err(e),
    },
        Err(e) => Err(e),
    },
        Err(e) => Err(e),
    },
        Err(e) => Err(e),
    },
        Err(e) => Err(e),
    }
}

/// Every PlayerBlockPlacement packet whose fields fit reads back as itself, whatever follows.
#[verifier::spinoff_prover]
#[verifier::rlimit(100)]
pub proof fn lemma_player_block_placement_round_trip(v: PlayerBlockPlacementV, rest: Seq<u8>)
    requires
        player_block_placement_fits(v),
    ensures
        parse_player_block_placement(player_block_placement_bytes(v) + rest) == Ok::<(PlayerBlockPlacementV, Seq<u8>), ProtocolError>((v, rest)),
{
    lemma_pow256_values();
    let t7 = rest;
    let t6 = bool_bytes(v.inside_block) + t7;
    let t5 = be_bytes(v.cursor_position_z as nat, 4) + t6;
    let t4 = be_bytes(v.cursor_position_y as nat, 4) + t5;
    let t3 = be_bytes(v.cursor_position_x as nat, 4) + t4;
    let t2 = varint_bytes(v.face) + t3;
    let t1 = position_bytes(v.location) + t2;
    let t0 = varint_bytes(v.hand) + t1;
    lemma_assoc(varint_bytes(v.hand), position_bytes(v.location) + (varint_bytes(v.face) + (be_bytes(v.cursor_position_x as nat, 4) + (be_bytes(v.cursor_position_y as nat, 4) + (be_bytes(v.cursor_position_z as nat, 4) + (bool_bytes(v.inside_block)))))), rest);
    lemma_assoc(position_bytes(v.location), varint_bytes(v.face) + (be_bytes(v.cursor_position_x as nat, 4) + (be_bytes(v.cursor_position_y as nat, 4) + (be_bytes(v.cursor_position_z as nat, 4) + (bool_bytes(v.inside_block))))), rest);
    lemma_assoc(varint_bytes(v.face), be_bytes(v.cursor_position_x as nat, 4) + (be_bytes(v.cursor_position_y as nat, 4) + (be_bytes(v.cursor_position_z as nat, 4) + (bool_bytes(v.inside_block)))), rest);
    lemma_assoc(be_bytes(v.cursor_position_x as nat, 4), be_bytes(v.cursor_position_y as nat, 4) + (be_bytes(v.cursor_position_z as nat, 4) + (bool_bytes(v.inside_block))), rest);
    lemma_assoc(be_bytes(v.cursor_position_y as nat, 4), be_bytes(v.cursor_position_z as nat, 4) + (bool_bytes(v.inside_block)), rest);
    lemma_assoc(be_bytes(v.cursor_position_z as nat, 4), bool_bytes(v.inside_block), rest);
    assert(player_block_placement_bytes(v) + rest == t0);
    lemma_parse_var_int(v.hand, t1);
    lemma_position_round_trip(v.location, t2);
    lemma_parse_var_int(v.face, t3);
    lemma_parse_be(v.cursor_position_x as nat, 4, t4);
    lemma_parse_be(v.cursor_position_y as nat, 4, t5);
    lemma_parse_be(v.cursor_position_z as nat, 4, t6);
    lemma_parse_bool(v.inside_block, t7);
}

impl PlayerBlockPlacement {
    /// Appends the fields' wire form; fails, writing nothing, when a field does
    /// not fit.
    #[verifier::spinoff_prover]
    #[verifier::rlimit(100)]
    pub fn encode(&self, out: &mut Vec<u8>) -> (r: Result<(), ProtocolError>)
        ensures
            r is Ok <==> player_block_placement_fits(self@),
            r is Ok ==> final(out)@ == old(out)@ + player_block_placement_bytes(self@),
            r is Err ==> final(out)@ == old(out)@,
    {
        let mut w: Vec<u8> = Vec::new();
        self.hand.encode(&mut w);
        assert(w@ =~= varint_bytes(self@.hand));
        match self.location.encode(&mut w) {
            Ok(()) => {},
            Err(e) => return Err(e),
        }
        self.face.encode(&mut w);
        write_u32(self.cursor_position_x, &mut w);
        write_u32(self.cursor_position_y, &mut w);
        write_u32(self.cursor_position_z, &mut w);
        write_bool(self.inside_block, &mut w);
        assert(w@ == player_block_placement_bytes(self@));
        write_raw(w.as_slice(), out);
        Ok(())
    }

    /// Reads the fields at `pos`.
    #[verifier::spinoff_prover]
    #[verifier::rlimit(100)]
    pub fn decode(input: &[u8], pos: usize) -> (r: Result<(PlayerBlockPlacement, usize), ProtocolError>)
        requires
            pos <= input@.len(),
        ensures
            agrees(
                match r {
                    Ok((v, p)) => Ok((v@, p)),
                    Err(e) => Err(e),
                },
                input@,
                pos as int,
                parse_player_block_placement(input@.skip(pos as int)),
            ),
    {
        let cursor = pos;
        let (hand, cursor) = match read_var_int(input, cursor) {
            Ok((x, q)) => (VarInt(x), q),
            Err(e) => return Err(e),
        };
        let (location, cursor) = match Position::decode(input, cursor) {
            Ok((x, q)) => (x, q),
            Err(e) => return Err(e),
        };
        let (face, cursor) = match read_var_int(input, cursor) {
            Ok((x, q)) => (VarInt(x), q),
            Err(e) => return Err(e),
        };
        let (cursor_position_x, cursor) = match read_u32(input, cursor) {
            Ok((x, q)) => (x, q),
            Err(e) => return Err(e),
        };
        let (cursor_position_y, cursor) = match read_u32(input, cursor) {
            Ok((x, q)) => (x, q),
            Err(e) => return Err(e),
        };
        let (cursor_position_z, cursor) = match read_u32(input, cursor) {
            Ok((x, q)) => (x, q),
            Err(e) => return Err(e),
        };
        let (inside_block, cursor) = match read_bool(input, cursor) {
            Ok((x, q)) => (x, q),
            Err(e) => return Err(e),
        };
        Ok((PlayerBlockPlacement { hand, location, face, cursor_position_x, cursor_position_y, cursor_position_z, inside_block }, cursor))
    }
}

/// The fields of the UseItem packet (id 0x2f).
#[derive(Debug, PartialEq)]
pub struct UseItem {
    pub hand: VarInt,
}

pub struct UseItemV {
    pub hand: i32,
}

impl View for UseItem {
    type V = UseItemV;

    open spec fn view(&self) -> UseItemV {
        UseItemV { hand: self.hand.0 }
    }
}

pub open spec fn use_item_fits(v: UseItemV) -> bool {
    true
}

pub open spec fn use_item_bytes(v: UseItemV) -> Seq<u8> {
    varint_bytes(v.hand)
}

pub open spec fn parse_use_item(s: Seq<u8>) -> Parsed<UseItemV> {
    match parse_var_int(s) {
        Ok((hand, s)) => Ok((UseItemV { hand }, s)),
        Err(e) => Err(e),
    }
}

/// Every UseItem packet whose fields fit reads back as itself, whatever follows.
#[verifier::spinoff_prover]
#[verifier::rlimit(100)]
pub proof fn lemma_use_item_round_trip(v: UseItemV, rest: Seq<u8>)
    requires
        use_item_fits(v),
    ensures
        parse_use_item(use_item_bytes(v) + rest) == Ok::<(UseItemV, Seq<u8>), ProtocolError>((v, rest)),
{
    lemma_pow256_values();
    let t1 = rest;
    let t0 = varint_bytes(v.hand) + t1;
    assert(use_item_bytes(v) + rest == t0);
    lemma_parse_var_int(v.hand, t1);
}

impl UseItem {
    /// Appends the fields' wire form; fails, writing nothing, when a field does
    /// not fit.
    #[verifier::spinoff_prover]
    #[verifier::rlimit(100)]
    pub fn encode(&self, out: &mut Vec<u8>) -> (r: Result<(), ProtocolError>)
        ensures
            r is Ok <==> use_item_fits(self@),
            r is Ok ==> final(out)@ == old(out)@ + use_item_bytes(self@),
            r is Err ==> final(out)@ == old(out)@,
    {
        let mut w: Vec<u8> = Vec::new();
        self.hand.encode(&mut w);
        assert(w@ =~= varint_bytes(self@.hand));
        assert(w@ == use_item_bytes(self@));
        write_raw(w.as_slice(), out);
        Ok(())
    }

    /// Reads the fields at `pos`.
    #[verifier::spinoff_prover]
    #[verifier::rlimit(100)]
    pub fn decode(input: &[u8], pos: usize) -> (r: Result<(UseItem, usize), ProtocolError>)
        requires
            pos <= input@.len(),
        ensures
            agrees(
                match r {
                    Ok((v, p)) => Ok((v@, p)),
                    Err(e) => Err(e),
                },
                input@,
                pos as int,
                parse_use_item(input@.skip(pos as int)),
            ),
    {
        let cursor = pos;
        let (hand, cursor) = match read_var_int(input, cursor) {
            Ok((x, q)) => (VarInt(x), q),
            Err(e) => return Err(e),
        };
        Ok((UseItem { hand }, cursor))
    }
}

/// The serverbound play packets with plain fields, each with its own struct.
#[derive(Debug, PartialEq)]
pub enum Packet {
    QueryBlockNbt(QueryBlockNbt),
    QueryEntityNbt(QueryEntityNbt),
    SetDifficulty(SetDifficulty),
    ChatMessage(ChatMessage),
    ClientStatus(ClientStatus),
    TabComplete(TabComplete),
    WindowConfirmation(WindowConfirmation),
    ClickWindowButton(ClickWindowButton),
    CloseWindow(CloseWindow),
    PluginMessage(PluginMessage),
    GenerateStructure(GenerateStructure),
    LockDifficulty(LockDifficulty),
    PlayerPosition(PlayerPosition),
    PlayerRotation(PlayerRotation),
    PlayerMovement(PlayerMovement),
    VehicleMove(VehicleMove),
    SteerBoat(SteerBoat),
    PickItem(PickItem),
    CraftRecipeRequest(CraftRecipeRequest),
    PlayerAbilities(PlayerAbilities),
    PlayerDigging(PlayerDigging),
    EntityAction(EntityAction),
    SteerVehicle(SteerVehicle),
    SetDisplayedRecipe(SetDisplayedRecipe),
    SetRecipeBookState(SetRecipeBookState),
    NameItem(NameItem),
    ResourcePackStatus(ResourcePackStatus),
    SelectTrade(SelectTrade),
    SetBeaconEffect(SetBeaconEffect),
    HeldItemChange(HeldItemChange),
    UpdateCommandBlock(UpdateCommandBlock),
    UpdateCommandBlockMinecart(UpdateCommandBlockMinecart),
    UpdateJigsawBlock(UpdateJigsawBlock),
    UpdateStructureBlock(UpdateStructureBlock),
    UpdateSign(UpdateSign),
    Animation(Animation),
    Spectate(Spectate),
    PlayerBlockPlacement(PlayerBlockPlacement),
    UseItem(UseItem),
}

pub enum PacketV {
    QueryBlockNbt(QueryBlockNbtV),
    QueryEntityNbt(QueryEntityNbtV),
    SetDifficulty(SetDifficultyV),
    ChatMessage(ChatMessageV),
    ClientStatus(ClientStatusV),
    TabComplete(TabCompleteV),
    WindowConfirmation(WindowConfirmationV),
    ClickWindowButton(ClickWindowButtonV),
    CloseWindow(CloseWindowV),
    PluginMessage(PluginMessageV),
    GenerateStructure(GenerateStructureV),
    LockDifficulty(LockDifficultyV),
    PlayerPosition(PlayerPositionV),
    PlayerRotation(PlayerRotationV),
    PlayerMovement(PlayerMovementV),
    VehicleMove(VehicleMoveV),
    SteerBoat(SteerBoatV),
    PickItem(PickItemV),
    CraftRecipeRequest(CraftRecipeRequestV),
    PlayerAbilities(PlayerAbilitiesV),
    PlayerDigging(PlayerDiggingV),
    EntityAction(EntityActionV),
    SteerVehicle(SteerVehicleV),
    SetDisplayedRecipe(SetDisplayedRecipeV),
    SetRecipeBookState(SetRecipeBookStateV),
    NameItem(NameItemV),
    ResourcePackStatus(ResourcePackStatusV),
    SelectTrade(SelectTradeV),
    SetBeaconEffect(SetBeaconEffectV),
    HeldItemChange(HeldItemChangeV),
    UpdateCommandBlock(UpdateCommandBlockV),
    UpdateCommandBlockMinecart(UpdateCommandBlockMinecartV),
    UpdateJigsawBlock(UpdateJigsawBlockV),
    UpdateStructureBlock(UpdateStructureBlockV),
    UpdateSign(UpdateSignV),
    Animation(AnimationV),
    Spectate(SpectateV),
    PlayerBlockPlacement(PlayerBlockPlacementV),
    UseItem(UseItemV),
}

impl View for Packet {
    type V = PacketV;

    open spec fn view(&self) -> PacketV {
        match self {
            Packet::QueryBlockNbt(x) => PacketV::QueryBlockNbt(x@),
            Packet::QueryEntityNbt(x) => PacketV::QueryEntityNbt(x@),
            Packet::SetDifficulty(x) => PacketV::SetDifficulty(x@),
            Packet::ChatMessage(x) => PacketV::ChatMessage(x@),
            Packet::ClientStatus(x) => PacketV::ClientStatus(x@),
            Packet::TabComplete(x) => PacketV::TabComplete(x@),
            Packet::WindowConfirmation(x) => PacketV::WindowConfirmation(x@),
            Packet::ClickWindowButton(x) => PacketV::ClickWindowButton(x@),
            Packet::CloseWindow(x) => PacketV::CloseWindow(x@),
            Packet::PluginMessage(x) => PacketV::PluginMessage(x@),
            Packet::GenerateStructure(x) => PacketV::GenerateStructure(x@),
            Packet::LockDifficulty(x) => PacketV::LockDifficulty(x@),
            Packet::PlayerPosition(x) => PacketV::PlayerPosition(x@),
            Packet::PlayerRotation(x) => PacketV::PlayerRotation(x@),
            Packet::PlayerMovement(x) => PacketV::PlayerMovement(x@),
            Packet::VehicleMove(x) => PacketV::VehicleMove(x@),
            Packet::SteerBoat(x) => PacketV::SteerBoat(x@),
            Packet::PickItem(x) => PacketV::PickItem(x@),
            Packet::CraftRecipeRequest(x) => PacketV::CraftRecipeRequest(x@),
            Packet::PlayerAbilities(x) => PacketV::PlayerAbilities(x@),
            Packet::PlayerDigging(x) => PacketV::PlayerDigging(x@),
            Packet::EntityAction(x) => PacketV::EntityAction(x@),
            Packet::SteerVehicle(x) => PacketV::SteerVehicle(x@),
            Packet::SetDisplayedRecipe(x) => PacketV::SetDisplayedRecipe(x@),
            Packet::SetRecipeBookState(x) => PacketV::SetRecipeBookState(x@),
            Packet::NameItem(x) => PacketV::NameItem(x@),
            Packet::ResourcePackStatus(x) => PacketV::ResourcePackStatus(x@),
            Packet::SelectTrade(x) => PacketV::SelectTrade(x@),
            Packet::SetBeaconEffect(x) => PacketV::SetBeaconEffect(x@),
            Packet::HeldItemChange(x) => PacketV::HeldItemChange(x@),
            Packet::UpdateCommandBlock(x) => PacketV::UpdateCommandBlock(x@),
            Packet::UpdateCommandBlockMinecart(x) => PacketV::UpdateCommandBlockMinecart(x@),
            Packet::UpdateJigsawBlock(x) => PacketV::UpdateJigsawBlock(x@),
            Packet::UpdateStructureBlock(x) => PacketV::UpdateStructureBlock(x@),
            Packet::UpdateSign(x) => PacketV::UpdateSign(x@),
            Packet::Animation(x) => PacketV::Animation(x@),
            Packet::Spectate(x) => PacketV::Spectate(x@),
            Packet::PlayerBlockPlacement(x) => PacketV::PlayerBlockPlacement(x@),
            Packet::UseItem(x) => PacketV::UseItem(x@),
        }
    }
}

/// The id a packet is sent with.
pub open spec fn packet_id(p: PacketV) -> i32 {
    match p {
        PacketV::QueryBlockNbt(_) => 0x01,
        PacketV::QueryEntityNbt(_) => 0x0d,
        PacketV::SetDifficulty(_) => 0x02,
        PacketV::ChatMessage(_) => 0x03,
        PacketV::ClientStatus(_) => 0x04,
        PacketV::TabComplete(_) => 0x06,
        PacketV::WindowConfirmation(_) => 0x07,
        PacketV::ClickWindowButton(_) => 0x08,
        PacketV::CloseWindow(_) => 0x0a,
        PacketV::PluginMessage(_) => 0x0b,
        PacketV::GenerateStructure(_) => 0x0f,
        PacketV::LockDifficulty(_) => 0x11,
        PacketV::PlayerPosition(_) => 0x12,
        PacketV::PlayerRotation(_) => 0x14,
        PacketV::PlayerMovement(_) => 0x15,
        PacketV::VehicleMove(_) => 0x16,
        PacketV::SteerBoat(_) => 0x17,
        PacketV::PickItem(_) => 0x18,
        PacketV::CraftRecipeRequest(_) => 0x19,
        PacketV::PlayerAbilities(_) => 0x1a,
        PacketV::PlayerDigging(_) => 0x1b,
        PacketV::EntityAction(_) => 0x1c,
        PacketV::SteerVehicle(_) => 0x1d,
        PacketV::SetDisplayedRecipe(_) => 0x1e,
        PacketV::SetRecipeBookState(_) => 0x1f,
        PacketV::NameItem(_) => 0x20,
        PacketV::ResourcePackStatus(_) => 0x21,
        PacketV::SelectTrade(_) => 0x23,
        PacketV::SetBeaconEffect(_) => 0x24,
        PacketV::HeldItemChange(_) => 0x25,
        PacketV::UpdateCommandBlock(_) => 0x26,
        PacketV::UpdateCommandBlockMinecart(_) => 0x27,
        PacketV::UpdateJigsawBlock(_) => 0x29,
        PacketV::UpdateStructureBlock(_) => 0x2a,
        PacketV::UpdateSign(_) => 0x2b,
        PacketV::Animation(_) => 0x2c,
        PacketV::Spectate(_) => 0x2d,
        PacketV::PlayerBlockPlacement(_) => 0x2e,
        PacketV::UseItem(_) => 0x2f,
    }
}

pub open spec fn packet_fits(p: PacketV) -> bool {
    match p {
        PacketV::QueryBlockNbt(v) => query_block_nbt_fits(v),
        PacketV::QueryEntityNbt(v) => query_entity_nbt_fits(v),
        PacketV::SetDifficulty(v) => set_difficulty_fits(v),
        PacketV::ChatMessage(v) => chat_message_fits(v),
        PacketV::ClientStatus(v) => client_status_fits(v),
        PacketV::TabComplete(v) => tab_complete_fits(v),
        PacketV::WindowConfirmation(v) => window_confirmation_fits(v),
        PacketV::ClickWindowButton(v) => click_window_button_fits(v),
        PacketV::CloseWindow(v) => close_window_fits(v),
        PacketV::PluginMessage(v) => plugin_message_fits(v),
        PacketV::GenerateStructure(v) => generate_structure_fits(v),
        PacketV::LockDifficulty(v) => lock_difficulty_fits(v),
        PacketV::PlayerPosition(v) => player_position_fits(v),
        PacketV::PlayerRotation(v) => player_rotation_fits(v),
        PacketV::PlayerMovement(v) => player_movement_fits(v),
        PacketV::VehicleMove(v) => vehicle_move_fits(v),
        PacketV::SteerBoat(v) => steer_boat_fits(v),
        PacketV::PickItem(v) => pick_item_fits(v),
        PacketV::CraftRecipeRequest(v) => craft_recipe_request_fits(v),
        PacketV::PlayerAbilities(v) => player_abilities_fits(v),
        PacketV::PlayerDigging(v) => player_digging_fits(v),
        PacketV::EntityAction(v) => entity_action_fits(v),
        PacketV::SteerVehicle(v) => steer_vehicle_fits(v),
        PacketV::SetDisplayedRecipe(v) => set_displayed_recipe_fits(v),
        PacketV::SetRecipeBookState(v) => set_recipe_book_state_fits(v),
        PacketV::NameItem(v) => name_item_fits(v),
        PacketV::ResourcePackStatus(v) => resource_pack_status_fits(v),
        PacketV::SelectTrade(v) => select_trade_fits(v),
        PacketV::SetBeaconEffect(v) => set_beacon_effect_fits(v),
        PacketV::HeldItemChange(v) => held_item_change_fits(v),
        PacketV::UpdateCommandBlock(v) => update_command_block_fits(v),
        PacketV::UpdateCommandBlockMinecart(v) => update_command_block_minecart_fits(v),
        PacketV::UpdateJigsawBlock(v) => update_jigsaw_block_fits(v),
        PacketV::UpdateStructureBlock(v) => update_structure_block_fits(v),
        PacketV::UpdateSign(v) => update_sign_fits(v),
        PacketV::Animation(v) => animation_fits(v),
        PacketV::Spectate(v) => spectate_fits(v),
        PacketV::PlayerBlockPlacement(v) => player_block_placement_fits(v),
        PacketV::UseItem(v) => use_item_fits(v),
    }
}

/// A packet's fields, after its id.
pub open spec fn packet_body(p: PacketV) -> Seq<u8> {
    match p {
        PacketV::QueryBlockNbt(v) => query_block_nbt_bytes(v),
        PacketV::QueryEntityNbt(v) => query_entity_nbt_bytes(v),
        PacketV::SetDifficulty(v) => set_difficulty_bytes(v),
        PacketV::ChatMessage(v) => chat_message_bytes(v),
        PacketV::ClientStatus(v) => client_status_bytes(v),
        PacketV::TabComplete(v) => tab_complete_bytes(v),
        PacketV::WindowConfirmation(v) => window_confirmation_bytes(v),
        PacketV::ClickWindowButton(v) => click_window_button_bytes(v),
        PacketV::CloseWindow(v) => close_window_bytes(v),
        PacketV::PluginMessage(v) => plugin_message_bytes(v),
        PacketV::GenerateStructure(v) => generate_structure_bytes(v),
        PacketV::LockDifficulty(v) => lock_difficulty_bytes(v),
        PacketV::PlayerPosition(v) => player_position_bytes(v),
        PacketV::PlayerRotation(v) => player_rotation_bytes(v),
        PacketV::PlayerMovement(v) => player_movement_bytes(v),
        PacketV::VehicleMove(v) => vehicle_move_bytes(v),
        PacketV::SteerBoat(v) => steer_boat_bytes(v),
        PacketV::PickItem(v) => pick_item_bytes(v),
        PacketV::CraftRecipeRequest(v) => craft_recipe_request_bytes(v),
        PacketV::PlayerAbilities(v) => player_abilities_bytes(v),
        PacketV::PlayerDigging(v) => player_digging_bytes(v),
        PacketV::EntityAction(v) => entity_action_bytes(v),
        PacketV::SteerVehicle(v) => steer_vehicle_bytes(v),
        PacketV::SetDisplayedRecipe(v) => set_displayed_recipe_bytes(v),
        PacketV::SetRecipeBookState(v) => set_recipe_book_state_bytes(v),
        PacketV::NameItem(v) => name_item_bytes(v),
        PacketV::ResourcePackStatus(v) => resource_pack_status_bytes(v),
        PacketV::SelectTrade(v) => select_trade_bytes(v),
        PacketV::SetBeaconEffect(v) => set_beacon_effect_bytes(v),
        PacketV::HeldItemChange(v) => held_item_change_bytes(v),
        PacketV::UpdateCommandBlock(v) => update_command_block_bytes(v),
        PacketV::UpdateCommandBlockMinecart(v) => update_command_block_minecart_bytes(v),
        PacketV::UpdateJigsawBlock(v) => update_jigsaw_block_bytes(v),
        PacketV::UpdateStructureBlock(v) => update_structure_block_bytes(v),
        PacketV::UpdateSign(v) => update_sign_bytes(v),
        PacketV::Animation(v) => animation_bytes(v),
        PacketV::Spectate(v) => spectate_bytes(v),
        PacketV::PlayerBlockPlacement(v) => player_block_placement_bytes(v),
        PacketV::UseItem(v) => use_item_bytes(v),
    }
}

/// Every packet is sent with one of the known ids.
pub proof fn lemma_known_id(p: PacketV)
    ensures
        known_id(packet_id(p)),
{
    reveal(known_id);
}

/// The ids this module reads.
#[verifier::opaque]
pub open spec fn known_id(id: i32) -> bool {
    id == 0x01 || id == 0x0d || id == 0x02 || id == 0x03 || id == 0x04 || id == 0x06 || id == 0x07 || id == 0x08 || id == 0x0a || id == 0x0b || id == 0x0f || id == 0x11 || id == 0x12 || id == 0x14 || id == 0x15 || id == 0x16 || id == 0x17 || id == 0x18 || id == 0x19 || id == 0x1a || id == 0x1b || id == 0x1c || id == 0x1d || id == 0x1e || id == 0x1f || id == 0x20 || id == 0x21 || id == 0x23 || id == 0x24 || id == 0x25 || id == 0x26 || id == 0x27 || id == 0x29 || id == 0x2a || id == 0x2b || id == 0x2c || id == 0x2d || id == 0x2e || id == 0x2f
}

pub fn is_known_id(id: i32) -> (r: bool)
    ensures
        r == known_id(id),
{
    proof {
        reveal(known_id);
    }
    id == 0x01 || id == 0x0d || id == 0x02 || id == 0x03 || id == 0x04 || id == 0x06 || id == 0x07 || id == 0x08 || id == 0x0a || id == 0x0b || id == 0x0f || id == 0x11 || id == 0x12 || id == 0x14 || id == 0x15 || id == 0x16 || id == 0x17 || id == 0x18 || id == 0x19 || id == 0x1a || id == 0x1b || id == 0x1c || id == 0x1d || id == 0x1e || id == 0x1f || id == 0x20 || id == 0x21 || id == 0x23 || id == 0x24 || id == 0x25 || id == 0x26 || id == 0x27 || id == 0x29 || id == 0x2a || id == 0x2b || id == 0x2c || id == 0x2d || id == 0x2e || id == 0x2f
}

/// Reads the fields of the packet with id `id`.
#[verifier::opaque]
pub open spec fn parse_packet(id: i32, s: Seq<u8>) -> Parsed<PacketV> {
    if id == 0x01 || id == 0x0d || id == 0x02 || id == 0x03 || id == 0x04 || id == 0x06 || id == 0x07 || id == 0x08 || id == 0x0a || id == 0x0b {
        parse_group_0(id, s)
    } else if id == 0x0f || id == 0x11 || id == 0x12 || id == 0x14 || id == 0x15 || id == 0x16 || id == 0x17 || id == 0x18 || id == 0x19 || id == 0x1a {
        parse_group_1(id, s)
    } else if id == 0x1b || id == 0x1c || id == 0x1d || id == 0x1e || id == 0x1f || id == 0x20 || id == 0x21 || id == 0x23 || id == 0x24 || id == 0x25 {
        parse_group_2(id, s)
    } else if id == 0x26 || id == 0x27 || id == 0x29 || id == 0x2a || id == 0x2b || id == 0x2c || id == 0x2d || id == 0x2e || id == 0x2f {
        parse_group_3(id, s)
    } else {
        Err(ProtocolError::UnknownId)
    }
}

pub open spec fn parse_group_0(id: i32, s: Seq<u8>) -> Parsed<PacketV> {
    if id == 0x01 {
        match parse_query_block_nbt(s) {
            Ok((v, s)) => Ok((PacketV::QueryBlockNbt(v), s)),
            Err(e) => Err(e),
        }
    } else if id == 0x0d {
        match parse_query_entity_nbt(s) {
            Ok((v, s)) => Ok((PacketV::QueryEntityNbt(v), s)),
            Err(e) => Err(e),
        }
    } else if id == 0x02 {
        match parse_set_difficulty(s) {
            Ok((v, s)) => Ok((PacketV::SetDifficulty(v), s)),
            Err(e) => Err(e),
        }
    } else if id == 0x03 {
        match parse_chat_message(s) {
            Ok((v, s)) => Ok((PacketV::ChatMessage(v), s)),
            Err(e) => Err(e),
        }
    } else if id == 0x04 {
        match parse_client_status(s) {
            Ok((v, s)) => Ok((PacketV::ClientStatus(v), s)),
            Err(e) => Err(e),
        }
    } else if id == 0x06 {
        match parse_tab_complete(s) {
            Ok((v, s)) => Ok((PacketV::TabComplete(v), s)),
            Err(e) => Err(e),
        }
    } else if id == 0x07 {
        match parse_window_confirmation(s) {
            Ok((v, s)) => Ok((PacketV::WindowConfirmation(v), s)),
            Err(e) => Err(e),
        }
    } else if id == 0x08 {
        match parse_click_window_button(s) {
            Ok((v, s)) => Ok((PacketV::ClickWindowButton(v), s)),
            Err(e) => Err(e),
        }
    } else if id == 0x0a {
        match parse_close_window(s) {
            Ok((v, s)) => Ok((PacketV::CloseWindow(v), s)),
            Err(e) => Err(e),
        }
    } else if id == 0x0b {
        match parse_plugin_message(s) {
            Ok((v, s)) => Ok((PacketV::PluginMessage(v), s)),
            Err(e) => Err(e),
        }
    } else {
        Err(ProtocolError::UnknownId)
    }
}

#[verifier::spinoff_prover]
#[verifier::rlimit(100)]
proof fn lemma_group_0(p: PacketV)
    requires
        packet_fits(p),
        p is QueryBlockNbt || p is QueryEntityNbt || p is SetDifficulty || p is ChatMessage || p is ClientStatus || p is TabComplete || p is WindowConfirmation || p is ClickWindowButton || p is CloseWindow || p is PluginMessage,
    ensures
        parse_packet(packet_id(p), packet_body(p) + seq![]) == Ok::<(PacketV, Seq<u8>), ProtocolError>((p, seq![])),
{
    reveal(parse_packet);
    match p {
        PacketV::QueryBlockNbt(v) => {
            lemma_query_block_nbt_round_trip(v, seq![]);
        },
        PacketV::QueryEntityNbt(v) => {
            lemma_query_entity_nbt_round_trip(v, seq![]);
        },
        PacketV::SetDifficulty(v) => {
            lemma_set_difficulty_round_trip(v, seq![]);
        },
        PacketV::ChatMessage(v) => {
            lemma_chat_message_round_trip(v, seq![]);
        },
        PacketV::ClientStatus(v) => {
            lemma_client_status_round_trip(v, seq![]);
        },
        PacketV::TabComplete(v) => {
            lemma_tab_complete_round_trip(v, seq![]);
        },
        PacketV::WindowConfirmation(v) => {
            lemma_window_confirmation_round_trip(v, seq![]);
        },
        PacketV::ClickWindowButton(v) => {
            lemma_click_window_button_round_trip(v, seq![]);
        },
        PacketV::CloseWindow(v) => {
            lemma_close_window_round_trip(v, seq![]);
        },
        PacketV::PluginMessage(v) => {
            lemma_plugin_message_round_trip(v);
        },
        _ => {},
    }
}

#[verifier::spinoff_prover]
#[verifier::rlimit(100)]
fn decode_group_0(id: i32, data: &[u8], pos: usize) -> (r: Result<(Packet, usize), ProtocolError>)
    requires
        pos <= data@.len(),
    ensures
        agrees(
            match r {
                Ok((v, p)) => Ok((v@, p)),
                Err(e) => Err(e),
            },
            data@,
            pos as int,
            parse_group_0(id, data@.skip(pos as int)),
        ),
{
    if id == 0x01 {
        match QueryBlockNbt::decode(data, pos) {
            Ok((v, q)) => Ok((Packet::QueryBlockNbt(v), q)),
            Err(e) => Err(e),
        }
    } else if id == 0x0d {
        match QueryEntityNbt::decode(data, pos) {
            Ok((v, q)) => Ok((Packet::QueryEntityNbt(v), q)),
            Err(e) => Err(e),
        }
    } else if id == 0x02 {
        match SetDifficulty::decode(data, pos) {
            Ok((v, q)) => Ok((Packet::SetDifficulty(v), q)),
            Err(e) => Err(e),
        }
    } else if id == 0x03 {
        match ChatMessage::decode(data, pos) {
            Ok((v, q)) => Ok((Packet::ChatMessage(v), q)),
            Err(e) => Err(e),
        }
    } else if id == 0x04 {
        match ClientStatus::decode(data, pos) {
            Ok((v, q)) => Ok((Packet::ClientStatus(v), q)),
            Err(e) => Err(e),
        }
    } else if id == 0x06 {
        match TabComplete::decode(data, pos) {
            Ok((v, q)) => Ok((Packet::TabComplete(v), q)),
            Err(e) => Err(e),
        }
    } else if id == 0x07 {
        match WindowConfirmation::decode(data, pos) {
            Ok((v, q)) => Ok((Packet::WindowConfirmation(v), q)),
            Err(e) => Err(e),
        }
    } else if id == 0x08 {
        match ClickWindowButton::decode(data, pos) {
            Ok((v, q)) => Ok((Packet::ClickWindowButton(v), q)),
            Err(e) => Err(e),
        }
    } else if id == 0x0a {
        match CloseWindow::decode(data, pos) {
            Ok((v, q)) => Ok((Packet::CloseWindow(v), q)),
            Err(e) => Err(e),
        }
    } else if id == 0x0b {
        match PluginMessage::decode(data, pos) {
            Ok((v, q)) => Ok((Packet::PluginMessage(v), q)),
            Err(e) => Err(e),
        }
    } else {
        Err(ProtocolError::UnknownId)
    }
}

pub open spec fn parse_group_1(id: i32, s: Seq<u8>) -> Parsed<PacketV> {
    if id == 0x0f {
        match parse_generate_structure(s) {
            Ok((v, s)) => Ok((PacketV::GenerateStructure(v), s)),
            Err(e) => Err(e),
        }
    } else if id == 0x11 {
        match parse_lock_difficulty(s) {
            Ok((v, s)) => Ok((PacketV::LockDifficulty(v), s)),
            Err(e) => Err(e),
        }
    } else if id == 0x12 {
        match parse_player_position(s) {
            Ok((v, s)) => Ok((PacketV::PlayerPosition(v), s)),
            Err(e) => Err(e),
        }
    } else if id == 0x14 {
        match parse_player_rotation(s) {
            Ok((v, s)) => Ok((PacketV::PlayerRotation(v), s)),
            Err(e) => Err(e),
        }
    } else if id == 0x15 {
        match parse_player_movement(s) {
            Ok((v, s)) => Ok((PacketV::PlayerMovement(v), s)),
            Err(e) => Err(e),
        }
    } else if id == 0x16 {
        match parse_vehicle_move(s) {
            Ok((v, s)) => Ok((PacketV::VehicleMove(v), s)),
            Err(e) => Err(e),
        }
    } else if id == 0x17 {
        match parse_steer_boat(s) {
            Ok((v, s)) => Ok((PacketV::SteerBoat(v), s)),
            Err(e) => Err(e),
        }
    } else if id == 0x18 {
        match parse_pick_item(s) {
            Ok((v, s)) => Ok((PacketV::PickItem(v), s)),
            Err(e) => Err(e),
        }
    } else if id == 0x19 {
        match parse_craft_recipe_request(s) {
            Ok((v, s)) => Ok((PacketV::CraftRecipeRequest(v), s)),
            Err(e) => Err(e),
        }
    } else if id == 0x1a {
        match parse_player_abilities(s) {
            Ok((v, s)) => Ok((PacketV::PlayerAbilities(v), s)),
            Err(e) => Err(e),
        }
    } else {
        Err(ProtocolError::UnknownId)
    }
}

#[verifier::spinoff_prover]
#[verifier::rlimit(100)]
proof fn lemma_group_1(p: PacketV)
    requires
        packet_fits(p),
        p is GenerateStructure || p is LockDifficulty || p is PlayerPosition || p is PlayerRotation || p is PlayerMovement || p is VehicleMove || p is SteerBoat || p is PickItem || p is CraftRecipeRequest || p is PlayerAbilities,
    ensures
        parse_packet(packet_id(p), packet_body(p) + seq![]) == Ok::<(PacketV, Seq<u8>), ProtocolError>((p, seq![])),
{
    reveal(parse_packet);
    match p {
        PacketV::GenerateStructure(v) => {
            lemma_generate_structure_round_trip(v, seq![]);
        },
        PacketV::LockDifficulty(v) => {
            lemma_lock_difficulty_round_trip(v, seq![]);
        },
        PacketV::PlayerPosition(v) => {
            lemma_player_position_round_trip(v, seq![]);
        },
        PacketV::PlayerRotation(v) => {
            lemma_player_rotation_round_trip(v, seq![]);
        },
        PacketV::PlayerMovement(v) => {
            lemma_player_movement_round_trip(v, seq![]);
        },
        PacketV::VehicleMove(v) => {
            lemma_vehicle_move_round_trip(v, seq![]);
        },
        PacketV::SteerBoat(v) => {
            lemma_steer_boat_round_trip(v, seq![]);
        },
        PacketV::PickItem(v) => {
            lemma_pick_item_round_trip(v, seq![]);
        },
        PacketV::CraftRecipeRequest(v) => {
            lemma_craft_recipe_request_round_trip(v, seq![]);
        },
        PacketV::PlayerAbilities(v) => {
            lemma_player_abilities_round_trip(v, seq![]);
        },
        _ => {},
    }
}

#[verifier::spinoff_prover]
#[verifier::rlimit(100)]
fn decode_group_1(id: i32, data: &[u8], pos: usize) -> (r: Result<(Packet, usize), ProtocolError>)
    requires
        pos <= data@.len(),
    ensures
        agrees(
            match r {
                Ok((v, p)) => Ok((v@, p)),
                Err(e) => Err(e),
            },
            data@,
            pos as int,
            parse_group_1(id, data@.skip(pos as int)),
        ),
{
    if id == 0x0f {
        match GenerateStructure::decode(data, pos) {
            Ok((v, q)) => Ok((Packet::GenerateStructure(v), q)),
            Err(e) => Err(e),
        }
    } else if id == 0x11 {
        match LockDifficulty::decode(data, pos) {
            Ok((v, q)) => Ok((Packet::LockDifficulty(v), q)),
            Err(e) => Err(e),
        }
    } else if id == 0x12 {
        match PlayerPosition::decode(data, pos) {
            Ok((v, q)) => Ok((Packet::PlayerPosition(v), q)),
            Err(e) => Err(e),
        }
    } else if id == 0x14 {
        match PlayerRotation::decode(data, pos) {
            Ok((v, q)) => Ok((Packet::PlayerRotation(v), q)),
            Err(e) => Err(e),
        }
    } else if id == 0x15 {
        match PlayerMovement::decode(data, pos) {
            Ok((v, q)) => Ok((Packet::PlayerMovement(v), q)),
            Err(e) => Err(e),
        }
    } else if id == 0x16 {
        match VehicleMove::decode(data, pos) {
            Ok((v, q)) => Ok((Packet::VehicleMove(v), q)),
            Err(e) => Err(e),
        }
    } else if id == 0x17 {
        match SteerBoat::decode(data, pos) {
            Ok((v, q)) => Ok((Packet::SteerBoat(v), q)),
            Err(e) => Err(e),
        }
    } else if id == 0x18 {
        match PickItem::decode(data, pos) {
            Ok((v, q)) => Ok((Packet::PickItem(v), q)),
            Err(e) => Err(e),
        }
    } else if id == 0x19 {
        match CraftRecipeRequest::decode(data, pos) {
            Ok((v, q)) => Ok((Packet::CraftRecipeRequest(v), q)),
            Err(e) => Err(e),
        }
    } else if id == 0x1a {
        match PlayerAbilities::decode(data, pos) {
            Ok((v, q)) => Ok((Packet::PlayerAbilities(v), q)),
            Err(e) => Err(e),
        }
    } else {
        Err(ProtocolError::UnknownId)
    }
}

pub open spec fn parse_group_2(id: i32, s: Seq<u8>) -> Parsed<PacketV> {
    if id == 0x1b {
        match parse_player_digging(s) {
            Ok((v, s)) => Ok((PacketV::PlayerDigging(v), s)),
            Err(e) => Err(e),
        }
    } else if id == 0x1c {
        match parse_entity_action(s) {
            Ok((v, s)) => Ok((PacketV::EntityAction(v), s)),
            Err(e) => Err(e),
        }
    } else if id == 0x1d {
        match parse_steer_vehicle(s) {
            Ok((v, s)) => Ok((PacketV::SteerVehicle(v), s)),
            Err(e) => Err(e),
        }
    } else if id == 0x1e {
        match parse_set_displayed_recipe(s) {
            Ok((v, s)) => Ok((PacketV::SetDisplayedRecipe(v), s)),
            Err(e) => Err(e),
        }
    } else if id == 0x1f {
        match parse_set_recipe_book_state(s) {
            Ok((v, s)) => Ok((PacketV::SetRecipeBookState(v), s)),
            Err(e) => Err(e),
        }
    } else if id == 0x20 {
        match parse_name_item(s) {
            Ok((v, s)) => Ok((PacketV::NameItem(v), s)),
            Err(e) => Err(e),
        }
    } else if id == 0x21 {
        match parse_resource_pack_status(s) {
            Ok((v, s)) => Ok((PacketV::ResourcePackStatus(v), s)),
            Err(e) => Err(e),
        }
    } else if id == 0x23 {
        match parse_select_trade(s) {
            Ok((v, s)) => Ok((PacketV::SelectTrade(v), s)),
            Err(e) => Err(e),
        }
    } else if id == 0x24 {
        match parse_set_beacon_effect(s) {
            Ok((v, s)) => Ok((PacketV::SetBeaconEffect(v), s)),
            Err(e) => Err(e),
        }
    } else if id == 0x25 {
        match parse_held_item_change(s) {
            Ok((v, s)) => Ok((PacketV::HeldItemChange(v), s)),
            Err(e) => Err(e),
        }
    } else {
        Err(ProtocolError::UnknownId)
    }
}

#[verifier::spinoff_prover]
#[verifier::rlimit(100)]
proof fn lemma_group_2(p: PacketV)
    requires
        packet_fits(p),
        p is PlayerDigging || p is EntityAction || p is SteerVehicle || p is SetDisplayedRecipe || p is SetRecipeBookState || p is NameItem || p is ResourcePackStatus || p is SelectTrade || p is SetBeaconEffect || p is HeldItemChange,
    ensures
        parse_packet(packet_id(p), packet_body(p) + seq![]) == Ok::<(PacketV, Seq<u8>), ProtocolError>((p, seq![])),
{
    reveal(parse_packet);
    match p {
        PacketV::PlayerDigging(v) => {
            lemma_player_digging_round_trip(v, seq![]);
        },
        PacketV::EntityAction(v) => {
            lemma_entity_action_round_trip(v, seq![]);
        },
        PacketV::SteerVehicle(v) => {
            lemma_steer_vehicle_round_trip(v, seq![]);
        },
        PacketV::SetDisplayedRecipe(v) => {
            lemma_set_displayed_recipe_round_trip(v, seq![]);
        },
        PacketV::SetRecipeBookState(v) => {
            lemma_set_recipe_book_state_round_trip(v, seq![]);
        },
        PacketV::NameItem(v) => {
            lemma_name_item_round_trip(v, seq![]);
        },
        PacketV::ResourcePackStatus(v) => {
            lemma_resource_pack_status_round_trip(v, seq![]);
        },
        PacketV::SelectTrade(v) => {
            lemma_select_trade_round_trip(v, seq![]);
        },
        PacketV::SetBeaconEffect(v) => {
            lemma_set_beacon_effect_round_trip(v, seq![]);
        },
        PacketV::HeldItemChange(v) => {
            lemma_held_item_change_round_trip(v, seq![]);
        },
        _ => {},
    }
}

#[verifier::spinoff_prover]
#[verifier::rlimit(100)]
fn decode_group_2(id: i32, data: &[u8], pos: usize) -> (r: Result<(Packet, usize), ProtocolError>)
    requires
        pos <= data@.len(),
    ensures
        agrees(
            match r {
                Ok((v, p)) => Ok((v@, p)),
                Err(e) => Err(e),
            },
            data@,
            pos as int,
            parse_group_2(id, data@.skip(pos as int)),
        ),
{
    if id == 0x1b {
        match PlayerDigging::decode(data, pos) {
            Ok((v, q)) => Ok((Packet::PlayerDigging(v), q)),
            Err(e) => Err(e),
        }
    } else if id == 0x1c {
        match EntityAction::decode(data, pos) {
            Ok((v, q)) => Ok((Packet::EntityAction(v), q)),
            Err(e) => Err(e),
        }
    } else if id == 0x1d {
        match SteerVehicle::decode(data, pos) {
            Ok((v, q)) => Ok((Packet::SteerVehicle(v), q)),
            Err(e) => Err(e),
        }
    } else if id == 0x1e {
        match SetDisplayedRecipe::decode(data, pos) {
            Ok((v, q)) => Ok((Packet::SetDisplayedRecipe(v), q)),
            Err(e) => Err(e),
        }
    } else if id == 0x1f {
        match SetRecipeBookState::decode(data, pos) {
            Ok((v, q)) => Ok((Packet::SetRecipeBookState(v), q)),
            Err(e) => Err(e),
        }
    } else if id == 0x20 {
        match NameItem::decode(data, pos) {
            Ok((v, q)) => Ok((Packet::NameItem(v), q)),
            Err(e) => Err(e),
        }
    } else if id == 0x21 {
        match ResourcePackStatus::decode(data, pos) {
            Ok((v, q)) => Ok((Packet::ResourcePackStatus(v), q)),
            Err(e) => Err(e),
        }
    } else if id == 0x23 {
        match SelectTrade::decode(data, pos) {
            Ok((v, q)) => Ok((Packet::SelectTrade(v), q)),
            Err(e) => Err(e),
        }
    } else if id == 0x24 {
        match SetBeaconEffect::decode(data, pos) {
            Ok((v, q)) => Ok((Packet::SetBeaconEffect(v), q)),
            Err(e) => Err(e),
        }
    } else if id == 0x25 {
        match HeldItemChange::decode(data, pos) {
            Ok((v, q)) => Ok((Packet::HeldItemChange(v), q)),
            Err(e) => Err(e),
        }
    } else {
        Err(ProtocolError::UnknownId)
    }
}

pub open spec fn parse_group_3(id: i32, s: Seq<u8>) -> Parsed<PacketV> {
    if id == 0x26 {
        match parse_update_command_block(s) {
            Ok((v, s)) => Ok((PacketV::UpdateCommandBlock(v), s)),
            Err(e) => Err(e),
        }
    } else if id == 0x27 {
        match parse_update_command_block_minecart(s) {
            Ok((v, s)) => Ok((PacketV::UpdateCommandBlockMinecart(v), s)),
            Err(e) => Err(e),
        }
    } else if id == 0x29 {
        match parse_update_jigsaw_block(s) {
            Ok((v, s)) => Ok((PacketV::UpdateJigsawBlock(v), s)),
            Err(e) => Err(e),
        }
    } else if id == 0x2a {
        match parse_update_structure_block(s) {
            Ok((v, s)) => Ok((PacketV::UpdateStructureBlock(v), s)),
            Err(e) => Err(e),
        }
    } else if id == 0x2b {
        match parse_update_sign(s) {
            Ok((v, s)) => Ok((PacketV::UpdateSign(v), s)),
            Err(e) => Err(e),
        }
    } else if id == 0x2c {
        match parse_animation(s) {
            Ok((v, s)) => Ok((PacketV::Animation(v), s)),
            Err(e) => Err(e),
        }
    } else if id == 0x2d {
        match parse_spectate(s) {
            Ok((v, s)) => Ok((PacketV::Spectate(v), s)),
            Err(e) => Err(e),
        }
    } else if id == 0x2e {
        match parse_player_block_placement(s) {
            Ok((v, s)) => Ok((PacketV::PlayerBlockPlacement(v), s)),
            Err(e) => Err(e),
        }
    } else if id == 0x2f {
        match parse_use_item(s) {
            Ok((v, s)) => Ok((PacketV::UseItem(v), s)),
            Err(e) => Err(e),
        }
    } else {
        Err(ProtocolError::UnknownId)
    }
}

#[verifier::spinoff_prover]
#[verifier::rlimit(100)]
proof fn lemma_group_3(p: PacketV)
    requires
        packet_fits(p),
        p is UpdateCommandBlock || p is UpdateCommandBlockMinecart || p is UpdateJigsawBlock || p is UpdateStructureBlock || p is UpdateSign || p is Animation || p is Spectate || p is PlayerBlockPlacement || p is UseItem,
    ensures
        parse_packet(packet_id(p), packet_body(p) + seq![]) == Ok::<(PacketV, Seq<u8>), ProtocolError>((p, seq![])),
{
    reveal(parse_packet);
    match p {
        PacketV::UpdateCommandBlock(v) => {
            lemma_update_command_block_round_trip(v, seq![]);
        },
        PacketV::UpdateCommandBlockMinecart(v) => {
            lemma_update_command_block_minecart_round_trip(v, seq![]);
        },
        PacketV::UpdateJigsawBlock(v) => {
            lemma_update_jigsaw_block_round_trip(v, seq![]);
        },
        PacketV::UpdateStructureBlock(v) => {
            lemma_update_structure_block_round_trip(v, seq![]);
        },
        PacketV::UpdateSign(v) => {
            lemma_update_sign_round_trip(v, seq![]);
        },
        PacketV::Animation(v) => {
            lemma_animation_round_trip(v, seq![]);
        },
        PacketV::Spectate(v) => {
            lemma_spectate_round_trip(v, seq![]);
        },
        PacketV::PlayerBlockPlacement(v) => {
            lemma_player_block_placement_round_trip(v, seq![]);
        },
        PacketV::UseItem(v) => {
            lemma_use_item_round_trip(v, seq![]);
        },
        _ => {},
    }
}

#[verifier::spinoff_prover]
#[verifier::rlimit(100)]
fn decode_group_3(id: i32, data: &[u8], pos: usize) -> (r: Result<(Packet, usize), ProtocolError>)
    requires
        pos <= data@.len(),
    ensures
        agrees(
            match r {
                Ok((v, p)) => Ok((v@, p)),
                Err(e) => Err(e),
            },
            data@,
            pos as int,
            parse_group_3(id, data@.skip(pos as int)),
        ),
{
    if id == 0x26 {
        match UpdateCommandBlock::decode(data, pos) {
            Ok((v, q)) => Ok((Packet::UpdateCommandBlock(v), q)),
            Err(e) => Err(e),
        }
    } else if id == 0x27 {
        match UpdateCommandBlockMinecart::decode(data, pos) {
            Ok((v, q)) => Ok((Packet::UpdateCommandBlockMinecart(v), q)),
            Err(e) => Err(e),
        }
    } else if id == 0x29 {
        match UpdateJigsawBlock::decode(data, pos) {
            Ok((v, q)) => Ok((Packet::UpdateJigsawBlock(v), q)),
            Err(e) => Err(e),
        }
    } else if id == 0x2a {
        match UpdateStructureBlock::decode(data, pos) {
            Ok((v, q)) => Ok((Packet::UpdateStructureBlock(v), q)),
            Err(e) => Err(e),
        }
    } else if id == 0x2b {
        match UpdateSign::decode(data, pos) {
            Ok((v, q)) => Ok((Packet::UpdateSign(v), q)),
            Err(e) => Err(e),
        }
    } else if id == 0x2c {
        match Animation::decode(data, pos) {
            Ok((v, q)) => Ok((Packet::Animation(v), q)),
            Err(e) => Err(e),
        }
    } else if id == 0x2d {
        match Spectate::decode(data, pos) {
            Ok((v, q)) => Ok((Packet::Spectate(v), q)),
            Err(e) => Err(e),
        }
    } else if id == 0x2e {
        match PlayerBlockPlacement::decode(data, pos) {
            Ok((v, q)) => Ok((Packet::PlayerBlockPlacement(v), q)),
            Err(e) => Err(e),
        }
    } else if id == 0x2f {
        match UseItem::decode(data, pos) {
            Ok((v, q)) => Ok((Packet::UseItem(v), q)),
            Err(e) => Err(e),
        }
    } else {
        Err(ProtocolError::UnknownId)
    }
}

/// Every packet whose fields fit reads back as itself from its fields.
pub proof fn lemma_packet_round_trip(p: PacketV)
    requires
        packet_fits(p),
    ensures
        parse_packet(packet_id(p), packet_body(p) + seq![]) == Ok::<(PacketV, Seq<u8>), ProtocolError>((p, seq![])),
{
    if p is QueryBlockNbt || p is QueryEntityNbt || p is SetDifficulty || p is ChatMessage || p is ClientStatus || p is TabComplete || p is WindowConfirmation || p is ClickWindowButton || p is CloseWindow || p is PluginMessage {
        lemma_group_0(p);
    } else if p is GenerateStructure || p is LockDifficulty || p is PlayerPosition || p is PlayerRotation || p is PlayerMovement || p is VehicleMove || p is SteerBoat || p is PickItem || p is CraftRecipeRequest || p is PlayerAbilities {
        lemma_group_1(p);
    } else if p is PlayerDigging || p is EntityAction || p is SteerVehicle || p is SetDisplayedRecipe || p is SetRecipeBookState || p is NameItem || p is ResourcePackStatus || p is SelectTrade || p is SetBeaconEffect || p is HeldItemChange {
        lemma_group_2(p);
    } else if p is UpdateCommandBlock || p is UpdateCommandBlockMinecart || p is UpdateJigsawBlock || p is UpdateStructureBlock || p is UpdateSign || p is Animation || p is Spectate || p is PlayerBlockPlacement || p is UseItem {
        lemma_group_3(p);
    }
}

/// Reads the fields of the packet with id `id` at `pos`.
pub fn decode_packet(id: i32, data: &[u8], pos: usize) -> (r: Result<(Packet, usize), ProtocolError>)
    requires
        pos <= data@.len(),
    ensures
        agrees(
            match r {
                Ok((v, p)) => Ok((v@, p)),
                Err(e) => Err(e),
            },
            data@,
            pos as int,
            parse_packet(id, data@.skip(pos as int)),
        ),
{
    proof {
        reveal(parse_packet);
    }
    if id == 0x01 || id == 0x0d || id == 0x02 || id == 0x03 || id == 0x04 || id == 0x06 || id == 0x07 || id == 0x08 || id == 0x0a || id == 0x0b {
        decode_group_0(id, data, pos)
    } else if id == 0x0f || id == 0x11 || id == 0x12 || id == 0x14 || id == 0x15 || id == 0x16 || id == 0x17 || id == 0x18 || id == 0x19 || id == 0x1a {
        decode_group_1(id, data, pos)
    } else if id == 0x1b || id == 0x1c || id == 0x1d || id == 0x1e || id == 0x1f || id == 0x20 || id == 0x21 || id == 0x23 || id == 0x24 || id == 0x25 {
        decode_group_2(id, data, pos)
    } else if id == 0x26 || id == 0x27 || id == 0x29 || id == 0x2a || id == 0x2b || id == 0x2c || id == 0x2d || id == 0x2e || id == 0x2f {
        decode_group_3(id, data, pos)
    } else {
        Err(ProtocolError::UnknownId)
    }
}

impl Packet {
    /// Appends the packet's fields; fails, writing nothing, when a field does not fit.
    pub fn encode_body(&self, out: &mut Vec<u8>) -> (r: Result<(), ProtocolError>)
        ensures
            r is Ok <==> packet_fits(self@),
            r is Ok ==> final(out)@ == old(out)@ + packet_body(self@),
            r is Err ==> final(out)@ == old(out)@,
    {
        match self {
            Packet::QueryBlockNbt(x) => x.encode(out),
            Packet::QueryEntityNbt(x) => x.encode(out),
            Packet::SetDifficulty(x) => x.encode(out),
            Packet::ChatMessage(x) => x.encode(out),
            Packet::ClientStatus(x) => x.encode(out),
            Packet::TabComplete(x) => x.encode(out),
            Packet::WindowConfirmation(x) => x.encode(out),
            Packet::ClickWindowButton(x) => x.encode(out),
            Packet::CloseWindow(x) => x.encode(out),
            Packet::PluginMessage(x) => x.encode(out),
            Packet::GenerateStructure(x) => x.encode(out),
            Packet::LockDifficulty(x) => x.encode(out),
            Packet::PlayerPosition(x) => x.encode(out),
            Packet::PlayerRotation(x) => x.encode(out),
            Packet::PlayerMovement(x) => x.encode(out),
            Packet::VehicleMove(x) => x.encode(out),
            Packet::SteerBoat(x) => x.encode(out),
            Packet::PickItem(x) => x.encode(out),
            Packet::CraftRecipeRequest(x) => x.encode(out),
            Packet::PlayerAbilities(x) => x.encode(out),
            Packet::PlayerDigging(x) => x.encode(out),
            Packet::EntityAction(x) => x.encode(out),
            Packet::SteerVehicle(x) => x.encode(out),
            Packet::SetDisplayedRecipe(x) => x.encode(out),
            Packet::SetRecipeBookState(x) => x.encode(out),
            Packet::NameItem(x) => x.encode(out),
            Packet::ResourcePackStatus(x) => x.encode(out),
            Packet::SelectTrade(x) => x.encode(out),
            Packet::SetBeaconEffect(x) => x.encode(out),
            Packet::HeldItemChange(x) => x.encode(out),
            Packet::UpdateCommandBlock(x) => x.encode(out),
            Packet::UpdateCommandBlockMinecart(x) => x.encode(out),
            Packet::UpdateJigsawBlock(x) => x.encode(out),
            Packet::UpdateStructureBlock(x) => x.encode(out),
            Packet::UpdateSign(x) => x.encode(out),
            Packet::Animation(x) => x.encode(out),
            Packet::Spectate(x) => x.encode(out),
            Packet::PlayerBlockPlacement(x) => x.encode(out),
            Packet::UseItem(x) => x.encode(out),
        }
    }

    pub fn id(&self) -> (r: i32)
        ensures
            r == packet_id(self@),
    {
        match self {
            Packet::QueryBlockNbt(_) => 0x01,
            Packet::QueryEntityNbt(_) => 0x0d,
            Packet::SetDifficulty(_) => 0x02,
            Packet::ChatMessage(_) => 0x03,
            Packet::ClientStatus(_) => 0x04,
            Packet::TabComplete(_) => 0x06,
            Packet::WindowConfirmation(_) => 0x07,
            Packet::ClickWindowButton(_) => 0x08,
            Packet::CloseWindow(_) => 0x0a,
            Packet::PluginMessage(_) => 0x0b,
            Packet::GenerateStructure(_) => 0x0f,
            Packet::LockDifficulty(_) => 0x11,
            Packet::PlayerPosition(_) => 0x12,
            Packet::PlayerRotation(_) => 0x14,
            Packet::PlayerMovement(_) => 0x15,
            Packet::VehicleMove(_) => 0x16,
            Packet::SteerBoat(_) => 0x17,
            Packet::PickItem(_) => 0x18,
            Packet::CraftRecipeRequest(_) => 0x19,
            Packet::PlayerAbilities(_) => 0x1a,
            Packet::PlayerDigging(_) => 0x1b,
            Packet::EntityAction(_) => 0x1c,
            Packet::SteerVehicle(_) => 0x1d,
            Packet::SetDisplayedRecipe(_) => 0x1e,
            Packet::SetRecipeBookState(_) => 0x1f,
            Packet::NameItem(_) => 0x20,
            Packet::ResourcePackStatus(_) => 0x21,
            Packet::SelectTrade(_) => 0x23,
            Packet::SetBeaconEffect(_) => 0x24,
            Packet::HeldItemChange(_) => 0x25,
            Packet::UpdateCommandBlock(_) => 0x26,
            Packet::UpdateCommandBlockMinecart(_) => 0x27,
            Packet::UpdateJigsawBlock(_) => 0x29,
            Packet::UpdateStructureBlock(_) => 0x2a,
            Packet::UpdateSign(_) => 0x2b,
            Packet::Animation(_) => 0x2c,
            Packet::Spectate(_) => 0x2d,
            Packet::PlayerBlockPlacement(_) => 0x2e,
            Packet::UseItem(_) => 0x2f,
        }
    }
}

} // verus!
