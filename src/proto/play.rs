use vstd::prelude::*;
use crate::error::ProtocolError;
use crate::varint::{VarInt, varint_bytes};
use crate::types::{String, Chat, Identifier, Position, Uuid, position_in_range, position_bytes,
    parse_position, lemma_position_round_trip};
use crate::proto::{play_clientbound, play_serverbound};
use crate::proto::records::{CombatEvent, CombatEventV, combat_bytes, parse_combat, combat_fits,
    lemma_combat_round_trip, TeamsAction, TeamsActionV, teams_bytes, parse_teams, teams_fits,
    lemma_teams_round_trip, TitleAction, TitleActionV, title_bytes, parse_title, title_fits,
    lemma_title_round_trip};
use crate::nbt::{Nbt, NbtV, nbt_bytes, nbt_fits, parse_nbt, lemma_nbt_round_trip};
use crate::codec::{Parsed, agrees, be_bytes, bool_bytes, signed_bytes, parse_var_int, parse_bool,
    parse_u8, parse_i8, parse_i32, parse_i64, parse_u32, parse_u64, parse_u128, parse_string,
    parse_short_string, string_bytes, string_fits, short_string_fits, read_var_int, read_bool,
    read_u8, read_i8, read_i32, read_i64, read_u32, read_u64, read_greedy, write_var_int,
    write_bool, write_u8, write_i8, write_i64, write_u32, write_u64, utf8_len, lemma_parse_var_int, lemma_parse_bool, lemma_parse_be, lemma_parse_signed,
    lemma_parse_string, lemma_parse_short_string, lemma_pow256_values};

verus! {

/// A player's game mode, sent as one unsigned byte.
#[derive(Debug, Clone, Copy, PartialEq, Eq, Structural)]
pub enum Gamemode {
    Survival,
    Creative,
    Adventure,
    Spectator,
}

pub open spec fn gamemode_id(g: Gamemode) -> u8 {
    match g {
        Gamemode::Survival => 0,
        Gamemode::Creative => 1,
        Gamemode::Adventure => 2,
        Gamemode::Spectator => 3,
    }
}

pub open spec fn parse_gamemode(s: Seq<u8>) -> Parsed<Gamemode> {
    match parse_u8(s) {
        Ok((0, r)) => Ok((Gamemode::Survival, r)),
        Ok((1, r)) => Ok((Gamemode::Creative, r)),
        Ok((2, r)) => Ok((Gamemode::Adventure, r)),
        Ok((3, r)) => Ok((Gamemode::Spectator, r)),
        Ok(_) => Err(ProtocolError::UnknownId),
        Err(e) => Err(e),
    }
}

impl Gamemode {
    pub fn encode(&self, out: &mut Vec<u8>)
        ensures
            final(out)@ == old(out)@ + be_bytes(gamemode_id(*self) as nat, 1),
    {
        let b: u8 = match self {
            Gamemode::Survival => 0,
            Gamemode::Creative => 1,
            Gamemode::Adventure => 2,
            Gamemode::Spectator => 3,
        };
        write_u8(b, out);
    }

    pub fn decode(data: &[u8], pos: usize) -> (r: Result<(Gamemode, usize), ProtocolError>)
        requires
            pos <= data@.len(),
        ensures
            agrees(r, data@, pos as int, parse_gamemode(data@.skip(pos as int))),
    {
        match read_u8(data, pos) {
            Ok((0, p)) => Ok((Gamemode::Survival, p)),
            Ok((1, p)) => Ok((Gamemode::Creative, p)),
            Ok((2, p)) => Ok((Gamemode::Adventure, p)),
            Ok((3, p)) => Ok((Gamemode::Spectator, p)),
            Ok(_) => Err(ProtocolError::UnknownId),
            Err(e) => Err(e),
        }
    }
}

/// World names: a VarInt count, then that many identifiers.
pub open spec fn names_bytes(ws: Seq<Seq<char>>, i: nat) -> Seq<u8>
    decreases ws.len() - i,
{
    if i >= ws.len() {
        seq![]
    } else {
        string_bytes(ws[i as int]) + names_bytes(ws, i + 1)
    }
}

pub open spec fn parse_names(s: Seq<u8>, n: nat) -> Parsed<Seq<Seq<char>>>
    decreases n,
{
    if n == 0 {
        Ok((seq![], s))
    } else {
        match parse_short_string(s) {
            Ok((w, r)) => match parse_names(r, (n - 1) as nat) {
                Ok((ws, r)) => Ok((seq![w] + ws, r)),
                Err(e) => Err(e),
            },
            Err(e) => Err(e),
        }
    }
}

#[verifier::spinoff_prover]
#[verifier::rlimit(100)]
proof fn lemma_names(ws: Seq<Seq<char>>, i: nat, rest: Seq<u8>)
    requires
        i <= ws.len(),
        forall|j: int| 0 <= j < ws.len() ==> short_string_fits(#[trigger] ws[j]),
    ensures
        parse_names(names_bytes(ws, i) + rest, (ws.len() - i) as nat) == Ok::<
            (Seq<Seq<char>>, Seq<u8>),
            ProtocolError,
        >((ws.skip(i as int), rest)),
    decreases ws.len() - i,
{
    if i < ws.len() {
        let tail = names_bytes(ws, i + 1) + rest;
        assert(names_bytes(ws, i) + rest =~= string_bytes(ws[i as int]) + tail);
        lemma_parse_short_string(ws[i as int], tail);
        lemma_names(ws, i + 1, rest);
        assert(seq![ws[i as int]] + ws.skip(i as int + 1) =~= ws.skip(i as int));
    } else {
        assert(names_bytes(ws, i) + rest =~= rest);
        assert(ws.skip(i as int) =~= seq![]);
    }
}

/// The join-game packet's fields.
#[derive(Debug, PartialEq)]
pub struct JoinGame {
    pub entity_id: i32,
    pub is_hardcore: bool,
    pub gamemode: Gamemode,
    pub previous_gamemode: u8,
    pub worlds: Vec<Identifier>,
    pub dimension_codec: Nbt,
    pub dimension: Nbt,
    pub world_name: Identifier,
    pub seed_hash: i64,
    pub max_players: VarInt,
    pub view_distance: VarInt,
    pub reduced_debug_info: bool,
    pub enable_respawn_screen: bool,
    pub is_debug: bool,
    pub is_flat: bool,
}

pub struct JoinGameV {
    pub entity_id: i32,
    pub is_hardcore: bool,
    pub gamemode: Gamemode,
    pub previous_gamemode: u8,
    pub worlds: Seq<Seq<char>>,
    pub dimension_codec: NbtV,
    pub dimension: NbtV,
    pub world_name: Seq<char>,
    pub seed_hash: i64,
    pub max_players: i32,
    pub view_distance: i32,
    pub reduced_debug_info: bool,
    pub enable_respawn_screen: bool,
    pub is_debug: bool,
    pub is_flat: bool,
}

impl View for JoinGame {
    type V = JoinGameV;

    open spec fn view(&self) -> JoinGameV {
        JoinGameV {
            entity_id: self.entity_id,
            is_hardcore: self.is_hardcore,
            gamemode: self.gamemode,
            previous_gamemode: self.previous_gamemode,
            worlds: Seq::new(self.worlds@.len(), |i: int| self.worlds@[i].0.0@),
            dimension_codec: self.dimension_codec@,
            dimension: self.dimension@,
            world_name: self.world_name.0.0@,
            seed_hash: self.seed_hash,
            max_players: self.max_players.0,
            view_distance: self.view_distance.0,
            reduced_debug_info: self.reduced_debug_info,
            enable_respawn_screen: self.enable_respawn_screen,
            is_debug: self.is_debug,
            is_flat: self.is_flat,
        }
    }
}

pub open spec fn join_game_fits(j: JoinGameV) -> bool {
    &&& j.worlds.len() <= 0x7fff_ffff
    &&& forall|i: int| 0 <= i < j.worlds.len() ==> short_string_fits(#[trigger] j.worlds[i])
    &&& nbt_fits(j.dimension_codec)
    &&& nbt_fits(j.dimension)
    &&& short_string_fits(j.world_name)
}

/// The first six fields of a join-game packet.
pub open spec fn join_game_head_bytes(j: JoinGameV) -> Seq<u8> {
    signed_bytes(j.entity_id as int, 4) + bool_bytes(j.is_hardcore) + be_bytes(
        gamemode_id(j.gamemode) as nat,
        1,
    ) + be_bytes(j.previous_gamemode as nat, 1) + varint_bytes(j.worlds.len() as i32)
        + names_bytes(j.worlds, 0)
}

/// The last ten fields of a join-game packet.
pub open spec fn join_game_tail_bytes(j: JoinGameV) -> Seq<u8> {
    nbt_bytes(j.dimension_codec) + nbt_bytes(j.dimension) + string_bytes(j.world_name)
        + signed_bytes(j.seed_hash as int, 8) + varint_bytes(j.max_players) + varint_bytes(
        j.view_distance,
    ) + bool_bytes(j.reduced_debug_info) + bool_bytes(j.enable_respawn_screen) + bool_bytes(
        j.is_debug,
    ) + bool_bytes(j.is_flat)
}

pub open spec fn join_game_bytes(j: JoinGameV) -> Seq<u8> {
    join_game_head_bytes(j) + join_game_tail_bytes(j)
}

/// The last ten fields of a join-game packet.
#[verifier::opaque]
pub open spec fn parse_join_game_tail(s: Seq<u8>) -> Parsed<
    (NbtV, NbtV, Seq<char>, i64, i32, i32, bool, bool, bool, bool),
> {
    match parse_nbt(s) {
        Ok((dimension_codec, s)) => match parse_nbt(s) {
            Ok((dimension, s)) => match parse_short_string(s) {
                Ok((world_name, s)) => match parse_i64(s) {
                    Ok((seed_hash, s)) => match parse_var_int(s) {
                        Ok((max_players, s)) => match parse_var_int(s) {
                            Ok((view_distance, s)) => match parse_bool(s) {
                                Ok((reduced_debug_info, s)) => match parse_bool(s) {
                                    Ok((enable_respawn_screen, s)) => match parse_bool(s) {
                                        Ok((is_debug, s)) => match parse_bool(s) {
                                            Ok((is_flat, s)) => Ok(
                                                (
                                                    (
                                                        dimension_codec,
                                                        dimension,
                                                        world_name,
                                                        seed_hash,
                                                        max_players,
                                                        view_distance,
                                                        reduced_debug_info,
                                                        enable_respawn_screen,
                                                        is_debug,
                                                        is_flat,
                                                    ),
                                                    s,
                                                ),
                                            ),
                                            Err(e) => Err(e),
                                        },
                                        Err(e) => Err(e),
                                    },
                                    Err(e) => Err(e),
                                },
                                Err(e) => Err(e),
                            },
                            Err(e) => Err(e),
                        },
                        Err(e) => Err(e),
                    },
                    Err(e) => Err(e),
                },
                Err(e) => Err(e),
            },
            Err(e) => Err(e),
        },
        Err(e) => Err(e),
    }
}

pub open spec fn parse_join_game(s: Seq<u8>) -> Parsed<JoinGameV> {
    match parse_i32(s) {
        Ok((entity_id, s)) => match parse_bool(s) {
            Ok((is_hardcore, s)) => match parse_gamemode(s) {
                Ok((gamemode, s)) => match parse_u8(s) {
                    Ok((previous_gamemode, s)) => match parse_var_int(s) {
                        Ok((n, s)) => if n < 0 {
                            Err(ProtocolError::BadLength)
                        } else {
                            match parse_names(s, n as nat) {
                                Ok((worlds, s)) => match parse_join_game_tail(s) {
                                    Ok((t, s)) => Ok(
                                        (
                                            JoinGameV {
                                                entity_id,
                                                is_hardcore,
                                                gamemode,
                                                previous_gamemode,
                                                worlds,
                                                dimension_codec: t.0,
                                                dimension: t.1,
                                                world_name: t.2,
                                                seed_hash: t.3,
                                                max_players: t.4,
                                                view_distance: t.5,
                                                reduced_debug_info: t.6,
                                                enable_respawn_screen: t.7,
                                                is_debug: t.8,
                                                is_flat: t.9,
                                            },
                                            s,
                                        ),
                                    ),
                                    Err(e) => Err(e),
                                },
                                Err(e) => Err(e),
                            }
                        },
                        Err(e) => Err(e),
                    },
                    Err(e) => Err(e),
                },
                Err(e) => Err(e),
            },
            Err(e) => Err(e),
        },
        Err(e) => Err(e),
    }
}

#[verifier::spinoff_prover]
#[verifier::rlimit(100)]
proof fn lemma_assoc(a: Seq<u8>, b: Seq<u8>, c: Seq<u8>)
    ensures
        (a + b) + c == a + (b + c),
{
    assert((a + b) + c =~= a + (b + c));
}

#[verifier::rlimit(100)]
#[verifier::spinoff_prover]
proof fn lemma_join_game_tail(j: JoinGameV, rest: Seq<u8>)
    requires
        join_game_fits(j),
    ensures
        parse_join_game_tail(join_game_tail_bytes(j) + rest) == Ok::<(
            (NbtV, NbtV, Seq<char>, i64, i32, i32, bool, bool, bool, bool),
            Seq<u8>,
        ), ProtocolError>(
            (
                (
                    j.dimension_codec,
                    j.dimension,
                    j.world_name,
                    j.seed_hash,
                    j.max_players,
                    j.view_distance,
                    j.reduced_debug_info,
                    j.enable_respawn_screen,
                    j.is_debug,
                    j.is_flat,
                ),
                rest,
            ),
        ),
{
    reveal(parse_join_game_tail);
    lemma_pow256_values();
    let r9 = bool_bytes(j.is_flat) + rest;
    let r8 = bool_bytes(j.is_debug) + r9;
    let r7 = bool_bytes(j.enable_respawn_screen) + r8;
    let r6 = bool_bytes(j.reduced_debug_info) + r7;
    let r5 = varint_bytes(j.view_distance) + r6;
    let r4 = varint_bytes(j.max_players) + r5;
    let r3 = signed_bytes(j.seed_hash as int, 8) + r4;
    let r2 = string_bytes(j.world_name) + r3;
    let r1 = nbt_bytes(j.dimension) + r2;
    let t1 = nbt_bytes(j.dimension_codec);
    let t2 = t1 + nbt_bytes(j.dimension);
    let t3 = t2 + string_bytes(j.world_name);
    let t4 = t3 + signed_bytes(j.seed_hash as int, 8);
    let t5 = t4 + varint_bytes(j.max_players);
    let t6 = t5 + varint_bytes(j.view_distance);
    let t7 = t6 + bool_bytes(j.reduced_debug_info);
    let t8 = t7 + bool_bytes(j.enable_respawn_screen);
    let t9 = t8 + bool_bytes(j.is_debug);
    assert(join_game_tail_bytes(j) == t9 + bool_bytes(j.is_flat));
    lemma_assoc(t9, bool_bytes(j.is_flat), rest);
    lemma_assoc(t8, bool_bytes(j.is_debug), r9);
    lemma_assoc(t7, bool_bytes(j.enable_respawn_screen), r8);
    lemma_assoc(t6, bool_bytes(j.reduced_debug_info), r7);
    lemma_assoc(t5, varint_bytes(j.view_distance), r6);
    lemma_assoc(t4, varint_bytes(j.max_players), r5);
    lemma_assoc(t3, signed_bytes(j.seed_hash as int, 8), r4);
    lemma_assoc(t2, string_bytes(j.world_name), r3);
    lemma_assoc(t1, nbt_bytes(j.dimension), r2);
    assert(join_game_tail_bytes(j) + rest == nbt_bytes(j.dimension_codec) + r1);
    lemma_nbt_round_trip(j.dimension_codec, r1);
    lemma_nbt_round_trip(j.dimension, r2);
    lemma_parse_short_string(j.world_name, r3);
    lemma_parse_signed(j.seed_hash as int, 8, r4);
    lemma_parse_var_int(j.max_players, r5);
    lemma_parse_var_int(j.view_distance, r6);
    lemma_parse_bool(j.reduced_debug_info, r7);
    lemma_parse_bool(j.enable_respawn_screen, r8);
    lemma_parse_bool(j.is_debug, r9);
    lemma_parse_bool(j.is_flat, rest);
}

/// Every join-game packet whose fields fit reads back as itself, whatever follows.
#[verifier::rlimit(100)]
#[verifier::spinoff_prover]
pub proof fn lemma_join_game_round_trip(j: JoinGameV, rest: Seq<u8>)
    requires
        join_game_fits(j),
    ensures
        parse_join_game(join_game_bytes(j) + rest) == Ok::<(JoinGameV, Seq<u8>), ProtocolError>(
            (j, rest),
        ),
{
    lemma_pow256_values();
    let tail = join_game_tail_bytes(j) + rest;
    let w = names_bytes(j.worlds, 0) + tail;
    let c = varint_bytes(j.worlds.len() as i32) + w;
    let b = be_bytes(j.previous_gamemode as nat, 1) + c;
    let a = be_bytes(gamemode_id(j.gamemode) as nat, 1) + b;
    let h = bool_bytes(j.is_hardcore) + a;
    lemma_assoc(join_game_head_bytes(j), join_game_tail_bytes(j), rest);
    let e = signed_bytes(j.entity_id as int, 4);
    let u1 = e + bool_bytes(j.is_hardcore);
    let u2 = u1 + be_bytes(gamemode_id(j.gamemode) as nat, 1);
    let u3 = u2 + be_bytes(j.previous_gamemode as nat, 1);
    let u4 = u3 + varint_bytes(j.worlds.len() as i32);
    assert(join_game_head_bytes(j) == u4 + names_bytes(j.worlds, 0));
    lemma_assoc(u4, names_bytes(j.worlds, 0), tail);
    lemma_assoc(u3, varint_bytes(j.worlds.len() as i32), w);
    lemma_assoc(u2, be_bytes(j.previous_gamemode as nat, 1), c);
    lemma_assoc(u1, be_bytes(gamemode_id(j.gamemode) as nat, 1), b);
    lemma_assoc(e, bool_bytes(j.is_hardcore), a);
    assert(join_game_bytes(j) + rest == e + h);
    lemma_parse_signed(j.entity_id as int, 4, h);
    lemma_parse_bool(j.is_hardcore, a);
    lemma_parse_be(gamemode_id(j.gamemode) as nat, 1, b);
    lemma_parse_be(j.previous_gamemode as nat, 1, c);
    lemma_parse_var_int(j.worlds.len() as i32, w);
    lemma_names(j.worlds, 0, tail);
    assert(j.worlds.skip(0) =~= j.worlds);
    lemma_join_game_tail(j, rest);
}

fn decode_names(data: &[u8], pos: usize, n: usize) -> (r: Result<(Vec<Identifier>, usize), ProtocolError>)
    requires
        pos <= data@.len(),
    ensures
        agrees(
            match r {
                Ok((v, p)) => Ok((Seq::new(v@.len(), |i: int| v@[i].0.0@), p)),
                Err(e) => Err(e),
            },
            data@,
            pos as int,
            parse_names(data@.skip(pos as int), n as nat),
        ),
{
    let mut v: Vec<Identifier> = Vec::new();
    let mut p: usize = pos;
    let mut k: usize = 0;
    loop
        invariant
            k <= n,
            pos <= p <= data@.len(),
            parse_names(data@.skip(pos as int), n as nat) == match parse_names(
                data@.skip(p as int),
                (n - k) as nat,
            ) {
                Ok((xs, rest)) => Ok::<(Seq<Seq<char>>, Seq<u8>), ProtocolError>(
                    (Seq::new(v@.len(), |i: int| v@[i].0.0@) + xs, rest),
                ),
                Err(e) => Err(e),
            },
        decreases n - k,
    {
        if k == n {
            assert(Seq::new(v@.len(), |i: int| v@[i].0.0@) + seq![] =~= Seq::new(
                v@.len(),
                |i: int| v@[i].0.0@,
            ));
            return Ok((v, p));
        }
        let (x, q) = match Identifier::decode(data, p) {
            Ok(y) => y,
            Err(e) => return Err(e),
        };
        let ghost old_names = Seq::new(v@.len(), |i: int| v@[i].0.0@);
        let ghost xv = x.0.0@;
        v.push(x);
        proof {
            if let Ok((xs, rest)) = parse_names(data@.skip(q as int), (n - k - 1) as nat) {
                assert(old_names + (seq![xv] + xs) =~= Seq::new(v@.len(), |i: int| v@[i].0.0@)
                    + xs);
            }
        }
        p = q;
        k = k + 1;
    }
}

impl JoinGame {
    /// Reads the packet's fields at `pos`.
    #[verifier::spinoff_prover]
    #[verifier::rlimit(100)]
    pub fn decode(data: &[u8], pos: usize) -> (r: Result<(JoinGame, usize), ProtocolError>)
        requires
            pos <= data@.len(),
        ensures
            agrees(
                match r {
                    Ok((j, p)) => Ok((j@, p)),
                    Err(e) => Err(e),
                },
                data@,
                pos as int,
                parse_join_game(data@.skip(pos as int)),
            ),
    {
        proof {
            reveal(parse_join_game_tail);
        }
        let (entity_id, p) = match read_i32(data, pos) {
            Ok(x) => x,
            Err(e) => return Err(e),
        };
        let (is_hardcore, p) = match read_bool(data, p) {
            Ok(x) => x,
            Err(e) => return Err(e),
        };
        let (gamemode, p) = match Gamemode::decode(data, p) {
            Ok(x) => x,
            Err(e) => return Err(e),
        };
        let (previous_gamemode, p) = match read_u8(data, p) {
            Ok(x) => x,
            Err(e) => return Err(e),
        };
        let (n, p) = match read_var_int(data, p) {
            Ok(x) => x,
            Err(e) => return Err(e),
        };
        if n < 0 {
            return Err(ProtocolError::BadLength);
        }
        let (worlds, p) = match decode_names(data, p, n as usize) {
            Ok(x) => x,
            Err(e) => return Err(e),
        };
        let (dimension_codec, p) = match Nbt::decode(data, p) {
            Ok(x) => x,
            Err(e) => return Err(e),
        };
        let (dimension, p) = match Nbt::decode(data, p) {
            Ok(x) => x,
            Err(e) => return Err(e),
        };
        let (world_name, p) = match Identifier::decode(data, p) {
            Ok(x) => x,
            Err(e) => return Err(e),
        };
        let (seed_hash, p) = match read_i64(data, p) {
            Ok(x) => x,
            Err(e) => return Err(e),
        };
        let (max_players, p) = match read_var_int(data, p) {
            Ok(x) => x,
            Err(e) => return Err(e),
        };
        let (view_distance, p) = match read_var_int(data, p) {
            Ok(x) => x,
            Err(e) => return Err(e),
        };
        let (reduced_debug_info, p) = match read_bool(data, p) {
            Ok(x) => x,
            Err(e) => return Err(e),
        };
        let (enable_respawn_screen, p) = match read_bool(data, p) {
            Ok(x) => x,
            Err(e) => return Err(e),
        };
        let (is_debug, p) = match read_bool(data, p) {
            Ok(x) => x,
            Err(e) => return Err(e),
        };
        let (is_flat, p) = match read_bool(data, p) {
            Ok(x) => x,
            Err(e) => return Err(e),
        };
        let j = JoinGame {
            entity_id,
            is_hardcore,
            gamemode,
            previous_gamemode,
            worlds,
            dimension_codec,
            dimension,
            world_name,
            seed_hash,
            max_players: VarInt(max_players),
            view_distance: VarInt(view_distance),
            reduced_debug_info,
            enable_respawn_screen,
            is_debug,
            is_flat,
        };
        Ok((j, p))
    }
}

/// Clientbound packets of the play phase that the session acts on; every other
/// packet id of the phase is carried as its raw fields.
#[derive(Debug, PartialEq)]
pub enum Clientbound {
    Disconnect { reason: Chat },
    KeepAlive { keepalive_id: i64 },
    JoinGame(JoinGame),
    /// Coordinates are IEEE-754 doubles and angles floats, as their bit patterns.
    PlayerPositionAndLook {
        x: u64,
        y: u64,
        z: u64,
        yaw: u32,
        pitch: u32,
        flags: i8,
        teleport_id: VarInt,
    },
    HeldItemChange { slot: i8 },
    ChatMessage { json_data: Chat, position: i8, sender: Uuid },
    EntityStatus { entity_id: i32, entity_status: i8 },
    UnloadChunk { chunk_x: i32, chunk_z: i32 },
    CombatEvent { event: CombatEvent },
    UpdateViewPosition { chunk_x: VarInt, chunk_z: VarInt },
    UpdateViewDistance { view_distance: VarInt },
    SpawnPosition { location: Position },
    Teams { team_name: String, action: TeamsAction },
    TimeUpdate { world_age: i64, time_of_day: i64 },
    Title { action: TitleAction },
    PlayerListHeaderAndFooter { header: Chat, footer: Chat },
    /// Any other packet of the catalogue whose fields are plain values.
    Packet(play_clientbound::Packet),
    Other { id: i32, data: Vec<u8> },
}

pub enum ClientboundV {
    Disconnect { reason: Seq<char> },
    KeepAlive { keepalive_id: i64 },
    JoinGame(JoinGameV),
    PlayerPositionAndLook {
        x: u64,
        y: u64,
        z: u64,
        yaw: u32,
        pitch: u32,
        flags: i8,
        teleport_id: i32,
    },
    HeldItemChange { slot: i8 },
    ChatMessage { json_data: Seq<char>, position: i8, sender: u128 },
    EntityStatus { entity_id: i32, entity_status: i8 },
    UnloadChunk { chunk_x: i32, chunk_z: i32 },
    CombatEvent { event: CombatEventV },
    UpdateViewPosition { chunk_x: i32, chunk_z: i32 },
    UpdateViewDistance { view_distance: i32 },
    SpawnPosition { location: Position },
    Teams { team_name: Seq<char>, action: TeamsActionV },
    TimeUpdate { world_age: i64, time_of_day: i64 },
    Title { action: TitleActionV },
    PlayerListHeaderAndFooter { header: Seq<char>, footer: Seq<char> },
    Packet(play_clientbound::PacketV),
    Other { id: i32, data: Seq<u8> },
}

impl View for Clientbound {
    type V = ClientboundV;

    open spec fn view(&self) -> ClientboundV {
        match self {
            Clientbound::Disconnect { reason } => ClientboundV::Disconnect { reason: reason.0.0@ },
            Clientbound::KeepAlive { keepalive_id } => ClientboundV::KeepAlive {
                keepalive_id: *keepalive_id,
            },
            Clientbound::JoinGame(j) => ClientboundV::JoinGame(j@),
            Clientbound::PlayerPositionAndLook { x, y, z, yaw, pitch, flags, teleport_id } =>
                ClientboundV::PlayerPositionAndLook {
                x: *x,
                y: *y,
                z: *z,
                yaw: *yaw,
                pitch: *pitch,
                flags: *flags,
                teleport_id: teleport_id.0,
            },
            Clientbound::HeldItemChange { slot } => ClientboundV::HeldItemChange { slot: *slot },
            Clientbound::ChatMessage { json_data, position, sender } => ClientboundV::ChatMessage {
                json_data: json_data.0.0@,
                position: *position,
                sender: sender.0,
            },
            Clientbound::EntityStatus { entity_id, entity_status } => ClientboundV::EntityStatus {
                entity_id: *entity_id,
                entity_status: *entity_status,
            },
            Clientbound::UnloadChunk { chunk_x, chunk_z } => ClientboundV::UnloadChunk {
                chunk_x: *chunk_x,
                chunk_z: *chunk_z,
            },
            Clientbound::CombatEvent { event } => ClientboundV::CombatEvent { event: event@ },
            Clientbound::UpdateViewPosition { chunk_x, chunk_z } =>
                ClientboundV::UpdateViewPosition { chunk_x: chunk_x.0, chunk_z: chunk_z.0 },
            Clientbound::UpdateViewDistance { view_distance } => ClientboundV::UpdateViewDistance {
                view_distance: view_distance.0,
            },
            Clientbound::SpawnPosition { location } => ClientboundV::SpawnPosition {
                location: *location,
            },
            Clientbound::Teams { team_name, action } => ClientboundV::Teams {
                team_name: team_name.0@,
                action: action@,
            },
            Clientbound::TimeUpdate { world_age, time_of_day } => ClientboundV::TimeUpdate {
                world_age: *world_age,
                time_of_day: *time_of_day,
            },
            Clientbound::Title { action } => ClientboundV::Title { action: action@ },
            Clientbound::PlayerListHeaderAndFooter { header, footer } =>
                ClientboundV::PlayerListHeaderAndFooter {
                header: header.0.0@,
                footer: footer.0.0@,
            },
            Clientbound::Packet(x) => ClientboundV::Packet(x@),
            Clientbound::Other { id, data } => ClientboundV::Other { id: *id, data: data@ },
        }
    }
}

/// An id of the phase's catalogue that no other variant takes.
pub open spec fn other_id(id: i32) -> bool {
    0 <= id <= 0x5b && id != 0x19 && id != 0x1f && id != 0x24 && id != 0x34 && id != 0x3f
        && !more_id(id) && !play_clientbound::known_id(id)
}

/// The ids of the packets that `parse_more` reads.
pub open spec fn more_id(id: i32) -> bool {
    id == 0x0e || id == 0x1a || id == 0x1c || id == 0x31 || id == 0x40 || id == 0x41 || id == 0x42
        || id == 0x4c || id == 0x4e || id == 0x4f || id == 0x53
}

/// Reads the fields of the packet with id `id`, one of `more_id`.
pub open spec fn parse_more(id: i32, s: Seq<u8>) -> Parsed<ClientboundV> {
    if id == 0x0e {
        match parse_short_string(s) {
            Ok((json_data, s)) => match parse_i8(s) {
                Ok((position, s)) => match parse_u128(s) {
                    Ok((sender, s)) => Ok(
                        (ClientboundV::ChatMessage { json_data, position, sender }, s),
                    ),
                    Err(e) => Err(e),
                },
                Err(e) => Err(e),
            },
            Err(e) => Err(e),
        }
    } else if id == 0x1a {
        match parse_i32(s) {
            Ok((entity_id, s)) => match parse_i8(s) {
                Ok((entity_status, s)) => Ok(
                    (ClientboundV::EntityStatus { entity_id, entity_status }, s),
                ),
                Err(e) => Err(e),
            },
            Err(e) => Err(e),
        }
    } else if id == 0x1c {
        match parse_i32(s) {
            Ok((chunk_x, s)) => match parse_i32(s) {
                Ok((chunk_z, s)) => Ok((ClientboundV::UnloadChunk { chunk_x, chunk_z }, s)),
                Err(e) => Err(e),
            },
            Err(e) => Err(e),
        }
    } else if id == 0x31 {
        match parse_combat(s) {
            Ok((event, s)) => Ok((ClientboundV::CombatEvent { event }, s)),
            Err(e) => Err(e),
        }
    } else if id == 0x40 {
        match parse_var_int(s) {
            Ok((chunk_x, s)) => match parse_var_int(s) {
                Ok((chunk_z, s)) => Ok((ClientboundV::UpdateViewPosition { chunk_x, chunk_z }, s)),
                Err(e) => Err(e),
            },
            Err(e) => Err(e),
        }
    } else if id == 0x41 {
        match parse_var_int(s) {
            Ok((view_distance, s)) => Ok((ClientboundV::UpdateViewDistance { view_distance }, s)),
            Err(e) => Err(e),
        }
    } else if id == 0x42 {
        match parse_position(s) {
            Ok((location, s)) => Ok((ClientboundV::SpawnPosition { location }, s)),
            Err(e) => Err(e),
        }
    } else if id == 0x4c {
        match parse_string(s) {
            Ok((team_name, s)) => match parse_teams(s) {
                Ok((action, s)) => Ok((ClientboundV::Teams { team_name, action }, s)),
                Err(e) => Err(e),
            },
            Err(e) => Err(e),
        }
    } else if id == 0x4e {
        match parse_i64(s) {
            Ok((world_age, s)) => match parse_i64(s) {
                Ok((time_of_day, s)) => Ok((ClientboundV::TimeUpdate { world_age, time_of_day }, s)),
                Err(e) => Err(e),
            },
            Err(e) => Err(e),
        }
    } else if id == 0x4f {
        match parse_title(s) {
            Ok((action, s)) => Ok((ClientboundV::Title { action }, s)),
            Err(e) => Err(e),
        }
    } else {
        match parse_short_string(s) {
            Ok((header, s)) => match parse_short_string(s) {
                Ok((footer, s)) => Ok(
                    (ClientboundV::PlayerListHeaderAndFooter { header, footer }, s),
                ),
                Err(e) => Err(e),
            },
            Err(e) => Err(e),
        }
    }
}

pub open spec fn clientbound_fits(p: ClientboundV) -> bool {
    match p {
        ClientboundV::Disconnect { reason } => short_string_fits(reason),
        ClientboundV::JoinGame(j) => join_game_fits(j),
        ClientboundV::ChatMessage { json_data, .. } => short_string_fits(json_data),
        ClientboundV::CombatEvent { event } => combat_fits(event),
        ClientboundV::SpawnPosition { location } => position_in_range(location),
        ClientboundV::Teams { team_name, action } => string_fits(team_name) && teams_fits(action),
        ClientboundV::Title { action } => title_fits(action),
        ClientboundV::PlayerListHeaderAndFooter { header, footer } => short_string_fits(header)
            && short_string_fits(footer),
        ClientboundV::Packet(q) => play_clientbound::packet_fits(q),
        ClientboundV::Other { id, .. } => other_id(id),
        _ => true,
    }
}

pub open spec fn clientbound_bytes(p: ClientboundV) -> Seq<u8> {
    match p {
        ClientboundV::Disconnect { reason } => varint_bytes(0x19) + string_bytes(reason),
        ClientboundV::KeepAlive { keepalive_id } => varint_bytes(0x1f) + signed_bytes(
            keepalive_id as int,
            8,
        ),
        ClientboundV::JoinGame(j) => varint_bytes(0x24) + join_game_bytes(j),
        ClientboundV::PlayerPositionAndLook { x, y, z, yaw, pitch, flags, teleport_id } =>
            varint_bytes(0x34) + be_bytes(x as nat, 8) + be_bytes(y as nat, 8) + be_bytes(
            z as nat,
            8,
        ) + be_bytes(yaw as nat, 4) + be_bytes(pitch as nat, 4) + signed_bytes(flags as int, 1)
            + varint_bytes(teleport_id),
        ClientboundV::HeldItemChange { slot } => varint_bytes(0x3f) + signed_bytes(slot as int, 1),
        ClientboundV::ChatMessage { json_data, position, sender } => varint_bytes(0x0e)
            + string_bytes(json_data) + signed_bytes(position as int, 1) + be_bytes(
            sender as nat,
            16,
        ),
        ClientboundV::EntityStatus { entity_id, entity_status } => varint_bytes(0x1a)
            + signed_bytes(entity_id as int, 4) + signed_bytes(entity_status as int, 1),
        ClientboundV::UnloadChunk { chunk_x, chunk_z } => varint_bytes(0x1c) + signed_bytes(
            chunk_x as int,
            4,
        ) + signed_bytes(chunk_z as int, 4),
        ClientboundV::CombatEvent { event } => varint_bytes(0x31) + combat_bytes(event),
        ClientboundV::UpdateViewPosition { chunk_x, chunk_z } => varint_bytes(0x40)
            + varint_bytes(chunk_x) + varint_bytes(chunk_z),
        ClientboundV::UpdateViewDistance { view_distance } => varint_bytes(0x41) + varint_bytes(
            view_distance,
        ),
        ClientboundV::SpawnPosition { location } => varint_bytes(0x42) + position_bytes(location),
        ClientboundV::Teams { team_name, action } => varint_bytes(0x4c) + string_bytes(team_name)
            + teams_bytes(action),
        ClientboundV::TimeUpdate { world_age, time_of_day } => varint_bytes(0x4e) + signed_bytes(
            world_age as int,
            8,
        ) + signed_bytes(time_of_day as int, 8),
        ClientboundV::Title { action } => varint_bytes(0x4f) + title_bytes(action),
        ClientboundV::PlayerListHeaderAndFooter { header, footer } => varint_bytes(0x53)
            + string_bytes(header) + string_bytes(footer),
        ClientboundV::Packet(q) => varint_bytes(play_clientbound::packet_id(q))
            + play_clientbound::packet_body(q),
        ClientboundV::Other { id, data } => varint_bytes(id) + data,
    }
}

pub open spec fn parse_position_and_look(s: Seq<u8>) -> Parsed<ClientboundV> {
    match parse_u64(s) {
        Ok((x, s)) => match parse_u64(s) {
            Ok((y, s)) => match parse_u64(s) {
                Ok((z, s)) => match parse_u32(s) {
                    Ok((yaw, s)) => match parse_u32(s) {
                        Ok((pitch, s)) => match parse_i8(s) {
                            Ok((flags, s)) => match parse_var_int(s) {
                                Ok((teleport_id, s)) => Ok(
                                    (
                                        ClientboundV::PlayerPositionAndLook {
                                            x,
                                            y,
                                            z,
                                            yaw,
                                            pitch,
                                            flags,
                                            teleport_id,
                                        },
                                        s,
                                    ),
                                ),
                                Err(e) => Err(e),
                            },
                            Err(e) => Err(e),
                        },
                        Err(e) => Err(e),
                    },
                    Err(e) => Err(e),
                },
                Err(e) => Err(e),
            },
            Err(e) => Err(e),
        },
        Err(e) => Err(e),
    }
}

pub open spec fn parse_clientbound(s: Seq<u8>) -> Parsed<ClientboundV> {
    match parse_var_int(s) {
        Ok((id, s)) => if id == 0x19 {
            match parse_short_string(s) {
                Ok((reason, s)) => Ok((ClientboundV::Disconnect { reason }, s)),
                Err(e) => Err(e),
            }
        } else if id == 0x1f {
            match parse_i64(s) {
                Ok((keepalive_id, s)) => Ok((ClientboundV::KeepAlive { keepalive_id }, s)),
                Err(e) => Err(e),
            }
        } else if id == 0x24 {
            match parse_join_game(s) {
                Ok((j, s)) => Ok((ClientboundV::JoinGame(j), s)),
                Err(e) => Err(e),
            }
        } else if id == 0x34 {
            parse_position_and_look(s)
        } else if id == 0x3f {
            match parse_i8(s) {
                Ok((slot, s)) => Ok((ClientboundV::HeldItemChange { slot }, s)),
                Err(e) => Err(e),
            }
        } else if more_id(id) {
            parse_more(id, s)
        } else if play_clientbound::known_id(id) {
            match play_clientbound::parse_packet(id, s) {
                Ok((q, s)) => Ok((ClientboundV::Packet(q), s)),
                Err(e) => Err(e),
            }
        } else if other_id(id) {
            Ok((ClientboundV::Other { id, data: s }, seq![]))
        } else {
            Err(ProtocolError::UnknownId)
        },
        Err(e) => Err(e),
    }
}

pub open spec fn decode_clientbound(s: Seq<u8>) -> Result<ClientboundV, ProtocolError> {
    match parse_clientbound(s) {
        Ok((p, rest)) => if rest.len() == 0 {
            Ok(p)
        } else {
            Err(ProtocolError::TrailingBytes)
        },
        Err(e) => Err(e),
    }
}

/// Every clientbound play packet whose fields fit decodes to itself.
pub proof fn lemma_clientbound_round_trip(p: ClientboundV)
    requires
        clientbound_fits(p),
    ensures
        decode_clientbound(clientbound_bytes(p)) == Ok::<ClientboundV, ProtocolError>(p),
{
    if let ClientboundV::Packet(q) = p {
        lemma_clientbound_packet(q);
    } else if is_more(p) {
        lemma_more_round_trip(p);
    } else {
        lemma_clientbound_typed(p);
    }
}

#[verifier::spinoff_prover]
#[verifier::rlimit(100)]
proof fn lemma_clientbound_typed(p: ClientboundV)
    requires
        clientbound_fits(p),
        !(p is Packet),
        !is_more(p),
    ensures
        decode_clientbound(clientbound_bytes(p)) == Ok::<ClientboundV, ProtocolError>(p),
{
    let e = Seq::<u8>::empty();
    lemma_pow256_values();
    match p {
        ClientboundV::Disconnect { reason } => {
            let b = string_bytes(reason);
            assert(clientbound_bytes(p) =~= varint_bytes(0x19) + (b + e));
            lemma_parse_var_int(0x19, b + e);
            lemma_parse_short_string(reason, e);
        },
        ClientboundV::KeepAlive { keepalive_id } => {
            let b = signed_bytes(keepalive_id as int, 8);
            assert(clientbound_bytes(p) =~= varint_bytes(0x1f) + (b + e));
            lemma_parse_var_int(0x1f, b + e);
            lemma_parse_signed(keepalive_id as int, 8, e);
        },
        ClientboundV::JoinGame(j) => {
            let b = join_game_bytes(j);
            assert(clientbound_bytes(p) =~= varint_bytes(0x24) + (b + e));
            lemma_parse_var_int(0x24, b + e);
            lemma_join_game_round_trip(j, e);
        },
        ClientboundV::PlayerPositionAndLook { x, y, z, yaw, pitch, flags, teleport_id } => {
            let r6 = varint_bytes(teleport_id) + e;
            let r5 = signed_bytes(flags as int, 1) + r6;
            let r4 = be_bytes(pitch as nat, 4) + r5;
            let r3 = be_bytes(yaw as nat, 4) + r4;
            let r2 = be_bytes(z as nat, 8) + r3;
            let r1 = be_bytes(y as nat, 8) + r2;
            let r0 = be_bytes(x as nat, 8) + r1;
            assert(clientbound_bytes(p) =~= varint_bytes(0x34) + r0);
            lemma_parse_var_int(0x34, r0);
            lemma_parse_be(x as nat, 8, r1);
            lemma_parse_be(y as nat, 8, r2);
            lemma_parse_be(z as nat, 8, r3);
            lemma_parse_be(yaw as nat, 4, r4);
            lemma_parse_be(pitch as nat, 4, r5);
            lemma_parse_signed(flags as int, 1, r6);
            lemma_parse_var_int(teleport_id, e);
        },
        ClientboundV::HeldItemChange { slot } => {
            let b = signed_bytes(slot as int, 1);
            assert(clientbound_bytes(p) =~= varint_bytes(0x3f) + (b + e));
            lemma_parse_var_int(0x3f, b + e);
            lemma_parse_signed(slot as int, 1, e);
        },
        ClientboundV::Other { id, data } => {
            lemma_parse_var_int(id, data);
        },
        _ => {},
    }
}

/// The id that a packet of the `parse_more` group is sent with.
pub open spec fn more_packet_id(p: ClientboundV) -> i32 {
    match p {
        ClientboundV::ChatMessage { .. } => 0x0e,
        ClientboundV::EntityStatus { .. } => 0x1a,
        ClientboundV::UnloadChunk { .. } => 0x1c,
        ClientboundV::CombatEvent { .. } => 0x31,
        ClientboundV::UpdateViewPosition { .. } => 0x40,
        ClientboundV::UpdateViewDistance { .. } => 0x41,
        ClientboundV::SpawnPosition { .. } => 0x42,
        ClientboundV::Teams { .. } => 0x4c,
        ClientboundV::TimeUpdate { .. } => 0x4e,
        ClientboundV::Title { .. } => 0x4f,
        _ => 0x53,
    }
}

pub open spec fn is_more(p: ClientboundV) -> bool {
    p is ChatMessage || p is EntityStatus || p is UnloadChunk || p is CombatEvent
        || p is UpdateViewPosition || p is UpdateViewDistance || p is SpawnPosition || p is Teams
        || p is TimeUpdate || p is Title || p is PlayerListHeaderAndFooter
}

/// Every packet of the `parse_more` group whose fields fit reads back as itself.
#[verifier::spinoff_prover]
#[verifier::rlimit(100)]
proof fn lemma_more_round_trip(p: ClientboundV)
    requires
        clientbound_fits(p),
        is_more(p),
    ensures
        decode_clientbound(clientbound_bytes(p)) == Ok::<ClientboundV, ProtocolError>(p),
{
    let e = Seq::<u8>::empty();
    lemma_pow256_values();
    let id = more_packet_id(p);
    let body = clientbound_bytes(p).skip(varint_bytes(id).len() as int);
    assert(clientbound_bytes(p) =~= varint_bytes(id) + body);
    lemma_parse_var_int(id, body);
    match p {
        ClientboundV::ChatMessage { json_data, position, sender } => {
            let t2 = be_bytes(sender as nat, 16) + e;
            let t1 = signed_bytes(position as int, 1) + t2;
            assert(body =~= string_bytes(json_data) + t1);
            lemma_parse_short_string(json_data, t1);
            lemma_parse_signed(position as int, 1, t2);
            lemma_parse_be(sender as nat, 16, e);
        },
        ClientboundV::EntityStatus { entity_id, entity_status } => {
            let t1 = signed_bytes(entity_status as int, 1) + e;
            assert(body =~= signed_bytes(entity_id as int, 4) + t1);
            lemma_parse_signed(entity_id as int, 4, t1);
            lemma_parse_signed(entity_status as int, 1, e);
        },
        ClientboundV::UnloadChunk { chunk_x, chunk_z } => {
            let t1 = signed_bytes(chunk_z as int, 4) + e;
            assert(body =~= signed_bytes(chunk_x as int, 4) + t1);
            lemma_parse_signed(chunk_x as int, 4, t1);
            lemma_parse_signed(chunk_z as int, 4, e);
        },
        ClientboundV::CombatEvent { event } => {
            assert(body =~= combat_bytes(event) + e);
            lemma_combat_round_trip(event, e);
        },
        ClientboundV::UpdateViewPosition { chunk_x, chunk_z } => {
            let t1 = varint_bytes(chunk_z) + e;
            assert(body =~= varint_bytes(chunk_x) + t1);
            lemma_parse_var_int(chunk_x, t1);
            lemma_parse_var_int(chunk_z, e);
        },
        ClientboundV::UpdateViewDistance { view_distance } => {
            assert(body =~= varint_bytes(view_distance) + e);
            lemma_parse_var_int(view_distance, e);
        },
        ClientboundV::SpawnPosition { location } => {
            assert(body =~= position_bytes(location) + e);
            lemma_position_round_trip(location, e);
        },
        ClientboundV::Teams { team_name, action } => {
            let t1 = teams_bytes(action) + e;
            assert(body =~= string_bytes(team_name) + t1);
            lemma_parse_string(team_name, t1);
            lemma_teams_round_trip(action, e);
        },
        ClientboundV::TimeUpdate { world_age, time_of_day } => {
            let t1 = signed_bytes(time_of_day as int, 8) + e;
            assert(body =~= signed_bytes(world_age as int, 8) + t1);
            lemma_parse_signed(world_age as int, 8, t1);
            lemma_parse_signed(time_of_day as int, 8, e);
        },
        ClientboundV::Title { action } => {
            assert(body =~= title_bytes(action) + e);
            lemma_title_round_trip(action, e);
        },
        ClientboundV::PlayerListHeaderAndFooter { header, footer } => {
            let t1 = string_bytes(footer) + e;
            assert(body =~= string_bytes(header) + t1);
            lemma_parse_short_string(header, t1);
            lemma_parse_short_string(footer, e);
        },
        _ => {},
    }
}

impl Clientbound {
    /// Reads one packet that fills `data`.
    #[verifier::spinoff_prover]
    #[verifier::rlimit(100)]
    pub fn decode(data: &[u8]) -> (r: Result<Clientbound, ProtocolError>)
        ensures
            match decode_clientbound(data@) {
                Ok(v) => r matches Ok(p) && p@ == v,
                Err(e) => r == Err::<Clientbound, ProtocolError>(e),
            },
    {
        assert(data@.skip(0) =~= data@);
        let (id, p) = match read_var_int(data, 0) {
            Ok(x) => x,
            Err(e) => return Err(e),
        };
        let (packet, p) = if id == 0x19 {
            match Chat::decode(data, p) {
                Ok((reason, p)) => (Clientbound::Disconnect { reason }, p),
                Err(e) => return Err(e),
            }
        } else if id == 0x1f {
            match read_i64(data, p) {
                Ok((k, p)) => (Clientbound::KeepAlive { keepalive_id: k }, p),
                Err(e) => return Err(e),
            }
        } else if id == 0x24 {
            match JoinGame::decode(data, p) {
                Ok((j, p)) => (Clientbound::JoinGame(j), p),
                Err(e) => return Err(e),
            }
        } else if id == 0x34 {
            match decode_position_and_look(data, p) {
                Ok(x) => x,
                Err(e) => return Err(e),
            }
        } else if id == 0x3f {
            match read_i8(data, p) {
                Ok((slot, p)) => (Clientbound::HeldItemChange { slot }, p),
                Err(e) => return Err(e),
            }
        } else if is_more_id(id) {
            match decode_more(id, data, p) {
                Ok(x) => x,
                Err(e) => return Err(e),
            }
        } else if play_clientbound::is_known_id(id) {
            match play_clientbound::decode_packet(id, data, p) {
                Ok((x, q)) => (Clientbound::Packet(x), q),
                Err(e) => return Err(e),
            }
        } else if 0 <= id && id <= 0x5b {
            let (rest, p) = read_greedy(data, p);
            (Clientbound::Other { id, data: rest }, p)
        } else {
            return Err(ProtocolError::UnknownId);
        };
        if p != data.len() {
            return Err(ProtocolError::TrailingBytes);
        }
        Ok(packet)
    }
}

fn is_more_id(id: i32) -> (r: bool)
    ensures
        r == more_id(id),
{
    id == 0x0e || id == 0x1a || id == 0x1c || id == 0x31 || id == 0x40 || id == 0x41 || id == 0x42
        || id == 0x4c || id == 0x4e || id == 0x4f || id == 0x53
}

#[verifier::spinoff_prover]
#[verifier::rlimit(100)]
fn decode_more(id: i32, data: &[u8], pos: usize) -> (r: Result<(Clientbound, usize), ProtocolError>)
    requires
        pos <= data@.len(),
        more_id(id),
    ensures
        agrees(
            match r {
                Ok((v, p)) => Ok((v@, p)),
                Err(e) => Err(e),
            },
            data@,
            pos as int,
            parse_more(id, data@.skip(pos as int)),
        ),
{
    if id == 0x0e {
        let (json_data, p) = match Chat::decode(data, pos) {
            Ok(x) => x,
            Err(e) => return Err(e),
        };
        let (position, p) = match read_i8(data, p) {
            Ok(x) => x,
            Err(e) => return Err(e),
        };
        let (sender, p) = match Uuid::decode(data, p) {
            Ok(x) => x,
            Err(e) => return Err(e),
        };
        Ok((Clientbound::ChatMessage { json_data, position, sender }, p))
    } else if id == 0x1a {
        let (entity_id, p) = match read_i32(data, pos) {
            Ok(x) => x,
            Err(e) => return Err(e),
        };
        let (entity_status, p) = match read_i8(data, p) {
            Ok(x) => x,
            Err(e) => return Err(e),
        };
        Ok((Clientbound::EntityStatus { entity_id, entity_status }, p))
    } else if id == 0x1c {
        let (chunk_x, p) = match read_i32(data, pos) {
            Ok(x) => x,
            Err(e) => return Err(e),
        };
        let (chunk_z, p) = match read_i32(data, p) {
            Ok(x) => x,
            Err(e) => return Err(e),
        };
        Ok((Clientbound::UnloadChunk { chunk_x, chunk_z }, p))
    } else if id == 0x31 {
        match CombatEvent::decode(data, pos) {
            Ok((event, p)) => Ok((Clientbound::CombatEvent { event }, p)),
            Err(e) => Err(e),
        }
    } else if id == 0x40 {
        let (chunk_x, p) = match read_var_int(data, pos) {
            Ok(x) => x,
            Err(e) => return Err(e),
        };
        let (chunk_z, p) = match read_var_int(data, p) {
            Ok(x) => x,
            Err(e) => return Err(e),
        };
        Ok((Clientbound::UpdateViewPosition { chunk_x: VarInt(chunk_x), chunk_z: VarInt(chunk_z) }, p))
    } else if id == 0x41 {
        match read_var_int(data, pos) {
            Ok((v, p)) => Ok((Clientbound::UpdateViewDistance { view_distance: VarInt(v) }, p)),
            Err(e) => Err(e),
        }
    } else {
        decode_more_late(id, data, pos)
    }
}

#[verifier::spinoff_prover]
#[verifier::rlimit(100)]
fn decode_more_late(id: i32, data: &[u8], pos: usize) -> (r: Result<(Clientbound, usize), ProtocolError>)
    requires
        pos <= data@.len(),
        more_id(id),
        id == 0x42 || id == 0x4c || id == 0x4e || id == 0x4f || id == 0x53,
    ensures
        agrees(
            match r {
                Ok((v, p)) => Ok((v@, p)),
                Err(e) => Err(e),
            },
            data@,
            pos as int,
            parse_more(id, data@.skip(pos as int)),
        ),
{
    if id == 0x42 {
        match Position::decode(data, pos) {
            Ok((location, p)) => Ok((Clientbound::SpawnPosition { location }, p)),
            Err(e) => Err(e),
        }
    } else if id == 0x4c {
        let (team_name, p) = match String::decode(data, pos) {
            Ok(x) => x,
            Err(e) => return Err(e),
        };
        match TeamsAction::decode(data, p) {
            Ok((action, p)) => Ok((Clientbound::Teams { team_name, action }, p)),
            Err(e) => Err(e),
        }
    } else if id == 0x4e {
        let (world_age, p) = match read_i64(data, pos) {
            Ok(x) => x,
            Err(e) => return Err(e),
        };
        let (time_of_day, p) = match read_i64(data, p) {
            Ok(x) => x,
            Err(e) => return Err(e),
        };
        Ok((Clientbound::TimeUpdate { world_age, time_of_day }, p))
    } else if id == 0x4f {
        match TitleAction::decode(data, pos) {
            Ok((action, p)) => Ok((Clientbound::Title { action }, p)),
            Err(e) => Err(e),
        }
    } else {
        let (header, p) = match Chat::decode(data, pos) {
            Ok(x) => x,
            Err(e) => return Err(e),
        };
        let (footer, p) = match Chat::decode(data, p) {
            Ok(x) => x,
            Err(e) => return Err(e),
        };
        Ok((Clientbound::PlayerListHeaderAndFooter { header, footer }, p))
    }
}

fn decode_position_and_look(data: &[u8], pos: usize) -> (r: Result<(Clientbound, usize), ProtocolError>)
    requires
        pos <= data@.len(),
    ensures
        agrees(
            match r {
                Ok((v, p)) => Ok((v@, p)),
                Err(e) => Err(e),
            },
            data@,
            pos as int,
            parse_position_and_look(data@.skip(pos as int)),
        ),
{
    let (x, p) = match read_u64(data, pos) {
        Ok(v) => v,
        Err(e) => return Err(e),
    };
    let (y, p) = match read_u64(data, p) {
        Ok(v) => v,
        Err(e) => return Err(e),
    };
    let (z, p) = match read_u64(data, p) {
        Ok(v) => v,
        Err(e) => return Err(e),
    };
    let (yaw, p) = match read_u32(data, p) {
        Ok(v) => v,
        Err(e) => return Err(e),
    };
    let (pitch, p) = match read_u32(data, p) {
        Ok(v) => v,
        Err(e) => return Err(e),
    };
    let (flags, p) = match read_i8(data, p) {
        Ok(v) => v,
        Err(e) => return Err(e),
    };
    let (teleport_id, p) = match read_var_int(data, p) {
        Ok(v) => v,
        Err(e) => return Err(e),
    };
    Ok(
        (
            Clientbound::PlayerPositionAndLook {
                x,
                y,
                z,
                yaw,
                pitch,
                flags,
                teleport_id: VarInt(teleport_id),
            },
            p,
        ),
    )
}

/// Serverbound packets of the play phase that the session sends.
#[derive(Debug, PartialEq)]
pub enum Serverbound {
    TeleportConfirm { teleport_id: VarInt },
    ClientSettings {
        locale: String,
        view_distance: i8,
        chat_mode: VarInt,
        chat_colors: bool,
        displayed_skin_parts: u8,
        main_hand: VarInt,
    },
    KeepAlive { keepalive_id: i64 },
    /// Coordinates are IEEE-754 doubles and angles floats, as their bit patterns.
    PlayerPositionAndRotation { x: u64, y: u64, z: u64, yaw: u32, pitch: u32, on_ground: bool },
    /// Any other packet of the catalogue whose fields are plain values.
    Packet(play_serverbound::Packet),
}

pub enum ServerboundV {
    TeleportConfirm { teleport_id: i32 },
    ClientSettings {
        locale: Seq<char>,
        view_distance: i8,
        chat_mode: i32,
        chat_colors: bool,
        displayed_skin_parts: u8,
        main_hand: i32,
    },
    KeepAlive { keepalive_id: i64 },
    PlayerPositionAndRotation { x: u64, y: u64, z: u64, yaw: u32, pitch: u32, on_ground: bool },
    Packet(play_serverbound::PacketV),
}

impl View for Serverbound {
    type V = ServerboundV;

    open spec fn view(&self) -> ServerboundV {
        match self {
            Serverbound::TeleportConfirm { teleport_id } => ServerboundV::TeleportConfirm {
                teleport_id: teleport_id.0,
            },
            Serverbound::ClientSettings {
                locale,
                view_distance,
                chat_mode,
                chat_colors,
                displayed_skin_parts,
                main_hand,
            } => ServerboundV::ClientSettings {
                locale: locale.0@,
                view_distance: *view_distance,
                chat_mode: chat_mode.0,
                chat_colors: *chat_colors,
                displayed_skin_parts: *displayed_skin_parts,
                main_hand: main_hand.0,
            },
            Serverbound::KeepAlive { keepalive_id } => ServerboundV::KeepAlive {
                keepalive_id: *keepalive_id,
            },
            Serverbound::PlayerPositionAndRotation { x, y, z, yaw, pitch, on_ground } =>
                ServerboundV::PlayerPositionAndRotation {
                x: *x,
                y: *y,
                z: *z,
                yaw: *yaw,
                pitch: *pitch,
                on_ground: *on_ground,
            },
            Serverbound::Packet(x) => ServerboundV::Packet(x@),
        }
    }
}

pub open spec fn serverbound_fits(p: ServerboundV) -> bool {
    match p {
        ServerboundV::ClientSettings { locale, .. } => string_fits(locale),
        ServerboundV::Packet(q) => play_serverbound::packet_fits(q),
        _ => true,
    }
}

pub open spec fn serverbound_bytes(p: ServerboundV) -> Seq<u8> {
    match p {
        ServerboundV::TeleportConfirm { teleport_id } => varint_bytes(0x00) + varint_bytes(
            teleport_id,
        ),
        ServerboundV::ClientSettings {
            locale,
            view_distance,
            chat_mode,
            chat_colors,
            displayed_skin_parts,
            main_hand,
        } => varint_bytes(0x05) + string_bytes(locale) + signed_bytes(view_distance as int, 1)
            + varint_bytes(chat_mode) + bool_bytes(chat_colors) + be_bytes(
            displayed_skin_parts as nat,
            1,
        ) + varint_bytes(main_hand),
        ServerboundV::KeepAlive { keepalive_id } => varint_bytes(0x10) + signed_bytes(
            keepalive_id as int,
            8,
        ),
        ServerboundV::PlayerPositionAndRotation { x, y, z, yaw, pitch, on_ground } =>
            varint_bytes(0x13) + be_bytes(x as nat, 8) + be_bytes(y as nat, 8) + be_bytes(
            z as nat,
            8,
        ) + be_bytes(yaw as nat, 4) + be_bytes(pitch as nat, 4) + bool_bytes(on_ground),
        ServerboundV::Packet(q) => varint_bytes(play_serverbound::packet_id(q))
            + play_serverbound::packet_body(q),
    }
}

pub open spec fn parse_serverbound(s: Seq<u8>) -> Parsed<ServerboundV> {
    match parse_var_int(s) {
        Ok((id, s)) => if id == 0x00 {
            match parse_var_int(s) {
                Ok((teleport_id, s)) => Ok((ServerboundV::TeleportConfirm { teleport_id }, s)),
                Err(e) => Err(e),
            }
        } else if id == 0x05 {
            match parse_string(s) {
                Ok((locale, s)) => match parse_i8(s) {
                    Ok((view_distance, s)) => match parse_var_int(s) {
                        Ok((chat_mode, s)) => match parse_bool(s) {
                            Ok((chat_colors, s)) => match parse_u8(s) {
                                Ok((displayed_skin_parts, s)) => match parse_var_int(s) {
                                    Ok((main_hand, s)) => Ok(
                                        (
                                            ServerboundV::ClientSettings {
                                                locale,
                                                view_distance,
                                                chat_mode,
                                                chat_colors,
                                                displayed_skin_parts,
                                                main_hand,
                                            },
                                            s,
                                        ),
                                    ),
                                    Err(e) => Err(e),
                                },
                                Err(e) => Err(e),
                            },
                            Err(e) => Err(e),
                        },
                        Err(e) => Err(e),
                    },
                    Err(e) => Err(e),
                },
                Err(e) => Err(e),
            }
        } else if id == 0x10 {
            match parse_i64(s) {
                Ok((keepalive_id, s)) => Ok((ServerboundV::KeepAlive { keepalive_id }, s)),
                Err(e) => Err(e),
            }
        } else if id == 0x13 {
            match parse_u64(s) {
                Ok((x, s)) => match parse_u64(s) {
                    Ok((y, s)) => match parse_u64(s) {
                        Ok((z, s)) => match parse_u32(s) {
                            Ok((yaw, s)) => match parse_u32(s) {
                                Ok((pitch, s)) => match parse_bool(s) {
                                    Ok((on_ground, s)) => Ok(
                                        (
                                            ServerboundV::PlayerPositionAndRotation {
                                                x,
                                                y,
                                                z,
                                                yaw,
                                                pitch,
                                                on_ground,
                                            },
                                            s,
                                        ),
                                    ),
                                    Err(e) => Err(e),
                                },
                                Err(e) => Err(e),
                            },
                            Err(e) => Err(e),
                        },
                        Err(e) => Err(e),
                    },
                    Err(e) => Err(e),
                },
                Err(e) => Err(e),
            }
        } else if play_serverbound::known_id(id) {
            match play_serverbound::parse_packet(id, s) {
                Ok((q, s)) => Ok((ServerboundV::Packet(q), s)),
                Err(e) => Err(e),
            }
        } else {
            Err(ProtocolError::UnknownId)
        },
        Err(e) => Err(e),
    }
}

pub open spec fn decode_serverbound(s: Seq<u8>) -> Result<ServerboundV, ProtocolError> {
    match parse_serverbound(s) {
        Ok((p, rest)) => if rest.len() == 0 {
            Ok(p)
        } else {
            Err(ProtocolError::TrailingBytes)
        },
        Err(e) => Err(e),
    }
}

/// Every serverbound play packet whose fields fit decodes to itself.
#[verifier::rlimit(100)]
#[verifier::spinoff_prover]
pub proof fn lemma_serverbound_round_trip(p: ServerboundV)
    requires
        serverbound_fits(p),
    ensures
        decode_serverbound(serverbound_bytes(p)) == Ok::<ServerboundV, ProtocolError>(p),
{
    let e = Seq::<u8>::empty();
    lemma_pow256_values();
    match p {
        ServerboundV::TeleportConfirm { teleport_id } => {
            let b = varint_bytes(teleport_id);
            assert(serverbound_bytes(p) =~= varint_bytes(0) + (b + e));
            lemma_parse_var_int(0, b + e);
            lemma_parse_var_int(teleport_id, e);
        },
        ServerboundV::ClientSettings {
            locale,
            view_distance,
            chat_mode,
            chat_colors,
            displayed_skin_parts,
            main_hand,
        } => {
            let r5 = varint_bytes(main_hand) + e;
            let r4 = be_bytes(displayed_skin_parts as nat, 1) + r5;
            let r3 = bool_bytes(chat_colors) + r4;
            let r2 = varint_bytes(chat_mode) + r3;
            let r1 = signed_bytes(view_distance as int, 1) + r2;
            let r0 = string_bytes(locale) + r1;
            assert(serverbound_bytes(p) =~= varint_bytes(0x05) + r0);
            lemma_parse_var_int(0x05, r0);
            lemma_parse_string(locale, r1);
            lemma_parse_signed(view_distance as int, 1, r2);
            lemma_parse_var_int(chat_mode, r3);
            lemma_parse_bool(chat_colors, r4);
            lemma_parse_be(displayed_skin_parts as nat, 1, r5);
            lemma_parse_var_int(main_hand, e);
        },
        ServerboundV::KeepAlive { keepalive_id } => {
            let b = signed_bytes(keepalive_id as int, 8);
            assert(serverbound_bytes(p) =~= varint_bytes(0x10) + (b + e));
            lemma_parse_var_int(0x10, b + e);
            lemma_parse_signed(keepalive_id as int, 8, e);
        },
        ServerboundV::PlayerPositionAndRotation { x, y, z, yaw, pitch, on_ground } => {
            let r5 = bool_bytes(on_ground) + e;
            let r4 = be_bytes(pitch as nat, 4) + r5;
            let r3 = be_bytes(yaw as nat, 4) + r4;
            let r2 = be_bytes(z as nat, 8) + r3;
            let r1 = be_bytes(y as nat, 8) + r2;
            let r0 = be_bytes(x as nat, 8) + r1;
            assert(serverbound_bytes(p) =~= varint_bytes(0x13) + r0);
            lemma_parse_var_int(0x13, r0);
            lemma_parse_be(x as nat, 8, r1);
            lemma_parse_be(y as nat, 8, r2);
            lemma_parse_be(z as nat, 8, r3);
            lemma_parse_be(yaw as nat, 4, r4);
            lemma_parse_be(pitch as nat, 4, r5);
            lemma_parse_bool(on_ground, e);
        },
        ServerboundV::Packet(q) => {
            lemma_serverbound_packet(q);
        },
    }
}

#[verifier::spinoff_prover]
#[verifier::rlimit(100)]
proof fn lemma_clientbound_packet(q: play_clientbound::PacketV)
    requires
        play_clientbound::packet_fits(q),
    ensures
        decode_clientbound(clientbound_bytes(ClientboundV::Packet(q))) == Ok::<
            ClientboundV,
            ProtocolError,
        >(ClientboundV::Packet(q)),
{
    let id = play_clientbound::packet_id(q);
    let body = play_clientbound::packet_body(q);
    play_clientbound::lemma_known_id(q);
    reveal(play_clientbound::known_id);
    lemma_parse_var_int(id, body);
    play_clientbound::lemma_packet_round_trip(q);
    assert(body + seq![] =~= body);
    assert(parse_var_int(clientbound_bytes(ClientboundV::Packet(q))) == Ok::<(i32, Seq<u8>), ProtocolError>((id, body)));
}

#[verifier::spinoff_prover]
#[verifier::rlimit(100)]
proof fn lemma_serverbound_packet(q: play_serverbound::PacketV)
    requires
        play_serverbound::packet_fits(q),
    ensures
        decode_serverbound(serverbound_bytes(ServerboundV::Packet(q))) == Ok::<
            ServerboundV,
            ProtocolError,
        >(ServerboundV::Packet(q)),
{
    let id = play_serverbound::packet_id(q);
    let body = play_serverbound::packet_body(q);
    play_serverbound::lemma_known_id(q);
    reveal(play_serverbound::known_id);
    lemma_parse_var_int(id, body);
    play_serverbound::lemma_packet_round_trip(q);
    assert(body + seq![] =~= body);
    assert(parse_var_int(serverbound_bytes(ServerboundV::Packet(q))) == Ok::<(i32, Seq<u8>), ProtocolError>((id, body)));
}

impl Serverbound {
    /// The wire form of this packet; fails when a field does not fit.
    pub fn encode(&self) -> (r: Result<Vec<u8>, ProtocolError>)
        ensures
            r is Ok <==> serverbound_fits(self@),
            r matches Ok(w) ==> w@ == serverbound_bytes(self@),
    {
        let mut out: Vec<u8> = Vec::new();
        match self {
            Serverbound::TeleportConfirm { teleport_id } => {
                write_var_int(0x00, &mut out);
                teleport_id.encode(&mut out);
            },
            Serverbound::ClientSettings {
                locale,
                view_distance,
                chat_mode,
                chat_colors,
                displayed_skin_parts,
                main_hand,
            } => {
                if utf8_len(&locale.0) > 0x7fff_ffff {
                    return Err(ProtocolError::BadLength);
                }
                write_var_int(0x05, &mut out);
                locale.encode(&mut out);
                write_i8(*view_distance, &mut out);
                chat_mode.encode(&mut out);
                write_bool(*chat_colors, &mut out);
                write_u8(*displayed_skin_parts, &mut out);
                main_hand.encode(&mut out);
            },
            Serverbound::KeepAlive { keepalive_id } => {
                write_var_int(0x10, &mut out);
                write_i64(*keepalive_id, &mut out);
            },
            Serverbound::PlayerPositionAndRotation { x, y, z, yaw, pitch, on_ground } => {
                write_var_int(0x13, &mut out);
                write_u64(*x, &mut out);
                write_u64(*y, &mut out);
                write_u64(*z, &mut out);
                write_u32(*yaw, &mut out);
                write_u32(*pitch, &mut out);
                write_bool(*on_ground, &mut out);
            },
            Serverbound::Packet(x) => {
                write_var_int(x.id(), &mut out);
                match x.encode_body(&mut out) {
                    Ok(()) => {},
                    Err(e) => return Err(e),
                }
            },
        }
        assert(out@ =~= serverbound_bytes(self@));
        Ok(out)
    }
}

} // verus!
