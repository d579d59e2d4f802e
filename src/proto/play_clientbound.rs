use vstd::prelude::*;
use crate::error::ProtocolError;
use crate::varint::{VarInt, VarLong, varint_bytes, varlong_bytes};
use crate::types::{String, Chat, Identifier, Position, Angle, Uuid, position_in_range,
    position_bytes, parse_position, lemma_position_round_trip};
use crate::nbt::{Nbt, NbtV, nbt_bytes, nbt_fits, parse_nbt, lemma_nbt_round_trip};
use crate::proto::play::{Gamemode, gamemode_id, parse_gamemode};
use crate::proto::records::{CombatEvent, CombatEventV, combat_bytes, parse_combat, combat_fits,
    lemma_combat_round_trip, TitleAction, TitleActionV, title_bytes, parse_title, title_fits,
    lemma_title_round_trip};
use crate::codec::{Parsed, agrees, be_bytes, bool_bytes, signed_bytes, prefixed_bytes,
    parse_var_int, parse_var_long, parse_bool, parse_u8, parse_u16, parse_u32, parse_u64,
    parse_u128, parse_i8, parse_i16, parse_i32, parse_i64, parse_string, parse_short_string,
    parse_prefixed, string_bytes, string_fits, short_string_fits, read_var_int, read_var_long,
    read_bool, read_u8, read_u16, read_u32, read_u64, read_i8, read_i16, read_i32, read_i64,
    read_prefixed, read_greedy, write_bool, write_u8, write_u16, write_u32, write_u64, write_i8,
    write_i16, write_i32, write_i64, write_raw, write_prefixed, utf8_len, lemma_parse_var_int,
    lemma_parse_var_long, lemma_parse_bool, lemma_parse_be, lemma_parse_signed,
    lemma_parse_string, lemma_parse_short_string, lemma_parse_prefixed, lemma_pow256_values};

verus! {

proof fn lemma_assoc(a: Seq<u8>, b: Seq<u8>, c: Seq<u8>)
    ensures
        (a + b) + c == a + (b + c),
{
    assert((a + b) + c =~= a + (b + c));
}

/// The fields of the SpawnEntity packet (id 0x00).
#[derive(Debug, PartialEq)]
pub struct SpawnEntity {
    pub entity_id: VarInt,
    pub object_uuid: Uuid,
    pub type_: VarInt,
    pub x: u64,
    pub y: u64,
    pub z: u64,
    pub pitch: Angle,
    pub yaw: Angle,
    pub data: i32,
    pub velocity_x: i16,
    pub velocity_y: i16,
    pub velocity_z: i16,
}

pub struct SpawnEntityV {
    pub entity_id: i32,
    pub object_uuid: u128,
    pub type_: i32,
    pub x: u64,
    pub y: u64,
    pub z: u64,
    pub pitch: u8,
    pub yaw: u8,
    pub data: i32,
    pub velocity_x: i16,
    pub velocity_y: i16,
    pub velocity_z: i16,
}

impl View for SpawnEntity {
    type V = SpawnEntityV;

    open spec fn view(&self) -> SpawnEntityV {
        SpawnEntityV { entity_id: self.entity_id.0, object_uuid: self.object_uuid.0, type_: self.type_.0, x: self.x, y: self.y, z: self.z, pitch: self.pitch.0, yaw: self.yaw.0, data: self.data, velocity_x: self.velocity_x, velocity_y: self.velocity_y, velocity_z: self.velocity_z }
    }
}

pub open spec fn spawn_entity_fits(v: SpawnEntityV) -> bool {
    true
}

pub open spec fn spawn_entity_bytes(v: SpawnEntityV) -> Seq<u8> {
    varint_bytes(v.entity_id) + (be_bytes(v.object_uuid as nat, 16) + (varint_bytes(v.type_) + (be_bytes(v.x as nat, 8) + (be_bytes(v.y as nat, 8) + (be_bytes(v.z as nat, 8) + (be_bytes(v.pitch as nat, 1) + (be_bytes(v.yaw as nat, 1) + (signed_bytes(v.data as int, 4) + (signed_bytes(v.velocity_x as int, 2) + (signed_bytes(v.velocity_y as int, 2) + (signed_bytes(v.velocity_z as int, 2))))))))))))
}

pub open spec fn parse_spawn_entity(s: Seq<u8>) -> Parsed<SpawnEntityV> {
    match parse_var_int(s) {
        Ok((entity_id, s)) => match parse_u128(s) {
        Ok((object_uuid, s)) => match parse_var_int(s) {
        Ok((type_, s)) => match parse_u64(s) {
        Ok((x, s)) => match parse_u64(s) {
        Ok((y, s)) => match parse_u64(s) {
        Ok((z, s)) => match parse_u8(s) {
        Ok((pitch, s)) => match parse_u8(s) {
        Ok((yaw, s)) => match parse_i32(s) {
        Ok((data, s)) => match parse_i16(s) {
        Ok((velocity_x, s)) => match parse_i16(s) {
        Ok((velocity_y, s)) => match parse_i16(s) {
        Ok((velocity_z, s)) => Ok((SpawnEntityV { entity_id, object_uuid, type_, x, y, z, pitch, yaw, data, velocity_x, velocity_y, velocity_z }, s)),
        Err(e) => Err(e),
    },
        Err(e) => Err(e),
    },
        Err(e) => Err(e),
    },
        Err(e) => Err(e),
    },
        Err(e) => Err(e),
    },
        Err(e) => Err(e),
    },
        Err(e) => Err(e),
    },
        Err(e) => Err(e),
    },
        Err(e) => Err(e),
    },
        Err(e) => Err(e),
    },
        Err(e) => Err(e),
    },
        Err(e) => Err(e),
    }
}

/// Every SpawnEntity packet whose fields fit reads back as itself, whatever follows.
#[verifier::spinoff_prover]
#[verifier::rlimit(100)]
pub proof fn lemma_spawn_entity_round_trip(v: SpawnEntityV, rest: Seq<u8>)
    requires
        spawn_entity_fits(v),
    ensures
        parse_spawn_entity(spawn_entity_bytes(v) + rest) == Ok::<(SpawnEntityV, Seq<u8>), ProtocolError>((v, rest)),
{
    lemma_pow256_values();
    let t12 = rest;
    let t11 = signed_bytes(v.velocity_z as int, 2) + t12;
    let t10 = signed_bytes(v.velocity_y as int, 2) + t11;
    let t9 = signed_bytes(v.velocity_x as int, 2) + t10;
    let t8 = signed_bytes(v.data as int, 4) + t9;
    let t7 = be_bytes(v.yaw as nat, 1) + t8;
    let t6 = be_bytes(v.pitch as nat, 1) + t7;
    let t5 = be_bytes(v.z as nat, 8) + t6;
    let t4 = be_bytes(v.y as nat, 8) + t5;
    let t3 = be_bytes(v.x as nat, 8) + t4;
    let t2 = varint_bytes(v.type_) + t3;
    let t1 = be_bytes(v.object_uuid as nat, 16) + t2;
    let t0 = varint_bytes(v.entity_id) + t1;
    lemma_assoc(varint_bytes(v.entity_id), be_bytes(v.object_uuid as nat, 16) + (varint_bytes(v.type_) + (be_bytes(v.x as nat, 8) + (be_bytes(v.y as nat, 8) + (be_bytes(v.z as nat, 8) + (be_bytes(v.pitch as nat, 1) + (be_bytes(v.yaw as nat, 1) + (signed_bytes(v.data as int, 4) + (signed_bytes(v.velocity_x as int, 2) + (signed_bytes(v.velocity_y as int, 2) + (signed_bytes(v.velocity_z as int, 2))))))))))), rest);
    lemma_assoc(be_bytes(v.object_uuid as nat, 16), varint_bytes(v.type_) + (be_bytes(v.x as nat, 8) + (be_bytes(v.y as nat, 8) + (be_bytes(v.z as nat, 8) + (be_bytes(v.pitch as nat, 1) + (be_bytes(v.yaw as nat, 1) + (signed_bytes(v.data as int, 4) + (signed_bytes(v.velocity_x as int, 2) + (signed_bytes(v.velocity_y as int, 2) + (signed_bytes(v.velocity_z as int, 2)))))))))), rest);
    lemma_assoc(varint_bytes(v.type_), be_bytes(v.x as nat, 8) + (be_bytes(v.y as nat, 8) + (be_bytes(v.z as nat, 8) + (be_bytes(v.pitch as nat, 1) + (be_bytes(v.yaw as nat, 1) + (signed_bytes(v.data as int, 4) + (signed_bytes(v.velocity_x as int, 2) + (signed_bytes(v.velocity_y as int, 2) + (signed_bytes(v.velocity_z as int, 2))))))))), rest);
    lemma_assoc(be_bytes(v.x as nat, 8), be_bytes(v.y as nat, 8) + (be_bytes(v.z as nat, 8) + (be_bytes(v.pitch as nat, 1) + (be_bytes(v.yaw as nat, 1) + (signed_bytes(v.data as int, 4) + (signed_bytes(v.velocity_x as int, 2) + (signed_bytes(v.velocity_y as int, 2) + (signed_bytes(v.velocity_z as int, 2)))))))), rest);
    lemma_assoc(be_bytes(v.y as nat, 8), be_bytes(v.z as nat, 8) + (be_bytes(v.pitch as nat, 1) + (be_bytes(v.yaw as nat, 1) + (signed_bytes(v.data as int, 4) + (signed_bytes(v.velocity_x as int, 2) + (signed_bytes(v.velocity_y as int, 2) + (signed_bytes(v.velocity_z as int, 2))))))), rest);
    lemma_assoc(be_bytes(v.z as nat, 8), be_bytes(v.pitch as nat, 1) + (be_bytes(v.yaw as nat, 1) + (signed_bytes(v.data as int, 4) + (signed_bytes(v.velocity_x as int, 2) + (signed_bytes(v.velocity_y as int, 2) + (signed_bytes(v.velocity_z as int, 2)))))), rest);
    lemma_assoc(be_bytes(v.pitch as nat, 1), be_bytes(v.yaw as nat, 1) + (signed_bytes(v.data as int, 4) + (signed_bytes(v.velocity_x as int, 2) + (signed_bytes(v.velocity_y as int, 2) + (signed_bytes(v.velocity_z as int, 2))))), rest);
    lemma_assoc(be_bytes(v.yaw as nat, 1), signed_bytes(v.data as int, 4) + (signed_bytes(v.velocity_x as int, 2) + (signed_bytes(v.velocity_y as int, 2) + (signed_bytes(v.velocity_z as int, 2)))), rest);
    lemma_assoc(signed_bytes(v.data as int, 4), signed_bytes(v.velocity_x as int, 2) + (signed_bytes(v.velocity_y as int, 2) + (signed_bytes(v.velocity_z as int, 2))), rest);
    lemma_assoc(signed_bytes(v.velocity_x as int, 2), signed_bytes(v.velocity_y as int, 2) + (signed_bytes(v.velocity_z as int, 2)), rest);
    lemma_assoc(signed_bytes(v.velocity_y as int, 2), signed_bytes(v.velocity_z as int, 2), rest);
    assert(spawn_entity_bytes(v) + rest == t0);
    lemma_parse_var_int(v.entity_id, t1);
    lemma_parse_be(v.object_uuid as nat, 16, t2);
    lemma_parse_var_int(v.type_, t3);
    lemma_parse_be(v.x as nat, 8, t4);
    lemma_parse_be(v.y as nat, 8, t5);
    lemma_parse_be(v.z as nat, 8, t6);
    lemma_parse_be(v.pitch as nat, 1, t7);
    lemma_parse_be(v.yaw as nat, 1, t8);
    lemma_parse_signed(v.data as int, 4, t9);
    lemma_parse_signed(v.velocity_x as int, 2, t10);
    lemma_parse_signed(v.velocity_y as int, 2, t11);
    lemma_parse_signed(v.velocity_z as int, 2, t12);
}

impl SpawnEntity {
    /// Appends the fields' wire form; fails, writing nothing, when a field does
    /// not fit.
    #[verifier::spinoff_prover]
    #[verifier::rlimit(100)]
    pub fn encode(&self, out: &mut Vec<u8>) -> (r: Result<(), ProtocolError>)
        ensures
            r is Ok <==> spawn_entity_fits(self@),
            r is Ok ==> final(out)@ == old(out)@ + spawn_entity_bytes(self@),
            r is Err ==> final(out)@ == old(out)@,
    {
        let mut w: Vec<u8> = Vec::new();
        self.entity_id.encode(&mut w);
        assert(w@ =~= varint_bytes(self@.entity_id));
        self.object_uuid.encode(&mut w);
        self.type_.encode(&mut w);
        write_u64(self.x, &mut w);
        write_u64(self.y, &mut w);
        write_u64(self.z, &mut w);
        self.pitch.encode(&mut w);
        self.yaw.encode(&mut w);
        write_i32(self.data, &mut w);
        write_i16(self.velocity_x, &mut w);
        write_i16(self.velocity_y, &mut w);
        write_i16(self.velocity_z, &mut w);
        assert(w@ == spawn_entity_bytes(self@));
        write_raw(w.as_slice(), out);
        Ok(())
    }

    /// Reads the fields at `pos`.
    #[verifier::spinoff_prover]
    #[verifier::rlimit(100)]
    pub fn decode(input: &[u8], pos: usize) -> (r: Result<(SpawnEntity, usize), ProtocolError>)
        requires
            pos <= input@.len(),
        ensures
            agrees(
                match r {
                    Ok((v, p)) => Ok((v@, p)),
                    Err(e) => Err(e),
                },
                input@,
                pos as int,
                parse_spawn_entity(input@.skip(pos as int)),
            ),
    {
        let cursor = pos;
        let (entity_id, cursor) = match read_var_int(input, cursor) {
            Ok((x, q)) => (VarInt(x), q),
            Err(e) => return Err(e),
        };
        let (object_uuid, cursor) = match Uuid::decode(input, cursor) {
            Ok((x, q)) => (x, q),
            Err(e) => return Err(e),
        };
        let (type_, cursor) = match read_var_int(input, cursor) {
            Ok((x, q)) => (VarInt(x), q),
            Err(e) => return Err(e),
        };
        let (x, cursor) = match read_u64(input, cursor) {
            Ok((x, q)) => (x, q),
            Err(e) => return Err(e),
        };
        let (y, cursor) = match read_u64(input, cursor) {
            Ok((x, q)) => (x, q),
            Err(e) => return Err(e),
        };
        let (z, cursor) = match read_u64(input, cursor) {
            Ok((x, q)) => (x, q),
            Err(e) => return Err(e),
        };
        let (pitch, cursor) = match Angle::decode(input, cursor) {
            Ok((x, q)) => (x, q),
            Err(e) => return Err(e),
        };
        let (yaw, cursor) = match Angle::decode(input, cursor) {
            Ok((x, q)) => (x, q),
            Err(e) => return Err(e),
        };
        let (data, cursor) = match read_i32(input, cursor) {
            Ok((x, q)) => (x, q),
            Err(e) => return Err(e),
        };
        let (velocity_x, cursor) = match read_i16(input, cursor) {
            Ok((x, q)) => (x, q),
            Err(e) => return Err(e),
        };
        let (velocity_y, cursor) = match read_i16(input, cursor) {
            Ok((x, q)) => (x, q),
            Err(e) => return Err(e),
        };
        let (velocity_z, cursor) = match read_i16(input, cursor) {
            Ok((x, q)) => (x, q),
            Err(e) => return Err(e),
        };
        Ok((SpawnEntity { entity_id, object_uuid, type_, x, y, z, pitch, yaw, data, velocity_x, velocity_y, velocity_z }, cursor))
    }
}

/// The fields of the SpawnExperienceOrb packet (id 0x01).
#[derive(Debug, PartialEq)]
pub struct SpawnExperienceOrb {
    pub entity_id: VarInt,
    pub x: u64,
    pub y: u64,
    pub z: u64,
    pub count: i16,
}

pub struct SpawnExperienceOrbV {
    pub entity_id: i32,
    pub x: u64,
    pub y: u64,
    pub z: u64,
    pub count: i16,
}

impl View for SpawnExperienceOrb {
    type V = SpawnExperienceOrbV;

    open spec fn view(&self) -> SpawnExperienceOrbV {
        SpawnExperienceOrbV { entity_id: self.entity_id.0, x: self.x, y: self.y, z: self.z, count: self.count }
    }
}

pub open spec fn spawn_experience_orb_fits(v: SpawnExperienceOrbV) -> bool {
    true
}

pub open spec fn spawn_experience_orb_bytes(v: SpawnExperienceOrbV) -> Seq<u8> {
    varint_bytes(v.entity_id) + (be_bytes(v.x as nat, 8) + (be_bytes(v.y as nat, 8) + (be_bytes(v.z as nat, 8) + (signed_bytes(v.count as int, 2)))))
}

pub open spec fn parse_spawn_experience_orb(s: Seq<u8>) -> Parsed<SpawnExperienceOrbV> {
    match parse_var_int(s) {
        Ok((entity_id, s)) => match parse_u64(s) {
        Ok((x, s)) => match parse_u64(s) {
        Ok((y, s)) => match parse_u64(s) {
        Ok((z, s)) => match parse_i16(s) {
        Ok((count, s)) => Ok((SpawnExperienceOrbV { entity_id, x, y, z, count }, s)),
        Err(e) => Err(e),
    },
        Err(e) => Err(e),
    },
        Err(e) => Err(e),
    },
        Err(e) => Err(e),
    },
        Err(e) => Err(e),
    }
}

/// Every SpawnExperienceOrb packet whose fields fit reads back as itself, whatever follows.
#[verifier::spinoff_prover]
#[verifier::rlimit(100)]
pub proof fn lemma_spawn_experience_orb_round_trip(v: SpawnExperienceOrbV, rest: Seq<u8>)
    requires
        spawn_experience_orb_fits(v),
    ensures
        parse_spawn_experience_orb(spawn_experience_orb_bytes(v) + rest) == Ok::<(SpawnExperienceOrbV, Seq<u8>), ProtocolError>((v, rest)),
{
    lemma_pow256_values();
    let t5 = rest;
    let t4 = signed_bytes(v.count as int, 2) + t5;
    let t3 = be_bytes(v.z as nat, 8) + t4;
    let t2 = be_bytes(v.y as nat, 8) + t3;
    let t1 = be_bytes(v.x as nat, 8) + t2;
    let t0 = varint_bytes(v.entity_id) + t1;
    lemma_assoc(varint_bytes(v.entity_id), be_bytes(v.x as nat, 8) + (be_bytes(v.y as nat, 8) + (be_bytes(v.z as nat, 8) + (signed_bytes(v.count as int, 2)))), rest);
    lemma_assoc(be_bytes(v.x as nat, 8), be_bytes(v.y as nat, 8) + (be_bytes(v.z as nat, 8) + (signed_bytes(v.count as int, 2))), rest);
    lemma_assoc(be_bytes(v.y as nat, 8), be_bytes(v.z as nat, 8) + (signed_bytes(v.count as int, 2)), rest);
    lemma_assoc(be_bytes(v.z as nat, 8), signed_bytes(v.count as int, 2), rest);
    assert(spawn_experience_orb_bytes(v) + rest == t0);
    lemma_parse_var_int(v.entity_id, t1);
    lemma_parse_be(v.x as nat, 8, t2);
    lemma_parse_be(v.y as nat, 8, t3);
    lemma_parse_be(v.z as nat, 8, t4);
    lemma_parse_signed(v.count as int, 2, t5);
}

impl SpawnExperienceOrb {
    /// Appends the fields' wire form; fails, writing nothing, when a field does
    /// not fit.
    #[verifier::spinoff_prover]
    #[verifier::rlimit(100)]
    pub fn encode(&self, out: &mut Vec<u8>) -> (r: Result<(), ProtocolError>)
        ensures
            r is Ok <==> spawn_experience_orb_fits(self@),
            r is Ok ==> final(out)@ == old(out)@ + spawn_experience_orb_bytes(self@),
            r is Err ==> final(out)@ == old(out)@,
    {
        let mut w: Vec<u8> = Vec::new();
        self.entity_id.encode(&mut w);
        assert(w@ =~= varint_bytes(self@.entity_id));
        write_u64(self.x, &mut w);
        write_u64(self.y, &mut w);
        write_u64(self.z, &mut w);
        write_i16(self.count, &mut w);
        assert(w@ == spawn_experience_orb_bytes(self@));
        write_raw(w.as_slice(), out);
        Ok(())
    }

    /// Reads the fields at `pos`.
    #[verifier::spinoff_prover]
    #[verifier::rlimit(100)]
    pub fn decode(input: &[u8], pos: usize) -> (r: Result<(SpawnExperienceOrb, usize), ProtocolError>)
        requires
            pos <= input@.len(),
        ensures
            agrees(
                match r {
                    Ok((v, p)) => Ok((v@, p)),
                    Err(e) => Err(e),
                },
                input@,
                pos as int,
                parse_spawn_experience_orb(input@.skip(pos as int)),
            ),
    {
        let cursor = pos;
        let (entity_id, cursor) = match read_var_int(input, cursor) {
            Ok((x, q)) => (VarInt(x), q),
            Err(e) => return Err(e),
        };
        let (x, cursor) = match read_u64(input, cursor) {
            Ok((x, q)) => (x, q),
            Err(e) => return Err(e),
        };
        let (y, cursor) = match read_u64(input, cursor) {
            Ok((x, q)) => (x, q),
            Err(e) => return Err(e),
        };
        let (z, cursor) = match read_u64(input, cursor) {
            Ok((x, q)) => (x, q),
            Err(e) => return Err(e),
        };
        let (count, cursor) = match read_i16(input, cursor) {
            Ok((x, q)) => (x, q),
            Err(e) => return Err(e),
        };
        Ok((SpawnExperienceOrb { entity_id, x, y, z, count }, cursor))
    }
}

/// The fields of the SpawnLivingEntity packet (id 0x02).
#[derive(Debug, PartialEq)]
pub struct SpawnLivingEntity {
    pub entity_id: VarInt,
    pub entity_uuid: Uuid,
    pub type_: VarInt,
    pub x: u64,
    pub y: u64,
    pub z: u64,
    pub yaw: Angle,
    pub pitch: Angle,
    pub head_pitch: Angle,
    pub velocity_x: i16,
    pub velocity_y: i16,
    pub velocity_z: i16,
}

pub struct SpawnLivingEntityV {
    pub entity_id: i32,
    pub entity_uuid: u128,
    pub type_: i32,
    pub x: u64,
    pub y: u64,
    pub z: u64,
    pub yaw: u8,
    pub pitch: u8,
    pub head_pitch: u8,
    pub velocity_x: i16,
    pub velocity_y: i16,
    pub velocity_z: i16,
}

impl View for SpawnLivingEntity {
    type V = SpawnLivingEntityV;

    open spec fn view(&self) -> SpawnLivingEntityV {
        SpawnLivingEntityV { entity_id: self.entity_id.0, entity_uuid: self.entity_uuid.0, type_: self.type_.0, x: self.x, y: self.y, z: self.z, yaw: self.yaw.0, pitch: self.pitch.0, head_pitch: self.head_pitch.0, velocity_x: self.velocity_x, velocity_y: self.velocity_y, velocity_z: self.velocity_z }
    }
}

pub open spec fn spawn_living_entity_fits(v: SpawnLivingEntityV) -> bool {
    true
}

pub open spec fn spawn_living_entity_bytes(v: SpawnLivingEntityV) -> Seq<u8> {
    varint_bytes(v.entity_id) + (be_bytes(v.entity_uuid as nat, 16) + (varint_bytes(v.type_) + (be_bytes(v.x as nat, 8) + (be_bytes(v.y as nat, 8) + (be_bytes(v.z as nat, 8) + (be_bytes(v.yaw as nat, 1) + (be_bytes(v.pitch as nat, 1) + (be_bytes(v.head_pitch as nat, 1) + (signed_bytes(v.velocity_x as int, 2) + (signed_bytes(v.velocity_y as int, 2) + (signed_bytes(v.velocity_z as int, 2))))))))))))
}

pub open spec fn parse_spawn_living_entity(s: Seq<u8>) -> Parsed<SpawnLivingEntityV> {
    match parse_var_int(s) {
        Ok((entity_id, s)) => match parse_u128(s) {
        Ok((entity_uuid, s)) => match parse_var_int(s) {
        Ok((type_, s)) => match parse_u64(s) {
        Ok((x, s)) => match parse_u64(s) {
        Ok((y, s)) => match parse_u64(s) {
        Ok((z, s)) => match parse_u8(s) {
        Ok((yaw, s)) => match parse_u8(s) {
        Ok((pitch, s)) => match parse_u8(s) {
        Ok((head_pitch, s)) => match parse_i16(s) {
        Ok((velocity_x, s)) => match parse_i16(s) {
        Ok((velocity_y, s)) => match parse_i16(s) {
        Ok((velocity_z, s)) => Ok((SpawnLivingEntityV { entity_id, entity_uuid, type_, x, y, z, yaw, pitch, head_pitch, velocity_x, velocity_y, velocity_z }, s)),
        Err(e) => Err(e),
    },
        Err(e) => Err(e),
    },
        Err(e) => Err(e),
    },
        Err(e) => Err(e),
    },
        Err(e) => Err(e),
    },
        Err(e) => Err(e),
    },
        Err(e) => Err(e),
    },
        Err(e) => Err(e),
    },
        Err(e) => Err(e),
    },
        Err(e) => Err(e),
    },
        Err(e) => Err(e),
    },
        Err(e) => Err(e),
    }
}

/// Every SpawnLivingEntity packet whose fields fit reads back as itself, whatever follows.
#[verifier::spinoff_prover]
#[verifier::rlimit(100)]
pub proof fn lemma_spawn_living_entity_round_trip(v: SpawnLivingEntityV, rest: Seq<u8>)
    requires
        spawn_living_entity_fits(v),
    ensures
        parse_spawn_living_entity(spawn_living_entity_bytes(v) + rest) == Ok::<(SpawnLivingEntityV, Seq<u8>), ProtocolError>((v, rest)),
{
    lemma_pow256_values();
    let t12 = rest;
    let t11 = signed_bytes(v.velocity_z as int, 2) + t12;
    let t10 = signed_bytes(v.velocity_y as int, 2) + t11;
    let t9 = signed_bytes(v.velocity_x as int, 2) + t10;
    let t8 = be_bytes(v.head_pitch as nat, 1) + t9;
    let t7 = be_bytes(v.pitch as nat, 1) + t8;
    let t6 = be_bytes(v.yaw as nat, 1) + t7;
    let t5 = be_bytes(v.z as nat, 8) + t6;
    let t4 = be_bytes(v.y as nat, 8) + t5;
    let t3 = be_bytes(v.x as nat, 8) + t4;
    let t2 = varint_bytes(v.type_) + t3;
    let t1 = be_bytes(v.entity_uuid as nat, 16) + t2;
    let t0 = varint_bytes(v.entity_id) + t1;
    lemma_assoc(varint_bytes(v.entity_id), be_bytes(v.entity_uuid as nat, 16) + (varint_bytes(v.type_) + (be_bytes(v.x as nat, 8) + (be_bytes(v.y as nat, 8) + (be_bytes(v.z as nat, 8) + (be_bytes(v.yaw as nat, 1) + (be_bytes(v.pitch as nat, 1) + (be_bytes(v.head_pitch as nat, 1) + (signed_bytes(v.velocity_x as int, 2) + (signed_bytes(v.velocity_y as int, 2) + (signed_bytes(v.velocity_z as int, 2))))))))))), rest);
    lemma_assoc(be_bytes(v.entity_uuid as nat, 16), varint_bytes(v.type_) + (be_bytes(v.x as nat, 8) + (be_bytes(v.y as nat, 8) + (be_bytes(v.z as nat, 8) + (be_bytes(v.yaw as nat, 1) + (be_bytes(v.pitch as nat, 1) + (be_bytes(v.head_pitch as nat, 1) + (signed_bytes(v.velocity_x as int, 2) + (signed_bytes(v.velocity_y as int, 2) + (signed_bytes(v.velocity_z as int, 2)))))))))), rest);
    lemma_assoc(varint_bytes(v.type_), be_bytes(v.x as nat, 8) + (be_bytes(v.y as nat, 8) + (be_bytes(v.z as nat, 8) + (be_bytes(v.yaw as nat, 1) + (be_bytes(v.pitch as nat, 1) + (be_bytes(v.head_pitch as nat, 1) + (signed_bytes(v.velocity_x as int, 2) + (signed_bytes(v.velocity_y as int, 2) + (signed_bytes(v.velocity_z as int, 2))))))))), rest);
    lemma_assoc(be_bytes(v.x as nat, 8), be_bytes(v.y as nat, 8) + (be_bytes(v.z as nat, 8) + (be_bytes(v.yaw as nat, 1) + (be_bytes(v.pitch as nat, 1) + (be_bytes(v.head_pitch as nat, 1) + (signed_bytes(v.velocity_x as int, 2) + (signed_bytes(v.velocity_y as int, 2) + (signed_bytes(v.velocity_z as int, 2)))))))), rest);
    lemma_assoc(be_bytes(v.y as nat, 8), be_bytes(v.z as nat, 8) + (be_bytes(v.yaw as nat, 1) + (be_bytes(v.pitch as nat, 1) + (be_bytes(v.head_pitch as nat, 1) + (signed_bytes(v.velocity_x as int, 2) + (signed_bytes(v.velocity_y as int, 2) + (signed_bytes(v.velocity_z as int, 2))))))), rest);
    lemma_assoc(be_bytes(v.z as nat, 8), be_bytes(v.yaw as nat, 1) + (be_bytes(v.pitch as nat, 1) + (be_bytes(v.head_pitch as nat, 1) + (signed_bytes(v.velocity_x as int, 2) + (signed_bytes(v.velocity_y as int, 2) + (signed_bytes(v.velocity_z as int, 2)))))), rest);
    lemma_assoc(be_bytes(v.yaw as nat, 1), be_bytes(v.pitch as nat, 1) + (be_bytes(v.head_pitch as nat, 1) + (signed_bytes(v.velocity_x as int, 2) + (signed_bytes(v.velocity_y as int, 2) + (signed_bytes(v.velocity_z as int, 2))))), rest);
    lemma_assoc(be_bytes(v.pitch as nat, 1), be_bytes(v.head_pitch as nat, 1) + (signed_bytes(v.velocity_x as int, 2) + (signed_bytes(v.velocity_y as int, 2) + (signed_bytes(v.velocity_z as int, 2)))), rest);
    lemma_assoc(be_bytes(v.head_pitch as nat, 1), signed_bytes(v.velocity_x as int, 2) + (signed_bytes(v.velocity_y as int, 2) + (signed_bytes(v.velocity_z as int, 2))), rest);
    lemma_assoc(signed_bytes(v.velocity_x as int, 2), signed_bytes(v.velocity_y as int, 2) + (signed_bytes(v.velocity_z as int, 2)), rest);
    lemma_assoc(signed_bytes(v.velocity_y as int, 2), signed_bytes(v.velocity_z as int, 2), rest);
    assert(spawn_living_entity_bytes(v) + rest == t0);
    lemma_parse_var_int(v.entity_id, t1);
    lemma_parse_be(v.entity_uuid as nat, 16, t2);
    lemma_parse_var_int(v.type_, t3);
    lemma_parse_be(v.x as nat, 8, t4);
    lemma_parse_be(v.y as nat, 8, t5);
    lemma_parse_be(v.z as nat, 8, t6);
    lemma_parse_be(v.yaw as nat, 1, t7);
    lemma_parse_be(v.pitch as nat, 1, t8);
    lemma_parse_be(v.head_pitch as nat, 1, t9);
    lemma_parse_signed(v.velocity_x as int, 2, t10);
    lemma_parse_signed(v.velocity_y as int, 2, t11);
    lemma_parse_signed(v.velocity_z as int, 2, t12);
}

impl SpawnLivingEntity {
    /// Appends the fields' wire form; fails, writing nothing, when a field does
    /// not fit.
    #[verifier::spinoff_prover]
    #[verifier::rlimit(100)]
    pub fn encode(&self, out: &mut Vec<u8>) -> (r: Result<(), ProtocolError>)
        ensures
            r is Ok <==> spawn_living_entity_fits(self@),
            r is Ok ==> final(out)@ == old(out)@ + spawn_living_entity_bytes(self@),
            r is Err ==> final(out)@ == old(out)@,
    {
        let mut w: Vec<u8> = Vec::new();
        self.entity_id.encode(&mut w);
        assert(w@ =~= varint_bytes(self@.entity_id));
        self.entity_uuid.encode(&mut w);
        self.type_.encode(&mut w);
        write_u64(self.x, &mut w);
        write_u64(self.y, &mut w);
        write_u64(self.z, &mut w);
        self.yaw.encode(&mut w);
        self.pitch.encode(&mut w);
        self.head_pitch.encode(&mut w);
        write_i16(self.velocity_x, &mut w);
        write_i16(self.velocity_y, &mut w);
        write_i16(self.velocity_z, &mut w);
        assert(w@ == spawn_living_entity_bytes(self@));
        write_raw(w.as_slice(), out);
        Ok(())
    }

    /// Reads the fields at `pos`.
    #[verifier::spinoff_prover]
    #[verifier::rlimit(100)]
    pub fn decode(input: &[u8], pos: usize) -> (r: Result<(SpawnLivingEntity, usize), ProtocolError>)
        requires
            pos <= input@.len(),
        ensures
            agrees(
                match r {
                    Ok((v, p)) => Ok((v@, p)),
                    Err(e) => Err(e),
                },
                input@,
                pos as int,
                parse_spawn_living_entity(input@.skip(pos as int)),
            ),
    {
        let cursor = pos;
        let (entity_id, cursor) = match read_var_int(input, cursor) {
            Ok((x, q)) => (VarInt(x), q),
            Err(e) => return Err(e),
        };
        let (entity_uuid, cursor) = match Uuid::decode(input, cursor) {
            Ok((x, q)) => (x, q),
            Err(e) => return Err(e),
        };
        let (type_, cursor) = match read_var_int(input, cursor) {
            Ok((x, q)) => (VarInt(x), q),
            Err(e) => return Err(e),
        };
        let (x, cursor) = match read_u64(input, cursor) {
            Ok((x, q)) => (x, q),
            Err(e) => return Err(e),
        };
        let (y, cursor) = match read_u64(input, cursor) {
            Ok((x, q)) => (x, q),
            Err(e) => return Err(e),
        };
        let (z, cursor) = match read_u64(input, cursor) {
            Ok((x, q)) => (x, q),
            Err(e) => return Err(e),
        };
        let (yaw, cursor) = match Angle::decode(input, cursor) {
            Ok((x, q)) => (x, q),
            Err(e) => return Err(e),
        };
        let (pitch, cursor) = match Angle::decode(input, cursor) {
            Ok((x, q)) => (x, q),
            Err(e) => return Err(e),
        };
        let (head_pitch, cursor) = match Angle::decode(input, cursor) {
            Ok((x, q)) => (x, q),
            Err(e) => return Err(e),
        };
        let (velocity_x, cursor) = match read_i16(input, cursor) {
            Ok((x, q)) => (x, q),
            Err(e) => return Err(e),
        };
        let (velocity_y, cursor) = match read_i16(input, cursor) {
            Ok((x, q)) => (x, q),
            Err(e) => return Err(e),
        };
        let (velocity_z, cursor) = match read_i16(input, cursor) {
            Ok((x, q)) => (x, q),
            Err(e) => return Err(e),
        };
        Ok((SpawnLivingEntity { entity_id, entity_uuid, type_, x, y, z, yaw, pitch, head_pitch, velocity_x, velocity_y, velocity_z }, cursor))
    }
}

/// The fields of the SpawnPainting packet (id 0x03).
#[derive(Debug, PartialEq)]
pub struct SpawnPainting {
    pub entity_id: VarInt,
    pub entity_uuid: Uuid,
    pub motive: VarInt,
    pub location: Position,
    pub direction: i8,
}

pub struct SpawnPaintingV {
    pub entity_id: i32,
    pub entity_uuid: u128,
    pub motive: i32,
    pub location: Position,
    pub direction: i8,
}

impl View for SpawnPainting {
    type V = SpawnPaintingV;

    open spec fn view(&self) -> SpawnPaintingV {
        SpawnPaintingV { entity_id: self.entity_id.0, entity_uuid: self.entity_uuid.0, motive: self.motive.0, location: self.location, direction: self.direction }
    }
}

pub open spec fn spawn_painting_fits(v: SpawnPaintingV) -> bool {
    position_in_range(v.location)
}

pub open spec fn spawn_painting_bytes(v: SpawnPaintingV) -> Seq<u8> {
    varint_bytes(v.entity_id) + (be_bytes(v.entity_uuid as nat, 16) + (varint_bytes(v.motive) + (position_bytes(v.location) + (signed_bytes(v.direction as int, 1)))))
}

pub open spec fn parse_spawn_painting(s: Seq<u8>) -> Parsed<SpawnPaintingV> {
    match parse_var_int(s) {
        Ok((entity_id, s)) => match parse_u128(s) {
        Ok((entity_uuid, s)) => match parse_var_int(s) {
        Ok((motive, s)) => match parse_position(s) {
        Ok((location, s)) => match parse_i8(s) {
        Ok((direction, s)) => Ok((SpawnPaintingV { entity_id, entity_uuid, motive, location, direction }, s)),
        Err(e) => Err(e),
    },
        Err(e) => Err(e),
    },
        Err(e) => Err(e),
    },
        Err(e) => Err(e),
    },
        Err(e) => Err(e),
    }
}

/// Every SpawnPainting packet whose fields fit reads back as itself, whatever follows.
#[verifier::spinoff_prover]
#[verifier::rlimit(100)]
pub proof fn lemma_spawn_painting_round_trip(v: SpawnPaintingV, rest: Seq<u8>)
    requires
        spawn_painting_fits(v),
    ensures
        parse_spawn_painting(spawn_painting_bytes(v) + rest) == Ok::<(SpawnPaintingV, Seq<u8>), ProtocolError>((v, rest)),
{
    lemma_pow256_values();
    let t5 = rest;
    let t4 = signed_bytes(v.direction as int, 1) + t5;
    let t3 = position_bytes(v.location) + t4;
    let t2 = varint_bytes(v.motive) + t3;
    let t1 = be_bytes(v.entity_uuid as nat, 16) + t2;
    let t0 = varint_bytes(v.entity_id) + t1;
    lemma_assoc(varint_bytes(v.entity_id), be_bytes(v.entity_uuid as nat, 16) + (varint_bytes(v.motive) + (position_bytes(v.location) + (signed_bytes(v.direction as int, 1)))), rest);
    lemma_assoc(be_bytes(v.entity_uuid as nat, 16), varint_bytes(v.motive) + (position_bytes(v.location) + (signed_bytes(v.direction as int, 1))), rest);
    lemma_assoc(varint_bytes(v.motive), position_bytes(v.location) + (signed_bytes(v.direction as int, 1)), rest);
    lemma_assoc(position_bytes(v.location), signed_bytes(v.direction as int, 1), rest);
    assert(spawn_painting_bytes(v) + rest == t0);
    lemma_parse_var_int(v.entity_id, t1);
    lemma_parse_be(v.entity_uuid as nat, 16, t2);
    lemma_parse_var_int(v.motive, t3);
    lemma_position_round_trip(v.location, t4);
    lemma_parse_signed(v.direction as int, 1, t5);
}

impl SpawnPainting {
    /// Appends the fields' wire form; fails, writing nothing, when a field does
    /// not fit.
    #[verifier::spinoff_prover]
    #[verifier::rlimit(100)]
    pub fn encode(&self, out: &mut Vec<u8>) -> (r: Result<(), ProtocolError>)
        ensures
            r is Ok <==> spawn_painting_fits(self@),
            r is Ok ==> final(out)@ == old(out)@ + spawn_painting_bytes(self@),
            r is Err ==> final(out)@ == old(out)@,
    {
        let mut w: Vec<u8> = Vec::new();
        self.entity_id.encode(&mut w);
        assert(w@ =~= varint_bytes(self@.entity_id));
        self.entity_uuid.encode(&mut w);
        self.motive.encode(&mut w);
        match self.location.encode(&mut w) {
            Ok(()) => {},
            Err(e) => return Err(e),
        }
        write_i8(self.direction, &mut w);
        assert(w@ == spawn_painting_bytes(self@));
        write_raw(w.as_slice(), out);
        Ok(())
    }

    /// Reads the fields at `pos`.
    #[verifier::spinoff_prover]
    #[verifier::rlimit(100)]
    pub fn decode(input: &[u8], pos: usize) -> (r: Result<(SpawnPainting, usize), ProtocolError>)
        requires
            pos <= input@.len(),
        ensures
            agrees(
                match r {
                    Ok((v, p)) => Ok((v@, p)),
                    Err(e) => Err(e),
                },
                input@,
                pos as int,
                parse_spawn_painting(input@.skip(pos as int)),
            ),
    {
        let cursor = pos;
        let (entity_id, cursor) = match read_var_int(input, cursor) {
            Ok((x, q)) => (VarInt(x), q),
            Err(e) => return Err(e),
        };
        let (entity_uuid, cursor) = match Uuid::decode(input, cursor) {
            Ok((x, q)) => (x, q),
            Err(e) => return Err(e),
        };
        let (motive, cursor) = match read_var_int(input, cursor) {
            Ok((x, q)) => (VarInt(x), q),
            Err(e) => return Err(e),
        };
        let (location, cursor) = match Position::decode(input, cursor) {
            Ok((x, q)) => (x, q),
            Err(e) => return Err(e),
        };
        let (direction, cursor) = match read_i8(input, cursor) {
            Ok((x, q)) => (x, q),
            Err(e) => return Err(e),
        };
        Ok((SpawnPainting { entity_id, entity_uuid, motive, location, direction }, cursor))
    }
}

/// The fields of the SpawnPlayer packet (id 0x04).
#[derive(Debug, PartialEq)]
pub struct SpawnPlayer {
    pub entity_id: VarInt,
    pub player_uuid: Uuid,
    pub x: u64,
    pub y: u64,
    pub z: u64,
    pub yaw: Angle,
    pub pitch: Angle,
}

pub struct SpawnPlayerV {
    pub entity_id: i32,
    pub player_uuid: u128,
    pub x: u64,
    pub y: u64,
    pub z: u64,
    pub yaw: u8,
    pub pitch: u8,
}

impl View for SpawnPlayer {
    type V = SpawnPlayerV;

    open spec fn view(&self) -> SpawnPlayerV {
        SpawnPlayerV { entity_id: self.entity_id.0, player_uuid: self.player_uuid.0, x: self.x, y: self.y, z: self.z, yaw: self.yaw.0, pitch: self.pitch.0 }
    }
}

pub open spec fn spawn_player_fits(v: SpawnPlayerV) -> bool {
    true
}

pub open spec fn spawn_player_bytes(v: SpawnPlayerV) -> Seq<u8> {
    varint_bytes(v.entity_id) + (be_bytes(v.player_uuid as nat, 16) + (be_bytes(v.x as nat, 8) + (be_bytes(v.y as nat, 8) + (be_bytes(v.z as nat, 8) + (be_bytes(v.yaw as nat, 1) + (be_bytes(v.pitch as nat, 1)))))))
}

pub open spec fn parse_spawn_player(s: Seq<u8>) -> Parsed<SpawnPlayerV> {
    match parse_var_int(s) {
        Ok((entity_id, s)) => match parse_u128(s) {
        Ok((player_uuid, s)) => match parse_u64(s) {
        Ok((x, s)) => match parse_u64(s) {
        Ok((y, s)) => match parse_u64(s) {
        Ok((z, s)) => match parse_u8(s) {
        Ok((yaw, s)) => match parse_u8(s) {
        Ok((pitch, s)) => Ok((SpawnPlayerV { entity_id, player_uuid, x, y, z, yaw, pitch }, s)),
        Err(e) => Err(e),
    },
        Err(e) => Err(e),
    },
        Err(e) => Err(e),
    },
        Err(e) => Err(e),
    },
        Err(e) => Err(e),
    },
        Err(e) => Err(e),
    },
        Err(e) => Err(e),
    }
}

/// Every SpawnPlayer packet whose fields fit reads back as itself, whatever follows.
#[verifier::spinoff_prover]
#[verifier::rlimit(100)]
pub proof fn lemma_spawn_player_round_trip(v: SpawnPlayerV, rest: Seq<u8>)
    requires
        spawn_player_fits(v),
    ensures
        parse_spawn_player(spawn_player_bytes(v) + rest) == Ok::<(SpawnPlayerV, Seq<u8>), ProtocolError>((v, rest)),
{
    lemma_pow256_values();
    let t7 = rest;
    let t6 = be_bytes(v.pitch as nat, 1) + t7;
    let t5 = be_bytes(v.yaw as nat, 1) + t6;
    let t4 = be_bytes(v.z as nat, 8) + t5;
    let t3 = be_bytes(v.y as nat, 8) + t4;
    let t2 = be_bytes(v.x as nat, 8) + t3;
    let t1 = be_bytes(v.player_uuid as nat, 16) + t2;
    let t0 = varint_bytes(v.entity_id) + t1;
    lemma_assoc(varint_bytes(v.entity_id), be_bytes(v.player_uuid as nat, 16) + (be_bytes(v.x as nat, 8) + (be_bytes(v.y as nat, 8) + (be_bytes(v.z as nat, 8) + (be_bytes(v.yaw as nat, 1) + (be_bytes(v.pitch as nat, 1)))))), rest);
    lemma_assoc(be_bytes(v.player_uuid as nat, 16), be_bytes(v.x as nat, 8) + (be_bytes(v.y as nat, 8) + (be_bytes(v.z as nat, 8) + (be_bytes(v.yaw as nat, 1) + (be_bytes(v.pitch as nat, 1))))), rest);
    lemma_assoc(be_bytes(v.x as nat, 8), be_bytes(v.y as nat, 8) + (be_bytes(v.z as nat, 8) + (be_bytes(v.yaw as nat, 1) + (be_bytes(v.pitch as nat, 1)))), rest);
    lemma_assoc(be_bytes(v.y as nat, 8), be_bytes(v.z as nat, 8) + (be_bytes(v.yaw as nat, 1) + (be_bytes(v.pitch as nat, 1))), rest);
    lemma_assoc(be_bytes(v.z as nat, 8), be_bytes(v.yaw as nat, 1) + (be_bytes(v.pitch as nat, 1)), rest);
    lemma_assoc(be_bytes(v.yaw as nat, 1), be_bytes(v.pitch as nat, 1), rest);
    assert(spawn_player_bytes(v) + rest == t0);
    lemma_parse_var_int(v.entity_id, t1);
    lemma_parse_be(v.player_uuid as nat, 16, t2);
    lemma_parse_be(v.x as nat, 8, t3);
    lemma_parse_be(v.y as nat, 8, t4);
    lemma_parse_be(v.z as nat, 8, t5);
    lemma_parse_be(v.yaw as nat, 1, t6);
    lemma_parse_be(v.pitch as nat, 1, t7);
}

impl SpawnPlayer {
    /// Appends the fields' wire form; fails, writing nothing, when a field does
    /// not fit.
    #[verifier::spinoff_prover]
    #[verifier::rlimit(100)]
    pub fn encode(&self, out: &mut Vec<u8>) -> (r: Result<(), ProtocolError>)
        ensures
            r is Ok <==> spawn_player_fits(self@),
            r is Ok ==> final(out)@ == old(out)@ + spawn_player_bytes(self@),
            r is Err ==> final(out)@ == old(out)@,
    {
        let mut w: Vec<u8> = Vec::new();
        self.entity_id.encode(&mut w);
        assert(w@ =~= varint_bytes(self@.entity_id));
        self.player_uuid.encode(&mut w);
        write_u64(self.x, &mut w);
        write_u64(self.y, &mut w);
        write_u64(self.z, &mut w);
        self.yaw.encode(&mut w);
        self.pitch.encode(&mut w);
        assert(w@ == spawn_player_bytes(self@));
        write_raw(w.as_slice(), out);
        Ok(())
    }

    /// Reads the fields at `pos`.
    #[verifier::spinoff_prover]
    #[verifier::rlimit(100)]
    pub fn decode(input: &[u8], pos: usize) -> (r: Result<(SpawnPlayer, usize), ProtocolError>)
        requires
            pos <= input@.len(),
        ensures
            agrees(
                match r {
                    Ok((v, p)) => Ok((v@, p)),
                    Err(e) => Err(e),
                },
                input@,
                pos as int,
                parse_spawn_player(input@.skip(pos as int)),
            ),
    {
        let cursor = pos;
        let (entity_id, cursor) = match read_var_int(input, cursor) {
            Ok((x, q)) => (VarInt(x), q),
            Err(e) => return Err(e),
        };
        let (player_uuid, cursor) = match Uuid::decode(input, cursor) {
            Ok((x, q)) => (x, q),
            Err(e) => return Err(e),
        };
        let (x, cursor) = match read_u64(input, cursor) {
            Ok((x, q)) => (x, q),
            Err(e) => return Err(e),
        };
        let (y, cursor) = match read_u64(input, cursor) {
            Ok((x, q)) => (x, q),
            Err(e) => return Err(e),
        };
        let (z, cursor) = match read_u64(input, cursor) {
            Ok((x, q)) => (x, q),
            Err(e) => return Err(e),
        };
        let (yaw, cursor) = match Angle::decode(input, cursor) {
            Ok((x, q)) => (x, q),
            Err(e) => return Err(e),
        };
        let (pitch, cursor) = match Angle::decode(input, cursor) {
            Ok((x, q)) => (x, q),
            Err(e) => return Err(e),
        };
        Ok((SpawnPlayer { entity_id, player_uuid, x, y, z, yaw, pitch }, cursor))
    }
}

/// The fields of the EntityAnimation packet (id 0x05).
#[derive(Debug, PartialEq)]
pub struct EntityAnimation {
    pub animation: u8,
}

pub struct EntityAnimationV {
    pub animation: u8,
}

impl View for EntityAnimation {
    type V = EntityAnimationV;

    open spec fn view(&self) -> EntityAnimationV {
        EntityAnimationV { animation: self.animation }
    }
}

pub open spec fn entity_animation_fits(v: EntityAnimationV) -> bool {
    true
}

pub open spec fn entity_animation_bytes(v: EntityAnimationV) -> Seq<u8> {
    be_bytes(v.animation as nat, 1)
}

pub open spec fn parse_entity_animation(s: Seq<u8>) -> Parsed<EntityAnimationV> {
    match parse_u8(s) {
        Ok((animation, s)) => Ok((EntityAnimationV { animation }, s)),
        Err(e) => Err(e),
    }
}

/// Every EntityAnimation packet whose fields fit reads back as itself, whatever follows.
#[verifier::spinoff_prover]
#[verifier::rlimit(100)]
pub proof fn lemma_entity_animation_round_trip(v: EntityAnimationV, rest: Seq<u8>)
    requires
        entity_animation_fits(v),
    ensures
        parse_entity_animation(entity_animation_bytes(v) + rest) == Ok::<(EntityAnimationV, Seq<u8>), ProtocolError>((v, rest)),
{
    lemma_pow256_values();
    let t1 = rest;
    let t0 = be_bytes(v.animation as nat, 1) + t1;
    assert(entity_animation_bytes(v) + rest == t0);
    lemma_parse_be(v.animation as nat, 1, t1);
}

impl EntityAnimation {
    /// Appends the fields' wire form; fails, writing nothing, when a field does
    /// not fit.
    #[verifier::spinoff_prover]
    #[verifier::rlimit(100)]
    pub fn encode(&self, out: &mut Vec<u8>) -> (r: Result<(), ProtocolError>)
        ensures
            r is Ok <==> entity_animation_fits(self@),
            r is Ok ==> final(out)@ == old(out)@ + entity_animation_bytes(self@),
            r is Err ==> final(out)@ == old(out)@,
    {
        let mut w: Vec<u8> = Vec::new();
        write_u8(self.animation, &mut w);
        assert(w@ =~= be_bytes(self@.animation as nat, 1));
        assert(w@ == entity_animation_bytes(self@));
        write_raw(w.as_slice(), out);
        Ok(())
    }

    /// Reads the fields at `pos`.
    #[verifier::spinoff_prover]
    #[verifier::rlimit(100)]
    pub fn decode(input: &[u8], pos: usize) -> (r: Result<(EntityAnimation, usize), ProtocolError>)
        requires
            pos <= input@.len(),
        ensures
            agrees(
                match r {
                    Ok((v, p)) => Ok((v@, p)),
                    Err(e) => Err(e),
                },
                input@,
                pos as int,
                parse_entity_animation(input@.skip(pos as int)),
            ),
    {
        let cursor = pos;
        let (animation, cursor) = match read_u8(input, cursor) {
            Ok((x, q)) => (x, q),
            Err(e) => return Err(e),
        };
        Ok((EntityAnimation { animation }, cursor))
    }
}

/// The fields of the AcknowledgePlayerDigging packet (id 0x07).
#[derive(Debug, PartialEq)]
pub struct AcknowledgePlayerDigging {
    pub location: Position,
    pub block: VarInt,
    pub status: VarInt,
    pub success: bool,
}

pub struct AcknowledgePlayerDiggingV {
    pub location: Position,
    pub block: i32,
    pub status: i32,
    pub success: bool,
}

impl View for AcknowledgePlayerDigging {
    type V = AcknowledgePlayerDiggingV;

    open spec fn view(&self) -> AcknowledgePlayerDiggingV {
        AcknowledgePlayerDiggingV { location: self.location, block: self.block.0, status: self.status.0, success: self.success }
    }
}

pub open spec fn acknowledge_player_digging_fits(v: AcknowledgePlayerDiggingV) -> bool {
    position_in_range(v.location)
}

pub open spec fn acknowledge_player_digging_bytes(v: AcknowledgePlayerDiggingV) -> Seq<u8> {
    position_bytes(v.location) + (varint_bytes(v.block) + (varint_bytes(v.status) + (bool_bytes(v.success))))
}

pub open spec fn parse_acknowledge_player_digging(s: Seq<u8>) -> Parsed<AcknowledgePlayerDiggingV> {
    match parse_position(s) {
        Ok((location, s)) => match parse_var_int(s) {
        Ok((block, s)) => match parse_var_int(s) {
        Ok((status, s)) => match parse_bool(s) {
        Ok((success, s)) => Ok((AcknowledgePlayerDiggingV { location, block, status, success }, s)),
        Err(e) => Err(e),
    },
        Err(e) => Err(e),
    },
        Err(e) => Err(e),
    },
        Err(e) => Err(e),
    }
}

/// Every AcknowledgePlayerDigging packet whose fields fit reads back as itself, whatever follows.
#[verifier::spinoff_prover]
#[verifier::rlimit(100)]
pub proof fn lemma_acknowledge_player_digging_round_trip(v: AcknowledgePlayerDiggingV, rest: Seq<u8>)
    requires
        acknowledge_player_digging_fits(v),
    ensures
        parse_acknowledge_player_digging(acknowledge_player_digging_bytes(v) + rest) == Ok::<(AcknowledgePlayerDiggingV, Seq<u8>), ProtocolError>((v, rest)),
{
    lemma_pow256_values();
    let t4 = rest;
    let t3 = bool_bytes(v.success) + t4;
    let t2 = varint_bytes(v.status) + t3;
    let t1 = varint_bytes(v.block) + t2;
    let t0 = position_bytes(v.location) + t1;
    lemma_assoc(position_bytes(v.location), varint_bytes(v.block) + (varint_bytes(v.status) + (bool_bytes(v.success))), rest);
    lemma_assoc(varint_bytes(v.block), varint_bytes(v.status) + (bool_bytes(v.success)), rest);
    lemma_assoc(varint_bytes(v.status), bool_bytes(v.success), rest);
    assert(acknowledge_player_digging_bytes(v) + rest == t0);
    lemma_position_round_trip(v.location, t1);
    lemma_parse_var_int(v.block, t2);
    lemma_parse_var_int(v.status, t3);
    lemma_parse_bool(v.success, t4);
}

impl AcknowledgePlayerDigging {
    /// Appends the fields' wire form; fails, writing nothing, when a field does
    /// not fit.
    #[verifier::spinoff_prover]
    #[verifier::rlimit(100)]
    pub fn encode(&self, out: &mut Vec<u8>) -> (r: Result<(), ProtocolError>)
        ensures
            r is Ok <==> acknowledge_player_digging_fits(self@),
            r is Ok ==> final(out)@ == old(out)@ + acknowledge_player_digging_bytes(self@),
            r is Err ==> final(out)@ == old(out)@,
    {
        let mut w: Vec<u8> = Vec::new();
        match self.location.encode(&mut w) {
            Ok(()) => {},
            Err(e) => return Err(e),
        }
        assert(w@ =~= position_bytes(self@.location));
        self.block.encode(&mut w);
        self.status.encode(&mut w);
        write_bool(self.success, &mut w);
        assert(w@ == acknowledge_player_digging_bytes(self@));
        write_raw(w.as_slice(), out);
        Ok(())
    }

    /// Reads the fields at `pos`.
    #[verifier::spinoff_prover]
    #[verifier::rlimit(100)]
    pub fn decode(input: &[u8], pos: usize) -> (r: Result<(AcknowledgePlayerDigging, usize), ProtocolError>)
        requires
            pos <= input@.len(),
        ensures
            agrees(
                match r {
                    Ok((v, p)) => Ok((v@, p)),
                    Err(e) => Err(e),
                },
                input@,
                pos as int,
                parse_acknowledge_player_digging(input@.skip(pos as int)),
            ),
    {
        let cursor = pos;
        let (location, cursor) = match Position::decode(input, cursor) {
            Ok((x, q)) => (x, q),
            Err(e) => return Err(e),
        };
        let (block, cursor) = match read_var_int(input, cursor) {
            Ok((x, q)) => (VarInt(x), q),
            Err(e) => return Err(e),
        };
        let (status, cursor) = match read_var_int(input, cursor) {
            Ok((x, q)) => (VarInt(x), q),
            Err(e) => return Err(e),
        };
        let (success, cursor) = match read_bool(input, cursor) {
            Ok((x, q)) => (x, q),
            Err(e) => return Err(e),
        };
        Ok((AcknowledgePlayerDigging { location, block, status, success }, cursor))
    }
}

/// The fields of the BlockBreakAnimation packet (id 0x08).
#[derive(Debug, PartialEq)]
pub struct BlockBreakAnimation {
    pub entity_id: VarInt,
    pub location: Position,
    pub destroy_stage: i8,
}

pub struct BlockBreakAnimationV {
    pub entity_id: i32,
    pub location: Position,
    pub destroy_stage: i8,
}

impl View for BlockBreakAnimation {
    type V = BlockBreakAnimationV;

    open spec fn view(&self) -> BlockBreakAnimationV {
        BlockBreakAnimationV { entity_id: self.entity_id.0, location: self.location, destroy_stage: self.destroy_stage }
    }
}

pub open spec fn block_break_animation_fits(v: BlockBreakAnimationV) -> bool {
    position_in_range(v.location)
}

pub open spec fn block_break_animation_bytes(v: BlockBreakAnimationV) -> Seq<u8> {
    varint_bytes(v.entity_id) + (position_bytes(v.location) + (signed_bytes(v.destroy_stage as int, 1)))
}

pub open spec fn parse_block_break_animation(s: Seq<u8>) -> Parsed<BlockBreakAnimationV> {
    match parse_var_int(s) {
        Ok((entity_id, s)) => match parse_position(s) {
        Ok((location, s)) => match parse_i8(s) {
        Ok((destroy_stage, s)) => Ok((BlockBreakAnimationV { entity_id, location, destroy_stage }, s)),
        Err(e) => Err(e),
    },
        Err(e) => Err(e),
    },
        Err(e) => Err(e),
    }
}

/// Every BlockBreakAnimation packet whose fields fit reads back as itself, whatever follows.
#[verifier::spinoff_prover]
#[verifier::rlimit(100)]
pub proof fn lemma_block_break_animation_round_trip(v: BlockBreakAnimationV, rest: Seq<u8>)
    requires
        block_break_animation_fits(v),
    ensures
        parse_block_break_animation(block_break_animation_bytes(v) + rest) == Ok::<(BlockBreakAnimationV, Seq<u8>), ProtocolError>((v, rest)),
{
    lemma_pow256_values();
    let t3 = rest;
    let t2 = signed_bytes(v.destroy_stage as int, 1) + t3;
    let t1 = position_bytes(v.location) + t2;
    let t0 = varint_bytes(v.entity_id) + t1;
    lemma_assoc(varint_bytes(v.entity_id), position_bytes(v.location) + (signed_bytes(v.destroy_stage as int, 1)), rest);
    lemma_assoc(position_bytes(v.location), signed_bytes(v.destroy_stage as int, 1), rest);
    assert(block_break_animation_bytes(v) + rest == t0);
    lemma_parse_var_int(v.entity_id, t1);
    lemma_position_round_trip(v.location, t2);
    lemma_parse_signed(v.destroy_stage as int, 1, t3);
}

impl BlockBreakAnimation {
    /// Appends the fields' wire form; fails, writing nothing, when a field does
    /// not fit.
    #[verifier::spinoff_prover]
    #[verifier::rlimit(100)]
    pub fn encode(&self, out: &mut Vec<u8>) -> (r: Result<(), ProtocolError>)
        ensures
            r is Ok <==> block_break_animation_fits(self@),
            r is Ok ==> final(out)@ == old(out)@ + block_break_animation_bytes(self@),
            r is Err ==> final(out)@ == old(out)@,
    {
        let mut w: Vec<u8> = Vec::new();
        self.entity_id.encode(&mut w);
        assert(w@ =~= varint_bytes(self@.entity_id));
        match self.location.encode(&mut w) {
            Ok(()) => {},
            Err(e) => return Err(e),
        }
        write_i8(self.destroy_stage, &mut w);
        assert(w@ == block_break_animation_bytes(self@));
        write_raw(w.as_slice(), out);
        Ok(())
    }

    /// Reads the fields at `pos`.
    #[verifier::spinoff_prover]
    #[verifier::rlimit(100)]
    pub fn decode(input: &[u8], pos: usize) -> (r: Result<(BlockBreakAnimation, usize), ProtocolError>)
        requires
            pos <= input@.len(),
        ensures
            agrees(
                match r {
                    Ok((v, p)) => Ok((v@, p)),
                    Err(e) => Err(e),
                },
                input@,
                pos as int,
                parse_block_break_animation(input@.skip(pos as int)),
            ),
    {
        let cursor = pos;
        let (entity_id, cursor) = match read_var_int(input, cursor) {
            Ok((x, q)) => (VarInt(x), q),
            Err(e) => return Err(e),
        };
        let (location, cursor) = match Position::decode(input, cursor) {
            Ok((x, q)) => (x, q),
            Err(e) => return Err(e),
        };
        let (destroy_stage, cursor) = match read_i8(input, cursor) {
            Ok((x, q)) => (x, q),
            Err(e) => return Err(e),
        };
        Ok((BlockBreakAnimation { entity_id, location, destroy_stage }, cursor))
    }
}

/// The fields of the BlockEntityData packet (id 0x09).
#[derive(Debug, PartialEq)]
pub struct BlockEntityData {
    pub location: Position,
    pub action: u8,
    pub nbt_data: Nbt,
}

pub struct BlockEntityDataV {
    pub location: Position,
    pub action: u8,
    pub nbt_data: NbtV,
}

impl View for BlockEntityData {
    type V = BlockEntityDataV;

    open spec fn view(&self) -> BlockEntityDataV {
        BlockEntityDataV { location: self.location, action: self.action, nbt_data: self.nbt_data@ }
    }
}

pub open spec fn block_entity_data_fits(v: BlockEntityDataV) -> bool {
    position_in_range(v.location) && nbt_fits(v.nbt_data)
}

pub open spec fn block_entity_data_bytes(v: BlockEntityDataV) -> Seq<u8> {
    position_bytes(v.location) + (be_bytes(v.action as nat, 1) + (nbt_bytes(v.nbt_data)))
}

pub open spec fn parse_block_entity_data(s: Seq<u8>) -> Parsed<BlockEntityDataV> {
    match parse_position(s) {
        Ok((location, s)) => match parse_u8(s) {
        Ok((action, s)) => match parse_nbt(s) {
        Ok((nbt_data, s)) => Ok((BlockEntityDataV { location, action, nbt_data }, s)),
        Err(e) => Err(e),
    },
        Err(e) => Err(e),
    },
        Err(e) => Err(e),
    }
}

/// Every BlockEntityData packet whose fields fit reads back as itself, whatever follows.
#[verifier::spinoff_prover]
#[verifier::rlimit(100)]
pub proof fn lemma_block_entity_data_round_trip(v: BlockEntityDataV, rest: Seq<u8>)
    requires
        block_entity_data_fits(v),
    ensures
        parse_block_entity_data(block_entity_data_bytes(v) + rest) == Ok::<(BlockEntityDataV, Seq<u8>), ProtocolError>((v, rest)),
{
    lemma_pow256_values();
    let t3 = rest;
    let t2 = nbt_bytes(v.nbt_data) + t3;
    let t1 = be_bytes(v.action as nat, 1) + t2;
    let t0 = position_bytes(v.location) + t1;
    lemma_assoc(position_bytes(v.location), be_bytes(v.action as nat, 1) + (nbt_bytes(v.nbt_data)), rest);
    lemma_assoc(be_bytes(v.action as nat, 1), nbt_bytes(v.nbt_data), rest);
    assert(block_entity_data_bytes(v) + rest == t0);
    lemma_position_round_trip(v.location, t1);
    lemma_parse_be(v.action as nat, 1, t2);
    lemma_nbt_round_trip(v.nbt_data, t3);
}

impl BlockEntityData {
    /// Appends the fields' wire form; fails, writing nothing, when a field does
    /// not fit.
    #[verifier::spinoff_prover]
    #[verifier::rlimit(100)]
    pub fn encode(&self, out: &mut Vec<u8>) -> (r: Result<(), ProtocolError>)
        ensures
            r is Ok <==> block_entity_data_fits(self@),
            r is Ok ==> final(out)@ == old(out)@ + block_entity_data_bytes(self@),
            r is Err ==> final(out)@ == old(out)@,
    {
        let mut w: Vec<u8> = Vec::new();
        match self.location.encode(&mut w) {
            Ok(()) => {},
            Err(e) => return Err(e),
        }
        assert(w@ =~= position_bytes(self@.location));
        write_u8(self.action, &mut w);
        match self.nbt_data.encode() {
            Ok(b) => write_raw(b.as_slice(), &mut w),
            Err(e) => return Err(e),
        }
        assert(w@ == block_entity_data_bytes(self@));
        write_raw(w.as_slice(), out);
        Ok(())
    }

    /// Reads the fields at `pos`.
    #[verifier::spinoff_prover]
    #[verifier::rlimit(100)]
    pub fn decode(input: &[u8], pos: usize) -> (r: Result<(BlockEntityData, usize), ProtocolError>)
        requires
            pos <= input@.len(),
        ensures
            agrees(
                match r {
                    Ok((v, p)) => Ok((v@, p)),
                    Err(e) => Err(e),
                },
                input@,
                pos as int,
                parse_block_entity_data(input@.skip(pos as int)),
            ),
    {
        let cursor = pos;
        let (location, cursor) = match Position::decode(input, cursor) {
            Ok((x, q)) => (x, q),
            Err(e) => return Err(e),
        };
        let (action, cursor) = match read_u8(input, cursor) {
            Ok((x, q)) => (x, q),
            Err(e) => return Err(e),
        };
        let (nbt_data, cursor) = match Nbt::decode(input, cursor) {
            Ok((x, q)) => (x, q),
            Err(e) => return Err(e),
        };
        Ok((BlockEntityData { location, action, nbt_data }, cursor))
    }
}

/// The fields of the BlockAction packet (id 0x0a).
#[derive(Debug, PartialEq)]
pub struct BlockAction {
    pub location: Position,
    pub action_id: u8,
    pub action_param: u8,
    pub block_type: VarInt,
}

pub struct BlockActionV {
    pub location: Position,
    pub action_id: u8,
    pub action_param: u8,
    pub block_type: i32,
}

impl View for BlockAction {
    type V = BlockActionV;

    open spec fn view(&self) -> BlockActionV {
        BlockActionV { location: self.location, action_id: self.action_id, action_param: self.action_param, block_type: self.block_type.0 }
    }
}

pub open spec fn block_action_fits(v: BlockActionV) -> bool {
    position_in_range(v.location)
}

pub open spec fn block_action_bytes(v: BlockActionV) -> Seq<u8> {
    position_bytes(v.location) + (be_bytes(v.action_id as nat, 1) + (be_bytes(v.action_param as nat, 1) + (varint_bytes(v.block_type))))
}

pub open spec fn parse_block_action(s: Seq<u8>) -> Parsed<BlockActionV> {
    match parse_position(s) {
        Ok((location, s)) => match parse_u8(s) {
        Ok((action_id, s)) => match parse_u8(s) {
        Ok((action_param, s)) => match parse_var_int(s) {
        Ok((block_type, s)) => Ok((BlockActionV { location, action_id, action_param, block_type }, s)),
        Err(e) => Err(e),
    },
        Err(e) => Err(e),
    },
        Err(e) => Err(e),
    },
        Err(e) => Err(e),
    }
}

/// Every BlockAction packet whose fields fit reads back as itself, whatever follows.
#[verifier::spinoff_prover]
#[verifier::rlimit(100)]
pub proof fn lemma_block_action_round_trip(v: BlockActionV, rest: Seq<u8>)
    requires
        block_action_fits(v),
    ensures
        parse_block_action(block_action_bytes(v) + rest) == Ok::<(BlockActionV, Seq<u8>), ProtocolError>((v, rest)),
{
    lemma_pow256_values();
    let t4 = rest;
    let t3 = varint_bytes(v.block_type) + t4;
    let t2 = be_bytes(v.action_param as nat, 1) + t3;
    let t1 = be_bytes(v.action_id as nat, 1) + t2;
    let t0 = position_bytes(v.location) + t1;
    lemma_assoc(position_bytes(v.location), be_bytes(v.action_id as nat, 1) + (be_bytes(v.action_param as nat, 1) + (varint_bytes(v.block_type))), rest);
    lemma_assoc(be_bytes(v.action_id as nat, 1), be_bytes(v.action_param as nat, 1) + (varint_bytes(v.block_type)), rest);
    lemma_assoc(be_bytes(v.action_param as nat, 1), varint_bytes(v.block_type), rest);
    assert(block_action_bytes(v) + rest == t0);
    lemma_position_round_trip(v.location, t1);
    lemma_parse_be(v.action_id as nat, 1, t2);
    lemma_parse_be(v.action_param as nat, 1, t3);
    lemma_parse_var_int(v.block_type, t4);
}

impl BlockAction {
    /// Appends the fields' wire form; fails, writing nothing, when a field does
    /// not fit.
    #[verifier::spinoff_prover]
    #[verifier::rlimit(100)]
    pub fn encode(&self, out: &mut Vec<u8>) -> (r: Result<(), ProtocolError>)
        ensures
            r is Ok <==> block_action_fits(self@),
            r is Ok ==> final(out)@ == old(out)@ + block_action_bytes(self@),
            r is Err ==> final(out)@ == old(out)@,
    {
        let mut w: Vec<u8> = Vec::new();
        match self.location.encode(&mut w) {
            Ok(()) => {},
            Err(e) => return Err(e),
        }
        assert(w@ =~= position_bytes(self@.location));
        write_u8(self.action_id, &mut w);
        write_u8(self.action_param, &mut w);
        self.block_type.encode(&mut w);
        assert(w@ == block_action_bytes(self@));
        write_raw(w.as_slice(), out);
        Ok(())
    }

    /// Reads the fields at `pos`.
    #[verifier::spinoff_prover]
    #[verifier::rlimit(100)]
    pub fn decode(input: &[u8], pos: usize) -> (r: Result<(BlockAction, usize), ProtocolError>)
        requires
            pos <= input@.len(),
        ensures
            agrees(
                match r {
                    Ok((v, p)) => Ok((v@, p)),
                    Err(e) => Err(e),
                },
                input@,
                pos as int,
                parse_block_action(input@.skip(pos as int)),
            ),
    {
        let cursor = pos;
        let (location, cursor) = match Position::decode(input, cursor) {
            Ok((x, q)) => (x, q),
            Err(e) => return Err(e),
        };
        let (action_id, cursor) = match read_u8(input, cursor) {
            Ok((x, q)) => (x, q),
            Err(e) => return Err(e),
        };
        let (action_param, cursor) = match read_u8(input, cursor) {
            Ok((x, q)) => (x, q),
            Err(e) => return Err(e),
        };
        let (block_type, cursor) = match read_var_int(input, cursor) {
            Ok((x, q)) => (VarInt(x), q),
            Err(e) => return Err(e),
        };
        Ok((BlockAction { location, action_id, action_param, block_type }, cursor))
    }
}

/// The fields of the BlockChange packet (id 0x0b).
#[derive(Debug, PartialEq)]
pub struct BlockChange {
    pub location: Position,
    pub block_id: VarInt,
}

pub struct BlockChangeV {
    pub location: Position,
    pub block_id: i32,
}

impl View for BlockChange {
    type V = BlockChangeV;

    open spec fn view(&self) -> BlockChangeV {
        BlockChangeV { location: self.location, block_id: self.block_id.0 }
    }
}

pub open spec fn block_change_fits(v: BlockChangeV) -> bool {
    position_in_range(v.location)
}

pub open spec fn block_change_bytes(v: BlockChangeV) -> Seq<u8> {
    position_bytes(v.location) + (varint_bytes(v.block_id))
}

pub open spec fn parse_block_change(s: Seq<u8>) -> Parsed<BlockChangeV> {
    match parse_position(s) {
        Ok((location, s)) => match parse_var_int(s) {
        Ok((block_id, s)) => Ok((BlockChangeV { location, block_id }, s)),
        Err(e) => Err(e),
    },
        Err(e) => Err(e),
    }
}

/// Every BlockChange packet whose fields fit reads back as itself, whatever follows.
#[verifier::spinoff_prover]
#[verifier::rlimit(100)]
pub proof fn lemma_block_change_round_trip(v: BlockChangeV, rest: Seq<u8>)
    requires
        block_change_fits(v),
    ensures
        parse_block_change(block_change_bytes(v) + rest) == Ok::<(BlockChangeV, Seq<u8>), ProtocolError>((v, rest)),
{
    lemma_pow256_values();
    let t2 = rest;
    let t1 = varint_bytes(v.block_id) + t2;
    let t0 = position_bytes(v.location) + t1;
    lemma_assoc(position_bytes(v.location), varint_bytes(v.block_id), rest);
    assert(block_change_bytes(v) + rest == t0);
    lemma_position_round_trip(v.location, t1);
    lemma_parse_var_int(v.block_id, t2);
}

impl BlockChange {
    /// Appends the fields' wire form; fails, writing nothing, when a field does
    /// not fit.
    #[verifier::spinoff_prover]
    #[verifier::rlimit(100)]
    pub fn encode(&self, out: &mut Vec<u8>) -> (r: Result<(), ProtocolError>)
        ensures
            r is Ok <==> block_change_fits(self@),
            r is Ok ==> final(out)@ == old(out)@ + block_change_bytes(self@),
            r is Err ==> final(out)@ == old(out)@,
    {
        let mut w: Vec<u8> = Vec::new();
        match self.location.encode(&mut w) {
            Ok(()) => {},
            Err(e) => return Err(e),
        }
        assert(w@ =~= position_bytes(self@.location));
        self.block_id.encode(&mut w);
        assert(w@ == block_change_bytes(self@));
        write_raw(w.as_slice(), out);
        Ok(())
    }

    /// Reads the fields at `pos`.
    #[verifier::spinoff_prover]
    #[verifier::rlimit(100)]
    pub fn decode(input: &[u8], pos: usize) -> (r: Result<(BlockChange, usize), ProtocolError>)
        requires
            pos <= input@.len(),
        ensures
            agrees(
                match r {
                    Ok((v, p)) => Ok((v@, p)),
                    Err(e) => Err(e),
                },
                input@,
                pos as int,
                parse_block_change(input@.skip(pos as int)),
            ),
    {
        let cursor = pos;
        let (location, cursor) = match Position::decode(input, cursor) {
            Ok((x, q)) => (x, q),
            Err(e) => return Err(e),
        };
        let (block_id, cursor) = match read_var_int(input, cursor) {
            Ok((x, q)) => (VarInt(x), q),
            Err(e) => return Err(e),
        };
        Ok((BlockChange { location, block_id }, cursor))
    }
}

/// The fields of the ServerDifficulty packet (id 0x0d).
#[derive(Debug, PartialEq)]
pub struct ServerDifficulty {
    pub locked: bool,
}

pub struct ServerDifficultyV {
    pub locked: bool,
}

impl View for ServerDifficulty {
    type V = ServerDifficultyV;

    open spec fn view(&self) -> ServerDifficultyV {
        ServerDifficultyV { locked: self.locked }
    }
}

pub open spec fn server_difficulty_fits(v: ServerDifficultyV) -> bool {
    true
}

pub open spec fn server_difficulty_bytes(v: ServerDifficultyV) -> Seq<u8> {
    bool_bytes(v.locked)
}

pub open spec fn parse_server_difficulty(s: Seq<u8>) -> Parsed<ServerDifficultyV> {
    match parse_bool(s) {
        Ok((locked, s)) => Ok((ServerDifficultyV { locked }, s)),
        Err(e) => Err(e),
    }
}

/// Every ServerDifficulty packet whose fields fit reads back as itself, whatever follows.
#[verifier::spinoff_prover]
#[verifier::rlimit(100)]
pub proof fn lemma_server_difficulty_round_trip(v: ServerDifficultyV, rest: Seq<u8>)
    requires
        server_difficulty_fits(v),
    ensures
        parse_server_difficulty(server_difficulty_bytes(v) + rest) == Ok::<(ServerDifficultyV, Seq<u8>), ProtocolError>((v, rest)),
{
    lemma_pow256_values();
    let t1 = rest;
    let t0 = bool_bytes(v.locked) + t1;
    assert(server_difficulty_bytes(v) + rest == t0);
    lemma_parse_bool(v.locked, t1);
}

impl ServerDifficulty {
    /// Appends the fields' wire form; fails, writing nothing, when a field does
    /// not fit.
    #[verifier::spinoff_prover]
    #[verifier::rlimit(100)]
    pub fn encode(&self, out: &mut Vec<u8>) -> (r: Result<(), ProtocolError>)
        ensures
            r is Ok <==> server_difficulty_fits(self@),
            r is Ok ==> final(out)@ == old(out)@ + server_difficulty_bytes(self@),
            r is Err ==> final(out)@ == old(out)@,
    {
        let mut w: Vec<u8> = Vec::new();
        write_bool(self.locked, &mut w);
        assert(w@ =~= bool_bytes(self@.locked));
        assert(w@ == server_difficulty_bytes(self@));
        write_raw(w.as_slice(), out);
        Ok(())
    }

    /// Reads the fields at `pos`.
    #[verifier::spinoff_prover]
    #[verifier::rlimit(100)]
    pub fn decode(input: &[u8], pos: usize) -> (r: Result<(ServerDifficulty, usize), ProtocolError>)
        requires
            pos <= input@.len(),
        ensures
            agrees(
                match r {
                    Ok((v, p)) => Ok((v@, p)),
                    Err(e) => Err(e),
                },
                input@,
                pos as int,
                parse_server_difficulty(input@.skip(pos as int)),
            ),
    {
        let cursor = pos;
        let (locked, cursor) = match read_bool(input, cursor) {
            Ok((x, q)) => (x, q),
            Err(e) => return Err(e),
        };
        Ok((ServerDifficulty { locked }, cursor))
    }
}

/// The fields of the DeclareCommands packet (id 0x10).
#[derive(Debug, PartialEq)]
pub struct DeclareCommands {
    pub raw: Vec<u8>,
}

pub struct DeclareCommandsV {
    pub raw: Seq<u8>,
}

impl View for DeclareCommands {
    type V = DeclareCommandsV;

    open spec fn view(&self) -> DeclareCommandsV {
        DeclareCommandsV { raw: self.raw@ }
    }
}

pub open spec fn declare_commands_fits(v: DeclareCommandsV) -> bool {
    true
}

pub open spec fn declare_commands_bytes(v: DeclareCommandsV) -> Seq<u8> {
    v.raw
}

pub open spec fn parse_declare_commands(s: Seq<u8>) -> Parsed<DeclareCommandsV> {
    Ok((DeclareCommandsV { raw: s }, seq![]))
}

/// Every DeclareCommands packet whose fields fit reads back as itself, filling the frame.
#[verifier::spinoff_prover]
#[verifier::rlimit(100)]
pub proof fn lemma_declare_commands_round_trip(v: DeclareCommandsV)
    requires
        declare_commands_fits(v),
    ensures
        parse_declare_commands(declare_commands_bytes(v) + seq![]) == Ok::<(DeclareCommandsV, Seq<u8>), ProtocolError>((v, seq![])),
{
    let rest = Seq::<u8>::empty();
    lemma_pow256_values();
    let t1 = rest;
    let t0 = v.raw + t1;
    assert(declare_commands_bytes(v) + rest == t0);
    assert(v.raw + rest =~= v.raw);
}

impl DeclareCommands {
    /// Appends the fields' wire form; fails, writing nothing, when a field does
    /// not fit.
    #[verifier::spinoff_prover]
    #[verifier::rlimit(100)]
    pub fn encode(&self, out: &mut Vec<u8>) -> (r: Result<(), ProtocolError>)
        ensures
            r is Ok <==> declare_commands_fits(self@),
            r is Ok ==> final(out)@ == old(out)@ + declare_commands_bytes(self@),
            r is Err ==> final(out)@ == old(out)@,
    {
        let mut w: Vec<u8> = Vec::new();
        write_raw(self.raw.as_slice(), &mut w);
        assert(w@ =~= self@.raw);
        assert(w@ == declare_commands_bytes(self@));
        write_raw(w.as_slice(), out);
        Ok(())
    }

    /// Reads the fields at `pos`.
    #[verifier::spinoff_prover]
    #[verifier::rlimit(100)]
    pub fn decode(input: &[u8], pos: usize) -> (r: Result<(DeclareCommands, usize), ProtocolError>)
        requires
            pos <= input@.len(),
        ensures
            agrees(
                match r {
                    Ok((v, p)) => Ok((v@, p)),
                    Err(e) => Err(e),
                },
                input@,
                pos as int,
                parse_declare_commands(input@.skip(pos as int)),
            ),
    {
        let cursor = pos;
        let (raw, cursor) = read_greedy(input, cursor);
        assert(input@.skip(cursor as int) =~= seq![]);
        Ok((DeclareCommands { raw }, cursor))
    }
}

/// The fields of the WindowConfirmation packet (id 0x11).
#[derive(Debug, PartialEq)]
pub struct WindowConfirmation {
    pub window_id: u8,
    pub action_number: i16,
    pub accepted: bool,
}

pub struct WindowConfirmationV {
    pub window_id: u8,
    pub action_number: i16,
    pub accepted: bool,
}

impl View for WindowConfirmation {
    type V = WindowConfirmationV;

    open spec fn view(&self) -> WindowConfirmationV {
        WindowConfirmationV { window_id: self.window_id, action_number: self.action_number, accepted: self.accepted }
    }
}

pub open spec fn window_confirmation_fits(v: WindowConfirmationV) -> bool {
    true
}

pub open spec fn window_confirmation_bytes(v: WindowConfirmationV) -> Seq<u8> {
    be_bytes(v.window_id as nat, 1) + (signed_bytes(v.action_number as int, 2) + (bool_bytes(v.accepted)))
}

pub open spec fn parse_window_confirmation(s: Seq<u8>) -> Parsed<WindowConfirmationV> {
    match parse_u8(s) {
        Ok((window_id, s)) => match parse_i16(s) {
        Ok((action_number, s)) => match parse_bool(s) {
        Ok((accepted, s)) => Ok((WindowConfirmationV { window_id, action_number, accepted }, s)),
        Err(e) => Err(e),
    },
        Err(e) => Err(e),
    },
        Err(e) => Err(e),
    }
}

/// Every WindowConfirmation packet whose fields fit reads back as itself, whatever follows.
#[verifier::spinoff_prover]
#[verifier::rlimit(100)]
pub proof fn lemma_window_confirmation_round_trip(v: WindowConfirmationV, rest: Seq<u8>)
    requires
        window_confirmation_fits(v),
    ensures
        parse_window_confirmation(window_confirmation_bytes(v) + rest) == Ok::<(WindowConfirmationV, Seq<u8>), ProtocolError>((v, rest)),
{
    lemma_pow256_values();
    let t3 = rest;
    let t2 = bool_bytes(v.accepted) + t3;
    let t1 = signed_bytes(v.action_number as int, 2) + t2;
    let t0 = be_bytes(v.window_id as nat, 1) + t1;
    lemma_assoc(be_bytes(v.window_id as nat, 1), signed_bytes(v.action_number as int, 2) + (bool_bytes(v.accepted)), rest);
    lemma_assoc(signed_bytes(v.action_number as int, 2), bool_bytes(v.accepted), rest);
    assert(window_confirmation_bytes(v) + rest == t0);
    lemma_parse_be(v.window_id as nat, 1, t1);
    lemma_parse_signed(v.action_number as int, 2, t2);
    lemma_parse_bool(v.accepted, t3);
}

impl WindowConfirmation {
    /// Appends the fields' wire form; fails, writing nothing, when a field does
    /// not fit.
    #[verifier::spinoff_prover]
    #[verifier::rlimit(100)]
    pub fn encode(&self, out: &mut Vec<u8>) -> (r: Result<(), ProtocolError>)
        ensures
            r is Ok <==> window_confirmation_fits(self@),
            r is Ok ==> final(out)@ == old(out)@ + window_confirmation_bytes(self@),
            r is Err ==> final(out)@ == old(out)@,
    {
        let mut w: Vec<u8> = Vec::new();
        write_u8(self.window_id, &mut w);
        assert(w@ =~= be_bytes(self@.window_id as nat, 1));
        write_i16(self.action_number, &mut w);
        write_bool(self.accepted, &mut w);
        assert(w@ == window_confirmation_bytes(self@));
        write_raw(w.as_slice(), out);
        Ok(())
    }

    /// Reads the fields at `pos`.
    #[verifier::spinoff_prover]
    #[verifier::rlimit(100)]
    pub fn decode(input: &[u8], pos: usize) -> (r: Result<(WindowConfirmation, usize), ProtocolError>)
        requires
            pos <= input@.len(),
        ensures
            agrees(
                match r {
                    Ok((v, p)) => Ok((v@, p)),
                    Err(e) => Err(e),
                },
                input@,
                pos as int,
                parse_window_confirmation(input@.skip(pos as int)),
            ),
    {
        let cursor = pos;
        let (window_id, cursor) = match read_u8(input, cursor) {
            Ok((x, q)) => (x, q),
            Err(e) => return Err(e),
        };
        let (action_number, cursor) = match read_i16(input, cursor) {
            Ok((x, q)) => (x, q),
            Err(e) => return Err(e),
        };
        let (accepted, cursor) = match read_bool(input, cursor) {
            Ok((x, q)) => (x, q),
            Err(e) => return Err(e),
        };
        Ok((WindowConfirmation { window_id, action_number, accepted }, cursor))
    }
}

/// The fields of the CloseWindow packet (id 0x12).
#[derive(Debug, PartialEq)]
pub struct CloseWindow {
    pub window_id: u8,
}

pub struct CloseWindowV {
    pub window_id: u8,
}

impl View for CloseWindow {
    type V = CloseWindowV;

    open spec fn view(&self) -> CloseWindowV {
        CloseWindowV { window_id: self.window_id }
    }
}

pub open spec fn close_window_fits(v: CloseWindowV) -> bool {
    true
}

pub open spec fn close_window_bytes(v: CloseWindowV) -> Seq<u8> {
    be_bytes(v.window_id as nat, 1)
}

pub open spec fn parse_close_window(s: Seq<u8>) -> Parsed<CloseWindowV> {
    match parse_u8(s) {
        Ok((window_id, s)) => Ok((CloseWindowV { window_id }, s)),
        Err(e) => Err(e),
    }
}

/// Every CloseWindow packet whose fields fit reads back as itself, whatever follows.
#[verifier::spinoff_prover]
#[verifier::rlimit(100)]
pub proof fn lemma_close_window_round_trip(v: CloseWindowV, rest: Seq<u8>)
    requires
        close_window_fits(v),
    ensures
        parse_close_window(close_window_bytes(v) + rest) == Ok::<(CloseWindowV, Seq<u8>), ProtocolError>((v, rest)),
{
    lemma_pow256_values();
    let t1 = rest;
    let t0 = be_bytes(v.window_id as nat, 1) + t1;
    assert(close_window_bytes(v) + rest == t0);
    lemma_parse_be(v.window_id as nat, 1, t1);
}

impl CloseWindow {
    /// Appends the fields' wire form; fails, writing nothing, when a field does
    /// not fit.
    #[verifier::spinoff_prover]
    #[verifier::rlimit(100)]
    pub fn encode(&self, out: &mut Vec<u8>) -> (r: Result<(), ProtocolError>)
        ensures
            r is Ok <==> close_window_fits(self@),
            r is Ok ==> final(out)@ == old(out)@ + close_window_bytes(self@),
            r is Err ==> final(out)@ == old(out)@,
    {
        let mut w: Vec<u8> = Vec::new();
        write_u8(self.window_id, &mut w);
        assert(w@ =~= be_bytes(self@.window_id as nat, 1));
        assert(w@ == close_window_bytes(self@));
        write_raw(w.as_slice(), out);
        Ok(())
    }

    /// Reads the fields at `pos`.
    #[verifier::spinoff_prover]
    #[verifier::rlimit(100)]
    pub fn decode(input: &[u8], pos: usize) -> (r: Result<(CloseWindow, usize), ProtocolError>)
        requires
            pos <= input@.len(),
        ensures
            agrees(
                match r {
                    Ok((v, p)) => Ok((v@, p)),
                    Err(e) => Err(e),
                },
                input@,
                pos as int,
                parse_close_window(input@.skip(pos as int)),
            ),
    {
        let cursor = pos;
        let (window_id, cursor) = match read_u8(input, cursor) {
            Ok((x, q)) => (x, q),
            Err(e) => return Err(e),
        };
        Ok((CloseWindow { window_id }, cursor))
    }
}

/// The fields of the WindowProperty packet (id 0x14).
#[derive(Debug, PartialEq)]
pub struct WindowProperty {
    pub window_id: u8,
    pub property: i16,
    pub value: i16,
}

pub struct WindowPropertyV {
    pub window_id: u8,
    pub property: i16,
    pub value: i16,
}

impl View for WindowProperty {
    type V = WindowPropertyV;

    open spec fn view(&self) -> WindowPropertyV {
        WindowPropertyV { window_id: self.window_id, property: self.property, value: self.value }
    }
}

pub open spec fn window_property_fits(v: WindowPropertyV) -> bool {
    true
}

pub open spec fn window_property_bytes(v: WindowPropertyV) -> Seq<u8> {
    be_bytes(v.window_id as nat, 1) + (signed_bytes(v.property as int, 2) + (signed_bytes(v.value as int, 2)))
}

pub open spec fn parse_window_property(s: Seq<u8>) -> Parsed<WindowPropertyV> {
    match parse_u8(s) {
        Ok((window_id, s)) => match parse_i16(s) {
        Ok((property, s)) => match parse_i16(s) {
        Ok((value, s)) => Ok((WindowPropertyV { window_id, property, value }, s)),
        Err(e) => Err(e),
    },
        Err(e) => Err(e),
    },
        Err(e) => Err(e),
    }
}

/// Every WindowProperty packet whose fields fit reads back as itself, whatever follows.
#[verifier::spinoff_prover]
#[verifier::rlimit(100)]
pub proof fn lemma_window_property_round_trip(v: WindowPropertyV, rest: Seq<u8>)
    requires
        window_property_fits(v),
    ensures
        parse_window_property(window_property_bytes(v) + rest) == Ok::<(WindowPropertyV, Seq<u8>), ProtocolError>((v, rest)),
{
    lemma_pow256_values();
    let t3 = rest;
    let t2 = signed_bytes(v.value as int, 2) + t3;
    let t1 = signed_bytes(v.property as int, 2) + t2;
    let t0 = be_bytes(v.window_id as nat, 1) + t1;
    lemma_assoc(be_bytes(v.window_id as nat, 1), signed_bytes(v.property as int, 2) + (signed_bytes(v.value as int, 2)), rest);
    lemma_assoc(signed_bytes(v.property as int, 2), signed_bytes(v.value as int, 2), rest);
    assert(window_property_bytes(v) + rest == t0);
    lemma_parse_be(v.window_id as nat, 1, t1);
    lemma_parse_signed(v.property as int, 2, t2);
    lemma_parse_signed(v.value as int, 2, t3);
}

impl WindowProperty {
    /// Appends the fields' wire form; fails, writing nothing, when a field does
    /// not fit.
    #[verifier::spinoff_prover]
    #[verifier::rlimit(100)]
    pub fn encode(&self, out: &mut Vec<u8>) -> (r: Result<(), ProtocolError>)
        ensures
            r is Ok <==> window_property_fits(self@),
            r is Ok ==> final(out)@ == old(out)@ + window_property_bytes(self@),
            r is Err ==> final(out)@ == old(out)@,
    {
        let mut w: Vec<u8> = Vec::new();
        write_u8(self.window_id, &mut w);
        assert(w@ =~= be_bytes(self@.window_id as nat, 1));
        write_i16(self.property, &mut w);
        write_i16(self.value, &mut w);
        assert(w@ == window_property_bytes(self@));
        write_raw(w.as_slice(), out);
        Ok(())
    }

    /// Reads the fields at `pos`.
    #[verifier::spinoff_prover]
    #[verifier::rlimit(100)]
    pub fn decode(input: &[u8], pos: usize) -> (r: Result<(WindowProperty, usize), ProtocolError>)
        requires
            pos <= input@.len(),
        ensures
            agrees(
                match r {
                    Ok((v, p)) => Ok((v@, p)),
                    Err(e) => Err(e),
                },
                input@,
                pos as int,
                parse_window_property(input@.skip(pos as int)),
            ),
    {
        let cursor = pos;
        let (window_id, cursor) = match read_u8(input, cursor) {
            Ok((x, q)) => (x, q),
            Err(e) => return Err(e),
        };
        let (property, cursor) = match read_i16(input, cursor) {
            Ok((x, q)) => (x, q),
            Err(e) => return Err(e),
        };
        let (value, cursor) = match read_i16(input, cursor) {
            Ok((x, q)) => (x, q),
            Err(e) => return Err(e),
        };
        Ok((WindowProperty { window_id, property, value }, cursor))
    }
}

/// The fields of the SetCooldown packet (id 0x16).
#[derive(Debug, PartialEq)]
pub struct SetCooldown {
    pub item_id: VarInt,
    pub cooldown_ticks: VarInt,
}

pub struct SetCooldownV {
    pub item_id: i32,
    pub cooldown_ticks: i32,
}

impl View for SetCooldown {
    type V = SetCooldownV;

    open spec fn view(&self) -> SetCooldownV {
        SetCooldownV { item_id: self.item_id.0, cooldown_ticks: self.cooldown_ticks.0 }
    }
}

pub open spec fn set_cooldown_fits(v: SetCooldownV) -> bool {
    true
}

pub open spec fn set_cooldown_bytes(v: SetCooldownV) -> Seq<u8> {
    varint_bytes(v.item_id) + (varint_bytes(v.cooldown_ticks))
}

pub open spec fn parse_set_cooldown(s: Seq<u8>) -> Parsed<SetCooldownV> {
    match parse_var_int(s) {
        Ok((item_id, s)) => match parse_var_int(s) {
        Ok((cooldown_ticks, s)) => Ok((SetCooldownV { item_id, cooldown_ticks }, s)),
        Err(e) => Err(e),
    },
        Err(e) => Err(e),
    }
}

/// Every SetCooldown packet whose fields fit reads back as itself, whatever follows.
#[verifier::spinoff_prover]
#[verifier::rlimit(100)]
pub proof fn lemma_set_cooldown_round_trip(v: SetCooldownV, rest: Seq<u8>)
    requires
        set_cooldown_fits(v),
    ensures
        parse_set_cooldown(set_cooldown_bytes(v) + rest) == Ok::<(SetCooldownV, Seq<u8>), ProtocolError>((v, rest)),
{
    lemma_pow256_values();
    let t2 = rest;
    let t1 = varint_bytes(v.cooldown_ticks) + t2;
    let t0 = varint_bytes(v.item_id) + t1;
    lemma_assoc(varint_bytes(v.item_id), varint_bytes(v.cooldown_ticks), rest);
    assert(set_cooldown_bytes(v) + rest == t0);
    lemma_parse_var_int(v.item_id, t1);
    lemma_parse_var_int(v.cooldown_ticks, t2);
}

impl SetCooldown {
    /// Appends the fields' wire form; fails, writing nothing, when a field does
    /// not fit.
    #[verifier::spinoff_prover]
    #[verifier::rlimit(100)]
    pub fn encode(&self, out: &mut Vec<u8>) -> (r: Result<(), ProtocolError>)
        ensures
            r is Ok <==> set_cooldown_fits(self@),
            r is Ok ==> final(out)@ == old(out)@ + set_cooldown_bytes(self@),
            r is Err ==> final(out)@ == old(out)@,
    {
        let mut w: Vec<u8> = Vec::new();
        self.item_id.encode(&mut w);
        assert(w@ =~= varint_bytes(self@.item_id));
        self.cooldown_ticks.encode(&mut w);
        assert(w@ == set_cooldown_bytes(self@));
        write_raw(w.as_slice(), out);
        Ok(())
    }

    /// Reads the fields at `pos`.
    #[verifier::spinoff_prover]
    #[verifier::rlimit(100)]
    pub fn decode(input: &[u8], pos: usize) -> (r: Result<(SetCooldown, usize), ProtocolError>)
        requires
            pos <= input@.len(),
        ensures
            agrees(
                match r {
                    Ok((v, p)) => Ok((v@, p)),
                    Err(e) => Err(e),
                },
                input@,
                pos as int,
                parse_set_cooldown(input@.skip(pos as int)),
            ),
    {
        let cursor = pos;
        let (item_id, cursor) = match read_var_int(input, cursor) {
            Ok((x, q)) => (VarInt(x), q),
            Err(e) => return Err(e),
        };
        let (cooldown_ticks, cursor) = match read_var_int(input, cursor) {
            Ok((x, q)) => (VarInt(x), q),
            Err(e) => return Err(e),
        };
        Ok((SetCooldown { item_id, cooldown_ticks }, cursor))
    }
}

/// The fields of the PluginMessage packet (id 0x17).
#[derive(Debug, PartialEq)]
pub struct PluginMessage {
    pub channel: Identifier,
    pub data: Vec<u8>,
}

pub struct PluginMessageV {
    pub channel: Seq<char>,
    pub data: Seq<u8>,
}

impl View for PluginMessage {
    type V = PluginMessageV;

    open spec fn view(&self) -> PluginMessageV {
        PluginMessageV { channel: self.channel.0.0@, data: self.data@ }
    }
}

pub open spec fn plugin_message_fits(v: PluginMessageV) -> bool {
    short_string_fits(v.channel)
}

pub open spec fn plugin_message_bytes(v: PluginMessageV) -> Seq<u8> {
    string_bytes(v.channel) + (v.data)
}

pub open spec fn parse_plugin_message(s: Seq<u8>) -> Parsed<PluginMessageV> {
    match parse_short_string(s) {
        Ok((channel, s)) => Ok((PluginMessageV { channel, data: s }, seq![])),
        Err(e) => Err(e),
    }
}

/// Every PluginMessage packet whose fields fit reads back as itself, filling the frame.
#[verifier::spinoff_prover]
#[verifier::rlimit(100)]
pub proof fn lemma_plugin_message_round_trip(v: PluginMessageV)
    requires
        plugin_message_fits(v),
    ensures
        parse_plugin_message(plugin_message_bytes(v) + seq![]) == Ok::<(PluginMessageV, Seq<u8>), ProtocolError>((v, seq![])),
{
    let rest = Seq::<u8>::empty();
    lemma_pow256_values();
    let t2 = rest;
    let t1 = v.data + t2;
    let t0 = string_bytes(v.channel) + t1;
    lemma_assoc(string_bytes(v.channel), v.data, rest);
    assert(plugin_message_bytes(v) + rest == t0);
    lemma_parse_short_string(v.channel, t1);
    assert(v.data + rest =~= v.data);
}

impl PluginMessage {
    /// Appends the fields' wire form; fails, writing nothing, when a field does
    /// not fit.
    #[verifier::spinoff_prover]
    #[verifier::rlimit(100)]
    pub fn encode(&self, out: &mut Vec<u8>) -> (r: Result<(), ProtocolError>)
        ensures
            r is Ok <==> plugin_message_fits(self@),
            r is Ok ==> final(out)@ == old(out)@ + plugin_message_bytes(self@),
            r is Err ==> final(out)@ == old(out)@,
    {
        let mut w: Vec<u8> = Vec::new();
        if utf8_len(&self.channel.0.0) > 32767 {
            return Err(ProtocolError::StringTooLong);
        }
        self.channel.encode(&mut w);
        assert(w@ =~= string_bytes(self@.channel));
        write_raw(self.data.as_slice(), &mut w);
        assert(w@ == plugin_message_bytes(self@));
        write_raw(w.as_slice(), out);
        Ok(())
    }

    /// Reads the fields at `pos`.
    #[verifier::spinoff_prover]
    #[verifier::rlimit(100)]
    pub fn decode(input: &[u8], pos: usize) -> (r: Result<(PluginMessage, usize), ProtocolError>)
        requires
            pos <= input@.len(),
        ensures
            agrees(
                match r {
                    Ok((v, p)) => Ok((v@, p)),
                    Err(e) => Err(e),
                },
                input@,
                pos as int,
                parse_plugin_message(input@.skip(pos as int)),
            ),
    {
        let cursor = pos;
        let (channel, cursor) = match Identifier::decode(input, cursor) {
            Ok((x, q)) => (x, q),
            Err(e) => return Err(e),
        };
        let (data, cursor) = read_greedy(input, cursor);
        assert(input@.skip(cursor as int) =~= seq![]);
        Ok((PluginMessage { channel, data }, cursor))
    }
}

/// The fields of the NamedSoundEffect packet (id 0x18).
#[derive(Debug, PartialEq)]
pub struct NamedSoundEffect {
    pub sound_name: Identifier,
    pub sound_category: VarInt,
    pub effect_position_x: i32,
    pub effect_position_y: i32,
    pub effect_position_z: i32,
    pub volume: u32,
    pub pitch: u32,
}

pub struct NamedSoundEffectV {
    pub sound_name: Seq<char>,
    pub sound_category: i32,
    pub effect_position_x: i32,
    pub effect_position_y: i32,
    pub effect_position_z: i32,
    pub volume: u32,
    pub pitch: u32,
}

impl View for NamedSoundEffect {
    type V = NamedSoundEffectV;

    open spec fn view(&self) -> NamedSoundEffectV {
        NamedSoundEffectV { sound_name: self.sound_name.0.0@, sound_category: self.sound_category.0, effect_position_x: self.effect_position_x, effect_position_y: self.effect_position_y, effect_position_z: self.effect_position_z, volume: self.volume, pitch: self.pitch }
    }
}

pub open spec fn named_sound_effect_fits(v: NamedSoundEffectV) -> bool {
    short_string_fits(v.sound_name)
}

pub open spec fn named_sound_effect_bytes(v: NamedSoundEffectV) -> Seq<u8> {
    string_bytes(v.sound_name) + (varint_bytes(v.sound_category) + (signed_bytes(v.effect_position_x as int, 4) + (signed_bytes(v.effect_position_y as int, 4) + (signed_bytes(v.effect_position_z as int, 4) + (be_bytes(v.volume as nat, 4) + (be_bytes(v.pitch as nat, 4)))))))
}

pub open spec fn parse_named_sound_effect(s: Seq<u8>) -> Parsed<NamedSoundEffectV> {
    match parse_short_string(s) {
        Ok((sound_name, s)) => match parse_var_int(s) {
        Ok((sound_category, s)) => match parse_i32(s) {
        Ok((effect_position_x, s)) => match parse_i32(s) {
        Ok((effect_position_y, s)) => match parse_i32(s) {
        Ok((effect_position_z, s)) => match parse_u32(s) {
        Ok((volume, s)) => match parse_u32(s) {
        Ok((pitch, s)) => Ok((NamedSoundEffectV { sound_name, sound_category, effect_position_x, effect_position_y, effect_position_z, volume, pitch }, s)),
        Err(e) => Err(e),
    },
        Err(e) => Err(e),
    },
        Err(e) => Err(e),
    },
        Err(e) => Err(e),
    },
        Err(e) => Err(e),
    },
        Err(e) => Err(e),
    },
        Err(e) => Err(e),
    }
}

/// Every NamedSoundEffect packet whose fields fit reads back as itself, whatever follows.
#[verifier::spinoff_prover]
#[verifier::rlimit(100)]
pub proof fn lemma_named_sound_effect_round_trip(v: NamedSoundEffectV, rest: Seq<u8>)
    requires
        named_sound_effect_fits(v),
    ensures
        parse_named_sound_effect(named_sound_effect_bytes(v) + rest) == Ok::<(NamedSoundEffectV, Seq<u8>), ProtocolError>((v, rest)),
{
    lemma_pow256_values();
    let t7 = rest;
    let t6 = be_bytes(v.pitch as nat, 4) + t7;
    let t5 = be_bytes(v.volume as nat, 4) + t6;
    let t4 = signed_bytes(v.effect_position_z as int, 4) + t5;
    let t3 = signed_bytes(v.effect_position_y as int, 4) + t4;
    let t2 = signed_bytes(v.effect_position_x as int, 4) + t3;
    let t1 = varint_bytes(v.sound_category) + t2;
    let t0 = string_bytes(v.sound_name) + t1;
    lemma_assoc(string_bytes(v.sound_name), varint_bytes(v.sound_category) + (signed_bytes(v.effect_position_x as int, 4) + (signed_bytes(v.effect_position_y as int, 4) + (signed_bytes(v.effect_position_z as int, 4) + (be_bytes(v.volume as nat, 4) + (be_bytes(v.pitch as nat, 4)))))), rest);
    lemma_assoc(varint_bytes(v.sound_category), signed_bytes(v.effect_position_x as int, 4) + (signed_bytes(v.effect_position_y as int, 4) + (signed_bytes(v.effect_position_z as int, 4) + (be_bytes(v.volume as nat, 4) + (be_bytes(v.pitch as nat, 4))))), rest);
    lemma_assoc(signed_bytes(v.effect_position_x as int, 4), signed_bytes(v.effect_position_y as int, 4) + (signed_bytes(v.effect_position_z as int, 4) + (be_bytes(v.volume as nat, 4) + (be_bytes(v.pitch as nat, 4)))), rest);
    lemma_assoc(signed_bytes(v.effect_position_y as int, 4), signed_bytes(v.effect_position_z as int, 4) + (be_bytes(v.volume as nat, 4) + (be_bytes(v.pitch as nat, 4))), rest);
    lemma_assoc(signed_bytes(v.effect_position_z as int, 4), be_bytes(v.volume as nat, 4) + (be_bytes(v.pitch as nat, 4)), rest);
    lemma_assoc(be_bytes(v.volume as nat, 4), be_bytes(v.pitch as nat, 4), rest);
    assert(named_sound_effect_bytes(v) + rest == t0);
    lemma_parse_short_string(v.sound_name, t1);
    lemma_parse_var_int(v.sound_category, t2);
    lemma_parse_signed(v.effect_position_x as int, 4, t3);
    lemma_parse_signed(v.effect_position_y as int, 4, t4);
    lemma_parse_signed(v.effect_position_z as int, 4, t5);
    lemma_parse_be(v.volume as nat, 4, t6);
    lemma_parse_be(v.pitch as nat, 4, t7);
}

impl NamedSoundEffect {
    /// Appends the fields' wire form; fails, writing nothing, when a field does
    /// not fit.
    #[verifier::spinoff_prover]
    #[verifier::rlimit(100)]
    pub fn encode(&self, out: &mut Vec<u8>) -> (r: Result<(), ProtocolError>)
        ensures
            r is Ok <==> named_sound_effect_fits(self@),
            r is Ok ==> final(out)@ == old(out)@ + named_sound_effect_bytes(self@),
            r is Err ==> final(out)@ == old(out)@,
    {
        let mut w: Vec<u8> = Vec::new();
        if utf8_len(&self.sound_name.0.0) > 32767 {
            return Err(ProtocolError::StringTooLong);
        }
        self.sound_name.encode(&mut w);
        assert(w@ =~= string_bytes(self@.sound_name));
        self.sound_category.encode(&mut w);
        write_i32(self.effect_position_x, &mut w);
        write_i32(self.effect_position_y, &mut w);
        write_i32(self.effect_position_z, &mut w);
        write_u32(self.volume, &mut w);
        write_u32(self.pitch, &mut w);
        assert(w@ == named_sound_effect_bytes(self@));
        write_raw(w.as_slice(), out);
        Ok(())
    }

    /// Reads the fields at `pos`.
    #[verifier::spinoff_prover]
    #[verifier::rlimit(100)]
    pub fn decode(input: &[u8], pos: usize) -> (r: Result<(NamedSoundEffect, usize), ProtocolError>)
        requires
            pos <= input@.len(),
        ensures
            agrees(
                match r {
                    Ok((v, p)) => Ok((v@, p)),
                    Err(e) => Err(e),
                },
                input@,
                pos as int,
                parse_named_sound_effect(input@.skip(pos as int)),
            ),
    {
        let cursor = pos;
        let (sound_name, cursor) = match Identifier::decode(input, cursor) {
            Ok((x, q)) => (x, q),
            Err(e) => return Err(e),
        };
        let (sound_category, cursor) = match read_var_int(input, cursor) {
            Ok((x, q)) => (VarInt(x), q),
            Err(e) => return Err(e),
        };
        let (effect_position_x, cursor) = match read_i32(input, cursor) {
            Ok((x, q)) => (x, q),
            Err(e) => return Err(e),
        };
        let (effect_position_y, cursor) = match read_i32(input, cursor) {
            Ok((x, q)) => (x, q),
            Err(e) => return Err(e),
        };
        let (effect_position_z, cursor) = match read_i32(input, cursor) {
            Ok((x, q)) => (x, q),
            Err(e) => return Err(e),
        };
        let (volume, cursor) = match read_u32(input, cursor) {
            Ok((x, q)) => (x, q),
            Err(e) => return Err(e),
        };
        let (pitch, cursor) = match read_u32(input, cursor) {
            Ok((x, q)) => (x, q),
            Err(e) => return Err(e),
        };
        Ok((NamedSoundEffect { sound_name, sound_category, effect_position_x, effect_position_y, effect_position_z, volume, pitch }, cursor))
    }
}

/// The fields of the ChangeGameState packet (id 0x1d).
#[derive(Debug, PartialEq)]
pub struct ChangeGameState {
    pub value: u32,
}

pub struct ChangeGameStateV {
    pub value: u32,
}

impl View for ChangeGameState {
    type V = ChangeGameStateV;

    open spec fn view(&self) -> ChangeGameStateV {
        ChangeGameStateV { value: self.value }
    }
}

pub open spec fn change_game_state_fits(v: ChangeGameStateV) -> bool {
    true
}

pub open spec fn change_game_state_bytes(v: ChangeGameStateV) -> Seq<u8> {
    be_bytes(v.value as nat, 4)
}

pub open spec fn parse_change_game_state(s: Seq<u8>) -> Parsed<ChangeGameStateV> {
    match parse_u32(s) {
        Ok((value, s)) => Ok((ChangeGameStateV { value }, s)),
        Err(e) => Err(e),
    }
}

/// Every ChangeGameState packet whose fields fit reads back as itself, whatever follows.
#[verifier::spinoff_prover]
#[verifier::rlimit(100)]
pub proof fn lemma_change_game_state_round_trip(v: ChangeGameStateV, rest: Seq<u8>)
    requires
        change_game_state_fits(v),
    ensures
        parse_change_game_state(change_game_state_bytes(v) + rest) == Ok::<(ChangeGameStateV, Seq<u8>), ProtocolError>((v, rest)),
{
    lemma_pow256_values();
    let t1 = rest;
    let t0 = be_bytes(v.value as nat, 4) + t1;
    assert(change_game_state_bytes(v) + rest == t0);
    lemma_parse_be(v.value as nat, 4, t1);
}

impl ChangeGameState {
    /// Appends the fields' wire form; fails, writing nothing, when a field does
    /// not fit.
    #[verifier::spinoff_prover]
    #[verifier::rlimit(100)]
    pub fn encode(&self, out: &mut Vec<u8>) -> (r: Result<(), ProtocolError>)
        ensures
            r is Ok <==> change_game_state_fits(self@),
            r is Ok ==> final(out)@ == old(out)@ + change_game_state_bytes(self@),
            r is Err ==> final(out)@ == old(out)@,
    {
        let mut w: Vec<u8> = Vec::new();
        write_u32(self.value, &mut w);
        assert(w@ =~= be_bytes(self@.value as nat, 4));
        assert(w@ == change_game_state_bytes(self@));
        write_raw(w.as_slice(), out);
        Ok(())
    }

    /// Reads the fields at `pos`.
    #[verifier::spinoff_prover]
    #[verifier::rlimit(100)]
    pub fn decode(input: &[u8], pos: usize) -> (r: Result<(ChangeGameState, usize), ProtocolError>)
        requires
            pos <= input@.len(),
        ensures
            agrees(
                match r {
                    Ok((v, p)) => Ok((v@, p)),
                    Err(e) => Err(e),
                },
                input@,
                pos as int,
                parse_change_game_state(input@.skip(pos as int)),
            ),
    {
        let cursor = pos;
        let (value, cursor) = match read_u32(input, cursor) {
            Ok((x, q)) => (x, q),
            Err(e) => return Err(e),
        };
        Ok((ChangeGameState { value }, cursor))
    }
}

/// The fields of the OpenHorseWindow packet (id 0x1e).
#[derive(Debug, PartialEq)]
pub struct OpenHorseWindow {
    pub window_id: u8,
    pub slots: VarInt,
    pub entity_id: i32,
}

pub struct OpenHorseWindowV {
    pub window_id: u8,
    pub slots: i32,
    pub entity_id: i32,
}

impl View for OpenHorseWindow {
    type V = OpenHorseWindowV;

    open spec fn view(&self) -> OpenHorseWindowV {
        OpenHorseWindowV { window_id: self.window_id, slots: self.slots.0, entity_id: self.entity_id }
    }
}

pub open spec fn open_horse_window_fits(v: OpenHorseWindowV) -> bool {
    true
}

pub open spec fn open_horse_window_bytes(v: OpenHorseWindowV) -> Seq<u8> {
    be_bytes(v.window_id as nat, 1) + (varint_bytes(v.slots) + (signed_bytes(v.entity_id as int, 4)))
}

pub open spec fn parse_open_horse_window(s: Seq<u8>) -> Parsed<OpenHorseWindowV> {
    match parse_u8(s) {
        Ok((window_id, s)) => match parse_var_int(s) {
        Ok((slots, s)) => match parse_i32(s) {
        Ok((entity_id, s)) => Ok((OpenHorseWindowV { window_id, slots, entity_id }, s)),
        Err(e) => Err(e),
    },
        Err(e) => Err(e),
    },
        Err(e) => Err(e),
    }
}

/// Every OpenHorseWindow packet whose fields fit reads back as itself, whatever follows.
#[verifier::spinoff_prover]
#[verifier::rlimit(100)]
pub proof fn lemma_open_horse_window_round_trip(v: OpenHorseWindowV, rest: Seq<u8>)
    requires
        open_horse_window_fits(v),
    ensures
        parse_open_horse_window(open_horse_window_bytes(v) + rest) == Ok::<(OpenHorseWindowV, Seq<u8>), ProtocolError>((v, rest)),
{
    lemma_pow256_values();
    let t3 = rest;
    let t2 = signed_bytes(v.entity_id as int, 4) + t3;
    let t1 = varint_bytes(v.slots) + t2;
    let t0 = be_bytes(v.window_id as nat, 1) + t1;
    lemma_assoc(be_bytes(v.window_id as nat, 1), varint_bytes(v.slots) + (signed_bytes(v.entity_id as int, 4)), rest);
    lemma_assoc(varint_bytes(v.slots), signed_bytes(v.entity_id as int, 4), rest);
    assert(open_horse_window_bytes(v) + rest == t0);
    lemma_parse_be(v.window_id as nat, 1, t1);
    lemma_parse_var_int(v.slots, t2);
    lemma_parse_signed(v.entity_id as int, 4, t3);
}

impl OpenHorseWindow {
    /// Appends the fields' wire form; fails, writing nothing, when a field does
    /// not fit.
    #[verifier::spinoff_prover]
    #[verifier::rlimit(100)]
    pub fn encode(&self, out: &mut Vec<u8>) -> (r: Result<(), ProtocolError>)
        ensures
            r is Ok <==> open_horse_window_fits(self@),
            r is Ok ==> final(out)@ == old(out)@ + open_horse_window_bytes(self@),
            r is Err ==> final(out)@ == old(out)@,
    {
        let mut w: Vec<u8> = Vec::new();
        write_u8(self.window_id, &mut w);
        assert(w@ =~= be_bytes(self@.window_id as nat, 1));
        self.slots.encode(&mut w);
        write_i32(self.entity_id, &mut w);
        assert(w@ == open_horse_window_bytes(self@));
        write_raw(w.as_slice(), out);
        Ok(())
    }

    /// Reads the fields at `pos`.
    #[verifier::spinoff_prover]
    #[verifier::rlimit(100)]
    pub fn decode(input: &[u8], pos: usize) -> (r: Result<(OpenHorseWindow, usize), ProtocolError>)
        requires
            pos <= input@.len(),
        ensures
            agrees(
                match r {
                    Ok((v, p)) => Ok((v@, p)),
                    Err(e) => Err(e),
                },
                input@,
                pos as int,
                parse_open_horse_window(input@.skip(pos as int)),
            ),
    {
        let cursor = pos;
        let (window_id, cursor) = match read_u8(input, cursor) {
            Ok((x, q)) => (x, q),
            Err(e) => return Err(e),
        };
        let (slots, cursor) = match read_var_int(input, cursor) {
            Ok((x, q)) => (VarInt(x), q),
            Err(e) => return Err(e),
        };
        let (entity_id, cursor) = match read_i32(input, cursor) {
            Ok((x, q)) => (x, q),
            Err(e) => return Err(e),
        };
        Ok((OpenHorseWindow { window_id, slots, entity_id }, cursor))
    }
}

/// The fields of the Effect packet (id 0x21).
#[derive(Debug, PartialEq)]
pub struct Effect {
    pub effect_id: i32,
    pub location: Position,
    pub data: i32,
    pub disable_relative_volume: bool,
}

pub struct EffectV {
    pub effect_id: i32,
    pub location: Position,
    pub data: i32,
    pub disable_relative_volume: bool,
}

impl View for Effect {
    type V = EffectV;

    open spec fn view(&self) -> EffectV {
        EffectV { effect_id: self.effect_id, location: self.location, data: self.data, disable_relative_volume: self.disable_relative_volume }
    }
}

pub open spec fn effect_fits(v: EffectV) -> bool {
    position_in_range(v.location)
}

pub open spec fn effect_bytes(v: EffectV) -> Seq<u8> {
    signed_bytes(v.effect_id as int, 4) + (position_bytes(v.location) + (signed_bytes(v.data as int, 4) + (bool_bytes(v.disable_relative_volume))))
}

pub open spec fn parse_effect(s: Seq<u8>) -> Parsed<EffectV> {
    match parse_i32(s) {
        Ok((effect_id, s)) => match parse_position(s) {
        Ok((location, s)) => match parse_i32(s) {
        Ok((data, s)) => match parse_bool(s) {
        Ok((disable_relative_volume, s)) => Ok((EffectV { effect_id, location, data, disable_relative_volume }, s)),
        Err(e) => Err(e),
    },
        Err(e) => Err(e),
    },
        Err(e) => Err(e),
    },
        Err(e) => Err(e),
    }
}

/// Every Effect packet whose fields fit reads back as itself, whatever follows.
#[verifier::spinoff_prover]
#[verifier::rlimit(100)]
pub proof fn lemma_effect_round_trip(v: EffectV, rest: Seq<u8>)
    requires
        effect_fits(v),
    ensures
        parse_effect(effect_bytes(v) + rest) == Ok::<(EffectV, Seq<u8>), ProtocolError>((v, rest)),
{
    lemma_pow256_values();
    let t4 = rest;
    let t3 = bool_bytes(v.disable_relative_volume) + t4;
    let t2 = signed_bytes(v.data as int, 4) + t3;
    let t1 = position_bytes(v.location) + t2;
    let t0 = signed_bytes(v.effect_id as int, 4) + t1;
    lemma_assoc(signed_bytes(v.effect_id as int, 4), position_bytes(v.location) + (signed_bytes(v.data as int, 4) + (bool_bytes(v.disable_relative_volume))), rest);
    lemma_assoc(position_bytes(v.location), signed_bytes(v.data as int, 4) + (bool_bytes(v.disable_relative_volume)), rest);
    lemma_assoc(signed_bytes(v.data as int, 4), bool_bytes(v.disable_relative_volume), rest);
    assert(effect_bytes(v) + rest == t0);
    lemma_parse_signed(v.effect_id as int, 4, t1);
    lemma_position_round_trip(v.location, t2);
    lemma_parse_signed(v.data as int, 4, t3);
    lemma_parse_bool(v.disable_relative_volume, t4);
}

impl Effect {
    /// Appends the fields' wire form; fails, writing nothing, when a field does
    /// not fit.
    #[verifier::spinoff_prover]
    #[verifier::rlimit(100)]
    pub fn encode(&self, out: &mut Vec<u8>) -> (r: Result<(), ProtocolError>)
        ensures
            r is Ok <==> effect_fits(self@),
            r is Ok ==> final(out)@ == old(out)@ + effect_bytes(self@),
            r is Err ==> final(out)@ == old(out)@,
    {
        let mut w: Vec<u8> = Vec::new();
        write_i32(self.effect_id, &mut w);
        assert(w@ =~= signed_bytes(self@.effect_id as int, 4));
        match self.location.encode(&mut w) {
            Ok(()) => {},
            Err(e) => return Err(e),
        }
        write_i32(self.data, &mut w);
        write_bool(self.disable_relative_volume, &mut w);
        assert(w@ == effect_bytes(self@));
        write_raw(w.as_slice(), out);
        Ok(())
    }

    /// Reads the fields at `pos`.
    #[verifier::spinoff_prover]
    #[verifier::rlimit(100)]
    pub fn decode(input: &[u8], pos: usize) -> (r: Result<(Effect, usize), ProtocolError>)
        requires
            pos <= input@.len(),
        ensures
            agrees(
                match r {
                    Ok((v, p)) => Ok((v@, p)),
                    Err(e) => Err(e),
                },
                input@,
                pos as int,
                parse_effect(input@.skip(pos as int)),
            ),
    {
        let cursor = pos;
        let (effect_id, cursor) = match read_i32(input, cursor) {
            Ok((x, q)) => (x, q),
            Err(e) => return Err(e),
        };
        let (location, cursor) = match Position::decode(input, cursor) {
            Ok((x, q)) => (x, q),
            Err(e) => return Err(e),
        };
        let (data, cursor) = match read_i32(input, cursor) {
            Ok((x, q)) => (x, q),
            Err(e) => return Err(e),
        };
        let (disable_relative_volume, cursor) = match read_bool(input, cursor) {
            Ok((x, q)) => (x, q),
            Err(e) => return Err(e),
        };
        Ok((Effect { effect_id, location, data, disable_relative_volume }, cursor))
    }
}

/// The fields of the Particle packet (id 0x22).
#[derive(Debug, PartialEq)]
pub struct Particle {
    pub particle_id: i32,
    pub long_distance: bool,
    pub x: u64,
    pub y: u64,
    pub z: u64,
    pub offset_x: u32,
    pub offset_y: u32,
    pub offset_z: u32,
    pub particle_data: u32,
    pub particle_count: i32,
    pub raw_data: Vec<u8>,
}

pub struct ParticleV {
    pub particle_id: i32,
    pub long_distance: bool,
    pub x: u64,
    pub y: u64,
    pub z: u64,
    pub offset_x: u32,
    pub offset_y: u32,
    pub offset_z: u32,
    pub particle_data: u32,
    pub particle_count: i32,
    pub raw_data: Seq<u8>,
}

impl View for Particle {
    type V = ParticleV;

    open spec fn view(&self) -> ParticleV {
        ParticleV { particle_id: self.particle_id, long_distance: self.long_distance, x: self.x, y: self.y, z: self.z, offset_x: self.offset_x, offset_y: self.offset_y, offset_z: self.offset_z, particle_data: self.particle_data, particle_count: self.particle_count, raw_data: self.raw_data@ }
    }
}

pub open spec fn particle_fits(v: ParticleV) -> bool {
    true
}

pub open spec fn particle_bytes(v: ParticleV) -> Seq<u8> {
    signed_bytes(v.particle_id as int, 4) + (bool_bytes(v.long_distance) + (be_bytes(v.x as nat, 8) + (be_bytes(v.y as nat, 8) + (be_bytes(v.z as nat, 8) + (be_bytes(v.offset_x as nat, 4) + (be_bytes(v.offset_y as nat, 4) + (be_bytes(v.offset_z as nat, 4) + (be_bytes(v.particle_data as nat, 4) + (signed_bytes(v.particle_count as int, 4) + (v.raw_data))))))))))
}

pub open spec fn parse_particle(s: Seq<u8>) -> Parsed<ParticleV> {
    match parse_i32(s) {
        Ok((particle_id, s)) => match parse_bool(s) {
        Ok((long_distance, s)) => match parse_u64(s) {
        Ok((x, s)) => match parse_u64(s) {
        Ok((y, s)) => match parse_u64(s) {
        Ok((z, s)) => match parse_u32(s) {
        Ok((offset_x, s)) => match parse_u32(s) {
        Ok((offset_y, s)) => match parse_u32(s) {
        Ok((offset_z, s)) => match parse_u32(s) {
        Ok((particle_data, s)) => match parse_i32(s) {
        Ok((particle_count, s)) => Ok((ParticleV { particle_id, long_distance, x, y, z, offset_x, offset_y, offset_z, particle_data, particle_count, raw_data: s }, seq![])),
        Err(e) => Err(e),
    },
        Err(e) => Err(e),
    },
        Err(e) => Err(e),
    },
        Err(e) => Err(e),
    },
        Err(e) => Err(e),
    },
        Err(e) => Err(e),
    },
        Err(e) => Err(e),
    },
        Err(e) => Err(e),
    },
        Err(e) => Err(e),
    },
        Err(e) => Err(e),
    }
}

/// Every Particle packet whose fields fit reads back as itself, filling the frame.
#[verifier::spinoff_prover]
#[verifier::rlimit(100)]
pub proof fn lemma_particle_round_trip(v: ParticleV)
    requires
        particle_fits(v),
    ensures
        parse_particle(particle_bytes(v) + seq![]) == Ok::<(ParticleV, Seq<u8>), ProtocolError>((v, seq![])),
{
    let rest = Seq::<u8>::empty();
    lemma_pow256_values();
    let t11 = rest;
    let t10 = v.raw_data + t11;
    let t9 = signed_bytes(v.particle_count as int, 4) + t10;
    let t8 = be_bytes(v.particle_data as nat, 4) + t9;
    let t7 = be_bytes(v.offset_z as nat, 4) + t8;
    let t6 = be_bytes(v.offset_y as nat, 4) + t7;
    let t5 = be_bytes(v.offset_x as nat, 4) + t6;
    let t4 = be_bytes(v.z as nat, 8) + t5;
    let t3 = be_bytes(v.y as nat, 8) + t4;
    let t2 = be_bytes(v.x as nat, 8) + t3;
    let t1 = bool_bytes(v.long_distance) + t2;
    let t0 = signed_bytes(v.particle_id as int, 4) + t1;
    lemma_assoc(signed_bytes(v.particle_id as int, 4), bool_bytes(v.long_distance) + (be_bytes(v.x as nat, 8) + (be_bytes(v.y as nat, 8) + (be_bytes(v.z as nat, 8) + (be_bytes(v.offset_x as nat, 4) + (be_bytes(v.offset_y as nat, 4) + (be_bytes(v.offset_z as nat, 4) + (be_bytes(v.particle_data as nat, 4) + (signed_bytes(v.particle_count as int, 4) + (v.raw_data))))))))), rest);
    lemma_assoc(bool_bytes(v.long_distance), be_bytes(v.x as nat, 8) + (be_bytes(v.y as nat, 8) + (be_bytes(v.z as nat, 8) + (be_bytes(v.offset_x as nat, 4) + (be_bytes(v.offset_y as nat, 4) + (be_bytes(v.offset_z as nat, 4) + (be_bytes(v.particle_data as nat, 4) + (signed_bytes(v.particle_count as int, 4) + (v.raw_data)))))))), rest);
    lemma_assoc(be_bytes(v.x as nat, 8), be_bytes(v.y as nat, 8) + (be_bytes(v.z as nat, 8) + (be_bytes(v.offset_x as nat, 4) + (be_bytes(v.offset_y as nat, 4) + (be_bytes(v.offset_z as nat, 4) + (be_bytes(v.particle_data as nat, 4) + (signed_bytes(v.particle_count as int, 4) + (v.raw_data))))))), rest);
    lemma_assoc(be_bytes(v.y as nat, 8), be_bytes(v.z as nat, 8) + (be_bytes(v.offset_x as nat, 4) + (be_bytes(v.offset_y as nat, 4) + (be_bytes(v.offset_z as nat, 4) + (be_bytes(v.particle_data as nat, 4) + (signed_bytes(v.particle_count as int, 4) + (v.raw_data)))))), rest);
    lemma_assoc(be_bytes(v.z as nat, 8), be_bytes(v.offset_x as nat, 4) + (be_bytes(v.offset_y as nat, 4) + (be_bytes(v.offset_z as nat, 4) + (be_bytes(v.particle_data as nat, 4) + (signed_bytes(v.particle_count as int, 4) + (v.raw_data))))), rest);
    lemma_assoc(be_bytes(v.offset_x as nat, 4), be_bytes(v.offset_y as nat, 4) + (be_bytes(v.offset_z as nat, 4) + (be_bytes(v.particle_data as nat, 4) + (signed_bytes(v.particle_count as int, 4) + (v.raw_data)))), rest);
    lemma_assoc(be_bytes(v.offset_y as nat, 4), be_bytes(v.offset_z as nat, 4) + (be_bytes(v.particle_data as nat, 4) + (signed_bytes(v.particle_count as int, 4) + (v.raw_data))), rest);
    lemma_assoc(be_bytes(v.offset_z as nat, 4), be_bytes(v.particle_data as nat, 4) + (signed_bytes(v.particle_count as int, 4) + (v.raw_data)), rest);
    lemma_assoc(be_bytes(v.particle_data as nat, 4), signed_bytes(v.particle_count as int, 4) + (v.raw_data), rest);
    lemma_assoc(signed_bytes(v.particle_count as int, 4), v.raw_data, rest);
    assert(particle_bytes(v) + rest == t0);
    lemma_parse_signed(v.particle_id as int, 4, t1);
    lemma_parse_bool(v.long_distance, t2);
    lemma_parse_be(v.x as nat, 8, t3);
    lemma_parse_be(v.y as nat, 8, t4);
    lemma_parse_be(v.z as nat, 8, t5);
    lemma_parse_be(v.offset_x as nat, 4, t6);
    lemma_parse_be(v.offset_y as nat, 4, t7);
    lemma_parse_be(v.offset_z as nat, 4, t8);
    lemma_parse_be(v.particle_data as nat, 4, t9);
    lemma_parse_signed(v.particle_count as int, 4, t10);
    assert(v.raw_data + rest =~= v.raw_data);
}

impl Particle {
    /// Appends the fields' wire form; fails, writing nothing, when a field does
    /// not fit.
    #[verifier::spinoff_prover]
    #[verifier::rlimit(100)]
    pub fn encode(&self, out: &mut Vec<u8>) -> (r: Result<(), ProtocolError>)
        ensures
            r is Ok <==> particle_fits(self@),
            r is Ok ==> final(out)@ == old(out)@ + particle_bytes(self@),
            r is Err ==> final(out)@ == old(out)@,
    {
        let mut w: Vec<u8> = Vec::new();
        write_i32(self.particle_id, &mut w);
        assert(w@ =~= signed_bytes(self@.particle_id as int, 4));
        write_bool(self.long_distance, &mut w);
        write_u64(self.x, &mut w);
        write_u64(self.y, &mut w);
        write_u64(self.z, &mut w);
        write_u32(self.offset_x, &mut w);
        write_u32(self.offset_y, &mut w);
        write_u32(self.offset_z, &mut w);
        write_u32(self.particle_data, &mut w);
        write_i32(self.particle_count, &mut w);
        write_raw(self.raw_data.as_slice(), &mut w);
        assert(w@ == particle_bytes(self@));
        write_raw(w.as_slice(), out);
        Ok(())
    }

    /// Reads the fields at `pos`.
    #[verifier::spinoff_prover]
    #[verifier::rlimit(100)]
    pub fn decode(input: &[u8], pos: usize) -> (r: Result<(Particle, usize), ProtocolError>)
        requires
            pos <= input@.len(),
        ensures
            agrees(
                match r {
                    Ok((v, p)) => Ok((v@, p)),
                    Err(e) => Err(e),
                },
                input@,
                pos as int,
                parse_particle(input@.skip(pos as int)),
            ),
    {
        let cursor = pos;
        let (particle_id, cursor) = match read_i32(input, cursor) {
            Ok((x, q)) => (x, q),
            Err(e) => return Err(e),
        };
        let (long_distance, cursor) = match read_bool(input, cursor) {
            Ok((x, q)) => (x, q),
            Err(e) => return Err(e),
        };
        let (x, cursor) = match read_u64(input, cursor) {
            Ok((x, q)) => (x, q),
            Err(e) => return Err(e),
        };
        let (y, cursor) = match read_u64(input, cursor) {
            Ok((x, q)) => (x, q),
            Err(e) => return Err(e),
        };
        let (z, cursor) = match read_u64(input, cursor) {
            Ok((x, q)) => (x, q),
            Err(e) => return Err(e),
        };
        let (offset_x, cursor) = match read_u32(input, cursor) {
            Ok((x, q)) => (x, q),
            Err(e) => return Err(e),
        };
        let (offset_y, cursor) = match read_u32(input, cursor) {
            Ok((x, q)) => (x, q),
            Err(e) => return Err(e),
        };
        let (offset_z, cursor) = match read_u32(input, cursor) {
            Ok((x, q)) => (x, q),
            Err(e) => return Err(e),
        };
        let (particle_data, cursor) = match read_u32(input, cursor) {
            Ok((x, q)) => (x, q),
            Err(e) => return Err(e),
        };
        let (particle_count, cursor) = match read_i32(input, cursor) {
            Ok((x, q)) => (x, q),
            Err(e) => return Err(e),
        };
        let (raw_data, cursor) = read_greedy(input, cursor);
        assert(input@.skip(cursor as int) =~= seq![]);
        Ok((Particle { particle_id, long_distance, x, y, z, offset_x, offset_y, offset_z, particle_data, particle_count, raw_data }, cursor))
    }
}

/// The fields of the UpdateLight packet (id 0x23).
#[derive(Debug, PartialEq)]
pub struct UpdateLight {
    pub chunk_x: VarInt,
    pub chunk_z: VarInt,
    pub trust_edges: bool,
    pub sky_light_mask: VarInt,
    pub block_light_mask: VarInt,
    pub empty_sky_light_mask: VarInt,
    pub empty_block_light_mask: VarInt,
    pub raw_light_arrays: Vec<u8>,
}

pub struct UpdateLightV {
    pub chunk_x: i32,
    pub chunk_z: i32,
    pub trust_edges: bool,
    pub sky_light_mask: i32,
    pub block_light_mask: i32,
    pub empty_sky_light_mask: i32,
    pub empty_block_light_mask: i32,
    pub raw_light_arrays: Seq<u8>,
}

impl View for UpdateLight {
    type V = UpdateLightV;

    open spec fn view(&self) -> UpdateLightV {
        UpdateLightV { chunk_x: self.chunk_x.0, chunk_z: self.chunk_z.0, trust_edges: self.trust_edges, sky_light_mask: self.sky_light_mask.0, block_light_mask: self.block_light_mask.0, empty_sky_light_mask: self.empty_sky_light_mask.0, empty_block_light_mask: self.empty_block_light_mask.0, raw_light_arrays: self.raw_light_arrays@ }
    }
}

pub open spec fn update_light_fits(v: UpdateLightV) -> bool {
    true
}

pub open spec fn update_light_bytes(v: UpdateLightV) -> Seq<u8> {
    varint_bytes(v.chunk_x) + (varint_bytes(v.chunk_z) + (bool_bytes(v.trust_edges) + (varint_bytes(v.sky_light_mask) + (varint_bytes(v.block_light_mask) + (varint_bytes(v.empty_sky_light_mask) + (varint_bytes(v.empty_block_light_mask) + (v.raw_light_arrays)))))))
}

pub open spec fn parse_update_light(s: Seq<u8>) -> Parsed<UpdateLightV> {
    match parse_var_int(s) {
        Ok((chunk_x, s)) => match parse_var_int(s) {
        Ok((chunk_z, s)) => match parse_bool(s) {
        Ok((trust_edges, s)) => match parse_var_int(s) {
        Ok((sky_light_mask, s)) => match parse_var_int(s) {
        Ok((block_light_mask, s)) => match parse_var_int(s) {
        Ok((empty_sky_light_mask, s)) => match parse_var_int(s) {
        Ok((empty_block_light_mask, s)) => Ok((UpdateLightV { chunk_x, chunk_z, trust_edges, sky_light_mask, block_light_mask, empty_sky_light_mask, empty_block_light_mask, raw_light_arrays: s }, seq![])),
        Err(e) => Err(e),
    },
        Err(e) => Err(e),
    },
        Err(e) => Err(e),
    },
        Err(e) => Err(e),
    },
        Err(e) => Err(e),
    },
        Err(e) => Err(e),
    },
        Err(e) => Err(e),
    }
}

/// Every UpdateLight packet whose fields fit reads back as itself, filling the frame.
#[verifier::spinoff_prover]
#[verifier::rlimit(100)]
pub proof fn lemma_update_light_round_trip(v: UpdateLightV)
    requires
        update_light_fits(v),
    ensures
        parse_update_light(update_light_bytes(v) + seq![]) == Ok::<(UpdateLightV, Seq<u8>), ProtocolError>((v, seq![])),
{
    let rest = Seq::<u8>::empty();
    lemma_pow256_values();
    let t8 = rest;
    let t7 = v.raw_light_arrays + t8;
    let t6 = varint_bytes(v.empty_block_light_mask) + t7;
    let t5 = varint_bytes(v.empty_sky_light_mask) + t6;
    let t4 = varint_bytes(v.block_light_mask) + t5;
    let t3 = varint_bytes(v.sky_light_mask) + t4;
    let t2 = bool_bytes(v.trust_edges) + t3;
    let t1 = varint_bytes(v.chunk_z) + t2;
    let t0 = varint_bytes(v.chunk_x) + t1;
    lemma_assoc(varint_bytes(v.chunk_x), varint_bytes(v.chunk_z) + (bool_bytes(v.trust_edges) + (varint_bytes(v.sky_light_mask) + (varint_bytes(v.block_light_mask) + (varint_bytes(v.empty_sky_light_mask) + (varint_bytes(v.empty_block_light_mask) + (v.raw_light_arrays)))))), rest);
    lemma_assoc(varint_bytes(v.chunk_z), bool_bytes(v.trust_edges) + (varint_bytes(v.sky_light_mask) + (varint_bytes(v.block_light_mask) + (varint_bytes(v.empty_sky_light_mask) + (varint_bytes(v.empty_block_light_mask) + (v.raw_light_arrays))))), rest);
    lemma_assoc(bool_bytes(v.trust_edges), varint_bytes(v.sky_light_mask) + (varint_bytes(v.block_light_mask) + (varint_bytes(v.empty_sky_light_mask) + (varint_bytes(v.empty_block_light_mask) + (v.raw_light_arrays)))), rest);
    lemma_assoc(varint_bytes(v.sky_light_mask), varint_bytes(v.block_light_mask) + (varint_bytes(v.empty_sky_light_mask) + (varint_bytes(v.empty_block_light_mask) + (v.raw_light_arrays))), rest);
    lemma_assoc(varint_bytes(v.block_light_mask), varint_bytes(v.empty_sky_light_mask) + (varint_bytes(v.empty_block_light_mask) + (v.raw_light_arrays)), rest);
    lemma_assoc(varint_bytes(v.empty_sky_light_mask), varint_bytes(v.empty_block_light_mask) + (v.raw_light_arrays), rest);
    lemma_assoc(varint_bytes(v.empty_block_light_mask), v.raw_light_arrays, rest);
    assert(update_light_bytes(v) + rest == t0);
    lemma_parse_var_int(v.chunk_x, t1);
    lemma_parse_var_int(v.chunk_z, t2);
    lemma_parse_bool(v.trust_edges, t3);
    lemma_parse_var_int(v.sky_light_mask, t4);
    lemma_parse_var_int(v.block_light_mask, t5);
    lemma_parse_var_int(v.empty_sky_light_mask, t6);
    lemma_parse_var_int(v.empty_block_light_mask, t7);
    assert(v.raw_light_arrays + rest =~= v.raw_light_arrays);
}

impl UpdateLight {
    /// Appends the fields' wire form; fails, writing nothing, when a field does
    /// not fit.
    #[verifier::spinoff_prover]
    #[verifier::rlimit(100)]
    pub fn encode(&self, out: &mut Vec<u8>) -> (r: Result<(), ProtocolError>)
        ensures
            r is Ok <==> update_light_fits(self@),
            r is Ok ==> final(out)@ == old(out)@ + update_light_bytes(self@),
            r is Err ==> final(out)@ == old(out)@,
    {
        let mut w: Vec<u8> = Vec::new();
        self.chunk_x.encode(&mut w);
        assert(w@ =~= varint_bytes(self@.chunk_x));
        self.chunk_z.encode(&mut w);
        write_bool(self.trust_edges, &mut w);
        self.sky_light_mask.encode(&mut w);
        self.block_light_mask.encode(&mut w);
        self.empty_sky_light_mask.encode(&mut w);
        self.empty_block_light_mask.encode(&mut w);
        write_raw(self.raw_light_arrays.as_slice(), &mut w);
        assert(w@ == update_light_bytes(self@));
        write_raw(w.as_slice(), out);
        Ok(())
    }

    /// Reads the fields at `pos`.
    #[verifier::spinoff_prover]
    #[verifier::rlimit(100)]
    pub fn decode(input: &[u8], pos: usize) -> (r: Result<(UpdateLight, usize), ProtocolError>)
        requires
            pos <= input@.len(),
        ensures
            agrees(
                match r {
                    Ok((v, p)) => Ok((v@, p)),
                    Err(e) => Err(e),
                },
                input@,
                pos as int,
                parse_update_light(input@.skip(pos as int)),
            ),
    {
        let cursor = pos;
        let (chunk_x, cursor) = match read_var_int(input, cursor) {
            Ok((x, q)) => (VarInt(x), q),
            Err(e) => return Err(e),
        };
        let (chunk_z, cursor) = match read_var_int(input, cursor) {
            Ok((x, q)) => (VarInt(x), q),
            Err(e) => return Err(e),
        };
        let (trust_edges, cursor) = match read_bool(input, cursor) {
            Ok((x, q)) => (x, q),
            Err(e) => return Err(e),
        };
        let (sky_light_mask, cursor) = match read_var_int(input, cursor) {
            Ok((x, q)) => (VarInt(x), q),
            Err(e) => return Err(e),
        };
        let (block_light_mask, cursor) = match read_var_int(input, cursor) {
            Ok((x, q)) => (VarInt(x), q),
            Err(e) => return Err(e),
        };
        let (empty_sky_light_mask, cursor) = match read_var_int(input, cursor) {
            Ok((x, q)) => (VarInt(x), q),
            Err(e) => return Err(e),
        };
        let (empty_block_light_mask, cursor) = match read_var_int(input, cursor) {
            Ok((x, q)) => (VarInt(x), q),
            Err(e) => return Err(e),
        };
        let (raw_light_arrays, cursor) = read_greedy(input, cursor);
        assert(input@.skip(cursor as int) =~= seq![]);
        Ok((UpdateLight { chunk_x, chunk_z, trust_edges, sky_light_mask, block_light_mask, empty_sky_light_mask, empty_block_light_mask, raw_light_arrays }, cursor))
    }
}

/// The fields of the EntityPosition packet (id 0x27).
#[derive(Debug, PartialEq)]
pub struct EntityPosition {
    pub entity_id: VarInt,
    pub delta_x: i16,
    pub delta_y: i16,
    pub delta_z: i16,
    pub on_ground: bool,
}

pub struct EntityPositionV {
    pub entity_id: i32,
    pub delta_x: i16,
    pub delta_y: i16,
    pub delta_z: i16,
    pub on_ground: bool,
}

impl View for EntityPosition {
    type V = EntityPositionV;

    open spec fn view(&self) -> EntityPositionV {
        EntityPositionV { entity_id: self.entity_id.0, delta_x: self.delta_x, delta_y: self.delta_y, delta_z: self.delta_z, on_ground: self.on_ground }
    }
}

pub open spec fn entity_position_fits(v: EntityPositionV) -> bool {
    true
}

pub open spec fn entity_position_bytes(v: EntityPositionV) -> Seq<u8> {
    varint_bytes(v.entity_id) + (signed_bytes(v.delta_x as int, 2) + (signed_bytes(v.delta_y as int, 2) + (signed_bytes(v.delta_z as int, 2) + (bool_bytes(v.on_ground)))))
}

pub open spec fn parse_entity_position(s: Seq<u8>) -> Parsed<EntityPositionV> {
    match parse_var_int(s) {
        Ok((entity_id, s)) => match parse_i16(s) {
        Ok((delta_x, s)) => match parse_i16(s) {
        Ok((delta_y, s)) => match parse_i16(s) {
        Ok((delta_z, s)) => match parse_bool(s) {
        Ok((on_ground, s)) => Ok((EntityPositionV { entity_id, delta_x, delta_y, delta_z, on_ground }, s)),
        Err(e) => Err(e),
    },
        Err(e) => Err(e),
    },
        Err(e) => Err(e),
    },
        Err(e) => Err(e),
    },
        Err(e) => Err(e),
    }
}

/// Every EntityPosition packet whose fields fit reads back as itself, whatever follows.
#[verifier::spinoff_prover]
#[verifier::rlimit(100)]
pub proof fn lemma_entity_position_round_trip(v: EntityPositionV, rest: Seq<u8>)
    requires
        entity_position_fits(v),
    ensures
        parse_entity_position(entity_position_bytes(v) + rest) == Ok::<(EntityPositionV, Seq<u8>), ProtocolError>((v, rest)),
{
    lemma_pow256_values();
    let t5 = rest;
    let t4 = bool_bytes(v.on_ground) + t5;
    let t3 = signed_bytes(v.delta_z as int, 2) + t4;
    let t2 = signed_bytes(v.delta_y as int, 2) + t3;
    let t1 = signed_bytes(v.delta_x as int, 2) + t2;
    let t0 = varint_bytes(v.entity_id) + t1;
    lemma_assoc(varint_bytes(v.entity_id), signed_bytes(v.delta_x as int, 2) + (signed_bytes(v.delta_y as int, 2) + (signed_bytes(v.delta_z as int, 2) + (bool_bytes(v.on_ground)))), rest);
    lemma_assoc(signed_bytes(v.delta_x as int, 2), signed_bytes(v.delta_y as int, 2) + (signed_bytes(v.delta_z as int, 2) + (bool_bytes(v.on_ground))), rest);
    lemma_assoc(signed_bytes(v.delta_y as int, 2), signed_bytes(v.delta_z as int, 2) + (bool_bytes(v.on_ground)), rest);
    lemma_assoc(signed_bytes(v.delta_z as int, 2), bool_bytes(v.on_ground), rest);
    assert(entity_position_bytes(v) + rest == t0);
    lemma_parse_var_int(v.entity_id, t1);
    lemma_parse_signed(v.delta_x as int, 2, t2);
    lemma_parse_signed(v.delta_y as int, 2, t3);
    lemma_parse_signed(v.delta_z as int, 2, t4);
    lemma_parse_bool(v.on_ground, t5);
}

impl EntityPosition {
    /// Appends the fields' wire form; fails, writing nothing, when a field does
    /// not fit.
    #[verifier::spinoff_prover]
    #[verifier::rlimit(100)]
    pub fn encode(&self, out: &mut Vec<u8>) -> (r: Result<(), ProtocolError>)
        ensures
            r is Ok <==> entity_position_fits(self@),
            r is Ok ==> final(out)@ == old(out)@ + entity_position_bytes(self@),
            r is Err ==> final(out)@ == old(out)@,
    {
        let mut w: Vec<u8> = Vec::new();
        self.entity_id.encode(&mut w);
        assert(w@ =~= varint_bytes(self@.entity_id));
        write_i16(self.delta_x, &mut w);
        write_i16(self.delta_y, &mut w);
        write_i16(self.delta_z, &mut w);
        write_bool(self.on_ground, &mut w);
        assert(w@ == entity_position_bytes(self@));
        write_raw(w.as_slice(), out);
        Ok(())
    }

    /// Reads the fields at `pos`.
    #[verifier::spinoff_prover]
    #[verifier::rlimit(100)]
    pub fn decode(input: &[u8], pos: usize) -> (r: Result<(EntityPosition, usize), ProtocolError>)
        requires
            pos <= input@.len(),
        ensures
            agrees(
                match r {
                    Ok((v, p)) => Ok((v@, p)),
                    Err(e) => Err(e),
                },
                input@,
                pos as int,
                parse_entity_position(input@.skip(pos as int)),
            ),
    {
        let cursor = pos;
        let (entity_id, cursor) = match read_var_int(input, cursor) {
            Ok((x, q)) => (VarInt(x), q),
            Err(e) => return Err(e),
        };
        let (delta_x, cursor) = match read_i16(input, cursor) {
            Ok((x, q)) => (x, q),
            Err(e) => return Err(e),
        };
        let (delta_y, cursor) = match read_i16(input, cursor) {
            Ok((x, q)) => (x, q),
            Err(e) => return Err(e),
        };
        let (delta_z, cursor) = match read_i16(input, cursor) {
            Ok((x, q)) => (x, q),
            Err(e) => return Err(e),
        };
        let (on_ground, cursor) = match read_bool(input, cursor) {
            Ok((x, q)) => (x, q),
            Err(e) => return Err(e),
        };
        Ok((EntityPosition { entity_id, delta_x, delta_y, delta_z, on_ground }, cursor))
    }
}

/// The fields of the EntityPositionAndRotation packet (id 0x28).
#[derive(Debug, PartialEq)]
pub struct EntityPositionAndRotation {
    pub entity_id: VarInt,
    pub delta_x: i16,
    pub delta_y: i16,
    pub delta_z: i16,
    pub yaw: Angle,
    pub pitch: Angle,
    pub on_ground: bool,
}

pub struct EntityPositionAndRotationV {
    pub entity_id: i32,
    pub delta_x: i16,
    pub delta_y: i16,
    pub delta_z: i16,
    pub yaw: u8,
    pub pitch: u8,
    pub on_ground: bool,
}

impl View for EntityPositionAndRotation {
    type V = EntityPositionAndRotationV;

    open spec fn view(&self) -> EntityPositionAndRotationV {
        EntityPositionAndRotationV { entity_id: self.entity_id.0, delta_x: self.delta_x, delta_y: self.delta_y, delta_z: self.delta_z, yaw: self.yaw.0, pitch: self.pitch.0, on_ground: self.on_ground }
    }
}

pub open spec fn entity_position_and_rotation_fits(v: EntityPositionAndRotationV) -> bool {
    true
}

pub open spec fn entity_position_and_rotation_bytes(v: EntityPositionAndRotationV) -> Seq<u8> {
    varint_bytes(v.entity_id) + (signed_bytes(v.delta_x as int, 2) + (signed_bytes(v.delta_y as int, 2) + (signed_bytes(v.delta_z as int, 2) + (be_bytes(v.yaw as nat, 1) + (be_bytes(v.pitch as nat, 1) + (bool_bytes(v.on_ground)))))))
}

pub open spec fn parse_entity_position_and_rotation(s: Seq<u8>) -> Parsed<EntityPositionAndRotationV> {
    match parse_var_int(s) {
        Ok((entity_id, s)) => match parse_i16(s) {
        Ok((delta_x, s)) => match parse_i16(s) {
        Ok((delta_y, s)) => match parse_i16(s) {
        Ok((delta_z, s)) => match parse_u8(s) {
        Ok((yaw, s)) => match parse_u8(s) {
        Ok((pitch, s)) => match parse_bool(s) {
        Ok((on_ground, s)) => Ok((EntityPositionAndRotationV { entity_id, delta_x, delta_y, delta_z, yaw, pitch, on_ground }, s)),
        Err(e) => Err(e),
    },
        Err(e) => Err(e),
    },
        Err(e) => Err(e),
    },
        Err(e) => Err(e),
    },
        Err(e) => Err(e),
    },
        Err(e) => Err(e),
    },
        Err(e) => Err(e),
    }
}

/// Every EntityPositionAndRotation packet whose fields fit reads back as itself, whatever follows.
#[verifier::spinoff_prover]
#[verifier::rlimit(100)]
pub proof fn lemma_entity_position_and_rotation_round_trip(v: EntityPositionAndRotationV, rest: Seq<u8>)
    requires
        entity_position_and_rotation_fits(v),
    ensures
        parse_entity_position_and_rotation(entity_position_and_rotation_bytes(v) + rest) == Ok::<(EntityPositionAndRotationV, Seq<u8>), ProtocolError>((v, rest)),
{
    lemma_pow256_values();
    let t7 = rest;
    let t6 = bool_bytes(v.on_ground) + t7;
    let t5 = be_bytes(v.pitch as nat, 1) + t6;
    let t4 = be_bytes(v.yaw as nat, 1) + t5;
    let t3 = signed_bytes(v.delta_z as int, 2) + t4;
    let t2 = signed_bytes(v.delta_y as int, 2) + t3;
    let t1 = signed_bytes(v.delta_x as int, 2) + t2;
    let t0 = varint_bytes(v.entity_id) + t1;
    lemma_assoc(varint_bytes(v.entity_id), signed_bytes(v.delta_x as int, 2) + (signed_bytes(v.delta_y as int, 2) + (signed_bytes(v.delta_z as int, 2) + (be_bytes(v.yaw as nat, 1) + (be_bytes(v.pitch as nat, 1) + (bool_bytes(v.on_ground)))))), rest);
    lemma_assoc(signed_bytes(v.delta_x as int, 2), signed_bytes(v.delta_y as int, 2) + (signed_bytes(v.delta_z as int, 2) + (be_bytes(v.yaw as nat, 1) + (be_bytes(v.pitch as nat, 1) + (bool_bytes(v.on_ground))))), rest);
    lemma_assoc(signed_bytes(v.delta_y as int, 2), signed_bytes(v.delta_z as int, 2) + (be_bytes(v.yaw as nat, 1) + (be_bytes(v.pitch as nat, 1) + (bool_bytes(v.on_ground)))), rest);
    lemma_assoc(signed_bytes(v.delta_z as int, 2), be_bytes(v.yaw as nat, 1) + (be_bytes(v.pitch as nat, 1) + (bool_bytes(v.on_ground))), rest);
    lemma_assoc(be_bytes(v.yaw as nat, 1), be_bytes(v.pitch as nat, 1) + (bool_bytes(v.on_ground)), rest);
    lemma_assoc(be_bytes(v.pitch as nat, 1), bool_bytes(v.on_ground), rest);
    assert(entity_position_and_rotation_bytes(v) + rest == t0);
    lemma_parse_var_int(v.entity_id, t1);
    lemma_parse_signed(v.delta_x as int, 2, t2);
    lemma_parse_signed(v.delta_y as int, 2, t3);
    lemma_parse_signed(v.delta_z as int, 2, t4);
    lemma_parse_be(v.yaw as nat, 1, t5);
    lemma_parse_be(v.pitch as nat, 1, t6);
    lemma_parse_bool(v.on_ground, t7);
}

impl EntityPositionAndRotation {
    /// Appends the fields' wire form; fails, writing nothing, when a field does
    /// not fit.
    #[verifier::spinoff_prover]
    #[verifier::rlimit(100)]
    pub fn encode(&self, out: &mut Vec<u8>) -> (r: Result<(), ProtocolError>)
        ensures
            r is Ok <==> entity_position_and_rotation_fits(self@),
            r is Ok ==> final(out)@ == old(out)@ + entity_position_and_rotation_bytes(self@),
            r is Err ==> final(out)@ == old(out)@,
    {
        let mut w: Vec<u8> = Vec::new();
        self.entity_id.encode(&mut w);
        assert(w@ =~= varint_bytes(self@.entity_id));
        write_i16(self.delta_x, &mut w);
        write_i16(self.delta_y, &mut w);
        write_i16(self.delta_z, &mut w);
        self.yaw.encode(&mut w);
        self.pitch.encode(&mut w);
        write_bool(self.on_ground, &mut w);
        assert(w@ == entity_position_and_rotation_bytes(self@));
        write_raw(w.as_slice(), out);
        Ok(())
    }

    /// Reads the fields at `pos`.
    #[verifier::spinoff_prover]
    #[verifier::rlimit(100)]
    pub fn decode(input: &[u8], pos: usize) -> (r: Result<(EntityPositionAndRotation, usize), ProtocolError>)
        requires
            pos <= input@.len(),
        ensures
            agrees(
                match r {
                    Ok((v, p)) => Ok((v@, p)),
                    Err(e) => Err(e),
                },
                input@,
                pos as int,
                parse_entity_position_and_rotation(input@.skip(pos as int)),
            ),
    {
        let cursor = pos;
        let (entity_id, cursor) = match read_var_int(input, cursor) {
            Ok((x, q)) => (VarInt(x), q),
            Err(e) => return Err(e),
        };
        let (delta_x, cursor) = match read_i16(input, cursor) {
            Ok((x, q)) => (x, q),
            Err(e) => return Err(e),
        };
        let (delta_y, cursor) = match read_i16(input, cursor) {
            Ok((x, q)) => (x, q),
            Err(e) => return Err(e),
        };
        let (delta_z, cursor) = match read_i16(input, cursor) {
            Ok((x, q)) => (x, q),
            Err(e) => return Err(e),
        };
        let (yaw, cursor) = match Angle::decode(input, cursor) {
            Ok((x, q)) => (x, q),
            Err(e) => return Err(e),
        };
        let (pitch, cursor) = match Angle::decode(input, cursor) {
            Ok((x, q)) => (x, q),
            Err(e) => return Err(e),
        };
        let (on_ground, cursor) = match read_bool(input, cursor) {
            Ok((x, q)) => (x, q),
            Err(e) => return Err(e),
        };
        Ok((EntityPositionAndRotation { entity_id, delta_x, delta_y, delta_z, yaw, pitch, on_ground }, cursor))
    }
}

/// The fields of the EntityRotation packet (id 0x29).
#[derive(Debug, PartialEq)]
pub struct EntityRotation {
    pub entity_id: VarInt,
    pub yaw: Angle,
    pub pitch: Angle,
    pub on_ground: bool,
}

pub struct EntityRotationV {
    pub entity_id: i32,
    pub yaw: u8,
    pub pitch: u8,
    pub on_ground: bool,
}

impl View for EntityRotation {
    type V = EntityRotationV;

    open spec fn view(&self) -> EntityRotationV {
        EntityRotationV { entity_id: self.entity_id.0, yaw: self.yaw.0, pitch: self.pitch.0, on_ground: self.on_ground }
    }
}

pub open spec fn entity_rotation_fits(v: EntityRotationV) -> bool {
    true
}

pub open spec fn entity_rotation_bytes(v: EntityRotationV) -> Seq<u8> {
    varint_bytes(v.entity_id) + (be_bytes(v.yaw as nat, 1) + (be_bytes(v.pitch as nat, 1) + (bool_bytes(v.on_ground))))
}

pub open spec fn parse_entity_rotation(s: Seq<u8>) -> Parsed<EntityRotationV> {
    match parse_var_int(s) {
        Ok((entity_id, s)) => match parse_u8(s) {
        Ok((yaw, s)) => match parse_u8(s) {
        Ok((pitch, s)) => match parse_bool(s) {
        Ok((on_ground, s)) => Ok((EntityRotationV { entity_id, yaw, pitch, on_ground }, s)),
        Err(e) => Err(e),
    },
        Err(e) => Err(e),
    },
        Err(e) => Err(e),
    },
        Err(e) => Err(e),
    }
}

/// Every EntityRotation packet whose fields fit reads back as itself, whatever follows.
#[verifier::spinoff_prover]
#[verifier::rlimit(100)]
pub proof fn lemma_entity_rotation_round_trip(v: EntityRotationV, rest: Seq<u8>)
    requires
        entity_rotation_fits(v),
    ensures
        parse_entity_rotation(entity_rotation_bytes(v) + rest) == Ok::<(EntityRotationV, Seq<u8>), ProtocolError>((v, rest)),
{
    lemma_pow256_values();
    let t4 = rest;
    let t3 = bool_bytes(v.on_ground) + t4;
    let t2 = be_bytes(v.pitch as nat, 1) + t3;
    let t1 = be_bytes(v.yaw as nat, 1) + t2;
    let t0 = varint_bytes(v.entity_id) + t1;
    lemma_assoc(varint_bytes(v.entity_id), be_bytes(v.yaw as nat, 1) + (be_bytes(v.pitch as nat, 1) + (bool_bytes(v.on_ground))), rest);
    lemma_assoc(be_bytes(v.yaw as nat, 1), be_bytes(v.pitch as nat, 1) + (bool_bytes(v.on_ground)), rest);
    lemma_assoc(be_bytes(v.pitch as nat, 1), bool_bytes(v.on_ground), rest);
    assert(entity_rotation_bytes(v) + rest == t0);
    lemma_parse_var_int(v.entity_id, t1);
    lemma_parse_be(v.yaw as nat, 1, t2);
    lemma_parse_be(v.pitch as nat, 1, t3);
    lemma_parse_bool(v.on_ground, t4);
}

impl EntityRotation {
    /// Appends the fields' wire form; fails, writing nothing, when a field does
    /// not fit.
    #[verifier::spinoff_prover]
    #[verifier::rlimit(100)]
    pub fn encode(&self, out: &mut Vec<u8>) -> (r: Result<(), ProtocolError>)
        ensures
            r is Ok <==> entity_rotation_fits(self@),
            r is Ok ==> final(out)@ == old(out)@ + entity_rotation_bytes(self@),
            r is Err ==> final(out)@ == old(out)@,
    {
        let mut w: Vec<u8> = Vec::new();
        self.entity_id.encode(&mut w);
        assert(w@ =~= varint_bytes(self@.entity_id));
        self.yaw.encode(&mut w);
        self.pitch.encode(&mut w);
        write_bool(self.on_ground, &mut w);
        assert(w@ == entity_rotation_bytes(self@));
        write_raw(w.as_slice(), out);
        Ok(())
    }

    /// Reads the fields at `pos`.
    #[verifier::spinoff_prover]
    #[verifier::rlimit(100)]
    pub fn decode(input: &[u8], pos: usize) -> (r: Result<(EntityRotation, usize), ProtocolError>)
        requires
            pos <= input@.len(),
        ensures
            agrees(
                match r {
                    Ok((v, p)) => Ok((v@, p)),
                    Err(e) => Err(e),
                },
                input@,
                pos as int,
                parse_entity_rotation(input@.skip(pos as int)),
            ),
    {
        let cursor = pos;
        let (entity_id, cursor) = match read_var_int(input, cursor) {
            Ok((x, q)) => (VarInt(x), q),
            Err(e) => return Err(e),
        };
        let (yaw, cursor) = match Angle::decode(input, cursor) {
            Ok((x, q)) => (x, q),
            Err(e) => return Err(e),
        };
        let (pitch, cursor) = match Angle::decode(input, cursor) {
            Ok((x, q)) => (x, q),
            Err(e) => return Err(e),
        };
        let (on_ground, cursor) = match read_bool(input, cursor) {
            Ok((x, q)) => (x, q),
            Err(e) => return Err(e),
        };
        Ok((EntityRotation { entity_id, yaw, pitch, on_ground }, cursor))
    }
}

/// The fields of the EntityMovement packet (id 0x2a).
#[derive(Debug, PartialEq)]
pub struct EntityMovement {
    pub entity_id: VarInt,
}

pub struct EntityMovementV {
    pub entity_id: i32,
}

impl View for EntityMovement {
    type V = EntityMovementV;

    open spec fn view(&self) -> EntityMovementV {
        EntityMovementV { entity_id: self.entity_id.0 }
    }
}

pub open spec fn entity_movement_fits(v: EntityMovementV) -> bool {
    true
}

pub open spec fn entity_movement_bytes(v: EntityMovementV) -> Seq<u8> {
    varint_bytes(v.entity_id)
}

pub open spec fn parse_entity_movement(s: Seq<u8>) -> Parsed<EntityMovementV> {
    match parse_var_int(s) {
        Ok((entity_id, s)) => Ok((EntityMovementV { entity_id }, s)),
        Err(e) => Err(e),
    }
}

/// Every EntityMovement packet whose fields fit reads back as itself, whatever follows.
#[verifier::spinoff_prover]
#[verifier::rlimit(100)]
pub proof fn lemma_entity_movement_round_trip(v: EntityMovementV, rest: Seq<u8>)
    requires
        entity_movement_fits(v),
    ensures
        parse_entity_movement(entity_movement_bytes(v) + rest) == Ok::<(EntityMovementV, Seq<u8>), ProtocolError>((v, rest)),
{
    lemma_pow256_values();
    let t1 = rest;
    let t0 = varint_bytes(v.entity_id) + t1;
    assert(entity_movement_bytes(v) + rest == t0);
    lemma_parse_var_int(v.entity_id, t1);
}

impl EntityMovement {
    /// Appends the fields' wire form; fails, writing nothing, when a field does
    /// not fit.
    #[verifier::spinoff_prover]
    #[verifier::rlimit(100)]
    pub fn encode(&self, out: &mut Vec<u8>) -> (r: Result<(), ProtocolError>)
        ensures
            r is Ok <==> entity_movement_fits(self@),
            r is Ok ==> final(out)@ == old(out)@ + entity_movement_bytes(self@),
            r is Err ==> final(out)@ == old(out)@,
    {
        let mut w: Vec<u8> = Vec::new();
        self.entity_id.encode(&mut w);
        assert(w@ =~= varint_bytes(self@.entity_id));
        assert(w@ == entity_movement_bytes(self@));
        write_raw(w.as_slice(), out);
        Ok(())
    }

    /// Reads the fields at `pos`.
    #[verifier::spinoff_prover]
    #[verifier::rlimit(100)]
    pub fn decode(input: &[u8], pos: usize) -> (r: Result<(EntityMovement, usize), ProtocolError>)
        requires
            pos <= input@.len(),
        ensures
            agrees(
                match r {
                    Ok((v, p)) => Ok((v@, p)),
                    Err(e) => Err(e),
                },
                input@,
                pos as int,
                parse_entity_movement(input@.skip(pos as int)),
            ),
    {
        let cursor = pos;
        let (entity_id, cursor) = match read_var_int(input, cursor) {
            Ok((x, q)) => (VarInt(x), q),
            Err(e) => return Err(e),
        };
        Ok((EntityMovement { entity_id }, cursor))
    }
}

/// The fields of the VehicleMove packet (id 0x2b).
#[derive(Debug, PartialEq)]
pub struct VehicleMove {
    pub x: u64,
    pub y: u64,
    pub z: u64,
    pub yaw: u32,
    pub pitch: u32,
}

pub struct VehicleMoveV {
    pub x: u64,
    pub y: u64,
    pub z: u64,
    pub yaw: u32,
    pub pitch: u32,
}

impl View for VehicleMove {
    type V = VehicleMoveV;

    open spec fn view(&self) -> VehicleMoveV {
        VehicleMoveV { x: self.x, y: self.y, z: self.z, yaw: self.yaw, pitch: self.pitch }
    }
}

pub open spec fn vehicle_move_fits(v: VehicleMoveV) -> bool {
    true
}

pub open spec fn vehicle_move_bytes(v: VehicleMoveV) -> Seq<u8> {
    be_bytes(v.x as nat, 8) + (be_bytes(v.y as nat, 8) + (be_bytes(v.z as nat, 8) + (be_bytes(v.yaw as nat, 4) + (be_bytes(v.pitch as nat, 4)))))
}

pub open spec fn parse_vehicle_move(s: Seq<u8>) -> Parsed<VehicleMoveV> {
    match parse_u64(s) {
        Ok((x, s)) => match parse_u64(s) {
        Ok((y, s)) => match parse_u64(s) {
        Ok((z, s)) => match parse_u32(s) {
        Ok((yaw, s)) => match parse_u32(s) {
        Ok((pitch, s)) => Ok((VehicleMoveV { x, y, z, yaw, pitch }, s)),
        Err(e) => Err(e),
    },
        Err(e) => Err(e),
    },
        Err(e) => Err(e),
    },
        Err(e) => Err(e),
    },
        Err(e) => Err(e),
    }
}

/// Every VehicleMove packet whose fields fit reads back as itself, whatever follows.
#[verifier::spinoff_prover]
#[verifier::rlimit(100)]
pub proof fn lemma_vehicle_move_round_trip(v: VehicleMoveV, rest: Seq<u8>)
    requires
        vehicle_move_fits(v),
    ensures
        parse_vehicle_move(vehicle_move_bytes(v) + rest) == Ok::<(VehicleMoveV, Seq<u8>), ProtocolError>((v, rest)),
{
    lemma_pow256_values();
    let t5 = rest;
    let t4 = be_bytes(v.pitch as nat, 4) + t5;
    let t3 = be_bytes(v.yaw as nat, 4) + t4;
    let t2 = be_bytes(v.z as nat, 8) + t3;
    let t1 = be_bytes(v.y as nat, 8) + t2;
    let t0 = be_bytes(v.x as nat, 8) + t1;
    lemma_assoc(be_bytes(v.x as nat, 8), be_bytes(v.y as nat, 8) + (be_bytes(v.z as nat, 8) + (be_bytes(v.yaw as nat, 4) + (be_bytes(v.pitch as nat, 4)))), rest);
    lemma_assoc(be_bytes(v.y as nat, 8), be_bytes(v.z as nat, 8) + (be_bytes(v.yaw as nat, 4) + (be_bytes(v.pitch as nat, 4))), rest);
    lemma_assoc(be_bytes(v.z as nat, 8), be_bytes(v.yaw as nat, 4) + (be_bytes(v.pitch as nat, 4)), rest);
    lemma_assoc(be_bytes(v.yaw as nat, 4), be_bytes(v.pitch as nat, 4), rest);
    assert(vehicle_move_bytes(v) + rest == t0);
    lemma_parse_be(v.x as nat, 8, t1);
    lemma_parse_be(v.y as nat, 8, t2);
    lemma_parse_be(v.z as nat, 8, t3);
    lemma_parse_be(v.yaw as nat, 4, t4);
    lemma_parse_be(v.pitch as nat, 4, t5);
}

impl VehicleMove {
    /// Appends the fields' wire form; fails, writing nothing, when a field does
    /// not fit.
    #[verifier::spinoff_prover]
    #[verifier::rlimit(100)]
    pub fn encode(&self, out: &mut Vec<u8>) -> (r: Result<(), ProtocolError>)
        ensures
            r is Ok <==> vehicle_move_fits(self@),
            r is Ok ==> final(out)@ == old(out)@ + vehicle_move_bytes(self@),
            r is Err ==> final(out)@ == old(out)@,
    {
        let mut w: Vec<u8> = Vec::new();
        write_u64(self.x, &mut w);
        assert(w@ =~= be_bytes(self@.x as nat, 8));
        write_u64(self.y, &mut w);
        write_u64(self.z, &mut w);
        write_u32(self.yaw, &mut w);
        write_u32(self.pitch, &mut w);
        assert(w@ == vehicle_move_bytes(self@));
        write_raw(w.as_slice(), out);
        Ok(())
    }

    /// Reads the fields at `pos`.
    #[verifier::spinoff_prover]
    #[verifier::rlimit(100)]
    pub fn decode(input: &[u8], pos: usize) -> (r: Result<(VehicleMove, usize), ProtocolError>)
        requires
            pos <= input@.len(),
        ensures
            agrees(
                match r {
                    Ok((v, p)) => Ok((v@, p)),
                    Err(e) => Err(e),
                },
                input@,
                pos as int,
                parse_vehicle_move(input@.skip(pos as int)),
            ),
    {
        let cursor = pos;
        let (x, cursor) = match read_u64(input, cursor) {
            Ok((x, q)) => (x, q),
            Err(e) => return Err(e),
        };
        let (y, cursor) = match read_u64(input, cursor) {
            Ok((x, q)) => (x, q),
            Err(e) => return Err(e),
        };
        let (z, cursor) = match read_u64(input, cursor) {
            Ok((x, q)) => (x, q),
            Err(e) => return Err(e),
        };
        let (yaw, cursor) = match read_u32(input, cursor) {
            Ok((x, q)) => (x, q),
            Err(e) => return Err(e),
        };
        let (pitch, cursor) = match read_u32(input, cursor) {
            Ok((x, q)) => (x, q),
            Err(e) => return Err(e),
        };
        Ok((VehicleMove { x, y, z, yaw, pitch }, cursor))
    }
}

/// The fields of the OpenBook packet (id 0x2c).
#[derive(Debug, PartialEq)]
pub struct OpenBook {
    pub hand: VarInt,
}

pub struct OpenBookV {
    pub hand: i32,
}

impl View for OpenBook {
    type V = OpenBookV;

    open spec fn view(&self) -> OpenBookV {
        OpenBookV { hand: self.hand.0 }
    }
}

pub open spec fn open_book_fits(v: OpenBookV) -> bool {
    true
}

pub open spec fn open_book_bytes(v: OpenBookV) -> Seq<u8> {
    varint_bytes(v.hand)
}

pub open spec fn parse_open_book(s: Seq<u8>) -> Parsed<OpenBookV> {
    match parse_var_int(s) {
        Ok((hand, s)) => Ok((OpenBookV { hand }, s)),
        Err(e) => Err(e),
    }
}

/// Every OpenBook packet whose fields fit reads back as itself, whatever follows.
#[verifier::spinoff_prover]
#[verifier::rlimit(100)]
pub proof fn lemma_open_book_round_trip(v: OpenBookV, rest: Seq<u8>)
    requires
        open_book_fits(v),
    ensures
        parse_open_book(open_book_bytes(v) + rest) == Ok::<(OpenBookV, Seq<u8>), ProtocolError>((v, rest)),
{
    lemma_pow256_values();
    let t1 = rest;
    let t0 = varint_bytes(v.hand) + t1;
    assert(open_book_bytes(v) + rest == t0);
    lemma_parse_var_int(v.hand, t1);
}

impl OpenBook {
    /// Appends the fields' wire form; fails, writing nothing, when a field does
    /// not fit.
    #[verifier::spinoff_prover]
    #[verifier::rlimit(100)]
    pub fn encode(&self, out: &mut Vec<u8>) -> (r: Result<(), ProtocolError>)
        ensures
            r is Ok <==> open_book_fits(self@),
            r is Ok ==> final(out)@ == old(out)@ + open_book_bytes(self@),
            r is Err ==> final(out)@ == old(out)@,
    {
        let mut w: Vec<u8> = Vec::new();
        self.hand.encode(&mut w);
        assert(w@ =~= varint_bytes(self@.hand));
        assert(w@ == open_book_bytes(self@));
        write_raw(w.as_slice(), out);
        Ok(())
    }

    /// Reads the fields at `pos`.
    #[verifier::spinoff_prover]
    #[verifier::rlimit(100)]
    pub fn decode(input: &[u8], pos: usize) -> (r: Result<(OpenBook, usize), ProtocolError>)
        requires
            pos <= input@.len(),
        ensures
            agrees(
                match r {
                    Ok((v, p)) => Ok((v@, p)),
                    Err(e) => Err(e),
                },
                input@,
                pos as int,
                parse_open_book(input@.skip(pos as int)),
            ),
    {
        let cursor = pos;
        let (hand, cursor) = match read_var_int(input, cursor) {
            Ok((x, q)) => (VarInt(x), q),
            Err(e) => return Err(e),
        };
        Ok((OpenBook { hand }, cursor))
    }
}

/// The fields of the OpenWindow packet (id 0x2d).
#[derive(Debug, PartialEq)]
pub struct OpenWindow {
    pub window_id: VarInt,
    pub window_type: VarInt,
    pub window_title: Chat,
}

pub struct OpenWindowV {
    pub window_id: i32,
    pub window_type: i32,
    pub window_title: Seq<char>,
}

impl View for OpenWindow {
    type V = OpenWindowV;

    open spec fn view(&self) -> OpenWindowV {
        OpenWindowV { window_id: self.window_id.0, window_type: self.window_type.0, window_title: self.window_title.0.0@ }
    }
}

pub open spec fn open_window_fits(v: OpenWindowV) -> bool {
    short_string_fits(v.window_title)
}

pub open spec fn open_window_bytes(v: OpenWindowV) -> Seq<u8> {
    varint_bytes(v.window_id) + (varint_bytes(v.window_type) + (string_bytes(v.window_title)))
}

pub open spec fn parse_open_window(s: Seq<u8>) -> Parsed<OpenWindowV> {
    match parse_var_int(s) {
        Ok((window_id, s)) => match parse_var_int(s) {
        Ok((window_type, s)) => match parse_short_string(s) {
        Ok((window_title, s)) => Ok((OpenWindowV { window_id, window_type, window_title }, s)),
        Err(e) => Err(e),
    },
        Err(e) => Err(e),
    },
        Err(e) => Err(e),
    }
}

/// Every OpenWindow packet whose fields fit reads back as itself, whatever follows.
#[verifier::spinoff_prover]
#[verifier::rlimit(100)]
pub proof fn lemma_open_window_round_trip(v: OpenWindowV, rest: Seq<u8>)
    requires
        open_window_fits(v),
    ensures
        parse_open_window(open_window_bytes(v) + rest) == Ok::<(OpenWindowV, Seq<u8>), ProtocolError>((v, rest)),
{
    lemma_pow256_values();
    let t3 = rest;
    let t2 = string_bytes(v.window_title) + t3;
    let t1 = varint_bytes(v.window_type) + t2;
    let t0 = varint_bytes(v.window_id) + t1;
    lemma_assoc(varint_bytes(v.window_id), varint_bytes(v.window_type) + (string_bytes(v.window_title)), rest);
    lemma_assoc(varint_bytes(v.window_type), string_bytes(v.window_title), rest);
    assert(open_window_bytes(v) + rest == t0);
    lemma_parse_var_int(v.window_id, t1);
    lemma_parse_var_int(v.window_type, t2);
    lemma_parse_short_string(v.window_title, t3);
}

impl OpenWindow {
    /// Appends the fields' wire form; fails, writing nothing, when a field does
    /// not fit.
    #[verifier::spinoff_prover]
    #[verifier::rlimit(100)]
    pub fn encode(&self, out: &mut Vec<u8>) -> (r: Result<(), ProtocolError>)
        ensures
            r is Ok <==> open_window_fits(self@),
            r is Ok ==> final(out)@ == old(out)@ + open_window_bytes(self@),
            r is Err ==> final(out)@ == old(out)@,
    {
        let mut w: Vec<u8> = Vec::new();
        self.window_id.encode(&mut w);
        assert(w@ =~= varint_bytes(self@.window_id));
        self.window_type.encode(&mut w);
        if utf8_len(&self.window_title.0.0) > 32767 {
            return Err(ProtocolError::StringTooLong);
        }
        self.window_title.encode(&mut w);
        assert(w@ == open_window_bytes(self@));
        write_raw(w.as_slice(), out);
        Ok(())
    }

    /// Reads the fields at `pos`.
    #[verifier::spinoff_prover]
    #[verifier::rlimit(100)]
    pub fn decode(input: &[u8], pos: usize) -> (r: Result<(OpenWindow, usize), ProtocolError>)
        requires
            pos <= input@.len(),
        ensures
            agrees(
                match r {
                    Ok((v, p)) => Ok((v@, p)),
                    Err(e) => Err(e),
                },
                input@,
                pos as int,
                parse_open_window(input@.skip(pos as int)),
            ),
    {
        let cursor = pos;
        let (window_id, cursor) = match read_var_int(input, cursor) {
            Ok((x, q)) => (VarInt(x), q),
            Err(e) => return Err(e),
        };
        let (window_type, cursor) = match read_var_int(input, cursor) {
            Ok((x, q)) => (VarInt(x), q),
            Err(e) => return Err(e),
        };
        let (window_title, cursor) = match Chat::decode(input, cursor) {
            Ok((x, q)) => (x, q),
            Err(e) => return Err(e),
        };
        Ok((OpenWindow { window_id, window_type, window_title }, cursor))
    }
}

/// The fields of the OpenSignEditor packet (id 0x2e).
#[derive(Debug, PartialEq)]
pub struct OpenSignEditor {
    pub location: Position,
}

pub struct OpenSignEditorV {
    pub location: Position,
}

impl View for OpenSignEditor {
    type V = OpenSignEditorV;

    open spec fn view(&self) -> OpenSignEditorV {
        OpenSignEditorV { location: self.location }
    }
}

pub open spec fn open_sign_editor_fits(v: OpenSignEditorV) -> bool {
    position_in_range(v.location)
}

pub open spec fn open_sign_editor_bytes(v: OpenSignEditorV) -> Seq<u8> {
    position_bytes(v.location)
}

pub open spec fn parse_open_sign_editor(s: Seq<u8>) -> Parsed<OpenSignEditorV> {
    match parse_position(s) {
        Ok((location, s)) => Ok((OpenSignEditorV { location }, s)),
        Err(e) => Err(e),
    }
}

/// Every OpenSignEditor packet whose fields fit reads back as itself, whatever follows.
#[verifier::spinoff_prover]
#[verifier::rlimit(100)]
pub proof fn lemma_open_sign_editor_round_trip(v: OpenSignEditorV, rest: Seq<u8>)
    requires
        open_sign_editor_fits(v),
    ensures
        parse_open_sign_editor(open_sign_editor_bytes(v) + rest) == Ok::<(OpenSignEditorV, Seq<u8>), ProtocolError>((v, rest)),
{
    lemma_pow256_values();
    let t1 = rest;
    let t0 = position_bytes(v.location) + t1;
    assert(open_sign_editor_bytes(v) + rest == t0);
    lemma_position_round_trip(v.location, t1);
}

impl OpenSignEditor {
    /// Appends the fields' wire form; fails, writing nothing, when a field does
    /// not fit.
    #[verifier::spinoff_prover]
    #[verifier::rlimit(100)]
    pub fn encode(&self, out: &mut Vec<u8>) -> (r: Result<(), ProtocolError>)
        ensures
            r is Ok <==> open_sign_editor_fits(self@),
            r is Ok ==> final(out)@ == old(out)@ + open_sign_editor_bytes(self@),
            r is Err ==> final(out)@ == old(out)@,
    {
        let mut w: Vec<u8> = Vec::new();
        match self.location.encode(&mut w) {
            Ok(()) => {},
            Err(e) => return Err(e),
        }
        assert(w@ =~= position_bytes(self@.location));
        assert(w@ == open_sign_editor_bytes(self@));
        write_raw(w.as_slice(), out);
        Ok(())
    }

    /// Reads the fields at `pos`.
    #[verifier::spinoff_prover]
    #[verifier::rlimit(100)]
    pub fn decode(input: &[u8], pos: usize) -> (r: Result<(OpenSignEditor, usize), ProtocolError>)
        requires
            pos <= input@.len(),
        ensures
            agrees(
                match r {
                    Ok((v, p)) => Ok((v@, p)),
                    Err(e) => Err(e),
                },
                input@,
                pos as int,
                parse_open_sign_editor(input@.skip(pos as int)),
            ),
    {
        let cursor = pos;
        let (location, cursor) = match Position::decode(input, cursor) {
            Ok((x, q)) => (x, q),
            Err(e) => return Err(e),
        };
        Ok((OpenSignEditor { location }, cursor))
    }
}

/// The fields of the CraftRecipeResponse packet (id 0x2f).
#[derive(Debug, PartialEq)]
pub struct CraftRecipeResponse {
    pub window_id: u8,
    pub recipe: Identifier,
}

pub struct CraftRecipeResponseV {
    pub window_id: u8,
    pub recipe: Seq<char>,
}

impl View for CraftRecipeResponse {
    type V = CraftRecipeResponseV;

    open spec fn view(&self) -> CraftRecipeResponseV {
        CraftRecipeResponseV { window_id: self.window_id, recipe: self.recipe.0.0@ }
    }
}

pub open spec fn craft_recipe_response_fits(v: CraftRecipeResponseV) -> bool {
    short_string_fits(v.recipe)
}

pub open spec fn craft_recipe_response_bytes(v: CraftRecipeResponseV) -> Seq<u8> {
    be_bytes(v.window_id as nat, 1) + (string_bytes(v.recipe))
}

pub open spec fn parse_craft_recipe_response(s: Seq<u8>) -> Parsed<CraftRecipeResponseV> {
    match parse_u8(s) {
        Ok((window_id, s)) => match parse_short_string(s) {
        Ok((recipe, s)) => Ok((CraftRecipeResponseV { window_id, recipe }, s)),
        Err(e) => Err(e),
    },
        Err(e) => Err(e),
    }
}

/// Every CraftRecipeResponse packet whose fields fit reads back as itself, whatever follows.
#[verifier::spinoff_prover]
#[verifier::rlimit(100)]
pub proof fn lemma_craft_recipe_response_round_trip(v: CraftRecipeResponseV, rest: Seq<u8>)
    requires
        craft_recipe_response_fits(v),
    ensures
        parse_craft_recipe_response(craft_recipe_response_bytes(v) + rest) == Ok::<(CraftRecipeResponseV, Seq<u8>), ProtocolError>((v, rest)),
{
    lemma_pow256_values();
    let t2 = rest;
    let t1 = string_bytes(v.recipe) + t2;
    let t0 = be_bytes(v.window_id as nat, 1) + t1;
    lemma_assoc(be_bytes(v.window_id as nat, 1), string_bytes(v.recipe), rest);
    assert(craft_recipe_response_bytes(v) + rest == t0);
    lemma_parse_be(v.window_id as nat, 1, t1);
    lemma_parse_short_string(v.recipe, t2);
}

impl CraftRecipeResponse {
    /// Appends the fields' wire form; fails, writing nothing, when a field does
    /// not fit.
    #[verifier::spinoff_prover]
    #[verifier::rlimit(100)]
    pub fn encode(&self, out: &mut Vec<u8>) -> (r: Result<(), ProtocolError>)
        ensures
            r is Ok <==> craft_recipe_response_fits(self@),
            r is Ok ==> final(out)@ == old(out)@ + craft_recipe_response_bytes(self@),
            r is Err ==> final(out)@ == old(out)@,
    {
        let mut w: Vec<u8> = Vec::new();
        write_u8(self.window_id, &mut w);
        assert(w@ =~= be_bytes(self@.window_id as nat, 1));
        if utf8_len(&self.recipe.0.0) > 32767 {
            return Err(ProtocolError::StringTooLong);
        }
        self.recipe.encode(&mut w);
        assert(w@ == craft_recipe_response_bytes(self@));
        write_raw(w.as_slice(), out);
        Ok(())
    }

    /// Reads the fields at `pos`.
    #[verifier::spinoff_prover]
    #[verifier::rlimit(100)]
    pub fn decode(input: &[u8], pos: usize) -> (r: Result<(CraftRecipeResponse, usize), ProtocolError>)
        requires
            pos <= input@.len(),
        ensures
            agrees(
                match r {
                    Ok((v, p)) => Ok((v@, p)),
                    Err(e) => Err(e),
                },
                input@,
                pos as int,
                parse_craft_recipe_response(input@.skip(pos as int)),
            ),
    {
        let cursor = pos;
        let (window_id, cursor) = match read_u8(input, cursor) {
            Ok((x, q)) => (x, q),
            Err(e) => return Err(e),
        };
        let (recipe, cursor) = match Identifier::decode(input, cursor) {
            Ok((x, q)) => (x, q),
            Err(e) => return Err(e),
        };
        Ok((CraftRecipeResponse { window_id, recipe }, cursor))
    }
}

/// The fields of the PlayerAbilities packet (id 0x30).
#[derive(Debug, PartialEq)]
pub struct PlayerAbilities {
    pub flags: i8,
    pub flying_speed: u32,
    pub field_of_view: u32,
}

pub struct PlayerAbilitiesV {
    pub flags: i8,
    pub flying_speed: u32,
    pub field_of_view: u32,
}

impl View for PlayerAbilities {
    type V = PlayerAbilitiesV;

    open spec fn view(&self) -> PlayerAbilitiesV {
        PlayerAbilitiesV { flags: self.flags, flying_speed: self.flying_speed, field_of_view: self.field_of_view }
    }
}

pub open spec fn player_abilities_fits(v: PlayerAbilitiesV) -> bool {
    true
}

pub open spec fn player_abilities_bytes(v: PlayerAbilitiesV) -> Seq<u8> {
    signed_bytes(v.flags as int, 1) + (be_bytes(v.flying_speed as nat, 4) + (be_bytes(v.field_of_view as nat, 4)))
}

pub open spec fn parse_player_abilities(s: Seq<u8>) -> Parsed<PlayerAbilitiesV> {
    match parse_i8(s) {
        Ok((flags, s)) => match parse_u32(s) {
        Ok((flying_speed, s)) => match parse_u32(s) {
        Ok((field_of_view, s)) => Ok((PlayerAbilitiesV { flags, flying_speed, field_of_view }, s)),
        Err(e) => Err(e),
    },
        Err(e) => Err(e),
    },
        Err(e) => Err(e),
    }
}

/// Every PlayerAbilities packet whose fields fit reads back as itself, whatever follows.
#[verifier::spinoff_prover]
#[verifier::rlimit(100)]
pub proof fn lemma_player_abilities_round_trip(v: PlayerAbilitiesV, rest: Seq<u8>)
    requires
        player_abilities_fits(v),
    ensures
        parse_player_abilities(player_abilities_bytes(v) + rest) == Ok::<(PlayerAbilitiesV, Seq<u8>), ProtocolError>((v, rest)),
{
    lemma_pow256_values();
    let t3 = rest;
    let t2 = be_bytes(v.field_of_view as nat, 4) + t3;
    let t1 = be_bytes(v.flying_speed as nat, 4) + t2;
    let t0 = signed_bytes(v.flags as int, 1) + t1;
    lemma_assoc(signed_bytes(v.flags as int, 1), be_bytes(v.flying_speed as nat, 4) + (be_bytes(v.field_of_view as nat, 4)), rest);
    lemma_assoc(be_bytes(v.flying_speed as nat, 4), be_bytes(v.field_of_view as nat, 4), rest);
    assert(player_abilities_bytes(v) + rest == t0);
    lemma_parse_signed(v.flags as int, 1, t1);
    lemma_parse_be(v.flying_speed as nat, 4, t2);
    lemma_parse_be(v.field_of_view as nat, 4, t3);
}

impl PlayerAbilities {
    /// Appends the fields' wire form; fails, writing nothing, when a field does
    /// not fit.
    #[verifier::spinoff_prover]
    #[verifier::rlimit(100)]
    pub fn encode(&self, out: &mut Vec<u8>) -> (r: Result<(), ProtocolError>)
        ensures
            r is Ok <==> player_abilities_fits(self@),
            r is Ok ==> final(out)@ == old(out)@ + player_abilities_bytes(self@),
            r is Err ==> final(out)@ == old(out)@,
    {
        let mut w: Vec<u8> = Vec::new();
        write_i8(self.flags, &mut w);
        assert(w@ =~= signed_bytes(self@.flags as int, 1));
        write_u32(self.flying_speed, &mut w);
        write_u32(self.field_of_view, &mut w);
        assert(w@ == player_abilities_bytes(self@));
        write_raw(w.as_slice(), out);
        Ok(())
    }

    /// Reads the fields at `pos`.
    #[verifier::spinoff_prover]
    #[verifier::rlimit(100)]
    pub fn decode(input: &[u8], pos: usize) -> (r: Result<(PlayerAbilities, usize), ProtocolError>)
        requires
            pos <= input@.len(),
        ensures
            agrees(
                match r {
                    Ok((v, p)) => Ok((v@, p)),
                    Err(e) => Err(e),
                },
                input@,
                pos as int,
                parse_player_abilities(input@.skip(pos as int)),
            ),
    {
        let cursor = pos;
        let (flags, cursor) = match read_i8(input, cursor) {
            Ok((x, q)) => (x, q),
            Err(e) => return Err(e),
        };
        let (flying_speed, cursor) = match read_u32(input, cursor) {
            Ok((x, q)) => (x, q),
            Err(e) => return Err(e),
        };
        let (field_of_view, cursor) = match read_u32(input, cursor) {
            Ok((x, q)) => (x, q),
            Err(e) => return Err(e),
        };
        Ok((PlayerAbilities { flags, flying_speed, field_of_view }, cursor))
    }
}

/// The fields of the RemoveEntityEffect packet (id 0x37).
#[derive(Debug, PartialEq)]
pub struct RemoveEntityEffect {
    pub effect_id: i8,
}

pub struct RemoveEntityEffectV {
    pub effect_id: i8,
}

impl View for RemoveEntityEffect {
    type V = RemoveEntityEffectV;

    open spec fn view(&self) -> RemoveEntityEffectV {
        RemoveEntityEffectV { effect_id: self.effect_id }
    }
}

pub open spec fn remove_entity_effect_fits(v: RemoveEntityEffectV) -> bool {
    true
}

pub open spec fn remove_entity_effect_bytes(v: RemoveEntityEffectV) -> Seq<u8> {
    signed_bytes(v.effect_id as int, 1)
}

pub open spec fn parse_remove_entity_effect(s: Seq<u8>) -> Parsed<RemoveEntityEffectV> {
    match parse_i8(s) {
        Ok((effect_id, s)) => Ok((RemoveEntityEffectV { effect_id }, s)),
        Err(e) => Err(e),
    }
}

/// Every RemoveEntityEffect packet whose fields fit reads back as itself, whatever follows.
#[verifier::spinoff_prover]
#[verifier::rlimit(100)]
pub proof fn lemma_remove_entity_effect_round_trip(v: RemoveEntityEffectV, rest: Seq<u8>)
    requires
        remove_entity_effect_fits(v),
    ensures
        parse_remove_entity_effect(remove_entity_effect_bytes(v) + rest) == Ok::<(RemoveEntityEffectV, Seq<u8>), ProtocolError>((v, rest)),
{
    lemma_pow256_values();
    let t1 = rest;
    let t0 = signed_bytes(v.effect_id as int, 1) + t1;
    assert(remove_entity_effect_bytes(v) + rest == t0);
    lemma_parse_signed(v.effect_id as int, 1, t1);
}

impl RemoveEntityEffect {
    /// Appends the fields' wire form; fails, writing nothing, when a field does
    /// not fit.
    #[verifier::spinoff_prover]
    #[verifier::rlimit(100)]
    pub fn encode(&self, out: &mut Vec<u8>) -> (r: Result<(), ProtocolError>)
        ensures
            r is Ok <==> remove_entity_effect_fits(self@),
            r is Ok ==> final(out)@ == old(out)@ + remove_entity_effect_bytes(self@),
            r is Err ==> final(out)@ == old(out)@,
    {
        let mut w: Vec<u8> = Vec::new();
        write_i8(self.effect_id, &mut w);
        assert(w@ =~= signed_bytes(self@.effect_id as int, 1));
        assert(w@ == remove_entity_effect_bytes(self@));
        write_raw(w.as_slice(), out);
        Ok(())
    }

    /// Reads the fields at `pos`.
    #[verifier::spinoff_prover]
    #[verifier::rlimit(100)]
    pub fn decode(input: &[u8], pos: usize) -> (r: Result<(RemoveEntityEffect, usize), ProtocolError>)
        requires
            pos <= input@.len(),
        ensures
            agrees(
                match r {
                    Ok((v, p)) => Ok((v@, p)),
                    Err(e) => Err(e),
                },
                input@,
                pos as int,
                parse_remove_entity_effect(input@.skip(pos as int)),
            ),
    {
        let cursor = pos;
        let (effect_id, cursor) = match read_i8(input, cursor) {
            Ok((x, q)) => (x, q),
            Err(e) => return Err(e),
        };
        Ok((RemoveEntityEffect { effect_id }, cursor))
    }
}

/// The fields of the ResourcePackSend packet (id 0x38).
#[derive(Debug, PartialEq)]
pub struct ResourcePackSend {
    pub sha1_hash: String,
}

pub struct ResourcePackSendV {
    pub sha1_hash: Seq<char>,
}

impl View for ResourcePackSend {
    type V = ResourcePackSendV;

    open spec fn view(&self) -> ResourcePackSendV {
        ResourcePackSendV { sha1_hash: self.sha1_hash.0@ }
    }
}

pub open spec fn resource_pack_send_fits(v: ResourcePackSendV) -> bool {
    string_fits(v.sha1_hash)
}

pub open spec fn resource_pack_send_bytes(v: ResourcePackSendV) -> Seq<u8> {
    string_bytes(v.sha1_hash)
}

pub open spec fn parse_resource_pack_send(s: Seq<u8>) -> Parsed<ResourcePackSendV> {
    match parse_string(s) {
        Ok((sha1_hash, s)) => Ok((ResourcePackSendV { sha1_hash }, s)),
        Err(e) => Err(e),
    }
}

/// Every ResourcePackSend packet whose fields fit reads back as itself, whatever follows.
#[verifier::spinoff_prover]
#[verifier::rlimit(100)]
pub proof fn lemma_resource_pack_send_round_trip(v: ResourcePackSendV, rest: Seq<u8>)
    requires
        resource_pack_send_fits(v),
    ensures
        parse_resource_pack_send(resource_pack_send_bytes(v) + rest) == Ok::<(ResourcePackSendV, Seq<u8>), ProtocolError>((v, rest)),
{
    lemma_pow256_values();
    let t1 = rest;
    let t0 = string_bytes(v.sha1_hash) + t1;
    assert(resource_pack_send_bytes(v) + rest == t0);
    lemma_parse_string(v.sha1_hash, t1);
}

impl ResourcePackSend {
    /// Appends the fields' wire form; fails, writing nothing, when a field does
    /// not fit.
    #[verifier::spinoff_prover]
    #[verifier::rlimit(100)]
    pub fn encode(&self, out: &mut Vec<u8>) -> (r: Result<(), ProtocolError>)
        ensures
            r is Ok <==> resource_pack_send_fits(self@),
            r is Ok ==> final(out)@ == old(out)@ + resource_pack_send_bytes(self@),
            r is Err ==> final(out)@ == old(out)@,
    {
        let mut w: Vec<u8> = Vec::new();
        if utf8_len(&self.sha1_hash.0) > 0x7fff_ffff {
            return Err(ProtocolError::BadLength);
        }
        self.sha1_hash.encode(&mut w);
        assert(w@ =~= string_bytes(self@.sha1_hash));
        assert(w@ == resource_pack_send_bytes(self@));
        write_raw(w.as_slice(), out);
        Ok(())
    }

    /// Reads the fields at `pos`.
    #[verifier::spinoff_prover]
    #[verifier::rlimit(100)]
    pub fn decode(input: &[u8], pos: usize) -> (r: Result<(ResourcePackSend, usize), ProtocolError>)
        requires
            pos <= input@.len(),
        ensures
            agrees(
                match r {
                    Ok((v, p)) => Ok((v@, p)),
                    Err(e) => Err(e),
                },
                input@,
                pos as int,
                parse_resource_pack_send(input@.skip(pos as int)),
            ),
    {
        let cursor = pos;
        let (sha1_hash, cursor) = match String::decode(input, cursor) {
            Ok((x, q)) => (x, q),
            Err(e) => return Err(e),
        };
        Ok((ResourcePackSend { sha1_hash }, cursor))
    }
}

/// The fields of the Respawn packet (id 0x39).
#[derive(Debug, PartialEq)]
pub struct Respawn {
    pub dimension: Nbt,
    pub world_name: Identifier,
    pub seed_hash: i64,
    pub gamemode: u8,
    pub previous_gamemode: u8,
    pub is_debug: bool,
    pub is_flat: bool,
    pub copy_metadata: bool,
}

pub struct RespawnV {
    pub dimension: NbtV,
    pub world_name: Seq<char>,
    pub seed_hash: i64,
    pub gamemode: u8,
    pub previous_gamemode: u8,
    pub is_debug: bool,
    pub is_flat: bool,
    pub copy_metadata: bool,
}

impl View for Respawn {
    type V = RespawnV;

    open spec fn view(&self) -> RespawnV {
        RespawnV { dimension: self.dimension@, world_name: self.world_name.0.0@, seed_hash: self.seed_hash, gamemode: self.gamemode, previous_gamemode: self.previous_gamemode, is_debug: self.is_debug, is_flat: self.is_flat, copy_metadata: self.copy_metadata }
    }
}

pub open spec fn respawn_fits(v: RespawnV) -> bool {
    nbt_fits(v.dimension) && short_string_fits(v.world_name)
}

pub open spec fn respawn_bytes(v: RespawnV) -> Seq<u8> {
    nbt_bytes(v.dimension) + (string_bytes(v.world_name) + (signed_bytes(v.seed_hash as int, 8) + (be_bytes(v.gamemode as nat, 1) + (be_bytes(v.previous_gamemode as nat, 1) + (bool_bytes(v.is_debug) + (bool_bytes(v.is_flat) + (bool_bytes(v.copy_metadata))))))))
}

pub open spec fn parse_respawn(s: Seq<u8>) -> Parsed<RespawnV> {
    match parse_nbt(s) {
        Ok((dimension, s)) => match parse_short_string(s) {
        Ok((world_name, s)) => match parse_i64(s) {
        Ok((seed_hash, s)) => match parse_u8(s) {
        Ok((gamemode, s)) => match parse_u8(s) {
        Ok((previous_gamemode, s)) => match parse_bool(s) {
        Ok((is_debug, s)) => match parse_bool(s) {
        Ok((is_flat, s)) => match parse_bool(s) {
        Ok((copy_metadata, s)) => Ok((RespawnV { dimension, world_name, seed_hash, gamemode, previous_gamemode, is_debug, is_flat, copy_metadata }, s)),
        Err(e) => Err(e),
    },
        Err(e) => Err(e),
    },
        Err(e) => Err(e),
    },
        Err(e) => Err(e),
    },
        Err(e) => Err(e),
    },
        Err(e) => Err(e),
    },
        Err(e) => Err(e),
    },
        Err(e) => Err(e),
    }
}

/// Every Respawn packet whose fields fit reads back as itself, whatever follows.
#[verifier::spinoff_prover]
#[verifier::rlimit(100)]
pub proof fn lemma_respawn_round_trip(v: RespawnV, rest: Seq<u8>)
    requires
        respawn_fits(v),
    ensures
        parse_respawn(respawn_bytes(v) + rest) == Ok::<(RespawnV, Seq<u8>), ProtocolError>((v, rest)),
{
    lemma_pow256_values();
    let t8 = rest;
    let t7 = bool_bytes(v.copy_metadata) + t8;
    let t6 = bool_bytes(v.is_flat) + t7;
    let t5 = bool_bytes(v.is_debug) + t6;
    let t4 = be_bytes(v.previous_gamemode as nat, 1) + t5;
    let t3 = be_bytes(v.gamemode as nat, 1) + t4;
    let t2 = signed_bytes(v.seed_hash as int, 8) + t3;
    let t1 = string_bytes(v.world_name) + t2;
    let t0 = nbt_bytes(v.dimension) + t1;
    lemma_assoc(nbt_bytes(v.dimension), string_bytes(v.world_name) + (signed_bytes(v.seed_hash as int, 8) + (be_bytes(v.gamemode as nat, 1) + (be_bytes(v.previous_gamemode as nat, 1) + (bool_bytes(v.is_debug) + (bool_bytes(v.is_flat) + (bool_bytes(v.copy_metadata))))))), rest);
    lemma_assoc(string_bytes(v.world_name), signed_bytes(v.seed_hash as int, 8) + (be_bytes(v.gamemode as nat, 1) + (be_bytes(v.previous_gamemode as nat, 1) + (bool_bytes(v.is_debug) + (bool_bytes(v.is_flat) + (bool_bytes(v.copy_metadata)))))), rest);
    lemma_assoc(signed_bytes(v.seed_hash as int, 8), be_bytes(v.gamemode as nat, 1) + (be_bytes(v.previous_gamemode as nat, 1) + (bool_bytes(v.is_debug) + (bool_bytes(v.is_flat) + (bool_bytes(v.copy_metadata))))), rest);
    lemma_assoc(be_bytes(v.gamemode as nat, 1), be_bytes(v.previous_gamemode as nat, 1) + (bool_bytes(v.is_debug) + (bool_bytes(v.is_flat) + (bool_bytes(v.copy_metadata)))), rest);
    lemma_assoc(be_bytes(v.previous_gamemode as nat, 1), bool_bytes(v.is_debug) + (bool_bytes(v.is_flat) + (bool_bytes(v.copy_metadata))), rest);
    lemma_assoc(bool_bytes(v.is_debug), bool_bytes(v.is_flat) + (bool_bytes(v.copy_metadata)), rest);
    lemma_assoc(bool_bytes(v.is_flat), bool_bytes(v.copy_metadata), rest);
    assert(respawn_bytes(v) + rest == t0);
    lemma_nbt_round_trip(v.dimension, t1);
    lemma_parse_short_string(v.world_name, t2);
    lemma_parse_signed(v.seed_hash as int, 8, t3);
    lemma_parse_be(v.gamemode as nat, 1, t4);
    lemma_parse_be(v.previous_gamemode as nat, 1, t5);
    lemma_parse_bool(v.is_debug, t6);
    lemma_parse_bool(v.is_flat, t7);
    lemma_parse_bool(v.copy_metadata, t8);
}

impl Respawn {
    /// Appends the fields' wire form; fails, writing nothing, when a field does
    /// not fit.
    #[verifier::spinoff_prover]
    #[verifier::rlimit(100)]
    pub fn encode(&self, out: &mut Vec<u8>) -> (r: Result<(), ProtocolError>)
        ensures
            r is Ok <==> respawn_fits(self@),
            r is Ok ==> final(out)@ == old(out)@ + respawn_bytes(self@),
            r is Err ==> final(out)@ == old(out)@,
    {
        let mut w: Vec<u8> = Vec::new();
        match self.dimension.encode() {
            Ok(b) => write_raw(b.as_slice(), &mut w),
            Err(e) => return Err(e),
        }
        assert(w@ =~= nbt_bytes(self@.dimension));
        if utf8_len(&self.world_name.0.0) > 32767 {
            return Err(ProtocolError::StringTooLong);
        }
        self.world_name.encode(&mut w);
        write_i64(self.seed_hash, &mut w);
        write_u8(self.gamemode, &mut w);
        write_u8(self.previous_gamemode, &mut w);
        write_bool(self.is_debug, &mut w);
        write_bool(self.is_flat, &mut w);
        write_bool(self.copy_metadata, &mut w);
        assert(w@ == respawn_bytes(self@));
        write_raw(w.as_slice(), out);
        Ok(())
    }

    /// Reads the fields at `pos`.
    #[verifier::spinoff_prover]
    #[verifier::rlimit(100)]
    pub fn decode(input: &[u8], pos: usize) -> (r: Result<(Respawn, usize), ProtocolError>)
        requires
            pos <= input@.len(),
        ensures
            agrees(
                match r {
                    Ok((v, p)) => Ok((v@, p)),
                    Err(e) => Err(e),
                },
                input@,
                pos as int,
                parse_respawn(input@.skip(pos as int)),
            ),
    {
        let cursor = pos;
        let (dimension, cursor) = match Nbt::decode(input, cursor) {
            Ok((x, q)) => (x, q),
            Err(e) => return Err(e),
        };
        let (world_name, cursor) = match Identifier::decode(input, cursor) {
            Ok((x, q)) => (x, q),
            Err(e) => return Err(e),
        };
        let (seed_hash, cursor) = match read_i64(input, cursor) {
            Ok((x, q)) => (x, q),
            Err(e) => return Err(e),
        };
        let (gamemode, cursor) = match read_u8(input, cursor) {
            Ok((x, q)) => (x, q),
            Err(e) => return Err(e),
        };
        let (previous_gamemode, cursor) = match read_u8(input, cursor) {
            Ok((x, q)) => (x, q),
            Err(e) => return Err(e),
        };
        let (is_debug, cursor) = match read_bool(input, cursor) {
            Ok((x, q)) => (x, q),
            Err(e) => return Err(e),
        };
        let (is_flat, cursor) = match read_bool(input, cursor) {
            Ok((x, q)) => (x, q),
            Err(e) => return Err(e),
        };
        let (copy_metadata, cursor) = match read_bool(input, cursor) {
            Ok((x, q)) => (x, q),
            Err(e) => return Err(e),
        };
        Ok((Respawn { dimension, world_name, seed_hash, gamemode, previous_gamemode, is_debug, is_flat, copy_metadata }, cursor))
    }
}

/// The fields of the EntityHeadLook packet (id 0x3a).
#[derive(Debug, PartialEq)]
pub struct EntityHeadLook {
    pub head_yaw: Angle,
}

pub struct EntityHeadLookV {
    pub head_yaw: u8,
}

impl View for EntityHeadLook {
    type V = EntityHeadLookV;

    open spec fn view(&self) -> EntityHeadLookV {
        EntityHeadLookV { head_yaw: self.head_yaw.0 }
    }
}

pub open spec fn entity_head_look_fits(v: EntityHeadLookV) -> bool {
    true
}

pub open spec fn entity_head_look_bytes(v: EntityHeadLookV) -> Seq<u8> {
    be_bytes(v.head_yaw as nat, 1)
}

pub open spec fn parse_entity_head_look(s: Seq<u8>) -> Parsed<EntityHeadLookV> {
    match parse_u8(s) {
        Ok((head_yaw, s)) => Ok((EntityHeadLookV { head_yaw }, s)),
        Err(e) => Err(e),
    }
}

/// Every EntityHeadLook packet whose fields fit reads back as itself, whatever follows.
#[verifier::spinoff_prover]
#[verifier::rlimit(100)]
pub proof fn lemma_entity_head_look_round_trip(v: EntityHeadLookV, rest: Seq<u8>)
    requires
        entity_head_look_fits(v),
    ensures
        parse_entity_head_look(entity_head_look_bytes(v) + rest) == Ok::<(EntityHeadLookV, Seq<u8>), ProtocolError>((v, rest)),
{
    lemma_pow256_values();
    let t1 = rest;
    let t0 = be_bytes(v.head_yaw as nat, 1) + t1;
    assert(entity_head_look_bytes(v) + rest == t0);
    lemma_parse_be(v.head_yaw as nat, 1, t1);
}

impl EntityHeadLook {
    /// Appends the fields' wire form; fails, writing nothing, when a field does
    /// not fit.
    #[verifier::spinoff_prover]
    #[verifier::rlimit(100)]
    pub fn encode(&self, out: &mut Vec<u8>) -> (r: Result<(), ProtocolError>)
        ensures
            r is Ok <==> entity_head_look_fits(self@),
            r is Ok ==> final(out)@ == old(out)@ + entity_head_look_bytes(self@),
            r is Err ==> final(out)@ == old(out)@,
    {
        let mut w: Vec<u8> = Vec::new();
        self.head_yaw.encode(&mut w);
        assert(w@ =~= be_bytes(self@.head_yaw as nat, 1));
        assert(w@ == entity_head_look_bytes(self@));
        write_raw(w.as_slice(), out);
        Ok(())
    }

    /// Reads the fields at `pos`.
    #[verifier::spinoff_prover]
    #[verifier::rlimit(100)]
    pub fn decode(input: &[u8], pos: usize) -> (r: Result<(EntityHeadLook, usize), ProtocolError>)
        requires
            pos <= input@.len(),
        ensures
            agrees(
                match r {
                    Ok((v, p)) => Ok((v@, p)),
                    Err(e) => Err(e),
                },
                input@,
                pos as int,
                parse_entity_head_look(input@.skip(pos as int)),
            ),
    {
        let cursor = pos;
        let (head_yaw, cursor) = match Angle::decode(input, cursor) {
            Ok((x, q)) => (x, q),
            Err(e) => return Err(e),
        };
        Ok((EntityHeadLook { head_yaw }, cursor))
    }
}

/// The fields of the Camera packet (id 0x3e).
#[derive(Debug, PartialEq)]
pub struct Camera {
    pub camera_id: VarInt,
}

pub struct CameraV {
    pub camera_id: i32,
}

impl View for Camera {
    type V = CameraV;

    open spec fn view(&self) -> CameraV {
        CameraV { camera_id: self.camera_id.0 }
    }
}

pub open spec fn camera_fits(v: CameraV) -> bool {
    true
}

pub open spec fn camera_bytes(v: CameraV) -> Seq<u8> {
    varint_bytes(v.camera_id)
}

pub open spec fn parse_camera(s: Seq<u8>) -> Parsed<CameraV> {
    match parse_var_int(s) {
        Ok((camera_id, s)) => Ok((CameraV { camera_id }, s)),
        Err(e) => Err(e),
    }
}

/// Every Camera packet whose fields fit reads back as itself, whatever follows.
#[verifier::spinoff_prover]
#[verifier::rlimit(100)]
pub proof fn lemma_camera_round_trip(v: CameraV, rest: Seq<u8>)
    requires
        camera_fits(v),
    ensures
        parse_camera(camera_bytes(v) + rest) == Ok::<(CameraV, Seq<u8>), ProtocolError>((v, rest)),
{
    lemma_pow256_values();
    let t1 = rest;
    let t0 = varint_bytes(v.camera_id) + t1;
    assert(camera_bytes(v) + rest == t0);
    lemma_parse_var_int(v.camera_id, t1);
}

impl Camera {
    /// Appends the fields' wire form; fails, writing nothing, when a field does
    /// not fit.
    #[verifier::spinoff_prover]
    #[verifier::rlimit(100)]
    pub fn encode(&self, out: &mut Vec<u8>) -> (r: Result<(), ProtocolError>)
        ensures
            r is Ok <==> camera_fits(self@),
            r is Ok ==> final(out)@ == old(out)@ + camera_bytes(self@),
            r is Err ==> final(out)@ == old(out)@,
    {
        let mut w: Vec<u8> = Vec::new();
        self.camera_id.encode(&mut w);
        assert(w@ =~= varint_bytes(self@.camera_id));
        assert(w@ == camera_bytes(self@));
        write_raw(w.as_slice(), out);
        Ok(())
    }

    /// Reads the fields at `pos`.
    #[verifier::spinoff_prover]
    #[verifier::rlimit(100)]
    pub fn decode(input: &[u8], pos: usize) -> (r: Result<(Camera, usize), ProtocolError>)
        requires
            pos <= input@.len(),
        ensures
            agrees(
                match r {
                    Ok((v, p)) => Ok((v@, p)),
                    Err(e) => Err(e),
                },
                input@,
                pos as int,
                parse_camera(input@.skip(pos as int)),
            ),
    {
        let cursor = pos;
        let (camera_id, cursor) = match read_var_int(input, cursor) {
            Ok((x, q)) => (VarInt(x), q),
            Err(e) => return Err(e),
        };
        Ok((Camera { camera_id }, cursor))
    }
}

/// The fields of the DisplayScoreboard packet (id 0x43).
#[derive(Debug, PartialEq)]
pub struct DisplayScoreboard {
    pub name: String,
}

pub struct DisplayScoreboardV {
    pub name: Seq<char>,
}

impl View for DisplayScoreboard {
    type V = DisplayScoreboardV;

    open spec fn view(&self) -> DisplayScoreboardV {
        DisplayScoreboardV { name: self.name.0@ }
    }
}

pub open spec fn display_scoreboard_fits(v: DisplayScoreboardV) -> bool {
    string_fits(v.name)
}

pub open spec fn display_scoreboard_bytes(v: DisplayScoreboardV) -> Seq<u8> {
    string_bytes(v.name)
}

pub open spec fn parse_display_scoreboard(s: Seq<u8>) -> Parsed<DisplayScoreboardV> {
    match parse_string(s) {
        Ok((name, s)) => Ok((DisplayScoreboardV { name }, s)),
        Err(e) => Err(e),
    }
}

/// Every DisplayScoreboard packet whose fields fit reads back as itself, whatever follows.
#[verifier::spinoff_prover]
#[verifier::rlimit(100)]
pub proof fn lemma_display_scoreboard_round_trip(v: DisplayScoreboardV, rest: Seq<u8>)
    requires
        display_scoreboard_fits(v),
    ensures
        parse_display_scoreboard(display_scoreboard_bytes(v) + rest) == Ok::<(DisplayScoreboardV, Seq<u8>), ProtocolError>((v, rest)),
{
    lemma_pow256_values();
    let t1 = rest;
    let t0 = string_bytes(v.name) + t1;
    assert(display_scoreboard_bytes(v) + rest == t0);
    lemma_parse_string(v.name, t1);
}

impl DisplayScoreboard {
    /// Appends the fields' wire form; fails, writing nothing, when a field does
    /// not fit.
    #[verifier::spinoff_prover]
    #[verifier::rlimit(100)]
    pub fn encode(&self, out: &mut Vec<u8>) -> (r: Result<(), ProtocolError>)
        ensures
            r is Ok <==> display_scoreboard_fits(self@),
            r is Ok ==> final(out)@ == old(out)@ + display_scoreboard_bytes(self@),
            r is Err ==> final(out)@ == old(out)@,
    {
        let mut w: Vec<u8> = Vec::new();
        if utf8_len(&self.name.0) > 0x7fff_ffff {
            return Err(ProtocolError::BadLength);
        }
        self.name.encode(&mut w);
        assert(w@ =~= string_bytes(self@.name));
        assert(w@ == display_scoreboard_bytes(self@));
        write_raw(w.as_slice(), out);
        Ok(())
    }

    /// Reads the fields at `pos`.
    #[verifier::spinoff_prover]
    #[verifier::rlimit(100)]
    pub fn decode(input: &[u8], pos: usize) -> (r: Result<(DisplayScoreboard, usize), ProtocolError>)
        requires
            pos <= input@.len(),
        ensures
            agrees(
                match r {
                    Ok((v, p)) => Ok((v@, p)),
                    Err(e) => Err(e),
                },
                input@,
                pos as int,
                parse_display_scoreboard(input@.skip(pos as int)),
            ),
    {
        let cursor = pos;
        let (name, cursor) = match String::decode(input, cursor) {
            Ok((x, q)) => (x, q),
            Err(e) => return Err(e),
        };
        Ok((DisplayScoreboard { name }, cursor))
    }
}

/// The fields of the EntityMetadata packet (id 0x44).
#[derive(Debug, PartialEq)]
pub struct EntityMetadata {
    pub entity_id: VarInt,
    pub raw_metadata: Vec<u8>,
}

pub struct EntityMetadataV {
    pub entity_id: i32,
    pub raw_metadata: Seq<u8>,
}

impl View for EntityMetadata {
    type V = EntityMetadataV;

    open spec fn view(&self) -> EntityMetadataV {
        EntityMetadataV { entity_id: self.entity_id.0, raw_metadata: self.raw_metadata@ }
    }
}

pub open spec fn entity_metadata_fits(v: EntityMetadataV) -> bool {
    true
}

pub open spec fn entity_metadata_bytes(v: EntityMetadataV) -> Seq<u8> {
    varint_bytes(v.entity_id) + (v.raw_metadata)
}

pub open spec fn parse_entity_metadata(s: Seq<u8>) -> Parsed<EntityMetadataV> {
    match parse_var_int(s) {
        Ok((entity_id, s)) => Ok((EntityMetadataV { entity_id, raw_metadata: s }, seq![])),
        Err(e) => Err(e),
    }
}

/// Every EntityMetadata packet whose fields fit reads back as itself, filling the frame.
#[verifier::spinoff_prover]
#[verifier::rlimit(100)]
pub proof fn lemma_entity_metadata_round_trip(v: EntityMetadataV)
    requires
        entity_metadata_fits(v),
    ensures
        parse_entity_metadata(entity_metadata_bytes(v) + seq![]) == Ok::<(EntityMetadataV, Seq<u8>), ProtocolError>((v, seq![])),
{
    let rest = Seq::<u8>::empty();
    lemma_pow256_values();
    let t2 = rest;
    let t1 = v.raw_metadata + t2;
    let t0 = varint_bytes(v.entity_id) + t1;
    lemma_assoc(varint_bytes(v.entity_id), v.raw_metadata, rest);
    assert(entity_metadata_bytes(v) + rest == t0);
    lemma_parse_var_int(v.entity_id, t1);
    assert(v.raw_metadata + rest =~= v.raw_metadata);
}

impl EntityMetadata {
    /// Appends the fields' wire form; fails, writing nothing, when a field does
    /// not fit.
    #[verifier::spinoff_prover]
    #[verifier::rlimit(100)]
    pub fn encode(&self, out: &mut Vec<u8>) -> (r: Result<(), ProtocolError>)
        ensures
            r is Ok <==> entity_metadata_fits(self@),
            r is Ok ==> final(out)@ == old(out)@ + entity_metadata_bytes(self@),
            r is Err ==> final(out)@ == old(out)@,
    {
        let mut w: Vec<u8> = Vec::new();
        self.entity_id.encode(&mut w);
        assert(w@ =~= varint_bytes(self@.entity_id));
        write_raw(self.raw_metadata.as_slice(), &mut w);
        assert(w@ == entity_metadata_bytes(self@));
        write_raw(w.as_slice(), out);
        Ok(())
    }

    /// Reads the fields at `pos`.
    #[verifier::spinoff_prover]
    #[verifier::rlimit(100)]
    pub fn decode(input: &[u8], pos: usize) -> (r: Result<(EntityMetadata, usize), ProtocolError>)
        requires
            pos <= input@.len(),
        ensures
            agrees(
                match r {
                    Ok((v, p)) => Ok((v@, p)),
                    Err(e) => Err(e),
                },
                input@,
                pos as int,
                parse_entity_metadata(input@.skip(pos as int)),
            ),
    {
        let cursor = pos;
        let (entity_id, cursor) = match read_var_int(input, cursor) {
            Ok((x, q)) => (VarInt(x), q),
            Err(e) => return Err(e),
        };
        let (raw_metadata, cursor) = read_greedy(input, cursor);
        assert(input@.skip(cursor as int) =~= seq![]);
        Ok((EntityMetadata { entity_id, raw_metadata }, cursor))
    }
}

/// The fields of the AttachEntity packet (id 0x45).
#[derive(Debug, PartialEq)]
pub struct AttachEntity {
    pub attached_entity_id: i32,
    pub holding_entity_id: i32,
}

pub struct AttachEntityV {
    pub attached_entity_id: i32,
    pub holding_entity_id: i32,
}

impl View for AttachEntity {
    type V = AttachEntityV;

    open spec fn view(&self) -> AttachEntityV {
        AttachEntityV { attached_entity_id: self.attached_entity_id, holding_entity_id: self.holding_entity_id }
    }
}

pub open spec fn attach_entity_fits(v: AttachEntityV) -> bool {
    true
}

pub open spec fn attach_entity_bytes(v: AttachEntityV) -> Seq<u8> {
    signed_bytes(v.attached_entity_id as int, 4) + (signed_bytes(v.holding_entity_id as int, 4))
}

pub open spec fn parse_attach_entity(s: Seq<u8>) -> Parsed<AttachEntityV> {
    match parse_i32(s) {
        Ok((attached_entity_id, s)) => match parse_i32(s) {
        Ok((holding_entity_id, s)) => Ok((AttachEntityV { attached_entity_id, holding_entity_id }, s)),
        Err(e) => Err(e),
    },
        Err(e) => Err(e),
    }
}

/// Every AttachEntity packet whose fields fit reads back as itself, whatever follows.
#[verifier::spinoff_prover]
#[verifier::rlimit(100)]
pub proof fn lemma_attach_entity_round_trip(v: AttachEntityV, rest: Seq<u8>)
    requires
        attach_entity_fits(v),
    ensures
        parse_attach_entity(attach_entity_bytes(v) + rest) == Ok::<(AttachEntityV, Seq<u8>), ProtocolError>((v, rest)),
{
    lemma_pow256_values();
    let t2 = rest;
    let t1 = signed_bytes(v.holding_entity_id as int, 4) + t2;
    let t0 = signed_bytes(v.attached_entity_id as int, 4) + t1;
    lemma_assoc(signed_bytes(v.attached_entity_id as int, 4), signed_bytes(v.holding_entity_id as int, 4), rest);
    assert(attach_entity_bytes(v) + rest == t0);
    lemma_parse_signed(v.attached_entity_id as int, 4, t1);
    lemma_parse_signed(v.holding_entity_id as int, 4, t2);
}

impl AttachEntity {
    /// Appends the fields' wire form; fails, writing nothing, when a field does
    /// not fit.
    #[verifier::spinoff_prover]
    #[verifier::rlimit(100)]
    pub fn encode(&self, out: &mut Vec<u8>) -> (r: Result<(), ProtocolError>)
        ensures
            r is Ok <==> attach_entity_fits(self@),
            r is Ok ==> final(out)@ == old(out)@ + attach_entity_bytes(self@),
            r is Err ==> final(out)@ == old(out)@,
    {
        let mut w: Vec<u8> = Vec::new();
        write_i32(self.attached_entity_id, &mut w);
        assert(w@ =~= signed_bytes(self@.attached_entity_id as int, 4));
        write_i32(self.holding_entity_id, &mut w);
        assert(w@ == attach_entity_bytes(self@));
        write_raw(w.as_slice(), out);
        Ok(())
    }

    /// Reads the fields at `pos`.
    #[verifier::spinoff_prover]
    #[verifier::rlimit(100)]
    pub fn decode(input: &[u8], pos: usize) -> (r: Result<(AttachEntity, usize), ProtocolError>)
        requires
            pos <= input@.len(),
        ensures
            agrees(
                match r {
                    Ok((v, p)) => Ok((v@, p)),
                    Err(e) => Err(e),
                },
                input@,
                pos as int,
                parse_attach_entity(input@.skip(pos as int)),
            ),
    {
        let cursor = pos;
        let (attached_entity_id, cursor) = match read_i32(input, cursor) {
            Ok((x, q)) => (x, q),
            Err(e) => return Err(e),
        };
        let (holding_entity_id, cursor) = match read_i32(input, cursor) {
            Ok((x, q)) => (x, q),
            Err(e) => return Err(e),
        };
        Ok((AttachEntity { attached_entity_id, holding_entity_id }, cursor))
    }
}

/// The fields of the EntityVelocity packet (id 0x46).
#[derive(Debug, PartialEq)]
pub struct EntityVelocity {
    pub entity_id: VarInt,
    pub velocity_x: i16,
    pub velocity_y: i16,
    pub velocity_z: i16,
}

pub struct EntityVelocityV {
    pub entity_id: i32,
    pub velocity_x: i16,
    pub velocity_y: i16,
    pub velocity_z: i16,
}

impl View for EntityVelocity {
    type V = EntityVelocityV;

    open spec fn view(&self) -> EntityVelocityV {
        EntityVelocityV { entity_id: self.entity_id.0, velocity_x: self.velocity_x, velocity_y: self.velocity_y, velocity_z: self.velocity_z }
    }
}

pub open spec fn entity_velocity_fits(v: EntityVelocityV) -> bool {
    true
}

pub open spec fn entity_velocity_bytes(v: EntityVelocityV) -> Seq<u8> {
    varint_bytes(v.entity_id) + (signed_bytes(v.velocity_x as int, 2) + (signed_bytes(v.velocity_y as int, 2) + (signed_bytes(v.velocity_z as int, 2))))
}

pub open spec fn parse_entity_velocity(s: Seq<u8>) -> Parsed<EntityVelocityV> {
    match parse_var_int(s) {
        Ok((entity_id, s)) => match parse_i16(s) {
        Ok((velocity_x, s)) => match parse_i16(s) {
        Ok((velocity_y, s)) => match parse_i16(s) {
        Ok((velocity_z, s)) => Ok((EntityVelocityV { entity_id, velocity_x, velocity_y, velocity_z }, s)),
        Err(e) => Err(e),
    },
        Err(e) => Err(e),
    },
        Err(e) => Err(e),
    },
        Err(e) => Err(e),
    }
}

/// Every EntityVelocity packet whose fields fit reads back as itself, whatever follows.
#[verifier::spinoff_prover]
#[verifier::rlimit(100)]
pub proof fn lemma_entity_velocity_round_trip(v: EntityVelocityV, rest: Seq<u8>)
    requires
        entity_velocity_fits(v),
    ensures
        parse_entity_velocity(entity_velocity_bytes(v) + rest) == Ok::<(EntityVelocityV, Seq<u8>), ProtocolError>((v, rest)),
{
    lemma_pow256_values();
    let t4 = rest;
    let t3 = signed_bytes(v.velocity_z as int, 2) + t4;
    let t2 = signed_bytes(v.velocity_y as int, 2) + t3;
    let t1 = signed_bytes(v.velocity_x as int, 2) + t2;
    let t0 = varint_bytes(v.entity_id) + t1;
    lemma_assoc(varint_bytes(v.entity_id), signed_bytes(v.velocity_x as int, 2) + (signed_bytes(v.velocity_y as int, 2) + (signed_bytes(v.velocity_z as int, 2))), rest);
    lemma_assoc(signed_bytes(v.velocity_x as int, 2), signed_bytes(v.velocity_y as int, 2) + (signed_bytes(v.velocity_z as int, 2)), rest);
    lemma_assoc(signed_bytes(v.velocity_y as int, 2), signed_bytes(v.velocity_z as int, 2), rest);
    assert(entity_velocity_bytes(v) + rest == t0);
    lemma_parse_var_int(v.entity_id, t1);
    lemma_parse_signed(v.velocity_x as int, 2, t2);
    lemma_parse_signed(v.velocity_y as int, 2, t3);
    lemma_parse_signed(v.velocity_z as int, 2, t4);
}

impl EntityVelocity {
    /// Appends the fields' wire form; fails, writing nothing, when a field does
    /// not fit.
    #[verifier::spinoff_prover]
    #[verifier::rlimit(100)]
    pub fn encode(&self, out: &mut Vec<u8>) -> (r: Result<(), ProtocolError>)
        ensures
            r is Ok <==> entity_velocity_fits(self@),
            r is Ok ==> final(out)@ == old(out)@ + entity_velocity_bytes(self@),
            r is Err ==> final(out)@ == old(out)@,
    {
        let mut w: Vec<u8> = Vec::new();
        self.entity_id.encode(&mut w);
        assert(w@ =~= varint_bytes(self@.entity_id));
        write_i16(self.velocity_x, &mut w);
        write_i16(self.velocity_y, &mut w);
        write_i16(self.velocity_z, &mut w);
        assert(w@ == entity_velocity_bytes(self@));
        write_raw(w.as_slice(), out);
        Ok(())
    }

    /// Reads the fields at `pos`.
    #[verifier::spinoff_prover]
    #[verifier::rlimit(100)]
    pub fn decode(input: &[u8], pos: usize) -> (r: Result<(EntityVelocity, usize), ProtocolError>)
        requires
            pos <= input@.len(),
        ensures
            agrees(
                match r {
                    Ok((v, p)) => Ok((v@, p)),
                    Err(e) => Err(e),
                },
                input@,
                pos as int,
                parse_entity_velocity(input@.skip(pos as int)),
            ),
    {
        let cursor = pos;
        let (entity_id, cursor) = match read_var_int(input, cursor) {
            Ok((x, q)) => (VarInt(x), q),
            Err(e) => return Err(e),
        };
        let (velocity_x, cursor) = match read_i16(input, cursor) {
            Ok((x, q)) => (x, q),
            Err(e) => return Err(e),
        };
        let (velocity_y, cursor) = match read_i16(input, cursor) {
            Ok((x, q)) => (x, q),
            Err(e) => return Err(e),
        };
        let (velocity_z, cursor) = match read_i16(input, cursor) {
            Ok((x, q)) => (x, q),
            Err(e) => return Err(e),
        };
        Ok((EntityVelocity { entity_id, velocity_x, velocity_y, velocity_z }, cursor))
    }
}

/// The fields of the EntityEquipment packet (id 0x47).
#[derive(Debug, PartialEq)]
pub struct EntityEquipment {
    pub entity_id: VarInt,
    pub raw: Vec<u8>,
}

pub struct EntityEquipmentV {
    pub entity_id: i32,
    pub raw: Seq<u8>,
}

impl View for EntityEquipment {
    type V = EntityEquipmentV;

    open spec fn view(&self) -> EntityEquipmentV {
        EntityEquipmentV { entity_id: self.entity_id.0, raw: self.raw@ }
    }
}

pub open spec fn entity_equipment_fits(v: EntityEquipmentV) -> bool {
    true
}

pub open spec fn entity_equipment_bytes(v: EntityEquipmentV) -> Seq<u8> {
    varint_bytes(v.entity_id) + (v.raw)
}

pub open spec fn parse_entity_equipment(s: Seq<u8>) -> Parsed<EntityEquipmentV> {
    match parse_var_int(s) {
        Ok((entity_id, s)) => Ok((EntityEquipmentV { entity_id, raw: s }, seq![])),
        Err(e) => Err(e),
    }
}

/// Every EntityEquipment packet whose fields fit reads back as itself, filling the frame.
#[verifier::spinoff_prover]
#[verifier::rlimit(100)]
pub proof fn lemma_entity_equipment_round_trip(v: EntityEquipmentV)
    requires
        entity_equipment_fits(v),
    ensures
        parse_entity_equipment(entity_equipment_bytes(v) + seq![]) == Ok::<(EntityEquipmentV, Seq<u8>), ProtocolError>((v, seq![])),
{
    let rest = Seq::<u8>::empty();
    lemma_pow256_values();
    let t2 = rest;
    let t1 = v.raw + t2;
    let t0 = varint_bytes(v.entity_id) + t1;
    lemma_assoc(varint_bytes(v.entity_id), v.raw, rest);
    assert(entity_equipment_bytes(v) + rest == t0);
    lemma_parse_var_int(v.entity_id, t1);
    assert(v.raw + rest =~= v.raw);
}

impl EntityEquipment {
    /// Appends the fields' wire form; fails, writing nothing, when a field does
    /// not fit.
    #[verifier::spinoff_prover]
    #[verifier::rlimit(100)]
    pub fn encode(&self, out: &mut Vec<u8>) -> (r: Result<(), ProtocolError>)
        ensures
            r is Ok <==> entity_equipment_fits(self@),
            r is Ok ==> final(out)@ == old(out)@ + entity_equipment_bytes(self@),
            r is Err ==> final(out)@ == old(out)@,
    {
        let mut w: Vec<u8> = Vec::new();
        self.entity_id.encode(&mut w);
        assert(w@ =~= varint_bytes(self@.entity_id));
        write_raw(self.raw.as_slice(), &mut w);
        assert(w@ == entity_equipment_bytes(self@));
        write_raw(w.as_slice(), out);
        Ok(())
    }

    /// Reads the fields at `pos`.
    #[verifier::spinoff_prover]
    #[verifier::rlimit(100)]
    pub fn decode(input: &[u8], pos: usize) -> (r: Result<(EntityEquipment, usize), ProtocolError>)
        requires
            pos <= input@.len(),
        ensures
            agrees(
                match r {
                    Ok((v, p)) => Ok((v@, p)),
                    Err(e) => Err(e),
                },
                input@,
                pos as int,
                parse_entity_equipment(input@.skip(pos as int)),
            ),
    {
        let cursor = pos;
        let (entity_id, cursor) = match read_var_int(input, cursor) {
            Ok((x, q)) => (VarInt(x), q),
            Err(e) => return Err(e),
        };
        let (raw, cursor) = read_greedy(input, cursor);
        assert(input@.skip(cursor as int) =~= seq![]);
        Ok((EntityEquipment { entity_id, raw }, cursor))
    }
}

/// The fields of the SetExperience packet (id 0x48).
#[derive(Debug, PartialEq)]
pub struct SetExperience {
    pub experience_bar: u32,
    pub level: VarInt,
    pub total_experience: VarInt,
}

pub struct SetExperienceV {
    pub experience_bar: u32,
    pub level: i32,
    pub total_experience: i32,
}

impl View for SetExperience {
    type V = SetExperienceV;

    open spec fn view(&self) -> SetExperienceV {
        SetExperienceV { experience_bar: self.experience_bar, level: self.level.0, total_experience: self.total_experience.0 }
    }
}

pub open spec fn set_experience_fits(v: SetExperienceV) -> bool {
    true
}

pub open spec fn set_experience_bytes(v: SetExperienceV) -> Seq<u8> {
    be_bytes(v.experience_bar as nat, 4) + (varint_bytes(v.level) + (varint_bytes(v.total_experience)))
}

pub open spec fn parse_set_experience(s: Seq<u8>) -> Parsed<SetExperienceV> {
    match parse_u32(s) {
        Ok((experience_bar, s)) => match parse_var_int(s) {
        Ok((level, s)) => match parse_var_int(s) {
        Ok((total_experience, s)) => Ok((SetExperienceV { experience_bar, level, total_experience }, s)),
        Err(e) => Err(e),
    },
        Err(e) => Err(e),
    },
        Err(e) => Err(e),
    }
}

/// Every SetExperience packet whose fields fit reads back as itself, whatever follows.
#[verifier::spinoff_prover]
#[verifier::rlimit(100)]
pub proof fn lemma_set_experience_round_trip(v: SetExperienceV, rest: Seq<u8>)
    requires
        set_experience_fits(v),
    ensures
        parse_set_experience(set_experience_bytes(v) + rest) == Ok::<(SetExperienceV, Seq<u8>), ProtocolError>((v, rest)),
{
    lemma_pow256_values();
    let t3 = rest;
    let t2 = varint_bytes(v.total_experience) + t3;
    let t1 = varint_bytes(v.level) + t2;
    let t0 = be_bytes(v.experience_bar as nat, 4) + t1;
    lemma_assoc(be_bytes(v.experience_bar as nat, 4), varint_bytes(v.level) + (varint_bytes(v.total_experience)), rest);
    lemma_assoc(varint_bytes(v.level), varint_bytes(v.total_experience), rest);
    assert(set_experience_bytes(v) + rest == t0);
    lemma_parse_be(v.experience_bar as nat, 4, t1);
    lemma_parse_var_int(v.level, t2);
    lemma_parse_var_int(v.total_experience, t3);
}

impl SetExperience {
    /// Appends the fields' wire form; fails, writing nothing, when a field does
    /// not fit.
    #[verifier::spinoff_prover]
    #[verifier::rlimit(100)]
    pub fn encode(&self, out: &mut Vec<u8>) -> (r: Result<(), ProtocolError>)
        ensures
            r is Ok <==> set_experience_fits(self@),
            r is Ok ==> final(out)@ == old(out)@ + set_experience_bytes(self@),
            r is Err ==> final(out)@ == old(out)@,
    {
        let mut w: Vec<u8> = Vec::new();
        write_u32(self.experience_bar, &mut w);
        assert(w@ =~= be_bytes(self@.experience_bar as nat, 4));
        self.level.encode(&mut w);
        self.total_experience.encode(&mut w);
        assert(w@ == set_experience_bytes(self@));
        write_raw(w.as_slice(), out);
        Ok(())
    }

    /// Reads the fields at `pos`.
    #[verifier::spinoff_prover]
    #[verifier::rlimit(100)]
    pub fn decode(input: &[u8], pos: usize) -> (r: Result<(SetExperience, usize), ProtocolError>)
        requires
            pos <= input@.len(),
        ensures
            agrees(
                match r {
                    Ok((v, p)) => Ok((v@, p)),
                    Err(e) => Err(e),
                },
                input@,
                pos as int,
                parse_set_experience(input@.skip(pos as int)),
            ),
    {
        let cursor = pos;
        let (experience_bar, cursor) = match read_u32(input, cursor) {
            Ok((x, q)) => (x, q),
            Err(e) => return Err(e),
        };
        let (level, cursor) = match read_var_int(input, cursor) {
            Ok((x, q)) => (VarInt(x), q),
            Err(e) => return Err(e),
        };
        let (total_experience, cursor) = match read_var_int(input, cursor) {
            Ok((x, q)) => (VarInt(x), q),
            Err(e) => return Err(e),
        };
        Ok((SetExperience { experience_bar, level, total_experience }, cursor))
    }
}

/// The fields of the UpdateHealth packet (id 0x49).
#[derive(Debug, PartialEq)]
pub struct UpdateHealth {
    pub health: u32,
    pub food: VarInt,
    pub food_saturation: u32,
}

pub struct UpdateHealthV {
    pub health: u32,
    pub food: i32,
    pub food_saturation: u32,
}

impl View for UpdateHealth {
    type V = UpdateHealthV;

    open spec fn view(&self) -> UpdateHealthV {
        UpdateHealthV { health: self.health, food: self.food.0, food_saturation: self.food_saturation }
    }
}

pub open spec fn update_health_fits(v: UpdateHealthV) -> bool {
    true
}

pub open spec fn update_health_bytes(v: UpdateHealthV) -> Seq<u8> {
    be_bytes(v.health as nat, 4) + (varint_bytes(v.food) + (be_bytes(v.food_saturation as nat, 4)))
}

pub open spec fn parse_update_health(s: Seq<u8>) -> Parsed<UpdateHealthV> {
    match parse_u32(s) {
        Ok((health, s)) => match parse_var_int(s) {
        Ok((food, s)) => match parse_u32(s) {
        Ok((food_saturation, s)) => Ok((UpdateHealthV { health, food, food_saturation }, s)),
        Err(e) => Err(e),
    },
        Err(e) => Err(e),
    },
        Err(e) => Err(e),
    }
}

/// Every UpdateHealth packet whose fields fit reads back as itself, whatever follows.
#[verifier::spinoff_prover]
#[verifier::rlimit(100)]
pub proof fn lemma_update_health_round_trip(v: UpdateHealthV, rest: Seq<u8>)
    requires
        update_health_fits(v),
    ensures
        parse_update_health(update_health_bytes(v) + rest) == Ok::<(UpdateHealthV, Seq<u8>), ProtocolError>((v, rest)),
{
    lemma_pow256_values();
    let t3 = rest;
    let t2 = be_bytes(v.food_saturation as nat, 4) + t3;
    let t1 = varint_bytes(v.food) + t2;
    let t0 = be_bytes(v.health as nat, 4) + t1;
    lemma_assoc(be_bytes(v.health as nat, 4), varint_bytes(v.food) + (be_bytes(v.food_saturation as nat, 4)), rest);
    lemma_assoc(varint_bytes(v.food), be_bytes(v.food_saturation as nat, 4), rest);
    assert(update_health_bytes(v) + rest == t0);
    lemma_parse_be(v.health as nat, 4, t1);
    lemma_parse_var_int(v.food, t2);
    lemma_parse_be(v.food_saturation as nat, 4, t3);
}

impl UpdateHealth {
    /// Appends the fields' wire form; fails, writing nothing, when a field does
    /// not fit.
    #[verifier::spinoff_prover]
    #[verifier::rlimit(100)]
    pub fn encode(&self, out: &mut Vec<u8>) -> (r: Result<(), ProtocolError>)
        ensures
            r is Ok <==> update_health_fits(self@),
            r is Ok ==> final(out)@ == old(out)@ + update_health_bytes(self@),
            r is Err ==> final(out)@ == old(out)@,
    {
        let mut w: Vec<u8> = Vec::new();
        write_u32(self.health, &mut w);
        assert(w@ =~= be_bytes(self@.health as nat, 4));
        self.food.encode(&mut w);
        write_u32(self.food_saturation, &mut w);
        assert(w@ == update_health_bytes(self@));
        write_raw(w.as_slice(), out);
        Ok(())
    }

    /// Reads the fields at `pos`.
    #[verifier::spinoff_prover]
    #[verifier::rlimit(100)]
    pub fn decode(input: &[u8], pos: usize) -> (r: Result<(UpdateHealth, usize), ProtocolError>)
        requires
            pos <= input@.len(),
        ensures
            agrees(
                match r {
                    Ok((v, p)) => Ok((v@, p)),
                    Err(e) => Err(e),
                },
                input@,
                pos as int,
                parse_update_health(input@.skip(pos as int)),
            ),
    {
        let cursor = pos;
        let (health, cursor) = match read_u32(input, cursor) {
            Ok((x, q)) => (x, q),
            Err(e) => return Err(e),
        };
        let (food, cursor) = match read_var_int(input, cursor) {
            Ok((x, q)) => (VarInt(x), q),
            Err(e) => return Err(e),
        };
        let (food_saturation, cursor) = match read_u32(input, cursor) {
            Ok((x, q)) => (x, q),
            Err(e) => return Err(e),
        };
        Ok((UpdateHealth { health, food, food_saturation }, cursor))
    }
}

/// The fields of the EntitySoundEffect packet (id 0x50).
#[derive(Debug, PartialEq)]
pub struct EntitySoundEffect {
    pub sound_id: VarInt,
    pub sound_category: VarInt,
    pub entity_id: VarInt,
    pub volume: u32,
    pub pitch: u32,
}

pub struct EntitySoundEffectV {
    pub sound_id: i32,
    pub sound_category: i32,
    pub entity_id: i32,
    pub volume: u32,
    pub pitch: u32,
}

impl View for EntitySoundEffect {
    type V = EntitySoundEffectV;

    open spec fn view(&self) -> EntitySoundEffectV {
        EntitySoundEffectV { sound_id: self.sound_id.0, sound_category: self.sound_category.0, entity_id: self.entity_id.0, volume: self.volume, pitch: self.pitch }
    }
}

pub open spec fn entity_sound_effect_fits(v: EntitySoundEffectV) -> bool {
    true
}

pub open spec fn entity_sound_effect_bytes(v: EntitySoundEffectV) -> Seq<u8> {
    varint_bytes(v.sound_id) + (varint_bytes(v.sound_category) + (varint_bytes(v.entity_id) + (be_bytes(v.volume as nat, 4) + (be_bytes(v.pitch as nat, 4)))))
}

pub open spec fn parse_entity_sound_effect(s: Seq<u8>) -> Parsed<EntitySoundEffectV> {
    match parse_var_int(s) {
        Ok((sound_id, s)) => match parse_var_int(s) {
        Ok((sound_category, s)) => match parse_var_int(s) {
        Ok((entity_id, s)) => match parse_u32(s) {
        Ok((volume, s)) => match parse_u32(s) {
        Ok((pitch, s)) => Ok((EntitySoundEffectV { sound_id, sound_category, entity_id, volume, pitch }, s)),
        Err(e) => Err(e),
    },
        Err(e) => Err(e),
    },
        Err(e) => Err(e),
    },
        Err(e) => Err(e),
    },
        Err(e) => Err(e),
    }
}

/// Every EntitySoundEffect packet whose fields fit reads back as itself, whatever follows.
#[verifier::spinoff_prover]
#[verifier::rlimit(100)]
pub proof fn lemma_entity_sound_effect_round_trip(v: EntitySoundEffectV, rest: Seq<u8>)
    requires
        entity_sound_effect_fits(v),
    ensures
        parse_entity_sound_effect(entity_sound_effect_bytes(v) + rest) == Ok::<(EntitySoundEffectV, Seq<u8>), ProtocolError>((v, rest)),
{
    lemma_pow256_values();
    let t5 = rest;
    let t4 = be_bytes(v.pitch as nat, 4) + t5;
    let t3 = be_bytes(v.volume as nat, 4) + t4;
    let t2 = varint_bytes(v.entity_id) + t3;
    let t1 = varint_bytes(v.sound_category) + t2;
    let t0 = varint_bytes(v.sound_id) + t1;
    lemma_assoc(varint_bytes(v.sound_id), varint_bytes(v.sound_category) + (varint_bytes(v.entity_id) + (be_bytes(v.volume as nat, 4) + (be_bytes(v.pitch as nat, 4)))), rest);
    lemma_assoc(varint_bytes(v.sound_category), varint_bytes(v.entity_id) + (be_bytes(v.volume as nat, 4) + (be_bytes(v.pitch as nat, 4))), rest);
    lemma_assoc(varint_bytes(v.entity_id), be_bytes(v.volume as nat, 4) + (be_bytes(v.pitch as nat, 4)), rest);
    lemma_assoc(be_bytes(v.volume as nat, 4), be_bytes(v.pitch as nat, 4), rest);
    assert(entity_sound_effect_bytes(v) + rest == t0);
    lemma_parse_var_int(v.sound_id, t1);
    lemma_parse_var_int(v.sound_category, t2);
    lemma_parse_var_int(v.entity_id, t3);
    lemma_parse_be(v.volume as nat, 4, t4);
    lemma_parse_be(v.pitch as nat, 4, t5);
}

impl EntitySoundEffect {
    /// Appends the fields' wire form; fails, writing nothing, when a field does
    /// not fit.
    #[verifier::spinoff_prover]
    #[verifier::rlimit(100)]
    pub fn encode(&self, out: &mut Vec<u8>) -> (r: Result<(), ProtocolError>)
        ensures
            r is Ok <==> entity_sound_effect_fits(self@),
            r is Ok ==> final(out)@ == old(out)@ + entity_sound_effect_bytes(self@),
            r is Err ==> final(out)@ == old(out)@,
    {
        let mut w: Vec<u8> = Vec::new();
        self.sound_id.encode(&mut w);
        assert(w@ =~= varint_bytes(self@.sound_id));
        self.sound_category.encode(&mut w);
        self.entity_id.encode(&mut w);
        write_u32(self.volume, &mut w);
        write_u32(self.pitch, &mut w);
        assert(w@ == entity_sound_effect_bytes(self@));
        write_raw(w.as_slice(), out);
        Ok(())
    }

    /// Reads the fields at `pos`.
    #[verifier::spinoff_prover]
    #[verifier::rlimit(100)]
    pub fn decode(input: &[u8], pos: usize) -> (r: Result<(EntitySoundEffect, usize), ProtocolError>)
        requires
            pos <= input@.len(),
        ensures
            agrees(
                match r {
                    Ok((v, p)) => Ok((v@, p)),
                    Err(e) => Err(e),
                },
                input@,
                pos as int,
                parse_entity_sound_effect(input@.skip(pos as int)),
            ),
    {
        let cursor = pos;
        let (sound_id, cursor) = match read_var_int(input, cursor) {
            Ok((x, q)) => (VarInt(x), q),
            Err(e) => return Err(e),
        };
        let (sound_category, cursor) = match read_var_int(input, cursor) {
            Ok((x, q)) => (VarInt(x), q),
            Err(e) => return Err(e),
        };
        let (entity_id, cursor) = match read_var_int(input, cursor) {
            Ok((x, q)) => (VarInt(x), q),
            Err(e) => return Err(e),
        };
        let (volume, cursor) = match read_u32(input, cursor) {
            Ok((x, q)) => (x, q),
            Err(e) => return Err(e),
        };
        let (pitch, cursor) = match read_u32(input, cursor) {
            Ok((x, q)) => (x, q),
            Err(e) => return Err(e),
        };
        Ok((EntitySoundEffect { sound_id, sound_category, entity_id, volume, pitch }, cursor))
    }
}

/// The fields of the SoundEffect packet (id 0x51).
#[derive(Debug, PartialEq)]
pub struct SoundEffect {
    pub sound_id: VarInt,
    pub sound_category: VarInt,
    pub effect_position_x: i32,
    pub effect_position_y: i32,
    pub effect_position_z: i32,
    pub volume: u32,
    pub pitch: u32,
}

pub struct SoundEffectV {
    pub sound_id: i32,
    pub sound_category: i32,
    pub effect_position_x: i32,
    pub effect_position_y: i32,
    pub effect_position_z: i32,
    pub volume: u32,
    pub pitch: u32,
}

impl View for SoundEffect {
    type V = SoundEffectV;

    open spec fn view(&self) -> SoundEffectV {
        SoundEffectV { sound_id: self.sound_id.0, sound_category: self.sound_category.0, effect_position_x: self.effect_position_x, effect_position_y: self.effect_position_y, effect_position_z: self.effect_position_z, volume: self.volume, pitch: self.pitch }
    }
}

pub open spec fn sound_effect_fits(v: SoundEffectV) -> bool {
    true
}

pub open spec fn sound_effect_bytes(v: SoundEffectV) -> Seq<u8> {
    varint_bytes(v.sound_id) + (varint_bytes(v.sound_category) + (signed_bytes(v.effect_position_x as int, 4) + (signed_bytes(v.effect_position_y as int, 4) + (signed_bytes(v.effect_position_z as int, 4) + (be_bytes(v.volume as nat, 4) + (be_bytes(v.pitch as nat, 4)))))))
}

pub open spec fn parse_sound_effect(s: Seq<u8>) -> Parsed<SoundEffectV> {
    match parse_var_int(s) {
        Ok((sound_id, s)) => match parse_var_int(s) {
        Ok((sound_category, s)) => match parse_i32(s) {
        Ok((effect_position_x, s)) => match parse_i32(s) {
        Ok((effect_position_y, s)) => match parse_i32(s) {
        Ok((effect_position_z, s)) => match parse_u32(s) {
        Ok((volume, s)) => match parse_u32(s) {
        Ok((pitch, s)) => Ok((SoundEffectV { sound_id, sound_category, effect_position_x, effect_position_y, effect_position_z, volume, pitch }, s)),
        Err(e) => Err(e),
    },
        Err(e) => Err(e),
    },
        Err(e) => Err(e),
    },
        Err(e) => Err(e),
    },
        Err(e) => Err(e),
    },
        Err(e) => Err(e),
    },
        Err(e) => Err(e),
    }
}

/// Every SoundEffect packet whose fields fit reads back as itself, whatever follows.
#[verifier::spinoff_prover]
#[verifier::rlimit(100)]
pub proof fn lemma_sound_effect_round_trip(v: SoundEffectV, rest: Seq<u8>)
    requires
        sound_effect_fits(v),
    ensures
        parse_sound_effect(sound_effect_bytes(v) + rest) == Ok::<(SoundEffectV, Seq<u8>), ProtocolError>((v, rest)),
{
    lemma_pow256_values();
    let t7 = rest;
    let t6 = be_bytes(v.pitch as nat, 4) + t7;
    let t5 = be_bytes(v.volume as nat, 4) + t6;
    let t4 = signed_bytes(v.effect_position_z as int, 4) + t5;
    let t3 = signed_bytes(v.effect_position_y as int, 4) + t4;
    let t2 = signed_bytes(v.effect_position_x as int, 4) + t3;
    let t1 = varint_bytes(v.sound_category) + t2;
    let t0 = varint_bytes(v.sound_id) + t1;
    lemma_assoc(varint_bytes(v.sound_id), varint_bytes(v.sound_category) + (signed_bytes(v.effect_position_x as int, 4) + (signed_bytes(v.effect_position_y as int, 4) + (signed_bytes(v.effect_position_z as int, 4) + (be_bytes(v.volume as nat, 4) + (be_bytes(v.pitch as nat, 4)))))), rest);
    lemma_assoc(varint_bytes(v.sound_category), signed_bytes(v.effect_position_x as int, 4) + (signed_bytes(v.effect_position_y as int, 4) + (signed_bytes(v.effect_position_z as int, 4) + (be_bytes(v.volume as nat, 4) + (be_bytes(v.pitch as nat, 4))))), rest);
    lemma_assoc(signed_bytes(v.effect_position_x as int, 4), signed_bytes(v.effect_position_y as int, 4) + (signed_bytes(v.effect_position_z as int, 4) + (be_bytes(v.volume as nat, 4) + (be_bytes(v.pitch as nat, 4)))), rest);
    lemma_assoc(signed_bytes(v.effect_position_y as int, 4), signed_bytes(v.effect_position_z as int, 4) + (be_bytes(v.volume as nat, 4) + (be_bytes(v.pitch as nat, 4))), rest);
    lemma_assoc(signed_bytes(v.effect_position_z as int, 4), be_bytes(v.volume as nat, 4) + (be_bytes(v.pitch as nat, 4)), rest);
    lemma_assoc(be_bytes(v.volume as nat, 4), be_bytes(v.pitch as nat, 4), rest);
    assert(sound_effect_bytes(v) + rest == t0);
    lemma_parse_var_int(v.sound_id, t1);
    lemma_parse_var_int(v.sound_category, t2);
    lemma_parse_signed(v.effect_position_x as int, 4, t3);
    lemma_parse_signed(v.effect_position_y as int, 4, t4);
    lemma_parse_signed(v.effect_position_z as int, 4, t5);
    lemma_parse_be(v.volume as nat, 4, t6);
    lemma_parse_be(v.pitch as nat, 4, t7);
}

impl SoundEffect {
    /// Appends the fields' wire form; fails, writing nothing, when a field does
    /// not fit.
    #[verifier::spinoff_prover]
    #[verifier::rlimit(100)]
    pub fn encode(&self, out: &mut Vec<u8>) -> (r: Result<(), ProtocolError>)
        ensures
            r is Ok <==> sound_effect_fits(self@),
            r is Ok ==> final(out)@ == old(out)@ + sound_effect_bytes(self@),
            r is Err ==> final(out)@ == old(out)@,
    {
        let mut w: Vec<u8> = Vec::new();
        self.sound_id.encode(&mut w);
        assert(w@ =~= varint_bytes(self@.sound_id));
        self.sound_category.encode(&mut w);
        write_i32(self.effect_position_x, &mut w);
        write_i32(self.effect_position_y, &mut w);
        write_i32(self.effect_position_z, &mut w);
        write_u32(self.volume, &mut w);
        write_u32(self.pitch, &mut w);
        assert(w@ == sound_effect_bytes(self@));
        write_raw(w.as_slice(), out);
        Ok(())
    }

    /// Reads the fields at `pos`.
    #[verifier::spinoff_prover]
    #[verifier::rlimit(100)]
    pub fn decode(input: &[u8], pos: usize) -> (r: Result<(SoundEffect, usize), ProtocolError>)
        requires
            pos <= input@.len(),
        ensures
            agrees(
                match r {
                    Ok((v, p)) => Ok((v@, p)),
                    Err(e) => Err(e),
                },
                input@,
                pos as int,
                parse_sound_effect(input@.skip(pos as int)),
            ),
    {
        let cursor = pos;
        let (sound_id, cursor) = match read_var_int(input, cursor) {
            Ok((x, q)) => (VarInt(x), q),
            Err(e) => return Err(e),
        };
        let (sound_category, cursor) = match read_var_int(input, cursor) {
            Ok((x, q)) => (VarInt(x), q),
            Err(e) => return Err(e),
        };
        let (effect_position_x, cursor) = match read_i32(input, cursor) {
            Ok((x, q)) => (x, q),
            Err(e) => return Err(e),
        };
        let (effect_position_y, cursor) = match read_i32(input, cursor) {
            Ok((x, q)) => (x, q),
            Err(e) => return Err(e),
        };
        let (effect_position_z, cursor) = match read_i32(input, cursor) {
            Ok((x, q)) => (x, q),
            Err(e) => return Err(e),
        };
        let (volume, cursor) = match read_u32(input, cursor) {
            Ok((x, q)) => (x, q),
            Err(e) => return Err(e),
        };
        let (pitch, cursor) = match read_u32(input, cursor) {
            Ok((x, q)) => (x, q),
            Err(e) => return Err(e),
        };
        Ok((SoundEffect { sound_id, sound_category, effect_position_x, effect_position_y, effect_position_z, volume, pitch }, cursor))
    }
}

/// The fields of the NbtQueryResponse packet (id 0x54).
#[derive(Debug, PartialEq)]
pub struct NbtQueryResponse {
    pub nbt: Nbt,
}

pub struct NbtQueryResponseV {
    pub nbt: NbtV,
}

impl View for NbtQueryResponse {
    type V = NbtQueryResponseV;

    open spec fn view(&self) -> NbtQueryResponseV {
        NbtQueryResponseV { nbt: self.nbt@ }
    }
}

pub open spec fn nbt_query_response_fits(v: NbtQueryResponseV) -> bool {
    nbt_fits(v.nbt)
}

pub open spec fn nbt_query_response_bytes(v: NbtQueryResponseV) -> Seq<u8> {
    nbt_bytes(v.nbt)
}

pub open spec fn parse_nbt_query_response(s: Seq<u8>) -> Parsed<NbtQueryResponseV> {
    match parse_nbt(s) {
        Ok((nbt, s)) => Ok((NbtQueryResponseV { nbt }, s)),
        Err(e) => Err(e),
    }
}

/// Every NbtQueryResponse packet whose fields fit reads back as itself, whatever follows.
#[verifier::spinoff_prover]
#[verifier::rlimit(100)]
pub proof fn lemma_nbt_query_response_round_trip(v: NbtQueryResponseV, rest: Seq<u8>)
    requires
        nbt_query_response_fits(v),
    ensures
        parse_nbt_query_response(nbt_query_response_bytes(v) + rest) == Ok::<(NbtQueryResponseV, Seq<u8>), ProtocolError>((v, rest)),
{
    lemma_pow256_values();
    let t1 = rest;
    let t0 = nbt_bytes(v.nbt) + t1;
    assert(nbt_query_response_bytes(v) + rest == t0);
    lemma_nbt_round_trip(v.nbt, t1);
}

impl NbtQueryResponse {
    /// Appends the fields' wire form; fails, writing nothing, when a field does
    /// not fit.
    #[verifier::spinoff_prover]
    #[verifier::rlimit(100)]
    pub fn encode(&self, out: &mut Vec<u8>) -> (r: Result<(), ProtocolError>)
        ensures
            r is Ok <==> nbt_query_response_fits(self@),
            r is Ok ==> final(out)@ == old(out)@ + nbt_query_response_bytes(self@),
            r is Err ==> final(out)@ == old(out)@,
    {
        let mut w: Vec<u8> = Vec::new();
        match self.nbt.encode() {
            Ok(b) => write_raw(b.as_slice(), &mut w),
            Err(e) => return Err(e),
        }
        assert(w@ =~= nbt_bytes(self@.nbt));
        assert(w@ == nbt_query_response_bytes(self@));
        write_raw(w.as_slice(), out);
        Ok(())
    }

    /// Reads the fields at `pos`.
    #[verifier::spinoff_prover]
    #[verifier::rlimit(100)]
    pub fn decode(input: &[u8], pos: usize) -> (r: Result<(NbtQueryResponse, usize), ProtocolError>)
        requires
            pos <= input@.len(),
        ensures
            agrees(
                match r {
                    Ok((v, p)) => Ok((v@, p)),
                    Err(e) => Err(e),
                },
                input@,
                pos as int,
                parse_nbt_query_response(input@.skip(pos as int)),
            ),
    {
        let cursor = pos;
        let (nbt, cursor) = match Nbt::decode(input, cursor) {
            Ok((x, q)) => (x, q),
            Err(e) => return Err(e),
        };
        Ok((NbtQueryResponse { nbt }, cursor))
    }
}

/// The fields of the CollectItem packet (id 0x55).
#[derive(Debug, PartialEq)]
pub struct CollectItem {
    pub collected_entity_id: VarInt,
    pub collector_entity_id: VarInt,
    pub pickup_item_count: VarInt,
}

pub struct CollectItemV {
    pub collected_entity_id: i32,
    pub collector_entity_id: i32,
    pub pickup_item_count: i32,
}

impl View for CollectItem {
    type V = CollectItemV;

    open spec fn view(&self) -> CollectItemV {
        CollectItemV { collected_entity_id: self.collected_entity_id.0, collector_entity_id: self.collector_entity_id.0, pickup_item_count: self.pickup_item_count.0 }
    }
}

pub open spec fn collect_item_fits(v: CollectItemV) -> bool {
    true
}

pub open spec fn collect_item_bytes(v: CollectItemV) -> Seq<u8> {
    varint_bytes(v.collected_entity_id) + (varint_bytes(v.collector_entity_id) + (varint_bytes(v.pickup_item_count)))
}

pub open spec fn parse_collect_item(s: Seq<u8>) -> Parsed<CollectItemV> {
    match parse_var_int(s) {
        Ok((collected_entity_id, s)) => match parse_var_int(s) {
        Ok((collector_entity_id, s)) => match parse_var_int(s) {
        Ok((pickup_item_count, s)) => Ok((CollectItemV { collected_entity_id, collector_entity_id, pickup_item_count }, s)),
        Err(e) => Err(e),
    },
        Err(e) => Err(e),
    },
        Err(e) => Err(e),
    }
}

/// Every CollectItem packet whose fields fit reads back as itself, whatever follows.
#[verifier::spinoff_prover]
#[verifier::rlimit(100)]
pub proof fn lemma_collect_item_round_trip(v: CollectItemV, rest: Seq<u8>)
    requires
        collect_item_fits(v),
    ensures
        parse_collect_item(collect_item_bytes(v) + rest) == Ok::<(CollectItemV, Seq<u8>), ProtocolError>((v, rest)),
{
    lemma_pow256_values();
    let t3 = rest;
    let t2 = varint_bytes(v.pickup_item_count) + t3;
    let t1 = varint_bytes(v.collector_entity_id) + t2;
    let t0 = varint_bytes(v.collected_entity_id) + t1;
    lemma_assoc(varint_bytes(v.collected_entity_id), varint_bytes(v.collector_entity_id) + (varint_bytes(v.pickup_item_count)), rest);
    lemma_assoc(varint_bytes(v.collector_entity_id), varint_bytes(v.pickup_item_count), rest);
    assert(collect_item_bytes(v) + rest == t0);
    lemma_parse_var_int(v.collected_entity_id, t1);
    lemma_parse_var_int(v.collector_entity_id, t2);
    lemma_parse_var_int(v.pickup_item_count, t3);
}

impl CollectItem {
    /// Appends the fields' wire form; fails, writing nothing, when a field does
    /// not fit.
    #[verifier::spinoff_prover]
    #[verifier::rlimit(100)]
    pub fn encode(&self, out: &mut Vec<u8>) -> (r: Result<(), ProtocolError>)
        ensures
            r is Ok <==> collect_item_fits(self@),
            r is Ok ==> final(out)@ == old(out)@ + collect_item_bytes(self@),
            r is Err ==> final(out)@ == old(out)@,
    {
        let mut w: Vec<u8> = Vec::new();
        self.collected_entity_id.encode(&mut w);
        assert(w@ =~= varint_bytes(self@.collected_entity_id));
        self.collector_entity_id.encode(&mut w);
        self.pickup_item_count.encode(&mut w);
        assert(w@ == collect_item_bytes(self@));
        write_raw(w.as_slice(), out);
        Ok(())
    }

    /// Reads the fields at `pos`.
    #[verifier::spinoff_prover]
    #[verifier::rlimit(100)]
    pub fn decode(input: &[u8], pos: usize) -> (r: Result<(CollectItem, usize), ProtocolError>)
        requires
            pos <= input@.len(),
        ensures
            agrees(
                match r {
                    Ok((v, p)) => Ok((v@, p)),
                    Err(e) => Err(e),
                },
                input@,
                pos as int,
                parse_collect_item(input@.skip(pos as int)),
            ),
    {
        let cursor = pos;
        let (collected_entity_id, cursor) = match read_var_int(input, cursor) {
            Ok((x, q)) => (VarInt(x), q),
            Err(e) => return Err(e),
        };
        let (collector_entity_id, cursor) = match read_var_int(input, cursor) {
            Ok((x, q)) => (VarInt(x), q),
            Err(e) => return Err(e),
        };
        let (pickup_item_count, cursor) = match read_var_int(input, cursor) {
            Ok((x, q)) => (VarInt(x), q),
            Err(e) => return Err(e),
        };
        Ok((CollectItem { collected_entity_id, collector_entity_id, pickup_item_count }, cursor))
    }
}

/// The fields of the EntityTeleport packet (id 0x56).
#[derive(Debug, PartialEq)]
pub struct EntityTeleport {
    pub entity_id: VarInt,
    pub x: u64,
    pub y: u64,
    pub z: u64,
    pub yaw: Angle,
    pub pitch: Angle,
    pub on_ground: bool,
}

pub struct EntityTeleportV {
    pub entity_id: i32,
    pub x: u64,
    pub y: u64,
    pub z: u64,
    pub yaw: u8,
    pub pitch: u8,
    pub on_ground: bool,
}

impl View for EntityTeleport {
    type V = EntityTeleportV;

    open spec fn view(&self) -> EntityTeleportV {
        EntityTeleportV { entity_id: self.entity_id.0, x: self.x, y: self.y, z: self.z, yaw: self.yaw.0, pitch: self.pitch.0, on_ground: self.on_ground }
    }
}

pub open spec fn entity_teleport_fits(v: EntityTeleportV) -> bool {
    true
}

pub open spec fn entity_teleport_bytes(v: EntityTeleportV) -> Seq<u8> {
    varint_bytes(v.entity_id) + (be_bytes(v.x as nat, 8) + (be_bytes(v.y as nat, 8) + (be_bytes(v.z as nat, 8) + (be_bytes(v.yaw as nat, 1) + (be_bytes(v.pitch as nat, 1) + (bool_bytes(v.on_ground)))))))
}

pub open spec fn parse_entity_teleport(s: Seq<u8>) -> Parsed<EntityTeleportV> {
    match parse_var_int(s) {
        Ok((entity_id, s)) => match parse_u64(s) {
        Ok((x, s)) => match parse_u64(s) {
        Ok((y, s)) => match parse_u64(s) {
        Ok((z, s)) => match parse_u8(s) {
        Ok((yaw, s)) => match parse_u8(s) {
        Ok((pitch, s)) => match parse_bool(s) {
        Ok((on_ground, s)) => Ok((EntityTeleportV { entity_id, x, y, z, yaw, pitch, on_ground }, s)),
        Err(e) => Err(e),
    },
        Err(e) => Err(e),
    },
        Err(e) => Err(e),
    },
        Err(e) => Err(e),
    },
        Err(e) => Err(e),
    },
        Err(e) => Err(e),
    },
        Err(e) => Err(e),
    }
}

/// Every EntityTeleport packet whose fields fit reads back as itself, whatever follows.
#[verifier::spinoff_prover]
#[verifier::rlimit(100)]
pub proof fn lemma_entity_teleport_round_trip(v: EntityTeleportV, rest: Seq<u8>)
    requires
        entity_teleport_fits(v),
    ensures
        parse_entity_teleport(entity_teleport_bytes(v) + rest) == Ok::<(EntityTeleportV, Seq<u8>), ProtocolError>((v, rest)),
{
    lemma_pow256_values();
    let t7 = rest;
    let t6 = bool_bytes(v.on_ground) + t7;
    let t5 = be_bytes(v.pitch as nat, 1) + t6;
    let t4 = be_bytes(v.yaw as nat, 1) + t5;
    let t3 = be_bytes(v.z as nat, 8) + t4;
    let t2 = be_bytes(v.y as nat, 8) + t3;
    let t1 = be_bytes(v.x as nat, 8) + t2;
    let t0 = varint_bytes(v.entity_id) + t1;
    lemma_assoc(varint_bytes(v.entity_id), be_bytes(v.x as nat, 8) + (be_bytes(v.y as nat, 8) + (be_bytes(v.z as nat, 8) + (be_bytes(v.yaw as nat, 1) + (be_bytes(v.pitch as nat, 1) + (bool_bytes(v.on_ground)))))), rest);
    lemma_assoc(be_bytes(v.x as nat, 8), be_bytes(v.y as nat, 8) + (be_bytes(v.z as nat, 8) + (be_bytes(v.yaw as nat, 1) + (be_bytes(v.pitch as nat, 1) + (bool_bytes(v.on_ground))))), rest);
    lemma_assoc(be_bytes(v.y as nat, 8), be_bytes(v.z as nat, 8) + (be_bytes(v.yaw as nat, 1) + (be_bytes(v.pitch as nat, 1) + (bool_bytes(v.on_ground)))), rest);
    lemma_assoc(be_bytes(v.z as nat, 8), be_bytes(v.yaw as nat, 1) + (be_bytes(v.pitch as nat, 1) + (bool_bytes(v.on_ground))), rest);
    lemma_assoc(be_bytes(v.yaw as nat, 1), be_bytes(v.pitch as nat, 1) + (bool_bytes(v.on_ground)), rest);
    lemma_assoc(be_bytes(v.pitch as nat, 1), bool_bytes(v.on_ground), rest);
    assert(entity_teleport_bytes(v) + rest == t0);
    lemma_parse_var_int(v.entity_id, t1);
    lemma_parse_be(v.x as nat, 8, t2);
    lemma_parse_be(v.y as nat, 8, t3);
    lemma_parse_be(v.z as nat, 8, t4);
    lemma_parse_be(v.yaw as nat, 1, t5);
    lemma_parse_be(v.pitch as nat, 1, t6);
    lemma_parse_bool(v.on_ground, t7);
}

impl EntityTeleport {
    /// Appends the fields' wire form; fails, writing nothing, when a field does
    /// not fit.
    #[verifier::spinoff_prover]
    #[verifier::rlimit(100)]
    pub fn encode(&self, out: &mut Vec<u8>) -> (r: Result<(), ProtocolError>)
        ensures
            r is Ok <==> entity_teleport_fits(self@),
            r is Ok ==> final(out)@ == old(out)@ + entity_teleport_bytes(self@),
            r is Err ==> final(out)@ == old(out)@,
    {
        let mut w: Vec<u8> = Vec::new();
        self.entity_id.encode(&mut w);
        assert(w@ =~= varint_bytes(self@.entity_id));
        write_u64(self.x, &mut w);
        write_u64(self.y, &mut w);
        write_u64(self.z, &mut w);
        self.yaw.encode(&mut w);
        self.pitch.encode(&mut w);
        write_bool(self.on_ground, &mut w);
        assert(w@ == entity_teleport_bytes(self@));
        write_raw(w.as_slice(), out);
        Ok(())
    }

    /// Reads the fields at `pos`.
    #[verifier::spinoff_prover]
    #[verifier::rlimit(100)]
    pub fn decode(input: &[u8], pos: usize) -> (r: Result<(EntityTeleport, usize), ProtocolError>)
        requires
            pos <= input@.len(),
        ensures
            agrees(
                match r {
                    Ok((v, p)) => Ok((v@, p)),
                    Err(e) => Err(e),
                },
                input@,
                pos as int,
                parse_entity_teleport(input@.skip(pos as int)),
            ),
    {
        let cursor = pos;
        let (entity_id, cursor) = match read_var_int(input, cursor) {
            Ok((x, q)) => (VarInt(x), q),
            Err(e) => return Err(e),
        };
        let (x, cursor) = match read_u64(input, cursor) {
            Ok((x, q)) => (x, q),
            Err(e) => return Err(e),
        };
        let (y, cursor) = match read_u64(input, cursor) {
            Ok((x, q)) => (x, q),
            Err(e) => return Err(e),
        };
        let (z, cursor) = match read_u64(input, cursor) {
            Ok((x, q)) => (x, q),
            Err(e) => return Err(e),
        };
        let (yaw, cursor) = match Angle::decode(input, cursor) {
            Ok((x, q)) => (x, q),
            Err(e) => return Err(e),
        };
        let (pitch, cursor) = match Angle::decode(input, cursor) {
            Ok((x, q)) => (x, q),
            Err(e) => return Err(e),
        };
        let (on_ground, cursor) = match read_bool(input, cursor) {
            Ok((x, q)) => (x, q),
            Err(e) => return Err(e),
        };
        Ok((EntityTeleport { entity_id, x, y, z, yaw, pitch, on_ground }, cursor))
    }
}

/// The fields of the Advancements packet (id 0x57).
#[derive(Debug, PartialEq)]
pub struct Advancements {
    pub raw: Vec<u8>,
}

pub struct AdvancementsV {
    pub raw: Seq<u8>,
}

impl View for Advancements {
    type V = AdvancementsV;

    open spec fn view(&self) -> AdvancementsV {
        AdvancementsV { raw: self.raw@ }
    }
}

pub open spec fn advancements_fits(v: AdvancementsV) -> bool {
    true
}

pub open spec fn advancements_bytes(v: AdvancementsV) -> Seq<u8> {
    v.raw
}

pub open spec fn parse_advancements(s: Seq<u8>) -> Parsed<AdvancementsV> {
    Ok((AdvancementsV { raw: s }, seq![]))
}

/// Every Advancements packet whose fields fit reads back as itself, filling the frame.
#[verifier::spinoff_prover]
#[verifier::rlimit(100)]
pub proof fn lemma_advancements_round_trip(v: AdvancementsV)
    requires
        advancements_fits(v),
    ensures
        parse_advancements(advancements_bytes(v) + seq![]) == Ok::<(AdvancementsV, Seq<u8>), ProtocolError>((v, seq![])),
{
    let rest = Seq::<u8>::empty();
    lemma_pow256_values();
    let t1 = rest;
    let t0 = v.raw + t1;
    assert(advancements_bytes(v) + rest == t0);
    assert(v.raw + rest =~= v.raw);
}

impl Advancements {
    /// Appends the fields' wire form; fails, writing nothing, when a field does
    /// not fit.
    #[verifier::spinoff_prover]
    #[verifier::rlimit(100)]
    pub fn encode(&self, out: &mut Vec<u8>) -> (r: Result<(), ProtocolError>)
        ensures
            r is Ok <==> advancements_fits(self@),
            r is Ok ==> final(out)@ == old(out)@ + advancements_bytes(self@),
            r is Err ==> final(out)@ == old(out)@,
    {
        let mut w: Vec<u8> = Vec::new();
        write_raw(self.raw.as_slice(), &mut w);
        assert(w@ =~= self@.raw);
        assert(w@ == advancements_bytes(self@));
        write_raw(w.as_slice(), out);
        Ok(())
    }

    /// Reads the fields at `pos`.
    #[verifier::spinoff_prover]
    #[verifier::rlimit(100)]
    pub fn decode(input: &[u8], pos: usize) -> (r: Result<(Advancements, usize), ProtocolError>)
        requires
            pos <= input@.len(),
        ensures
            agrees(
                match r {
                    Ok((v, p)) => Ok((v@, p)),
                    Err(e) => Err(e),
                },
                input@,
                pos as int,
                parse_advancements(input@.skip(pos as int)),
            ),
    {
        let cursor = pos;
        let (raw, cursor) = read_greedy(input, cursor);
        assert(input@.skip(cursor as int) =~= seq![]);
        Ok((Advancements { raw }, cursor))
    }
}

/// The fields of the EntityProperties packet (id 0x58).
#[derive(Debug, PartialEq)]
pub struct EntityProperties {
    pub raw: Vec<u8>,
}

pub struct EntityPropertiesV {
    pub raw: Seq<u8>,
}

impl View for EntityProperties {
    type V = EntityPropertiesV;

    open spec fn view(&self) -> EntityPropertiesV {
        EntityPropertiesV { raw: self.raw@ }
    }
}

pub open spec fn entity_properties_fits(v: EntityPropertiesV) -> bool {
    true
}

pub open spec fn entity_properties_bytes(v: EntityPropertiesV) -> Seq<u8> {
    v.raw
}

pub open spec fn parse_entity_properties(s: Seq<u8>) -> Parsed<EntityPropertiesV> {
    Ok((EntityPropertiesV { raw: s }, seq![]))
}

/// Every EntityProperties packet whose fields fit reads back as itself, filling the frame.
#[verifier::spinoff_prover]
#[verifier::rlimit(100)]
pub proof fn lemma_entity_properties_round_trip(v: EntityPropertiesV)
    requires
        entity_properties_fits(v),
    ensures
        parse_entity_properties(entity_properties_bytes(v) + seq![]) == Ok::<(EntityPropertiesV, Seq<u8>), ProtocolError>((v, seq![])),
{
    let rest = Seq::<u8>::empty();
    lemma_pow256_values();
    let t1 = rest;
    let t0 = v.raw + t1;
    assert(entity_properties_bytes(v) + rest == t0);
    assert(v.raw + rest =~= v.raw);
}

impl EntityProperties {
    /// Appends the fields' wire form; fails, writing nothing, when a field does
    /// not fit.
    #[verifier::spinoff_prover]
    #[verifier::rlimit(100)]
    pub fn encode(&self, out: &mut Vec<u8>) -> (r: Result<(), ProtocolError>)
        ensures
            r is Ok <==> entity_properties_fits(self@),
            r is Ok ==> final(out)@ == old(out)@ + entity_properties_bytes(self@),
            r is Err ==> final(out)@ == old(out)@,
    {
        let mut w: Vec<u8> = Vec::new();
        write_raw(self.raw.as_slice(), &mut w);
        assert(w@ =~= self@.raw);
        assert(w@ == entity_properties_bytes(self@));
        write_raw(w.as_slice(), out);
        Ok(())
    }

    /// Reads the fields at `pos`.
    #[verifier::spinoff_prover]
    #[verifier::rlimit(100)]
    pub fn decode(input: &[u8], pos: usize) -> (r: Result<(EntityProperties, usize), ProtocolError>)
        requires
            pos <= input@.len(),
        ensures
            agrees(
                match r {
                    Ok((v, p)) => Ok((v@, p)),
                    Err(e) => Err(e),
                },
                input@,
                pos as int,
                parse_entity_properties(input@.skip(pos as int)),
            ),
    {
        let cursor = pos;
        let (raw, cursor) = read_greedy(input, cursor);
        assert(input@.skip(cursor as int) =~= seq![]);
        Ok((EntityProperties { raw }, cursor))
    }
}

/// The fields of the EntityEffect packet (id 0x59).
#[derive(Debug, PartialEq)]
pub struct EntityEffect {
    pub entity_id: VarInt,
    pub effect_id: i8,
    pub amplifier: i8,
    pub duration: VarInt,
    pub flags: i8,
}

pub struct EntityEffectV {
    pub entity_id: i32,
    pub effect_id: i8,
    pub amplifier: i8,
    pub duration: i32,
    pub flags: i8,
}

impl View for EntityEffect {
    type V = EntityEffectV;

    open spec fn view(&self) -> EntityEffectV {
        EntityEffectV { entity_id: self.entity_id.0, effect_id: self.effect_id, amplifier: self.amplifier, duration: self.duration.0, flags: self.flags }
    }
}

pub open spec fn entity_effect_fits(v: EntityEffectV) -> bool {
    true
}

pub open spec fn entity_effect_bytes(v: EntityEffectV) -> Seq<u8> {
    varint_bytes(v.entity_id) + (signed_bytes(v.effect_id as int, 1) + (signed_bytes(v.amplifier as int, 1) + (varint_bytes(v.duration) + (signed_bytes(v.flags as int, 1)))))
}

pub open spec fn parse_entity_effect(s: Seq<u8>) -> Parsed<EntityEffectV> {
    match parse_var_int(s) {
        Ok((entity_id, s)) => match parse_i8(s) {
        Ok((effect_id, s)) => match parse_i8(s) {
        Ok((amplifier, s)) => match parse_var_int(s) {
        Ok((duration, s)) => match parse_i8(s) {
        Ok((flags, s)) => Ok((EntityEffectV { entity_id, effect_id, amplifier, duration, flags }, s)),
        Err(e) => Err(e),
    },
        Err(e) => Err(e),
    },
        Err(e) => Err(e),
    },
        Err(e) => Err(e),
    },
        Err(e) => Err(e),
    }
}

/// Every EntityEffect packet whose fields fit reads back as itself, whatever follows.
#[verifier::spinoff_prover]
#[verifier::rlimit(100)]
pub proof fn lemma_entity_effect_round_trip(v: EntityEffectV, rest: Seq<u8>)
    requires
        entity_effect_fits(v),
    ensures
        parse_entity_effect(entity_effect_bytes(v) + rest) == Ok::<(EntityEffectV, Seq<u8>), ProtocolError>((v, rest)),
{
    lemma_pow256_values();
    let t5 = rest;
    let t4 = signed_bytes(v.flags as int, 1) + t5;
    let t3 = varint_bytes(v.duration) + t4;
    let t2 = signed_bytes(v.amplifier as int, 1) + t3;
    let t1 = signed_bytes(v.effect_id as int, 1) + t2;
    let t0 = varint_bytes(v.entity_id) + t1;
    lemma_assoc(varint_bytes(v.entity_id), signed_bytes(v.effect_id as int, 1) + (signed_bytes(v.amplifier as int, 1) + (varint_bytes(v.duration) + (signed_bytes(v.flags as int, 1)))), rest);
    lemma_assoc(signed_bytes(v.effect_id as int, 1), signed_bytes(v.amplifier as int, 1) + (varint_bytes(v.duration) + (signed_bytes(v.flags as int, 1))), rest);
    lemma_assoc(signed_bytes(v.amplifier as int, 1), varint_bytes(v.duration) + (signed_bytes(v.flags as int, 1)), rest);
    lemma_assoc(varint_bytes(v.duration), signed_bytes(v.flags as int, 1), rest);
    assert(entity_effect_bytes(v) + rest == t0);
    lemma_parse_var_int(v.entity_id, t1);
    lemma_parse_signed(v.effect_id as int, 1, t2);
    lemma_parse_signed(v.amplifier as int, 1, t3);
    lemma_parse_var_int(v.duration, t4);
    lemma_parse_signed(v.flags as int, 1, t5);
}

impl EntityEffect {
    /// Appends the fields' wire form; fails, writing nothing, when a field does
    /// not fit.
    #[verifier::spinoff_prover]
    #[verifier::rlimit(100)]
    pub fn encode(&self, out: &mut Vec<u8>) -> (r: Result<(), ProtocolError>)
        ensures
            r is Ok <==> entity_effect_fits(self@),
            r is Ok ==> final(out)@ == old(out)@ + entity_effect_bytes(self@),
            r is Err ==> final(out)@ == old(out)@,
    {
        let mut w: Vec<u8> = Vec::new();
        self.entity_id.encode(&mut w);
        assert(w@ =~= varint_bytes(self@.entity_id));
        write_i8(self.effect_id, &mut w);
        write_i8(self.amplifier, &mut w);
        self.duration.encode(&mut w);
        write_i8(self.flags, &mut w);
        assert(w@ == entity_effect_bytes(self@));
        write_raw(w.as_slice(), out);
        Ok(())
    }

    /// Reads the fields at `pos`.
    #[verifier::spinoff_prover]
    #[verifier::rlimit(100)]
    pub fn decode(input: &[u8], pos: usize) -> (r: Result<(EntityEffect, usize), ProtocolError>)
        requires
            pos <= input@.len(),
        ensures
            agrees(
                match r {
                    Ok((v, p)) => Ok((v@, p)),
                    Err(e) => Err(e),
                },
                input@,
                pos as int,
                parse_entity_effect(input@.skip(pos as int)),
            ),
    {
        let cursor = pos;
        let (entity_id, cursor) = match read_var_int(input, cursor) {
            Ok((x, q)) => (VarInt(x), q),
            Err(e) => return Err(e),
        };
        let (effect_id, cursor) = match read_i8(input, cursor) {
            Ok((x, q)) => (x, q),
            Err(e) => return Err(e),
        };
        let (amplifier, cursor) = match read_i8(input, cursor) {
            Ok((x, q)) => (x, q),
            Err(e) => return Err(e),
        };
        let (duration, cursor) = match read_var_int(input, cursor) {
            Ok((x, q)) => (VarInt(x), q),
            Err(e) => return Err(e),
        };
        let (flags, cursor) = match read_i8(input, cursor) {
            Ok((x, q)) => (x, q),
            Err(e) => return Err(e),
        };
        Ok((EntityEffect { entity_id, effect_id, amplifier, duration, flags }, cursor))
    }
}

/// The fields of the DeclareRecipes packet (id 0x5a).
#[derive(Debug, PartialEq)]
pub struct DeclareRecipes {
    pub raw: Vec<u8>,
}

pub struct DeclareRecipesV {
    pub raw: Seq<u8>,
}

impl View for DeclareRecipes {
    type V = DeclareRecipesV;

    open spec fn view(&self) -> DeclareRecipesV {
        DeclareRecipesV { raw: self.raw@ }
    }
}

pub open spec fn declare_recipes_fits(v: DeclareRecipesV) -> bool {
    true
}

pub open spec fn declare_recipes_bytes(v: DeclareRecipesV) -> Seq<u8> {
    v.raw
}

pub open spec fn parse_declare_recipes(s: Seq<u8>) -> Parsed<DeclareRecipesV> {
    Ok((DeclareRecipesV { raw: s }, seq![]))
}

/// Every DeclareRecipes packet whose fields fit reads back as itself, filling the frame.
#[verifier::spinoff_prover]
#[verifier::rlimit(100)]
pub proof fn lemma_declare_recipes_round_trip(v: DeclareRecipesV)
    requires
        declare_recipes_fits(v),
    ensures
        parse_declare_recipes(declare_recipes_bytes(v) + seq![]) == Ok::<(DeclareRecipesV, Seq<u8>), ProtocolError>((v, seq![])),
{
    let rest = Seq::<u8>::empty();
    lemma_pow256_values();
    let t1 = rest;
    let t0 = v.raw + t1;
    assert(declare_recipes_bytes(v) + rest == t0);
    assert(v.raw + rest =~= v.raw);
}

impl DeclareRecipes {
    /// Appends the fields' wire form; fails, writing nothing, when a field does
    /// not fit.
    #[verifier::spinoff_prover]
    #[verifier::rlimit(100)]
    pub fn encode(&self, out: &mut Vec<u8>) -> (r: Result<(), ProtocolError>)
        ensures
            r is Ok <==> declare_recipes_fits(self@),
            r is Ok ==> final(out)@ == old(out)@ + declare_recipes_bytes(self@),
            r is Err ==> final(out)@ == old(out)@,
    {
        let mut w: Vec<u8> = Vec::new();
        write_raw(self.raw.as_slice(), &mut w);
        assert(w@ =~= self@.raw);
        assert(w@ == declare_recipes_bytes(self@));
        write_raw(w.as_slice(), out);
        Ok(())
    }

    /// Reads the fields at `pos`.
    #[verifier::spinoff_prover]
    #[verifier::rlimit(100)]
    pub fn decode(input: &[u8], pos: usize) -> (r: Result<(DeclareRecipes, usize), ProtocolError>)
        requires
            pos <= input@.len(),
        ensures
            agrees(
                match r {
                    Ok((v, p)) => Ok((v@, p)),
                    Err(e) => Err(e),
                },
                input@,
                pos as int,
                parse_declare_recipes(input@.skip(pos as int)),
            ),
    {
        let cursor = pos;
        let (raw, cursor) = read_greedy(input, cursor);
        assert(input@.skip(cursor as int) =~= seq![]);
        Ok((DeclareRecipes { raw }, cursor))
    }
}

/// The clientbound play packets with plain fields, each with its own struct.
#[derive(Debug, PartialEq)]
pub enum Packet {
    SpawnEntity(SpawnEntity),
    SpawnExperienceOrb(SpawnExperienceOrb),
    SpawnLivingEntity(SpawnLivingEntity),
    SpawnPainting(SpawnPainting),
    SpawnPlayer(SpawnPlayer),
    EntityAnimation(EntityAnimation),
    AcknowledgePlayerDigging(AcknowledgePlayerDigging),
    BlockBreakAnimation(BlockBreakAnimation),
    BlockEntityData(BlockEntityData),
    BlockAction(BlockAction),
    BlockChange(BlockChange),
    ServerDifficulty(ServerDifficulty),
    DeclareCommands(DeclareCommands),
    WindowConfirmation(WindowConfirmation),
    CloseWindow(CloseWindow),
    WindowProperty(WindowProperty),
    SetCooldown(SetCooldown),
    PluginMessage(PluginMessage),
    NamedSoundEffect(NamedSoundEffect),
    ChangeGameState(ChangeGameState),
    OpenHorseWindow(OpenHorseWindow),
    Effect(Effect),
    Particle(Particle),
    UpdateLight(UpdateLight),
    EntityPosition(EntityPosition),
    EntityPositionAndRotation(EntityPositionAndRotation),
    EntityRotation(EntityRotation),
    EntityMovement(EntityMovement),
    VehicleMove(VehicleMove),
    OpenBook(OpenBook),
    OpenWindow(OpenWindow),
    OpenSignEditor(OpenSignEditor),
    CraftRecipeResponse(CraftRecipeResponse),
    PlayerAbilities(PlayerAbilities),
    RemoveEntityEffect(RemoveEntityEffect),
    ResourcePackSend(ResourcePackSend),
    Respawn(Respawn),
    EntityHeadLook(EntityHeadLook),
    Camera(Camera),
    DisplayScoreboard(DisplayScoreboard),
    EntityMetadata(EntityMetadata),
    AttachEntity(AttachEntity),
    EntityVelocity(EntityVelocity),
    EntityEquipment(EntityEquipment),
    SetExperience(SetExperience),
    UpdateHealth(UpdateHealth),
    EntitySoundEffect(EntitySoundEffect),
    SoundEffect(SoundEffect),
    NbtQueryResponse(NbtQueryResponse),
    CollectItem(CollectItem),
    EntityTeleport(EntityTeleport),
    Advancements(Advancements),
    EntityProperties(EntityProperties),
    EntityEffect(EntityEffect),
    DeclareRecipes(DeclareRecipes),
}

pub enum PacketV {
    SpawnEntity(SpawnEntityV),
    SpawnExperienceOrb(SpawnExperienceOrbV),
    SpawnLivingEntity(SpawnLivingEntityV),
    SpawnPainting(SpawnPaintingV),
    SpawnPlayer(SpawnPlayerV),
    EntityAnimation(EntityAnimationV),
    AcknowledgePlayerDigging(AcknowledgePlayerDiggingV),
    BlockBreakAnimation(BlockBreakAnimationV),
    BlockEntityData(BlockEntityDataV),
    BlockAction(BlockActionV),
    BlockChange(BlockChangeV),
    ServerDifficulty(ServerDifficultyV),
    DeclareCommands(DeclareCommandsV),
    WindowConfirmation(WindowConfirmationV),
    CloseWindow(CloseWindowV),
    WindowProperty(WindowPropertyV),
    SetCooldown(SetCooldownV),
    PluginMessage(PluginMessageV),
    NamedSoundEffect(NamedSoundEffectV),
    ChangeGameState(ChangeGameStateV),
    OpenHorseWindow(OpenHorseWindowV),
    Effect(EffectV),
    Particle(ParticleV),
    UpdateLight(UpdateLightV),
    EntityPosition(EntityPositionV),
    EntityPositionAndRotation(EntityPositionAndRotationV),
    EntityRotation(EntityRotationV),
    EntityMovement(EntityMovementV),
    VehicleMove(VehicleMoveV),
    OpenBook(OpenBookV),
    OpenWindow(OpenWindowV),
    OpenSignEditor(OpenSignEditorV),
    CraftRecipeResponse(CraftRecipeResponseV),
    PlayerAbilities(PlayerAbilitiesV),
    RemoveEntityEffect(RemoveEntityEffectV),
    ResourcePackSend(ResourcePackSendV),
    Respawn(RespawnV),
    EntityHeadLook(EntityHeadLookV),
    Camera(CameraV),
    DisplayScoreboard(DisplayScoreboardV),
    EntityMetadata(EntityMetadataV),
    AttachEntity(AttachEntityV),
    EntityVelocity(EntityVelocityV),
    EntityEquipment(EntityEquipmentV),
    SetExperience(SetExperienceV),
    UpdateHealth(UpdateHealthV),
    EntitySoundEffect(EntitySoundEffectV),
    SoundEffect(SoundEffectV),
    NbtQueryResponse(NbtQueryResponseV),
    CollectItem(CollectItemV),
    EntityTeleport(EntityTeleportV),
    Advancements(AdvancementsV),
    EntityProperties(EntityPropertiesV),
    EntityEffect(EntityEffectV),
    DeclareRecipes(DeclareRecipesV),
}

impl View for Packet {
    type V = PacketV;

    open spec fn view(&self) -> PacketV {
        match self {
            Packet::SpawnEntity(x) => PacketV::SpawnEntity(x@),
            Packet::SpawnExperienceOrb(x) => PacketV::SpawnExperienceOrb(x@),
            Packet::SpawnLivingEntity(x) => PacketV::SpawnLivingEntity(x@),
            Packet::SpawnPainting(x) => PacketV::SpawnPainting(x@),
            Packet::SpawnPlayer(x) => PacketV::SpawnPlayer(x@),
            Packet::EntityAnimation(x) => PacketV::EntityAnimation(x@),
            Packet::AcknowledgePlayerDigging(x) => PacketV::AcknowledgePlayerDigging(x@),
            Packet::BlockBreakAnimation(x) => PacketV::BlockBreakAnimation(x@),
            Packet::BlockEntityData(x) => PacketV::BlockEntityData(x@),
            Packet::BlockAction(x) => PacketV::BlockAction(x@),
            Packet::BlockChange(x) => PacketV::BlockChange(x@),
            Packet::ServerDifficulty(x) => PacketV::ServerDifficulty(x@),
            Packet::DeclareCommands(x) => PacketV::DeclareCommands(x@),
            Packet::WindowConfirmation(x) => PacketV::WindowConfirmation(x@),
            Packet::CloseWindow(x) => PacketV::CloseWindow(x@),
            Packet::WindowProperty(x) => PacketV::WindowProperty(x@),
            Packet::SetCooldown(x) => PacketV::SetCooldown(x@),
            Packet::PluginMessage(x) => PacketV::PluginMessage(x@),
            Packet::NamedSoundEffect(x) => PacketV::NamedSoundEffect(x@),
            Packet::ChangeGameState(x) => PacketV::ChangeGameState(x@),
            Packet::OpenHorseWindow(x) => PacketV::OpenHorseWindow(x@),
            Packet::Effect(x) => PacketV::Effect(x@),
            Packet::Particle(x) => PacketV::Particle(x@),
            Packet::UpdateLight(x) => PacketV::UpdateLight(x@),
            Packet::EntityPosition(x) => PacketV::EntityPosition(x@),
            Packet::EntityPositionAndRotation(x) => PacketV::EntityPositionAndRotation(x@),
            Packet::EntityRotation(x) => PacketV::EntityRotation(x@),
            Packet::EntityMovement(x) => PacketV::EntityMovement(x@),
            Packet::VehicleMove(x) => PacketV::VehicleMove(x@),
            Packet::OpenBook(x) => PacketV::OpenBook(x@),
            Packet::OpenWindow(x) => PacketV::OpenWindow(x@),
            Packet::OpenSignEditor(x) => PacketV::OpenSignEditor(x@),
            Packet::CraftRecipeResponse(x) => PacketV::CraftRecipeResponse(x@),
            Packet::PlayerAbilities(x) => PacketV::PlayerAbilities(x@),
            Packet::RemoveEntityEffect(x) => PacketV::RemoveEntityEffect(x@),
            Packet::ResourcePackSend(x) => PacketV::ResourcePackSend(x@),
            Packet::Respawn(x) => PacketV::Respawn(x@),
            Packet::EntityHeadLook(x) => PacketV::EntityHeadLook(x@),
            Packet::Camera(x) => PacketV::Camera(x@),
            Packet::DisplayScoreboard(x) => PacketV::DisplayScoreboard(x@),
            Packet::EntityMetadata(x) => PacketV::EntityMetadata(x@),
            Packet::AttachEntity(x) => PacketV::AttachEntity(x@),
            Packet::EntityVelocity(x) => PacketV::EntityVelocity(x@),
            Packet::EntityEquipment(x) => PacketV::EntityEquipment(x@),
            Packet::SetExperience(x) => PacketV::SetExperience(x@),
            Packet::UpdateHealth(x) => PacketV::UpdateHealth(x@),
            Packet::EntitySoundEffect(x) => PacketV::EntitySoundEffect(x@),
            Packet::SoundEffect(x) => PacketV::SoundEffect(x@),
            Packet::NbtQueryResponse(x) => PacketV::NbtQueryResponse(x@),
            Packet::CollectItem(x) => PacketV::CollectItem(x@),
            Packet::EntityTeleport(x) => PacketV::EntityTeleport(x@),
            Packet::Advancements(x) => PacketV::Advancements(x@),
            Packet::EntityProperties(x) => PacketV::EntityProperties(x@),
            Packet::EntityEffect(x) => PacketV::EntityEffect(x@),
            Packet::DeclareRecipes(x) => PacketV::DeclareRecipes(x@),
        }
    }
}

/// The id a packet is sent with.
pub open spec fn packet_id(p: PacketV) -> i32 {
    match p {
        PacketV::SpawnEntity(_) => 0x00,
        PacketV::SpawnExperienceOrb(_) => 0x01,
        PacketV::SpawnLivingEntity(_) => 0x02,
        PacketV::SpawnPainting(_) => 0x03,
        PacketV::SpawnPlayer(_) => 0x04,
        PacketV::EntityAnimation(_) => 0x05,
        PacketV::AcknowledgePlayerDigging(_) => 0x07,
        PacketV::BlockBreakAnimation(_) => 0x08,
        PacketV::BlockEntityData(_) => 0x09,
        PacketV::BlockAction(_) => 0x0a,
        PacketV::BlockChange(_) => 0x0b,
        PacketV::ServerDifficulty(_) => 0x0d,
        PacketV::DeclareCommands(_) => 0x10,
        PacketV::WindowConfirmation(_) => 0x11,
        PacketV::CloseWindow(_) => 0x12,
        PacketV::WindowProperty(_) => 0x14,
        PacketV::SetCooldown(_) => 0x16,
        PacketV::PluginMessage(_) => 0x17,
        PacketV::NamedSoundEffect(_) => 0x18,
        PacketV::ChangeGameState(_) => 0x1d,
        PacketV::OpenHorseWindow(_) => 0x1e,
        PacketV::Effect(_) => 0x21,
        PacketV::Particle(_) => 0x22,
        PacketV::UpdateLight(_) => 0x23,
        PacketV::EntityPosition(_) => 0x27,
        PacketV::EntityPositionAndRotation(_) => 0x28,
        PacketV::EntityRotation(_) => 0x29,
        PacketV::EntityMovement(_) => 0x2a,
        PacketV::VehicleMove(_) => 0x2b,
        PacketV::OpenBook(_) => 0x2c,
        PacketV::OpenWindow(_) => 0x2d,
        PacketV::OpenSignEditor(_) => 0x2e,
        PacketV::CraftRecipeResponse(_) => 0x2f,
        PacketV::PlayerAbilities(_) => 0x30,
        PacketV::RemoveEntityEffect(_) => 0x37,
        PacketV::ResourcePackSend(_) => 0x38,
        PacketV::Respawn(_) => 0x39,
        PacketV::EntityHeadLook(_) => 0x3a,
        PacketV::Camera(_) => 0x3e,
        PacketV::DisplayScoreboard(_) => 0x43,
        PacketV::EntityMetadata(_) => 0x44,
        PacketV::AttachEntity(_) => 0x45,
        PacketV::EntityVelocity(_) => 0x46,
        PacketV::EntityEquipment(_) => 0x47,
        PacketV::SetExperience(_) => 0x48,
        PacketV::UpdateHealth(_) => 0x49,
        PacketV::EntitySoundEffect(_) => 0x50,
        PacketV::SoundEffect(_) => 0x51,
        PacketV::NbtQueryResponse(_) => 0x54,
        PacketV::CollectItem(_) => 0x55,
        PacketV::EntityTeleport(_) => 0x56,
        PacketV::Advancements(_) => 0x57,
        PacketV::EntityProperties(_) => 0x58,
        PacketV::EntityEffect(_) => 0x59,
        PacketV::DeclareRecipes(_) => 0x5a,
    }
}

pub open spec fn packet_fits(p: PacketV) -> bool {
    match p {
        PacketV::SpawnEntity(v) => spawn_entity_fits(v),
        PacketV::SpawnExperienceOrb(v) => spawn_experience_orb_fits(v),
        PacketV::SpawnLivingEntity(v) => spawn_living_entity_fits(v),
        PacketV::SpawnPainting(v) => spawn_painting_fits(v),
        PacketV::SpawnPlayer(v) => spawn_player_fits(v),
        PacketV::EntityAnimation(v) => entity_animation_fits(v),
        PacketV::AcknowledgePlayerDigging(v) => acknowledge_player_digging_fits(v),
        PacketV::BlockBreakAnimation(v) => block_break_animation_fits(v),
        PacketV::BlockEntityData(v) => block_entity_data_fits(v),
        PacketV::BlockAction(v) => block_action_fits(v),
        PacketV::BlockChange(v) => block_change_fits(v),
        PacketV::ServerDifficulty(v) => server_difficulty_fits(v),
        PacketV::DeclareCommands(v) => declare_commands_fits(v),
        PacketV::WindowConfirmation(v) => window_confirmation_fits(v),
        PacketV::CloseWindow(v) => close_window_fits(v),
        PacketV::WindowProperty(v) => window_property_fits(v),
        PacketV::SetCooldown(v) => set_cooldown_fits(v),
        PacketV::PluginMessage(v) => plugin_message_fits(v),
        PacketV::NamedSoundEffect(v) => named_sound_effect_fits(v),
        PacketV::ChangeGameState(v) => change_game_state_fits(v),
        PacketV::OpenHorseWindow(v) => open_horse_window_fits(v),
        PacketV::Effect(v) => effect_fits(v),
        PacketV::Particle(v) => particle_fits(v),
        PacketV::UpdateLight(v) => update_light_fits(v),
        PacketV::EntityPosition(v) => entity_position_fits(v),
        PacketV::EntityPositionAndRotation(v) => entity_position_and_rotation_fits(v),
        PacketV::EntityRotation(v) => entity_rotation_fits(v),
        PacketV::EntityMovement(v) => entity_movement_fits(v),
        PacketV::VehicleMove(v) => vehicle_move_fits(v),
        PacketV::OpenBook(v) => open_book_fits(v),
        PacketV::OpenWindow(v) => open_window_fits(v),
        PacketV::OpenSignEditor(v) => open_sign_editor_fits(v),
        PacketV::CraftRecipeResponse(v) => craft_recipe_response_fits(v),
        PacketV::PlayerAbilities(v) => player_abilities_fits(v),
        PacketV::RemoveEntityEffect(v) => remove_entity_effect_fits(v),
        PacketV::ResourcePackSend(v) => resource_pack_send_fits(v),
        PacketV::Respawn(v) => respawn_fits(v),
        PacketV::EntityHeadLook(v) => entity_head_look_fits(v),
        PacketV::Camera(v) => camera_fits(v),
        PacketV::DisplayScoreboard(v) => display_scoreboard_fits(v),
        PacketV::EntityMetadata(v) => entity_metadata_fits(v),
        PacketV::AttachEntity(v) => attach_entity_fits(v),
        PacketV::EntityVelocity(v) => entity_velocity_fits(v),
        PacketV::EntityEquipment(v) => entity_equipment_fits(v),
        PacketV::SetExperience(v) => set_experience_fits(v),
        PacketV::UpdateHealth(v) => update_health_fits(v),
        PacketV::EntitySoundEffect(v) => entity_sound_effect_fits(v),
        PacketV::SoundEffect(v) => sound_effect_fits(v),
        PacketV::NbtQueryResponse(v) => nbt_query_response_fits(v),
        PacketV::CollectItem(v) => collect_item_fits(v),
        PacketV::EntityTeleport(v) => entity_teleport_fits(v),
        PacketV::Advancements(v) => advancements_fits(v),
        PacketV::EntityProperties(v) => entity_properties_fits(v),
        PacketV::EntityEffect(v) => entity_effect_fits(v),
        PacketV::DeclareRecipes(v) => declare_recipes_fits(v),
    }
}

/// A packet's fields, after its id.
pub open spec fn packet_body(p: PacketV) -> Seq<u8> {
    match p {
        PacketV::SpawnEntity(v) => spawn_entity_bytes(v),
        PacketV::SpawnExperienceOrb(v) => spawn_experience_orb_bytes(v),
        PacketV::SpawnLivingEntity(v) => spawn_living_entity_bytes(v),
        PacketV::SpawnPainting(v) => spawn_painting_bytes(v),
        PacketV::SpawnPlayer(v) => spawn_player_bytes(v),
        PacketV::EntityAnimation(v) => entity_animation_bytes(v),
        PacketV::AcknowledgePlayerDigging(v) => acknowledge_player_digging_bytes(v),
        PacketV::BlockBreakAnimation(v) => block_break_animation_bytes(v),
        PacketV::BlockEntityData(v) => block_entity_data_bytes(v),
        PacketV::BlockAction(v) => block_action_bytes(v),
        PacketV::BlockChange(v) => block_change_bytes(v),
        PacketV::ServerDifficulty(v) => server_difficulty_bytes(v),
        PacketV::DeclareCommands(v) => declare_commands_bytes(v),
        PacketV::WindowConfirmation(v) => window_confirmation_bytes(v),
        PacketV::CloseWindow(v) => close_window_bytes(v),
        PacketV::WindowProperty(v) => window_property_bytes(v),
        PacketV::SetCooldown(v) => set_cooldown_bytes(v),
        PacketV::PluginMessage(v) => plugin_message_bytes(v),
        PacketV::NamedSoundEffect(v) => named_sound_effect_bytes(v),
        PacketV::ChangeGameState(v) => change_game_state_bytes(v),
        PacketV::OpenHorseWindow(v) => open_horse_window_bytes(v),
        PacketV::Effect(v) => effect_bytes(v),
        PacketV::Particle(v) => particle_bytes(v),
        PacketV::UpdateLight(v) => update_light_bytes(v),
        PacketV::EntityPosition(v) => entity_position_bytes(v),
        PacketV::EntityPositionAndRotation(v) => entity_position_and_rotation_bytes(v),
        PacketV::EntityRotation(v) => entity_rotation_bytes(v),
        PacketV::EntityMovement(v) => entity_movement_bytes(v),
        PacketV::VehicleMove(v) => vehicle_move_bytes(v),
        PacketV::OpenBook(v) => open_book_bytes(v),
        PacketV::OpenWindow(v) => open_window_bytes(v),
        PacketV::OpenSignEditor(v) => open_sign_editor_bytes(v),
        PacketV::CraftRecipeResponse(v) => craft_recipe_response_bytes(v),
        PacketV::PlayerAbilities(v) => player_abilities_bytes(v),
        PacketV::RemoveEntityEffect(v) => remove_entity_effect_bytes(v),
        PacketV::ResourcePackSend(v) => resource_pack_send_bytes(v),
        PacketV::Respawn(v) => respawn_bytes(v),
        PacketV::EntityHeadLook(v) => entity_head_look_bytes(v),
        PacketV::Camera(v) => camera_bytes(v),
        PacketV::DisplayScoreboard(v) => display_scoreboard_bytes(v),
        PacketV::EntityMetadata(v) => entity_metadata_bytes(v),
        PacketV::AttachEntity(v) => attach_entity_bytes(v),
        PacketV::EntityVelocity(v) => entity_velocity_bytes(v),
        PacketV::EntityEquipment(v) => entity_equipment_bytes(v),
        PacketV::SetExperience(v) => set_experience_bytes(v),
        PacketV::UpdateHealth(v) => update_health_bytes(v),
        PacketV::EntitySoundEffect(v) => entity_sound_effect_bytes(v),
        PacketV::SoundEffect(v) => sound_effect_bytes(v),
        PacketV::NbtQueryResponse(v) => nbt_query_response_bytes(v),
        PacketV::CollectItem(v) => collect_item_bytes(v),
        PacketV::EntityTeleport(v) => entity_teleport_bytes(v),
        PacketV::Advancements(v) => advancements_bytes(v),
        PacketV::EntityProperties(v) => entity_properties_bytes(v),
        PacketV::EntityEffect(v) => entity_effect_bytes(v),
        PacketV::DeclareRecipes(v) => declare_recipes_bytes(v),
    }
}

/// Every packet is sent with one of the known ids.
pub proof fn lemma_known_id(p: PacketV)
    ensures
        known_id(packet_id(p)),
{
    reveal(known_id);
}

/// The ids this module reads.
#[verifier::opaque]
pub open spec fn known_id(id: i32) -> bool {
    id == 0x00 || id == 0x01 || id == 0x02 || id == 0x03 || id == 0x04 || id == 0x05 || id == 0x07 || id == 0x08 || id == 0x09 || id == 0x0a || id == 0x0b || id == 0x0d || id == 0x10 || id == 0x11 || id == 0x12 || id == 0x14 || id == 0x16 || id == 0x17 || id == 0x18 || id == 0x1d || id == 0x1e || id == 0x21 || id == 0x22 || id == 0x23 || id == 0x27 || id == 0x28 || id == 0x29 || id == 0x2a || id == 0x2b || id == 0x2c || id == 0x2d || id == 0x2e || id == 0x2f || id == 0x30 || id == 0x37 || id == 0x38 || id == 0x39 || id == 0x3a || id == 0x3e || id == 0x43 || id == 0x44 || id == 0x45 || id == 0x46 || id == 0x47 || id == 0x48 || id == 0x49 || id == 0x50 || id == 0x51 || id == 0x54 || id == 0x55 || id == 0x56 || id == 0x57 || id == 0x58 || id == 0x59 || id == 0x5a
}

pub fn is_known_id(id: i32) -> (r: bool)
    ensures
        r == known_id(id),
{
    proof {
        reveal(known_id);
    }
    id == 0x00 || id == 0x01 || id == 0x02 || id == 0x03 || id == 0x04 || id == 0x05 || id == 0x07 || id == 0x08 || id == 0x09 || id == 0x0a || id == 0x0b || id == 0x0d || id == 0x10 || id == 0x11 || id == 0x12 || id == 0x14 || id == 0x16 || id == 0x17 || id == 0x18 || id == 0x1d || id == 0x1e || id == 0x21 || id == 0x22 || id == 0x23 || id == 0x27 || id == 0x28 || id == 0x29 || id == 0x2a || id == 0x2b || id == 0x2c || id == 0x2d || id == 0x2e || id == 0x2f || id == 0x30 || id == 0x37 || id == 0x38 || id == 0x39 || id == 0x3a || id == 0x3e || id == 0x43 || id == 0x44 || id == 0x45 || id == 0x46 || id == 0x47 || id == 0x48 || id == 0x49 || id == 0x50 || id == 0x51 || id == 0x54 || id == 0x55 || id == 0x56 || id == 0x57 || id == 0x58 || id == 0x59 || id == 0x5a
}

/// Reads the fields of the packet with id `id`.
#[verifier::opaque]
pub open spec fn parse_packet(id: i32, s: Seq<u8>) -> Parsed<PacketV> {
    if id == 0x00 || id == 0x01 || id == 0x02 || id == 0x03 || id == 0x04 || id == 0x05 || id == 0x07 || id == 0x08 || id == 0x09 || id == 0x0a {
        parse_group_0(id, s)
    } else if id == 0x0b || id == 0x0d || id == 0x10 || id == 0x11 || id == 0x12 || id == 0x14 || id == 0x16 || id == 0x17 || id == 0x18 || id == 0x1d {
        parse_group_1(id, s)
    } else if id == 0x1e || id == 0x21 || id == 0x22 || id == 0x23 || id == 0x27 || id == 0x28 || id == 0x29 || id == 0x2a || id == 0x2b || id == 0x2c {
        parse_group_2(id, s)
    } else if id == 0x2d || id == 0x2e || id == 0x2f || id == 0x30 || id == 0x37 || id == 0x38 || id == 0x39 || id == 0x3a || id == 0x3e || id == 0x43 {
        parse_group_3(id, s)
    } else if id == 0x44 || id == 0x45 || id == 0x46 || id == 0x47 || id == 0x48 || id == 0x49 || id == 0x50 || id == 0x51 || id == 0x54 || id == 0x55 {
        parse_group_4(id, s)
    } else if id == 0x56 || id == 0x57 || id == 0x58 || id == 0x59 || id == 0x5a {
        parse_group_5(id, s)
    } else {
        Err(ProtocolError::UnknownId)
    }
}

pub open spec fn parse_group_0(id: i32, s: Seq<u8>) -> Parsed<PacketV> {
    if id == 0x00 {
        match parse_spawn_entity(s) {
            Ok((v, s)) => Ok((PacketV::SpawnEntity(v), s)),
            Err(e) => Err(e),
        }
    } else if id == 0x01 {
        match parse_spawn_experience_orb(s) {
            Ok((v, s)) => Ok((PacketV::SpawnExperienceOrb(v), s)),
            Err(e) => Err(e),
        }
    } else if id == 0x02 {
        match parse_spawn_living_entity(s) {
            Ok((v, s)) => Ok((PacketV::SpawnLivingEntity(v), s)),
            Err(e) => Err(e),
        }
    } else if id == 0x03 {
        match parse_spawn_painting(s) {
            Ok((v, s)) => Ok((PacketV::SpawnPainting(v), s)),
            Err(e) => Err(e),
        }
    } else if id == 0x04 {
        match parse_spawn_player(s) {
            Ok((v, s)) => Ok((PacketV::SpawnPlayer(v), s)),
            Err(e) => Err(e),
        }
    } else if id == 0x05 {
        match parse_entity_animation(s) {
            Ok((v, s)) => Ok((PacketV::EntityAnimation(v), s)),
            Err(e) => Err(e),
        }
    } else if id == 0x07 {
        match parse_acknowledge_player_digging(s) {
            Ok((v, s)) => Ok((PacketV::AcknowledgePlayerDigging(v), s)),
            Err(e) => Err(e),
        }
    } else if id == 0x08 {
        match parse_block_break_animation(s) {
            Ok((v, s)) => Ok((PacketV::BlockBreakAnimation(v), s)),
            Err(e) => Err(e),
        }
    } else if id == 0x09 {
        match parse_block_entity_data(s) {
            Ok((v, s)) => Ok((PacketV::BlockEntityData(v), s)),
            Err(e) => Err(e),
        }
    } else if id == 0x0a {
        match parse_block_action(s) {
            Ok((v, s)) => Ok((PacketV::BlockAction(v), s)),
            Err(e) => Err(e),
        }
    } else {
        Err(ProtocolError::UnknownId)
    }
}

#[verifier::spinoff_prover]
#[verifier::rlimit(100)]
proof fn lemma_group_0(p: PacketV)
    requires
        packet_fits(p),
        p is SpawnEntity || p is SpawnExperienceOrb || p is SpawnLivingEntity || p is SpawnPainting || p is SpawnPlayer || p is EntityAnimation || p is AcknowledgePlayerDigging || p is BlockBreakAnimation || p is BlockEntityData || p is BlockAction,
    ensures
        parse_packet(packet_id(p), packet_body(p) + seq![]) == Ok::<(PacketV, Seq<u8>), ProtocolError>((p, seq![])),
{
    reveal(parse_packet);
    match p {
        PacketV::SpawnEntity(v) => {
            lemma_spawn_entity_round_trip(v, seq![]);
        },
        PacketV::SpawnExperienceOrb(v) => {
            lemma_spawn_experience_orb_round_trip(v, seq![]);
        },
        PacketV::SpawnLivingEntity(v) => {
            lemma_spawn_living_entity_round_trip(v, seq![]);
        },
        PacketV::SpawnPainting(v) => {
            lemma_spawn_painting_round_trip(v, seq![]);
        },
        PacketV::SpawnPlayer(v) => {
            lemma_spawn_player_round_trip(v, seq![]);
        },
        PacketV::EntityAnimation(v) => {
            lemma_entity_animation_round_trip(v, seq![]);
        },
        PacketV::AcknowledgePlayerDigging(v) => {
            lemma_acknowledge_player_digging_round_trip(v, seq![]);
        },
        PacketV::BlockBreakAnimation(v) => {
            lemma_block_break_animation_round_trip(v, seq![]);
        },
        PacketV::BlockEntityData(v) => {
            lemma_block_entity_data_round_trip(v, seq![]);
        },
        PacketV::BlockAction(v) => {
            lemma_block_action_round_trip(v, seq![]);
        },
        _ => {},
    }
}

#[verifier::spinoff_prover]
#[verifier::rlimit(100)]
fn decode_group_0(id: i32, data: &[u8], pos: usize) -> (r: Result<(Packet, usize), ProtocolError>)
    requires
        pos <= data@.len(),
    ensures
        agrees(
            match r {
                Ok((v, p)) => Ok((v@, p)),
                Err(e) => Err(e),
            },
            data@,
            pos as int,
            parse_group_0(id, data@.skip(pos as int)),
        ),
{
    if id == 0x00 {
        match SpawnEntity::decode(data, pos) {
            Ok((v, q)) => Ok((Packet::SpawnEntity(v), q)),
            Err(e) => Err(e),
        }
    } else if id == 0x01 {
        match SpawnExperienceOrb::decode(data, pos) {
            Ok((v, q)) => Ok((Packet::SpawnExperienceOrb(v), q)),
            Err(e) => Err(e),
        }
    } else if id == 0x02 {
        match SpawnLivingEntity::decode(data, pos) {
            Ok((v, q)) => Ok((Packet::SpawnLivingEntity(v), q)),
            Err(e) => Err(e),
        }
    } else if id == 0x03 {
        match SpawnPainting::decode(data, pos) {
            Ok((v, q)) => Ok((Packet::SpawnPainting(v), q)),
            Err(e) => Err(e),
        }
    } else if id == 0x04 {
        match SpawnPlayer::decode(data, pos) {
            Ok((v, q)) => Ok((Packet::SpawnPlayer(v), q)),
            Err(e) => Err(e),
        }
    } else if id == 0x05 {
        match EntityAnimation::decode(data, pos) {
            Ok((v, q)) => Ok((Packet::EntityAnimation(v), q)),
            Err(e) => Err(e),
        }
    } else if id == 0x07 {
        match AcknowledgePlayerDigging::decode(data, pos) {
            Ok((v, q)) => Ok((Packet::AcknowledgePlayerDigging(v), q)),
            Err(e) => Err(e),
        }
    } else if id == 0x08 {
        match BlockBreakAnimation::decode(data, pos) {
            Ok((v, q)) => Ok((Packet::BlockBreakAnimation(v), q)),
            Err(e) => Err(e),
        }
    } else if id == 0x09 {
        match BlockEntityData::decode(data, pos) {
            Ok((v, q)) => Ok((Packet::BlockEntityData(v), q)),
            Err(e) => Err(e),
        }
    } else if id == 0x0a {
        match BlockAction::decode(data, pos) {
            Ok((v, q)) => Ok((Packet::BlockAction(v), q)),
            Err(e) => Err(e),
        }
    } else {
        Err(ProtocolError::UnknownId)
    }
}

pub open spec fn parse_group_1(id: i32, s: Seq<u8>) -> Parsed<PacketV> {
    if id == 0x0b {
        match parse_block_change(s) {
            Ok((v, s)) => Ok((PacketV::BlockChange(v), s)),
            Err(e) => Err(e),
        }
    } else if id == 0x0d {
        match parse_server_difficulty(s) {
            Ok((v, s)) => Ok((PacketV::ServerDifficulty(v), s)),
            Err(e) => Err(e),
        }
    } else if id == 0x10 {
        match parse_declare_commands(s) {
            Ok((v, s)) => Ok((PacketV::DeclareCommands(v), s)),
            Err(e) => Err(e),
        }
    } else if id == 0x11 {
        match parse_window_confirmation(s) {
            Ok((v, s)) => Ok((PacketV::WindowConfirmation(v), s)),
            Err(e) => Err(e),
        }
    } else if id == 0x12 {
        match parse_close_window(s) {
            Ok((v, s)) => Ok((PacketV::CloseWindow(v), s)),
            Err(e) => Err(e),
        }
    } else if id == 0x14 {
        match parse_window_property(s) {
            Ok((v, s)) => Ok((PacketV::WindowProperty(v), s)),
            Err(e) => Err(e),
        }
    } else if id == 0x16 {
        match parse_set_cooldown(s) {
            Ok((v, s)) => Ok((PacketV::SetCooldown(v), s)),
            Err(e) => Err(e),
        }
    } else if id == 0x17 {
        match parse_plugin_message(s) {
            Ok((v, s)) => Ok((PacketV::PluginMessage(v), s)),
            Err(e) => Err(e),
        }
    } else if id == 0x18 {
        match parse_named_sound_effect(s) {
            Ok((v, s)) => Ok((PacketV::NamedSoundEffect(v), s)),
            Err(e) => Err(e),
        }
    } else if id == 0x1d {
        match parse_change_game_state(s) {
            Ok((v, s)) => Ok((PacketV::ChangeGameState(v), s)),
            Err(e) => Err(e),
        }
    } else {
        Err(ProtocolError::UnknownId)
    }
}

#[verifier::spinoff_prover]
#[verifier::rlimit(100)]
proof fn lemma_group_1(p: PacketV)
    requires
        packet_fits(p),
        p is BlockChange || p is ServerDifficulty || p is DeclareCommands || p is WindowConfirmation || p is CloseWindow || p is WindowProperty || p is SetCooldown || p is PluginMessage || p is NamedSoundEffect || p is ChangeGameState,
    ensures
        parse_packet(packet_id(p), packet_body(p) + seq![]) == Ok::<(PacketV, Seq<u8>), ProtocolError>((p, seq![])),
{
    reveal(parse_packet);
    match p {
        PacketV::BlockChange(v) => {
            lemma_block_change_round_trip(v, seq![]);
        },
        PacketV::ServerDifficulty(v) => {
            lemma_server_difficulty_round_trip(v, seq![]);
        },
        PacketV::DeclareCommands(v) => {
            lemma_declare_commands_round_trip(v);
        },
        PacketV::WindowConfirmation(v) => {
            lemma_window_confirmation_round_trip(v, seq![]);
        },
        PacketV::CloseWindow(v) => {
            lemma_close_window_round_trip(v, seq![]);
        },
        PacketV::WindowProperty(v) => {
            lemma_window_property_round_trip(v, seq![]);
        },
        PacketV::SetCooldown(v) => {
            lemma_set_cooldown_round_trip(v, seq![]);
        },
        PacketV::PluginMessage(v) => {
            lemma_plugin_message_round_trip(v);
        },
        PacketV::NamedSoundEffect(v) => {
            lemma_named_sound_effect_round_trip(v, seq![]);
        },
        PacketV::ChangeGameState(v) => {
            lemma_change_game_state_round_trip(v, seq![]);
        },
        _ => {},
    }
}

#[verifier::spinoff_prover]
#[verifier::rlimit(100)]
fn decode_group_1(id: i32, data: &[u8], pos: usize) -> (r: Result<(Packet, usize), ProtocolError>)
    requires
        pos <= data@.len(),
    ensures
        agrees(
            match r {
                Ok((v, p)) => Ok((v@, p)),
                Err(e) => Err(e),
            },
            data@,
            pos as int,
            parse_group_1(id, data@.skip(pos as int)),
        ),
{
    if id == 0x0b {
        match BlockChange::decode(data, pos) {
            Ok((v, q)) => Ok((Packet::BlockChange(v), q)),
            Err(e) => Err(e),
        }
    } else if id == 0x0d {
        match ServerDifficulty::decode(data, pos) {
            Ok((v, q)) => Ok((Packet::ServerDifficulty(v), q)),
            Err(e) => Err(e),
        }
    } else if id == 0x10 {
        match DeclareCommands::decode(data, pos) {
            Ok((v, q)) => Ok((Packet::DeclareCommands(v), q)),
            Err(e) => Err(e),
        }
    } else if id == 0x11 {
        match WindowConfirmation::decode(data, pos) {
            Ok((v, q)) => Ok((Packet::WindowConfirmation(v), q)),
            Err(e) => Err(e),
        }
    } else if id == 0x12 {
        match CloseWindow::decode(data, pos) {
            Ok((v, q)) => Ok((Packet::CloseWindow(v), q)),
            Err(e) => Err(e),
        }
    } else if id == 0x14 {
        match WindowProperty::decode(data, pos) {
            Ok((v, q)) => Ok((Packet::WindowProperty(v), q)),
            Err(e) => Err(e),
        }
    } else if id == 0x16 {
        match SetCooldown::decode(data, pos) {
            Ok((v, q)) => Ok((Packet::SetCooldown(v), q)),
            Err(e) => Err(e),
        }
    } else if id == 0x17 {
        match PluginMessage::decode(data, pos) {
            Ok((v, q)) => Ok((Packet::PluginMessage(v), q)),
            Err(e) => Err(e),
        }
    } else if id == 0x18 {
        match NamedSoundEffect::decode(data, pos) {
            Ok((v, q)) => Ok((Packet::NamedSoundEffect(v), q)),
            Err(e) => Err(e),
        }
    } else if id == 0x1d {
        match ChangeGameState::decode(data, pos) {
            Ok((v, q)) => Ok((Packet::ChangeGameState(v), q)),
            Err(e) => Err(e),
        }
    } else {
        Err(ProtocolError::UnknownId)
    }
}

pub open spec fn parse_group_2(id: i32, s: Seq<u8>) -> Parsed<PacketV> {
    if id == 0x1e {
        match parse_open_horse_window(s) {
            Ok((v, s)) => Ok((PacketV::OpenHorseWindow(v), s)),
            Err(e) => Err(e),
        }
    } else if id == 0x21 {
        match parse_effect(s) {
            Ok((v, s)) => Ok((PacketV::Effect(v), s)),
            Err(e) => Err(e),
        }
    } else if id == 0x22 {
        match parse_particle(s) {
            Ok((v, s)) => Ok((PacketV::Particle(v), s)),
            Err(e) => Err(e),
        }
    } else if id == 0x23 {
        match parse_update_light(s) {
            Ok((v, s)) => Ok((PacketV::UpdateLight(v), s)),
            Err(e) => Err(e),
        }
    } else if id == 0x27 {
        match parse_entity_position(s) {
            Ok((v, s)) => Ok((PacketV::EntityPosition(v), s)),
            Err(e) => Err(e),
        }
    } else if id == 0x28 {
        match parse_entity_position_and_rotation(s) {
            Ok((v, s)) => Ok((PacketV::EntityPositionAndRotation(v), s)),
            Err(e) => Err(e),
        }
    } else if id == 0x29 {
        match parse_entity_rotation(s) {
            Ok((v, s)) => Ok((PacketV::EntityRotation(v), s)),
            Err(e) => Err(e),
        }
    } else if id == 0x2a {
        match parse_entity_movement(s) {
            Ok((v, s)) => Ok((PacketV::EntityMovement(v), s)),
            Err(e) => Err(e),
        }
    } else if id == 0x2b {
        match parse_vehicle_move(s) {
            Ok((v, s)) => Ok((PacketV::VehicleMove(v), s)),
            Err(e) => Err(e),
        }
    } else if id == 0x2c {
        match parse_open_book(s) {
            Ok((v, s)) => Ok((PacketV::OpenBook(v), s)),
            Err(e) => Err(e),
        }
    } else {
        Err(ProtocolError::UnknownId)
    }
}

#[verifier::spinoff_prover]
#[verifier::rlimit(100)]
proof fn lemma_group_2(p: PacketV)
    requires
        packet_fits(p),
        p is OpenHorseWindow || p is Effect || p is Particle || p is UpdateLight || p is EntityPosition || p is EntityPositionAndRotation || p is EntityRotation || p is EntityMovement || p is VehicleMove || p is OpenBook,
    ensures
        parse_packet(packet_id(p), packet_body(p) + seq![]) == Ok::<(PacketV, Seq<u8>), ProtocolError>((p, seq![])),
{
    reveal(parse_packet);
    match p {
        PacketV::OpenHorseWindow(v) => {
            lemma_open_horse_window_round_trip(v, seq![]);
        },
        PacketV::Effect(v) => {
            lemma_effect_round_trip(v, seq![]);
        },
        PacketV::Particle(v) => {
            lemma_particle_round_trip(v);
        },
        PacketV::UpdateLight(v) => {
            lemma_update_light_round_trip(v);
        },
        PacketV::EntityPosition(v) => {
            lemma_entity_position_round_trip(v, seq![]);
        },
        PacketV::EntityPositionAndRotation(v) => {
            lemma_entity_position_and_rotation_round_trip(v, seq![]);
        },
        PacketV::EntityRotation(v) => {
            lemma_entity_rotation_round_trip(v, seq![]);
        },
        PacketV::EntityMovement(v) => {
            lemma_entity_movement_round_trip(v, seq![]);
        },
        PacketV::VehicleMove(v) => {
            lemma_vehicle_move_round_trip(v, seq![]);
        },
        PacketV::OpenBook(v) => {
            lemma_open_book_round_trip(v, seq![]);
        },
        _ => {},
    }
}

#[verifier::spinoff_prover]
#[verifier::rlimit(100)]
fn decode_group_2(id: i32, data: &[u8], pos: usize) -> (r: Result<(Packet, usize), ProtocolError>)
    requires
        pos <= data@.len(),
    ensures
        agrees(
            match r {
                Ok((v, p)) => Ok((v@, p)),
                Err(e) => Err(e),
            },
            data@,
            pos as int,
            parse_group_2(id, data@.skip(pos as int)),
        ),
{
    if id == 0x1e {
        match OpenHorseWindow::decode(data, pos) {
            Ok((v, q)) => Ok((Packet::OpenHorseWindow(v), q)),
            Err(e) => Err(e),
        }
    } else if id == 0x21 {
        match Effect::decode(data, pos) {
            Ok((v, q)) => Ok((Packet::Effect(v), q)),
            Err(e) => Err(e),
        }
    } else if id == 0x22 {
        match Particle::decode(data, pos) {
            Ok((v, q)) => Ok((Packet::Particle(v), q)),
            Err(e) => Err(e),
        }
    } else if id == 0x23 {
        match UpdateLight::decode(data, pos) {
            Ok((v, q)) => Ok((Packet::UpdateLight(v), q)),
            Err(e) => Err(e),
        }
    } else if id == 0x27 {
        match EntityPosition::decode(data, pos) {
            Ok((v, q)) => Ok((Packet::EntityPosition(v), q)),
            Err(e) => Err(e),
        }
    } else if id == 0x28 {
        match EntityPositionAndRotation::decode(data, pos) {
            Ok((v, q)) => Ok((Packet::EntityPositionAndRotation(v), q)),
            Err(e) => Err(e),
        }
    } else if id == 0x29 {
        match EntityRotation::decode(data, pos) {
            Ok((v, q)) => Ok((Packet::EntityRotation(v), q)),
            Err(e) => Err(e),
        }
    } else if id == 0x2a {
        match EntityMovement::decode(data, pos) {
            Ok((v, q)) => Ok((Packet::EntityMovement(v), q)),
            Err(e) => Err(e),
        }
    } else if id == 0x2b {
        match VehicleMove::decode(data, pos) {
            Ok((v, q)) => Ok((Packet::VehicleMove(v), q)),
            Err(e) => Err(e),
        }
    } else if id == 0x2c {
        match OpenBook::decode(data, pos) {
            Ok((v, q)) => Ok((Packet::OpenBook(v), q)),
            Err(e) => Err(e),
        }
    } else {
        Err(ProtocolError::UnknownId)
    }
}

pub open spec fn parse_group_3(id: i32, s: Seq<u8>) -> Parsed<PacketV> {
    if id == 0x2d {
        match parse_open_window(s) {
            Ok((v, s)) => Ok((PacketV::OpenWindow(v), s)),
            Err(e) => Err(e),
        }
    } else if id == 0x2e {
        match parse_open_sign_editor(s) {
            Ok((v, s)) => Ok((PacketV::OpenSignEditor(v), s)),
            Err(e) => Err(e),
        }
    } else if id == 0x2f {
        match parse_craft_recipe_response(s) {
            Ok((v, s)) => Ok((PacketV::CraftRecipeResponse(v), s)),
            Err(e) => Err(e),
        }
    } else if id == 0x30 {
        match parse_player_abilities(s) {
            Ok((v, s)) => Ok((PacketV::PlayerAbilities(v), s)),
            Err(e) => Err(e),
        }
    } else if id == 0x37 {
        match parse_remove_entity_effect(s) {
            Ok((v, s)) => Ok((PacketV::RemoveEntityEffect(v), s)),
            Err(e) => Err(e),
        }
    } else if id == 0x38 {
        match parse_resource_pack_send(s) {
            Ok((v, s)) => Ok((PacketV::ResourcePackSend(v), s)),
            Err(e) => Err(e),
        }
    } else if id == 0x39 {
        match parse_respawn(s) {
            Ok((v, s)) => Ok((PacketV::Respawn(v), s)),
            Err(e) => Err(e),
        }
    } else if id == 0x3a {
        match parse_entity_head_look(s) {
            Ok((v, s)) => Ok((PacketV::EntityHeadLook(v), s)),
            Err(e) => Err(e),
        }
    } else if id == 0x3e {
        match parse_camera(s) {
            Ok((v, s)) => Ok((PacketV::Camera(v), s)),
            Err(e) => Err(e),
        }
    } else if id == 0x43 {
        match parse_display_scoreboard(s) {
            Ok((v, s)) => Ok((PacketV::DisplayScoreboard(v), s)),
            Err(e) => Err(e),
        }
    } else {
        Err(ProtocolError::UnknownId)
    }
}

#[verifier::spinoff_prover]
#[verifier::rlimit(100)]
proof fn lemma_group_3(p: PacketV)
    requires
        packet_fits(p),
        p is OpenWindow || p is OpenSignEditor || p is CraftRecipeResponse || p is PlayerAbilities || p is RemoveEntityEffect || p is ResourcePackSend || p is Respawn || p is EntityHeadLook || p is Camera || p is DisplayScoreboard,
    ensures
        parse_packet(packet_id(p), packet_body(p) + seq![]) == Ok::<(PacketV, Seq<u8>), ProtocolError>((p, seq![])),
{
    reveal(parse_packet);
    match p {
        PacketV::OpenWindow(v) => {
            lemma_open_window_round_trip(v, seq![]);
        },
        PacketV::OpenSignEditor(v) => {
            lemma_open_sign_editor_round_trip(v, seq![]);
        },
        PacketV::CraftRecipeResponse(v) => {
            lemma_craft_recipe_response_round_trip(v, seq![]);
        },
        PacketV::PlayerAbilities(v) => {
            lemma_player_abilities_round_trip(v, seq![]);
        },
        PacketV::RemoveEntityEffect(v) => {
            lemma_remove_entity_effect_round_trip(v, seq![]);
        },
        PacketV::ResourcePackSend(v) => {
            lemma_resource_pack_send_round_trip(v, seq![]);
        },
        PacketV::Respawn(v) => {
            lemma_respawn_round_trip(v, seq![]);
        },
        PacketV::EntityHeadLook(v) => {
            lemma_entity_head_look_round_trip(v, seq![]);
        },
        PacketV::Camera(v) => {
            lemma_camera_round_trip(v, seq![]);
        },
        PacketV::DisplayScoreboard(v) => {
            lemma_display_scoreboard_round_trip(v, seq![]);
        },
        _ => {},
    }
}

#[verifier::spinoff_prover]
#[verifier::rlimit(100)]
fn decode_group_3(id: i32, data: &[u8], pos: usize) -> (r: Result<(Packet, usize), ProtocolError>)
    requires
        pos <= data@.len(),
    ensures
        agrees(
            match r {
                Ok((v, p)) => Ok((v@, p)),
                Err(e) => Err(e),
            },
            data@,
            pos as int,
            parse_group_3(id, data@.skip(pos as int)),
        ),
{
    if id == 0x2d {
        match OpenWindow::decode(data, pos) {
            Ok((v, q)) => Ok((Packet::OpenWindow(v), q)),
            Err(e) => Err(e),
        }
    } else if id == 0x2e {
        match OpenSignEditor::decode(data, pos) {
            Ok((v, q)) => Ok((Packet::OpenSignEditor(v), q)),
            Err(e) => Err(e),
        }
    } else if id == 0x2f {
        match CraftRecipeResponse::decode(data, pos) {
            Ok((v, q)) => Ok((Packet::CraftRecipeResponse(v), q)),
            Err(e) => Err(e),
        }
    } else if id == 0x30 {
        match PlayerAbilities::decode(data, pos) {
            Ok((v, q)) => Ok((Packet::PlayerAbilities(v), q)),
            Err(e) => Err(e),
        }
    } else if id == 0x37 {
        match RemoveEntityEffect::decode(data, pos) {
            Ok((v, q)) => Ok((Packet::RemoveEntityEffect(v), q)),
            Err(e) => Err(e),
        }
    } else if id == 0x38 {
        match ResourcePackSend::decode(data, pos) {
            Ok((v, q)) => Ok((Packet::ResourcePackSend(v), q)),
            Err(e) => Err(e),
        }
    } else if id == 0x39 {
        match Respawn::decode(data, pos) {
            Ok((v, q)) => Ok((Packet::Respawn(v), q)),
            Err(e) => Err(e),
        }
    } else if id == 0x3a {
        match EntityHeadLook::decode(data, pos) {
            Ok((v, q)) => Ok((Packet::EntityHeadLook(v), q)),
            Err(e) => Err(e),
        }
    } else if id == 0x3e {
        match Camera::decode(data, pos) {
            Ok((v, q)) => Ok((Packet::Camera(v), q)),
            Err(e) => Err(e),
        }
    } else if id == 0x43 {
        match DisplayScoreboard::decode(data, pos) {
            Ok((v, q)) => Ok((Packet::DisplayScoreboard(v), q)),
            Err(e) => Err(e),
        }
    } else {
        Err(ProtocolError::UnknownId)
    }
}

pub open spec fn parse_group_4(id: i32, s: Seq<u8>) -> Parsed<PacketV> {
    if id == 0x44 {
        match parse_entity_metadata(s) {
            Ok((v, s)) => Ok((PacketV::EntityMetadata(v), s)),
            Err(e) => Err(e),
        }
    } else if id == 0x45 {
        match parse_attach_entity(s) {
            Ok((v, s)) => Ok((PacketV::AttachEntity(v), s)),
            Err(e) => Err(e),
        }
    } else if id == 0x46 {
        match parse_entity_velocity(s) {
            Ok((v, s)) => Ok((PacketV::EntityVelocity(v), s)),
            Err(e) => Err(e),
        }
    } else if id == 0x47 {
        match parse_entity_equipment(s) {
            Ok((v, s)) => Ok((PacketV::EntityEquipment(v), s)),
            Err(e) => Err(e),
        }
    } else if id == 0x48 {
        match parse_set_experience(s) {
            Ok((v, s)) => Ok((PacketV::SetExperience(v), s)),
            Err(e) => Err(e),
        }
    } else if id == 0x49 {
        match parse_update_health(s) {
            Ok((v, s)) => Ok((PacketV::UpdateHealth(v), s)),
            Err(e) => Err(e),
        }
    } else if id == 0x50 {
        match parse_entity_sound_effect(s) {
            Ok((v, s)) => Ok((PacketV::EntitySoundEffect(v), s)),
            Err(e) => Err(e),
        }
    } else if id == 0x51 {
        match parse_sound_effect(s) {
            Ok((v, s)) => Ok((PacketV::SoundEffect(v), s)),
            Err(e) => Err(e),
        }
    } else if id == 0x54 {
        match parse_nbt_query_response(s) {
            Ok((v, s)) => Ok((PacketV::NbtQueryResponse(v), s)),
            Err(e) => Err(e),
        }
    } else if id == 0x55 {
        match parse_collect_item(s) {
            Ok((v, s)) => Ok((PacketV::CollectItem(v), s)),
            Err(e) => Err(e),
        }
    } else {
        Err(ProtocolError::UnknownId)
    }
}

#[verifier::spinoff_prover]
#[verifier::rlimit(100)]
proof fn lemma_group_4(p: PacketV)
    requires
        packet_fits(p),
        p is EntityMetadata || p is AttachEntity || p is EntityVelocity || p is EntityEquipment || p is SetExperience || p is UpdateHealth || p is EntitySoundEffect || p is SoundEffect || p is NbtQueryResponse || p is CollectItem,
    ensures
        parse_packet(packet_id(p), packet_body(p) + seq![]) == Ok::<(PacketV, Seq<u8>), ProtocolError>((p, seq![])),
{
    reveal(parse_packet);
    match p {
        PacketV::EntityMetadata(v) => {
            lemma_entity_metadata_round_trip(v);
        },
        PacketV::AttachEntity(v) => {
            lemma_attach_entity_round_trip(v, seq![]);
        },
        PacketV::EntityVelocity(v) => {
            lemma_entity_velocity_round_trip(v, seq![]);
        },
        PacketV::EntityEquipment(v) => {
            lemma_entity_equipment_round_trip(v);
        },
        PacketV::SetExperience(v) => {
            lemma_set_experience_round_trip(v, seq![]);
        },
        PacketV::UpdateHealth(v) => {
            lemma_update_health_round_trip(v, seq![]);
        },
        PacketV::EntitySoundEffect(v) => {
            lemma_entity_sound_effect_round_trip(v, seq![]);
        },
        PacketV::SoundEffect(v) => {
            lemma_sound_effect_round_trip(v, seq![]);
        },
        PacketV::NbtQueryResponse(v) => {
            lemma_nbt_query_response_round_trip(v, seq![]);
        },
        PacketV::CollectItem(v) => {
            lemma_collect_item_round_trip(v, seq![]);
        },
        _ => {},
    }
}

#[verifier::spinoff_prover]
#[verifier::rlimit(100)]
fn decode_group_4(id: i32, data: &[u8], pos: usize) -> (r: Result<(Packet, usize), ProtocolError>)
    requires
        pos <= data@.len(),
    ensures
        agrees(
            match r {
                Ok((v, p)) => Ok((v@, p)),
                Err(e) => Err(e),
            },
            data@,
            pos as int,
            parse_group_4(id, data@.skip(pos as int)),
        ),
{
    if id == 0x44 {
        match EntityMetadata::decode(data, pos) {
            Ok((v, q)) => Ok((Packet::EntityMetadata(v), q)),
            Err(e) => Err(e),
        }
    } else if id == 0x45 {
        match AttachEntity::decode(data, pos) {
            Ok((v, q)) => Ok((Packet::AttachEntity(v), q)),
            Err(e) => Err(e),
        }
    } else if id == 0x46 {
        match EntityVelocity::decode(data, pos) {
            Ok((v, q)) => Ok((Packet::EntityVelocity(v), q)),
            Err(e) => Err(e),
        }
    } else if id == 0x47 {
        match EntityEquipment::decode(data, pos) {
            Ok((v, q)) => Ok((Packet::EntityEquipment(v), q)),
            Err(e) => Err(e),
        }
    } else if id == 0x48 {
        match SetExperience::decode(data, pos) {
            Ok((v, q)) => Ok((Packet::SetExperience(v), q)),
            Err(e) => Err(e),
        }
    } else if id == 0x49 {
        match UpdateHealth::decode(data, pos) {
            Ok((v, q)) => Ok((Packet::UpdateHealth(v), q)),
            Err(e) => Err(e),
        }
    } else if id == 0x50 {
        match EntitySoundEffect::decode(data, pos) {
            Ok((v, q)) => Ok((Packet::EntitySoundEffect(v), q)),
            Err(e) => Err(e),
        }
    } else if id == 0x51 {
        match SoundEffect::decode(data, pos) {
            Ok((v, q)) => Ok((Packet::SoundEffect(v), q)),
            Err(e) => Err(e),
        }
    } else if id == 0x54 {
        match NbtQueryResponse::decode(data, pos) {
            Ok((v, q)) => Ok((Packet::NbtQueryResponse(v), q)),
            Err(e) => Err(e),
        }
    } else if id == 0x55 {
        match CollectItem::decode(data, pos) {
            Ok((v, q)) => Ok((Packet::CollectItem(v), q)),
            Err(e) => Err(e),
        }
    } else {
        Err(ProtocolError::UnknownId)
    }
}

pub open spec fn parse_group_5(id: i32, s: Seq<u8>) -> Parsed<PacketV> {
    if id == 0x56 {
        match parse_entity_teleport(s) {
            Ok((v, s)) => Ok((PacketV::EntityTeleport(v), s)),
            Err(e) => Err(e),
        }
    } else if id == 0x57 {
        match parse_advancements(s) {
            Ok((v, s)) => Ok((PacketV::Advancements(v), s)),
            Err(e) => Err(e),
        }
    } else if id == 0x58 {
        match parse_entity_properties(s) {
            Ok((v, s)) => Ok((PacketV::EntityProperties(v), s)),
            Err(e) => Err(e),
        }
    } else if id == 0x59 {
        match parse_entity_effect(s) {
            Ok((v, s)) => Ok((PacketV::EntityEffect(v), s)),
            Err(e) => Err(e),
        }
    } else if id == 0x5a {
        match parse_declare_recipes(s) {
            Ok((v, s)) => Ok((PacketV::DeclareRecipes(v), s)),
            Err(e) => Err(e),
        }
    } else {
        Err(ProtocolError::UnknownId)
    }
}

#[verifier::spinoff_prover]
#[verifier::rlimit(100)]
proof fn lemma_group_5(p: PacketV)
    requires
        packet_fits(p),
        p is EntityTeleport || p is Advancements || p is EntityProperties || p is EntityEffect || p is DeclareRecipes,
    ensures
        parse_packet(packet_id(p), packet_body(p) + seq![]) == Ok::<(PacketV, Seq<u8>), ProtocolError>((p, seq![])),
{
    reveal(parse_packet);
    match p {
        PacketV::EntityTeleport(v) => {
            lemma_entity_teleport_round_trip(v, seq![]);
        },
        PacketV::Advancements(v) => {
            lemma_advancements_round_trip(v);
        },
        PacketV::EntityProperties(v) => {
            lemma_entity_properties_round_trip(v);
        },
        PacketV::EntityEffect(v) => {
            lemma_entity_effect_round_trip(v, seq![]);
        },
        PacketV::DeclareRecipes(v) => {
            lemma_declare_recipes_round_trip(v);
        },
        _ => {},
    }
}

#[verifier::spinoff_prover]
#[verifier::rlimit(100)]
fn decode_group_5(id: i32, data: &[u8], pos: usize) -> (r: Result<(Packet, usize), ProtocolError>)
    requires
        pos <= data@.len(),
    ensures
        agrees(
            match r {
                Ok((v, p)) => Ok((v@, p)),
                Err(e) => Err(e),
            },
            data@,
            pos as int,
            parse_group_5(id, data@.skip(pos as int)),
        ),
{
    if id == 0x56 {
        match EntityTeleport::decode(data, pos) {
            Ok((v, q)) => Ok((Packet::EntityTeleport(v), q)),
            Err(e) => Err(e),
        }
    } else if id == 0x57 {
        match Advancements::decode(data, pos) {
            Ok((v, q)) => Ok((Packet::Advancements(v), q)),
            Err(e) => Err(e),
        }
    } else if id == 0x58 {
        match EntityProperties::decode(data, pos) {
            Ok((v, q)) => Ok((Packet::EntityProperties(v), q)),
            Err(e) => Err(e),
        }
    } else if id == 0x59 {
        match EntityEffect::decode(data, pos) {
            Ok((v, q)) => Ok((Packet::EntityEffect(v), q)),
            Err(e) => Err(e),
        }
    } else if id == 0x5a {
        match DeclareRecipes::decode(data, pos) {
            Ok((v, q)) => Ok((Packet::DeclareRecipes(v), q)),
            Err(e) => Err(e),
        }
    } else {
        Err(ProtocolError::UnknownId)
    }
}

/// Every packet whose fields fit reads back as itself from its fields.
pub proof fn lemma_packet_round_trip(p: PacketV)
    requires
        packet_fits(p),
    ensures
        parse_packet(packet_id(p), packet_body(p) + seq![]) == Ok::<(PacketV, Seq<u8>), ProtocolError>((p, seq![])),
{
    if p is SpawnEntity || p is SpawnExperienceOrb || p is SpawnLivingEntity || p is SpawnPainting || p is SpawnPlayer || p is EntityAnimation || p is AcknowledgePlayerDigging || p is BlockBreakAnimation || p is BlockEntityData || p is BlockAction {
        lemma_group_0(p);
    } else if p is BlockChange || p is ServerDifficulty || p is DeclareCommands || p is WindowConfirmation || p is CloseWindow || p is WindowProperty || p is SetCooldown || p is PluginMessage || p is NamedSoundEffect || p is ChangeGameState {
        lemma_group_1(p);
    } else if p is OpenHorseWindow || p is Effect || p is Particle || p is UpdateLight || p is EntityPosition || p is EntityPositionAndRotation || p is EntityRotation || p is EntityMovement || p is VehicleMove || p is OpenBook {
        lemma_group_2(p);
    } else if p is OpenWindow || p is OpenSignEditor || p is CraftRecipeResponse || p is PlayerAbilities || p is RemoveEntityEffect || p is ResourcePackSend || p is Respawn || p is EntityHeadLook || p is Camera || p is DisplayScoreboard {
        lemma_group_3(p);
    } else if p is EntityMetadata || p is AttachEntity || p is EntityVelocity || p is EntityEquipment || p is SetExperience || p is UpdateHealth || p is EntitySoundEffect || p is SoundEffect || p is NbtQueryResponse || p is CollectItem {
        lemma_group_4(p);
    } else if p is EntityTeleport || p is Advancements || p is EntityProperties || p is EntityEffect || p is DeclareRecipes {
        lemma_group_5(p);
    }
}

/// Reads the fields of the packet with id `id` at `pos`.
pub fn decode_packet(id: i32, data: &[u8], pos: usize) -> (r: Result<(Packet, usize), ProtocolError>)
    requires
        pos <= data@.len(),
    ensures
        agrees(
            match r {
                Ok((v, p)) => Ok((v@, p)),
                Err(e) => Err(e),
            },
            data@,
            pos as int,
            parse_packet(id, data@.skip(pos as int)),
        ),
{
    proof {
        reveal(parse_packet);
    }
    if id == 0x00 || id == 0x01 || id == 0x02 || id == 0x03 || id == 0x04 || id == 0x05 || id == 0x07 || id == 0x08 || id == 0x09 || id == 0x0a {
        decode_group_0(id, data, pos)
    } else if id == 0x0b || id == 0x0d || id == 0x10 || id == 0x11 || id == 0x12 || id == 0x14 || id == 0x16 || id == 0x17 || id == 0x18 || id == 0x1d {
        decode_group_1(id, data, pos)
    } else if id == 0x1e || id == 0x21 || id == 0x22 || id == 0x23 || id == 0x27 || id == 0x28 || id == 0x29 || id == 0x2a || id == 0x2b || id == 0x2c {
        decode_group_2(id, data, pos)
    } else if id == 0x2d || id == 0x2e || id == 0x2f || id == 0x30 || id == 0x37 || id == 0x38 || id == 0x39 || id == 0x3a || id == 0x3e || id == 0x43 {
        decode_group_3(id, data, pos)
    } else if id == 0x44 || id == 0x45 || id == 0x46 || id == 0x47 || id == 0x48 || id == 0x49 || id == 0x50 || id == 0x51 || id == 0x54 || id == 0x55 {
        decode_group_4(id, data, pos)
    } else if id == 0x56 || id == 0x57 || id == 0x58 || id == 0x59 || id == 0x5a {
        decode_group_5(id, data, pos)
    } else {
        Err(ProtocolError::UnknownId)
    }
}

impl Packet {
    /// Appends the packet's fields; fails, writing nothing, when a field does not fit.
    pub fn encode_body(&self, out: &mut Vec<u8>) -> (r: Result<(), ProtocolError>)
        ensures
            r is Ok <==> packet_fits(self@),
            r is Ok ==> final(out)@ == old(out)@ + packet_body(self@),
            r is Err ==> final(out)@ == old(out)@,
    {
        match self {
            Packet::SpawnEntity(x) => x.encode(out),
            Packet::SpawnExperienceOrb(x) => x.encode(out),
            Packet::SpawnLivingEntity(x) => x.encode(out),
            Packet::SpawnPainting(x) => x.encode(out),
            Packet::SpawnPlayer(x) => x.encode(out),
            Packet::EntityAnimation(x) => x.encode(out),
            Packet::AcknowledgePlayerDigging(x) => x.encode(out),
            Packet::BlockBreakAnimation(x) => x.encode(out),
            Packet::BlockEntityData(x) => x.encode(out),
            Packet::BlockAction(x) => x.encode(out),
            Packet::BlockChange(x) => x.encode(out),
            Packet::ServerDifficulty(x) => x.encode(out),
            Packet::DeclareCommands(x) => x.encode(out),
            Packet::WindowConfirmation(x) => x.encode(out),
            Packet::CloseWindow(x) => x.encode(out),
            Packet::WindowProperty(x) => x.encode(out),
            Packet::SetCooldown(x) => x.encode(out),
            Packet::PluginMessage(x) => x.encode(out),
            Packet::NamedSoundEffect(x) => x.encode(out),
            Packet::ChangeGameState(x) => x.encode(out),
            Packet::OpenHorseWindow(x) => x.encode(out),
            Packet::Effect(x) => x.encode(out),
            Packet::Particle(x) => x.encode(out),
            Packet::UpdateLight(x) => x.encode(out),
            Packet::EntityPosition(x) => x.encode(out),
            Packet::EntityPositionAndRotation(x) => x.encode(out),
            Packet::EntityRotation(x) => x.encode(out),
            Packet::EntityMovement(x) => x.encode(out),
            Packet::VehicleMove(x) => x.encode(out),
            Packet::OpenBook(x) => x.encode(out),
            Packet::OpenWindow(x) => x.encode(out),
            Packet::OpenSignEditor(x) => x.encode(out),
            Packet::CraftRecipeResponse(x) => x.encode(out),
            Packet::PlayerAbilities(x) => x.encode(out),
            Packet::RemoveEntityEffect(x) => x.encode(out),
            Packet::ResourcePackSend(x) => x.encode(out),
            Packet::Respawn(x) => x.encode(out),
            Packet::EntityHeadLook(x) => x.encode(out),
            Packet::Camera(x) => x.encode(out),
            Packet::DisplayScoreboard(x) => x.encode(out),
            Packet::EntityMetadata(x) => x.encode(out),
            Packet::AttachEntity(x) => x.encode(out),
            Packet::EntityVelocity(x) => x.encode(out),
            Packet::EntityEquipment(x) => x.encode(out),
            Packet::SetExperience(x) => x.encode(out),
            Packet::UpdateHealth(x) => x.encode(out),
            Packet::EntitySoundEffect(x) => x.encode(out),
            Packet::SoundEffect(x) => x.encode(out),
            Packet::NbtQueryResponse(x) => x.encode(out),
            Packet::CollectItem(x) => x.encode(out),
            Packet::EntityTeleport(x) => x.encode(out),
            Packet::Advancements(x) => x.encode(out),
            Packet::EntityProperties(x) => x.encode(out),
            Packet::EntityEffect(x) => x.encode(out),
            Packet::DeclareRecipes(x) => x.encode(out),
        }
    }

    pub fn id(&self) -> (r: i32)
        ensures
            r == packet_id(self@),
    {
        match self {
            Packet::SpawnEntity(_) => 0x00,
            Packet::SpawnExperienceOrb(_) => 0x01,
            Packet::SpawnLivingEntity(_) => 0x02,
            Packet::SpawnPainting(_) => 0x03,
            Packet::SpawnPlayer(_) => 0x04,
            Packet::EntityAnimation(_) => 0x05,
            Packet::AcknowledgePlayerDigging(_) => 0x07,
            Packet::BlockBreakAnimation(_) => 0x08,
            Packet::BlockEntityData(_) => 0x09,
            Packet::BlockAction(_) => 0x0a,
            Packet::BlockChange(_) => 0x0b,
            Packet::ServerDifficulty(_) => 0x0d,
            Packet::DeclareCommands(_) => 0x10,
            Packet::WindowConfirmation(_) => 0x11,
            Packet::CloseWindow(_) => 0x12,
            Packet::WindowProperty(_) => 0x14,
            Packet::SetCooldown(_) => 0x16,
            Packet::PluginMessage(_) => 0x17,
            Packet::NamedSoundEffect(_) => 0x18,
            Packet::ChangeGameState(_) => 0x1d,
            Packet::OpenHorseWindow(_) => 0x1e,
            Packet::Effect(_) => 0x21,
            Packet::Particle(_) => 0x22,
            Packet::UpdateLight(_) => 0x23,
            Packet::EntityPosition(_) => 0x27,
            Packet::EntityPositionAndRotation(_) => 0x28,
            Packet::EntityRotation(_) => 0x29,
            Packet::EntityMovement(_) => 0x2a,
            Packet::VehicleMove(_) => 0x2b,
            Packet::OpenBook(_) => 0x2c,
            Packet::OpenWindow(_) => 0x2d,
            Packet::OpenSignEditor(_) => 0x2e,
            Packet::CraftRecipeResponse(_) => 0x2f,
            Packet::PlayerAbilities(_) => 0x30,
            Packet::RemoveEntityEffect(_) => 0x37,
            Packet::ResourcePackSend(_) => 0x38,
            Packet::Respawn(_) => 0x39,
            Packet::EntityHeadLook(_) => 0x3a,
            Packet::Camera(_) => 0x3e,
            Packet::DisplayScoreboard(_) => 0x43,
            Packet::EntityMetadata(_) => 0x44,
            Packet::AttachEntity(_) => 0x45,
            Packet::EntityVelocity(_) => 0x46,
            Packet::EntityEquipment(_) => 0x47,
            Packet::SetExperience(_) => 0x48,
            Packet::UpdateHealth(_) => 0x49,
            Packet::EntitySoundEffect(_) => 0x50,
            Packet::SoundEffect(_) => 0x51,
            Packet::NbtQueryResponse(_) => 0x54,
            Packet::CollectItem(_) => 0x55,
            Packet::EntityTeleport(_) => 0x56,
            Packet::Advancements(_) => 0x57,
            Packet::EntityProperties(_) => 0x58,
            Packet::EntityEffect(_) => 0x59,
            Packet::DeclareRecipes(_) => 0x5a,
        }
    }
}

} // verus!
