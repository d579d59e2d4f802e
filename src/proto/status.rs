use vstd::prelude::*;
use crate::error::ProtocolError;
use crate::varint::varint_bytes;
use crate::types::String;
use crate::codec::{Parsed, signed_bytes, parse_var_int, parse_i64, parse_string, string_bytes,
    string_fits, read_var_int, read_i64, write_var_int, write_i64, utf8_len, lemma_parse_var_int,
    lemma_parse_signed, lemma_parse_string, lemma_pow256_values};

verus! {

/// Serverbound packets of the status phase.
#[derive(Debug, Clone, PartialEq)]
pub enum Serverbound {
    Request,
    Ping { payload: i64 },
}

/// Clientbound packets of the status phase. The response carries the server's
/// status as JSON text.
#[derive(Debug, Clone, PartialEq)]
pub enum Clientbound {
    Response { data: String },
    Pong { payload: i64 },
}

/// The server's status, as the JSON of a status response describes it.
#[derive(Debug, Clone, PartialEq)]
pub struct StatusData {
    pub version: Version,
    pub players: Players,
    pub description: std::string::String,
    pub favicon: std::string::String,
}

#[derive(Debug, Clone, PartialEq)]
pub struct Version {
    pub name: std::string::String,
    pub protocol: i32,
}

#[derive(Debug, Clone, PartialEq)]
pub struct Players {
    pub max: i32,
    pub online: i32,
    pub sample: Vec<Player>,
}

#[derive(Debug, Clone, PartialEq)]
pub struct Player {
    pub name: std::string::String,
    pub id: std::string::String,
}

pub enum ClientboundV {
    Response { data: Seq<char> },
    Pong { payload: i64 },
}

impl View for Clientbound {
    type V = ClientboundV;

    open spec fn view(&self) -> ClientboundV {
        match self {
            Clientbound::Response { data } => ClientboundV::Response { data: data.0@ },
            Clientbound::Pong { payload } => ClientboundV::Pong { payload: *payload },
        }
    }
}

/// Wire form of a serverbound status packet.
pub open spec fn serverbound_bytes(p: Serverbound) -> Seq<u8> {
    match p {
        Serverbound::Request => varint_bytes(0),
        Serverbound::Ping { payload } => varint_bytes(1) + signed_bytes(payload as int, 8),
    }
}

pub open spec fn parse_serverbound(s: Seq<u8>) -> Parsed<Serverbound> {
    match parse_var_int(s) {
        Ok((0, s)) => Ok((Serverbound::Request, s)),
        Ok((1, s)) => match parse_i64(s) {
            Ok((payload, s)) => Ok((Serverbound::Ping { payload }, s)),
            Err(e) => Err(e),
        },
        Ok(_) => Err(ProtocolError::UnknownId),
        Err(e) => Err(e),
    }
}

pub open spec fn decode_serverbound(s: Seq<u8>) -> Result<Serverbound, ProtocolError> {
    match parse_serverbound(s) {
        Ok((p, rest)) => if rest.len() == 0 {
            Ok(p)
        } else {
            Err(ProtocolError::TrailingBytes)
        },
        Err(e) => Err(e),
    }
}

pub open spec fn clientbound_fits(p: ClientboundV) -> bool {
    match p {
        ClientboundV::Response { data } => string_fits(data),
        ClientboundV::Pong { .. } => true,
    }
}

/// Wire form of a clientbound status packet.
pub open spec fn clientbound_bytes(p: ClientboundV) -> Seq<u8> {
    match p {
        ClientboundV::Response { data } => varint_bytes(0) + string_bytes(data),
        ClientboundV::Pong { payload } => varint_bytes(1) + signed_bytes(payload as int, 8),
    }
}

pub open spec fn parse_clientbound(s: Seq<u8>) -> Parsed<ClientboundV> {
    match parse_var_int(s) {
        Ok((0, s)) => match parse_string(s) {
            Ok((data, s)) => Ok((ClientboundV::Response { data }, s)),
            Err(e) => Err(e),
        },
        Ok((1, s)) => match parse_i64(s) {
            Ok((payload, s)) => Ok((ClientboundV::Pong { payload }, s)),
            Err(e) => Err(e),
        },
        Ok(_) => Err(ProtocolError::UnknownId),
        Err(e) => Err(e),
    }
}

pub open spec fn decode_clientbound(s: Seq<u8>) -> Result<ClientboundV, ProtocolError> {
    match parse_clientbound(s) {
        Ok((p, rest)) => if rest.len() == 0 {
            Ok(p)
        } else {
            Err(ProtocolError::TrailingBytes)
        },
        Err(e) => Err(e),
    }
}

/// Every serverbound status packet decodes to itself.
#[verifier::spinoff_prover]
#[verifier::rlimit(100)]
pub proof fn lemma_serverbound_round_trip(p: Serverbound)
    ensures
        decode_serverbound(serverbound_bytes(p)) == Ok::<Serverbound, ProtocolError>(p),
{
    let e = Seq::<u8>::empty();
    lemma_pow256_values();
    match p {
        Serverbound::Request => {
            assert(serverbound_bytes(p) =~= varint_bytes(0) + e);
            lemma_parse_var_int(0, e);
        },
        Serverbound::Ping { payload } => {
            let b = signed_bytes(payload as int, 8);
            assert(serverbound_bytes(p) =~= varint_bytes(1) + (b + e));
            lemma_parse_var_int(1, b + e);
            lemma_parse_signed(payload as int, 8, e);
        },
    }
}

/// Every clientbound status packet whose text fits decodes to itself.
#[verifier::spinoff_prover]
#[verifier::rlimit(100)]
pub proof fn lemma_clientbound_round_trip(p: ClientboundV)
    requires
        clientbound_fits(p),
    ensures
        decode_clientbound(clientbound_bytes(p)) == Ok::<ClientboundV, ProtocolError>(p),
{
    let e = Seq::<u8>::empty();
    lemma_pow256_values();
    match p {
        ClientboundV::Response { data } => {
            let b = string_bytes(data);
            assert(clientbound_bytes(p) =~= varint_bytes(0) + (b + e));
            lemma_parse_var_int(0, b + e);
            lemma_parse_string(data, e);
        },
        ClientboundV::Pong { payload } => {
            let b = signed_bytes(payload as int, 8);
            assert(clientbound_bytes(p) =~= varint_bytes(1) + (b + e));
            lemma_parse_var_int(1, b + e);
            lemma_parse_signed(payload as int, 8, e);
        },
    }
}

impl Serverbound {
    /// The wire form of this packet.
    pub fn encode(&self) -> (r: Vec<u8>)
        ensures
            r@ == serverbound_bytes(*self),
    {
        let mut out: Vec<u8> = Vec::new();
        match self {
            Serverbound::Request => write_var_int(0, &mut out),
            Serverbound::Ping { payload } => {
                write_var_int(1, &mut out);
                write_i64(*payload, &mut out);
            },
        }
        assert(out@ =~= serverbound_bytes(*self));
        out
    }

    /// Reads one packet that fills `data`.
    pub fn decode(data: &[u8]) -> (r: Result<Serverbound, ProtocolError>)
        ensures
            r == decode_serverbound(data@),
    {
        assert(data@.skip(0) =~= data@);
        let (id, p) = match read_var_int(data, 0) {
            Ok(x) => x,
            Err(e) => return Err(e),
        };
        let (packet, p) = if id == 0 {
            (Serverbound::Request, p)
        } else if id == 1 {
            match read_i64(data, p) {
                Ok((payload, p)) => (Serverbound::Ping { payload }, p),
                Err(e) => return Err(e),
            }
        } else {
            return Err(ProtocolError::UnknownId);
        };
        if p != data.len() {
            return Err(ProtocolError::TrailingBytes);
        }
        Ok(packet)
    }
}

impl Clientbound {
    /// The wire form of this packet; fails when the text is too long.
    pub fn encode(&self) -> (r: Result<Vec<u8>, ProtocolError>)
        ensures
            r is Ok <==> clientbound_fits(self@),
            r matches Ok(w) ==> w@ == clientbound_bytes(self@),
            r is Err ==> r == Err::<Vec<u8>, ProtocolError>(ProtocolError::BadLength),
    {
        let mut out: Vec<u8> = Vec::new();
        match self {
            Clientbound::Response { data } => {
                if utf8_len(&data.0) > 0x7fff_ffff {
                    return Err(ProtocolError::BadLength);
                }
                write_var_int(0, &mut out);
                data.encode(&mut out);
            },
            Clientbound::Pong { payload } => {
                write_var_int(1, &mut out);
                write_i64(*payload, &mut out);
            },
        }
        assert(out@ =~= clientbound_bytes(self@));
        Ok(out)
    }

    /// Reads one packet that fills `data`.
    pub fn decode(data: &[u8]) -> (r: Result<Clientbound, ProtocolError>)
        ensures
            match decode_clientbound(data@) {
                Ok(v) => r matches Ok(p) && p@ == v,
                Err(e) => r == Err::<Clientbound, ProtocolError>(e),
            },
    {
        assert(data@.skip(0) =~= data@);
        let (id, p) = match read_var_int(data, 0) {
            Ok(x) => x,
            Err(e) => return Err(e),
        };
        let (packet, p) = if id == 0 {
            match String::decode(data, p) {
                Ok((s, p)) => (Clientbound::Response { data: s }, p),
                Err(e) => return Err(e),
            }
        } else if id == 1 {
            match read_i64(data, p) {
                Ok((payload, p)) => (Clientbound::Pong { payload }, p),
                Err(e) => return Err(e),
            }
        } else {
            return Err(ProtocolError::UnknownId);
        };
        if p != data.len() {
            return Err(ProtocolError::TrailingBytes);
        }
        Ok(packet)
    }
}

} // verus!
