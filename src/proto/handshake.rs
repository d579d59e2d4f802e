use vstd::prelude::*;
use crate::error::ProtocolError;
use crate::varint::{VarInt, varint_bytes};
use crate::types::String;
use crate::codec::{Parsed, agrees, be_bytes, parse_var_int, parse_u16, parse_string, string_bytes,
    string_fits, read_var_int, read_u16, write_var_int, write_u16, utf8_len, lemma_parse_var_int,
    lemma_parse_be, lemma_parse_string, lemma_pow256_values};

verus! {

/// The phase that a handshake asks for.
#[derive(Debug, Clone, Copy, PartialEq, Eq, Structural)]
pub enum NextState {
    Status,
    Login,
}

/// Wire id of a next state.
pub open spec fn next_state_id(n: NextState) -> i32 {
    match n {
        NextState::Status => 1,
        NextState::Login => 2,
    }
}

/// Serverbound packets of the handshake phase.
#[derive(Debug, Clone, PartialEq)]
pub enum Serverbound {
    Handshake {
        protocol_version: VarInt,
        server_address: String,
        server_port: u16,
        next_state: NextState,
    },
}

/// What a handshake packet holds, as plain values.
pub enum ServerboundV {
    Handshake {
        protocol_version: i32,
        server_address: Seq<char>,
        server_port: u16,
        next_state: NextState,
    },
}

impl View for Serverbound {
    type V = ServerboundV;

    open spec fn view(&self) -> ServerboundV {
        match self {
            Serverbound::Handshake { protocol_version, server_address, server_port, next_state } =>
                ServerboundV::Handshake {
                protocol_version: protocol_version.0,
                server_address: server_address.0@,
                server_port: *server_port,
                next_state: *next_state,
            },
        }
    }
}

/// The packet's strings fit their length prefixes.
pub open spec fn serverbound_fits(p: ServerboundV) -> bool {
    match p {
        ServerboundV::Handshake { server_address, .. } => string_fits(server_address),
    }
}

/// Wire form: id 0, then the fields in order.
pub open spec fn serverbound_bytes(p: ServerboundV) -> Seq<u8> {
    match p {
        ServerboundV::Handshake { protocol_version, server_address, server_port, next_state } =>
            varint_bytes(0) + varint_bytes(protocol_version) + string_bytes(server_address)
            + be_bytes(server_port as nat, 2) + varint_bytes(next_state_id(next_state)),
    }
}

pub open spec fn parse_next_state(s: Seq<u8>) -> Parsed<NextState> {
    match parse_var_int(s) {
        Ok((1, rest)) => Ok((NextState::Status, rest)),
        Ok((2, rest)) => Ok((NextState::Login, rest)),
        Ok(_) => Err(ProtocolError::UnknownId),
        Err(e) => Err(e),
    }
}

pub open spec fn parse_serverbound(s: Seq<u8>) -> Parsed<ServerboundV> {
    match parse_var_int(s) {
        Ok((0, s)) => match parse_var_int(s) {
            Ok((protocol_version, s)) => match parse_string(s) {
                Ok((server_address, s)) => match parse_u16(s) {
                    Ok((server_port, s)) => match parse_next_state(s) {
                        Ok((next_state, s)) => Ok(
                            (
                                ServerboundV::Handshake {
                                    protocol_version,
                                    server_address,
                                    server_port,
                                    next_state,
                                },
                                s,
                            ),
                        ),
                        Err(e) => Err(e),
                    },
                    Err(e) => Err(e),
                },
                Err(e) => Err(e),
            },
            Err(e) => Err(e),
        },
        Ok(_) => Err(ProtocolError::UnknownId),
        Err(e) => Err(e),
    }
}

/// A whole frame payload read as one packet; bytes left over are an error.
pub open spec fn decode_serverbound(s: Seq<u8>) -> Result<ServerboundV, ProtocolError> {
    match parse_serverbound(s) {
        Ok((p, rest)) => if rest.len() == 0 {
            Ok(p)
        } else {
            Err(ProtocolError::TrailingBytes)
        },
        Err(e) => Err(e),
    }
}

/// Every handshake packet whose strings fit decodes to itself.
#[verifier::spinoff_prover]
#[verifier::rlimit(100)]
pub proof fn lemma_serverbound_round_trip(p: ServerboundV)
    requires
        serverbound_fits(p),
    ensures
        decode_serverbound(serverbound_bytes(p)) == Ok::<ServerboundV, ProtocolError>(p),
{
    let e = Seq::<u8>::empty();
    match p {
        ServerboundV::Handshake { protocol_version, server_address, server_port, next_state } => {
            let a = varint_bytes(0);
            let b = varint_bytes(protocol_version);
            let c = string_bytes(server_address);
            let d = be_bytes(server_port as nat, 2);
            let f = varint_bytes(next_state_id(next_state));
            assert(serverbound_bytes(p) =~= a + (b + (c + (d + (f + e)))));
            lemma_pow256_values();
            lemma_parse_var_int(0, b + (c + (d + (f + e))));
            lemma_parse_var_int(protocol_version, c + (d + (f + e)));
            lemma_parse_string(server_address, d + (f + e));
            lemma_parse_be(server_port as nat, 2, f + e);
            lemma_parse_var_int(next_state_id(next_state), e);
        },
    }
}

impl NextState {
    pub fn encode(&self, out: &mut Vec<u8>)
        ensures
            final(out)@ == old(out)@ + varint_bytes(next_state_id(*self)),
    {
        match self {
            NextState::Status => write_var_int(1, out),
            NextState::Login => write_var_int(2, out),
        }
    }

    pub fn decode(data: &[u8], pos: usize) -> (r: Result<(NextState, usize), ProtocolError>)
        requires
            pos <= data@.len(),
        ensures
            agrees(r, data@, pos as int, parse_next_state(data@.skip(pos as int))),
    {
        match read_var_int(data, pos) {
            Ok((1, p)) => Ok((NextState::Status, p)),
            Ok((2, p)) => Ok((NextState::Login, p)),
            Ok(_) => Err(ProtocolError::UnknownId),
            Err(e) => Err(e),
        }
    }
}

impl Serverbound {
    /// The wire form of this packet (id and fields); fails when a string is too
    /// long for its length prefix.
    pub fn encode(&self) -> (r: Result<Vec<u8>, ProtocolError>)
        ensures
            r is Ok <==> serverbound_fits(self@),
            r matches Ok(w) ==> w@ == serverbound_bytes(self@),
            r is Err ==> r == Err::<Vec<u8>, ProtocolError>(ProtocolError::BadLength),
    {
        let mut out: Vec<u8> = Vec::new();
        match self {
            Serverbound::Handshake { protocol_version, server_address, server_port, next_state } => {
                if utf8_len(&server_address.0) > 0x7fff_ffff {
                    return Err(ProtocolError::BadLength);
                }
                write_var_int(0, &mut out);
                protocol_version.encode(&mut out);
                server_address.encode(&mut out);
                write_u16(*server_port, &mut out);
                next_state.encode(&mut out);
            },
        }
        assert(out@ =~= serverbound_bytes(self@));
        Ok(out)
    }

    /// Reads one packet that fills `data`.
    pub fn decode(data: &[u8]) -> (r: Result<Serverbound, ProtocolError>)
        ensures
            match decode_serverbound(data@) {
                Ok(v) => r matches Ok(p) && p@ == v,
                Err(e) => r == Err::<Serverbound, ProtocolError>(e),
            },
    {
        assert(data@.skip(0) =~= data@);
        let (id, p) = match read_var_int(data, 0) {
            Ok(x) => x,
            Err(e) => return Err(e),
        };
        if id != 0 {
            return Err(ProtocolError::UnknownId);
        }
        let (protocol_version, p) = match read_var_int(data, p) {
            Ok(x) => x,
            Err(e) => return Err(e),
        };
        let (server_address, p) = match String::decode(data, p) {
            Ok(x) => x,
            Err(e) => return Err(e),
        };
        let (server_port, p) = match read_u16(data, p) {
            Ok(x) => x,
            Err(e) => return Err(e),
        };
        let (next_state, p) = match NextState::decode(data, p) {
            Ok(x) => x,
            Err(e) => return Err(e),
        };
        if p != data.len() {
            return Err(ProtocolError::TrailingBytes);
        }
        Ok(
            Serverbound::Handshake {
                protocol_version: VarInt(protocol_version),
                server_address,
                server_port,
                next_state,
            },
        )
    }
}

} // verus!
