use vstd::prelude::*;
use crate::error::ProtocolError;
use crate::varint::{VarInt, varint_bytes};
use crate::types::{String, Chat, Identifier, Uuid};
use crate::codec::{Parsed, be_bytes, bool_bytes, prefixed_bytes, parse_var_int, parse_bool,
    parse_u128, parse_prefixed, parse_string, parse_short_string, string_bytes, string_fits,
    short_string_fits, read_var_int, read_bool, read_prefixed, read_greedy, write_var_int,
    write_bool, write_prefixed, write_raw, utf8_len, lemma_parse_var_int, lemma_parse_bool,
    lemma_parse_be, lemma_parse_prefixed, lemma_parse_string, lemma_parse_short_string,
    lemma_pow256_values};

verus! {

/// Clientbound packets of the login phase.
#[derive(Debug, Clone, PartialEq)]
pub enum Clientbound {
    Disconnect { reason: Chat },
    EncryptionRequest { server_id: String, public_key_der: Vec<u8>, verify_token: Vec<u8> },
    LoginSuccess { uuid: Uuid, username: String },
    SetCompression { threshold: VarInt },
    LoginPluginRequest { message_id: VarInt, channel: Identifier, data: Vec<u8> },
}

/// Serverbound packets of the login phase.
#[derive(Debug, Clone, PartialEq)]
pub enum Serverbound {
    LoginStart { name: String },
    EncryptionResponse { shared_secret: Vec<u8>, verify_token: Vec<u8> },
    LoginPluginResponse { message_id: VarInt, success: bool, data: Vec<u8> },
}

pub enum ClientboundV {
    Disconnect { reason: Seq<char> },
    EncryptionRequest { server_id: Seq<char>, public_key_der: Seq<u8>, verify_token: Seq<u8> },
    LoginSuccess { uuid: u128, username: Seq<char> },
    SetCompression { threshold: i32 },
    LoginPluginRequest { message_id: i32, channel: Seq<char>, data: Seq<u8> },
}

pub enum ServerboundV {
    LoginStart { name: Seq<char> },
    EncryptionResponse { shared_secret: Seq<u8>, verify_token: Seq<u8> },
    LoginPluginResponse { message_id: i32, success: bool, data: Seq<u8> },
}

impl View for Clientbound {
    type V = ClientboundV;

    open spec fn view(&self) -> ClientboundV {
        match self {
            Clientbound::Disconnect { reason } => ClientboundV::Disconnect { reason: reason.0.0@ },
            Clientbound::EncryptionRequest { server_id, public_key_der, verify_token } =>
                ClientboundV::EncryptionRequest {
                server_id: server_id.0@,
                public_key_der: public_key_der@,
                verify_token: verify_token@,
            },
            Clientbound::LoginSuccess { uuid, username } => ClientboundV::LoginSuccess {
                uuid: uuid.0,
                username: username.0@,
            },
            Clientbound::SetCompression { threshold } => ClientboundV::SetCompression {
                threshold: threshold.0,
            },
            Clientbound::LoginPluginRequest { message_id, channel, data } =>
                ClientboundV::LoginPluginRequest {
                message_id: message_id.0,
                channel: channel.0.0@,
                data: data@,
            },
        }
    }
}

impl View for Serverbound {
    type V = ServerboundV;

    open spec fn view(&self) -> ServerboundV {
        match self {
            Serverbound::LoginStart { name } => ServerboundV::LoginStart { name: name.0@ },
            Serverbound::EncryptionResponse { shared_secret, verify_token } =>
                ServerboundV::EncryptionResponse {
                shared_secret: shared_secret@,
                verify_token: verify_token@,
            },
            Serverbound::LoginPluginResponse { message_id, success, data } =>
                ServerboundV::LoginPluginResponse {
                message_id: message_id.0,
                success: *success,
                data: data@,
            },
        }
    }
}

pub open spec fn clientbound_fits(p: ClientboundV) -> bool {
    match p {
        ClientboundV::Disconnect { reason } => short_string_fits(reason),
        ClientboundV::EncryptionRequest { server_id, public_key_der, verify_token } => string_fits(
            server_id,
        ) && public_key_der.len() <= 0x7fff_ffff && verify_token.len() <= 0x7fff_ffff,
        ClientboundV::LoginSuccess { username, .. } => string_fits(username),
        ClientboundV::SetCompression { .. } => true,
        ClientboundV::LoginPluginRequest { channel, .. } => short_string_fits(channel),
    }
}

pub open spec fn serverbound_fits(p: ServerboundV) -> bool {
    match p {
        ServerboundV::LoginStart { name } => string_fits(name),
        ServerboundV::EncryptionResponse { shared_secret, verify_token } => shared_secret.len()
            <= 0x7fff_ffff && verify_token.len() <= 0x7fff_ffff,
        ServerboundV::LoginPluginResponse { .. } => true,
    }
}

/// Wire form of a clientbound login packet: its id, then its fields in order; the
/// plugin request's data runs to the end of the frame.
pub open spec fn clientbound_bytes(p: ClientboundV) -> Seq<u8> {
    match p {
        ClientboundV::Disconnect { reason } => varint_bytes(0) + string_bytes(reason),
        ClientboundV::EncryptionRequest { server_id, public_key_der, verify_token } =>
            varint_bytes(1) + string_bytes(server_id) + prefixed_bytes(public_key_der)
            + prefixed_bytes(verify_token),
        ClientboundV::LoginSuccess { uuid, username } => varint_bytes(2) + be_bytes(
            uuid as nat,
            16,
        ) + string_bytes(username),
        ClientboundV::SetCompression { threshold } => varint_bytes(3) + varint_bytes(threshold),
        ClientboundV::LoginPluginRequest { message_id, channel, data } => varint_bytes(4)
            + varint_bytes(message_id) + string_bytes(channel) + data,
    }
}

/// Wire form of a serverbound login packet.
pub open spec fn serverbound_bytes(p: ServerboundV) -> Seq<u8> {
    match p {
        ServerboundV::LoginStart { name } => varint_bytes(0) + string_bytes(name),
        ServerboundV::EncryptionResponse { shared_secret, verify_token } => varint_bytes(1)
            + prefixed_bytes(shared_secret) + prefixed_bytes(verify_token),
        ServerboundV::LoginPluginResponse { message_id, success, data } => varint_bytes(2)
            + varint_bytes(message_id) + bool_bytes(success) + data,
    }
}

pub open spec fn parse_clientbound(s: Seq<u8>) -> Parsed<ClientboundV> {
    match parse_var_int(s) {
        Ok((0, s)) => match parse_short_string(s) {
            Ok((reason, s)) => Ok((ClientboundV::Disconnect { reason }, s)),
            Err(e) => Err(e),
        },
        Ok((1, s)) => match parse_string(s) {
            Ok((server_id, s)) => match parse_prefixed(s) {
                Ok((public_key_der, s)) => match parse_prefixed(s) {
                    Ok((verify_token, s)) => Ok(
                        (
                            ClientboundV::EncryptionRequest {
                                server_id,
                                public_key_der,
                                verify_token,
                            },
                            s,
                        ),
                    ),
                    Err(e) => Err(e),
                },
                Err(e) => Err(e),
            },
            Err(e) => Err(e),
        },
        Ok((2, s)) => match parse_u128(s) {
            Ok((uuid, s)) => match parse_string(s) {
                Ok((username, s)) => Ok((ClientboundV::LoginSuccess { uuid, username }, s)),
                Err(e) => Err(e),
            },
            Err(e) => Err(e),
        },
        Ok((3, s)) => match parse_var_int(s) {
            Ok((threshold, s)) => Ok((ClientboundV::SetCompression { threshold }, s)),
            Err(e) => Err(e),
        },
        Ok((4, s)) => match parse_var_int(s) {
            Ok((message_id, s)) => match parse_short_string(s) {
                Ok((channel, s)) => Ok(
                    (ClientboundV::LoginPluginRequest { message_id, channel, data: s }, seq![]),
                ),
                Err(e) => Err(e),
            },
            Err(e) => Err(e),
        },
        Ok(_) => Err(ProtocolError::UnknownId),
        Err(e) => Err(e),
    }
}

pub open spec fn parse_serverbound(s: Seq<u8>) -> Parsed<ServerboundV> {
    match parse_var_int(s) {
        Ok((0, s)) => match parse_string(s) {
            Ok((name, s)) => Ok((ServerboundV::LoginStart { name }, s)),
            Err(e) => Err(e),
        },
        Ok((1, s)) => match parse_prefixed(s) {
            Ok((shared_secret, s)) => match parse_prefixed(s) {
                Ok((verify_token, s)) => Ok(
                    (ServerboundV::EncryptionResponse { shared_secret, verify_token }, s),
                ),
                Err(e) => Err(e),
            },
            Err(e) => Err(e),
        },
        Ok((2, s)) => match parse_var_int(s) {
            Ok((message_id, s)) => match parse_bool(s) {
                Ok((success, s)) => Ok(
                    (ServerboundV::LoginPluginResponse { message_id, success, data: s }, seq![]),
                ),
                Err(e) => Err(e),
            },
            Err(e) => Err(e),
        },
        Ok(_) => Err(ProtocolError::UnknownId),
        Err(e) => Err(e),
    }
}

pub open spec fn decode_clientbound(s: Seq<u8>) -> Result<ClientboundV, ProtocolError> {
    match parse_clientbound(s) {
        Ok((p, rest)) => if rest.len() == 0 {
            Ok(p)
        } else {
            Err(ProtocolError::TrailingBytes)
        },
        Err(e) => Err(e),
    }
}

pub open spec fn decode_serverbound(s: Seq<u8>) -> Result<ServerboundV, ProtocolError> {
    match parse_serverbound(s) {
        Ok((p, rest)) => if rest.len() == 0 {
            Ok(p)
        } else {
            Err(ProtocolError::TrailingBytes)
        },
        Err(e) => Err(e),
    }
}

/// Every clientbound login packet whose fields fit decodes to itself.
#[verifier::rlimit(100)]
#[verifier::spinoff_prover]
pub proof fn lemma_clientbound_round_trip(p: ClientboundV)
    requires
        clientbound_fits(p),
    ensures
        decode_clientbound(clientbound_bytes(p)) == Ok::<ClientboundV, ProtocolError>(p),
{
    let e = Seq::<u8>::empty();
    lemma_pow256_values();
    match p {
        ClientboundV::Disconnect { reason } => {
            let b = string_bytes(reason);
            assert(clientbound_bytes(p) =~= varint_bytes(0) + (b + e));
            lemma_parse_var_int(0, b + e);
            lemma_parse_short_string(reason, e);
        },
        ClientboundV::EncryptionRequest { server_id, public_key_der, verify_token } => {
            let b = string_bytes(server_id);
            let c = prefixed_bytes(public_key_der);
            let d = prefixed_bytes(verify_token);
            assert(clientbound_bytes(p) =~= varint_bytes(1) + (b + (c + (d + e))));
            lemma_parse_var_int(1, b + (c + (d + e)));
            lemma_parse_string(server_id, c + (d + e));
            lemma_parse_prefixed(public_key_der, d + e);
            lemma_parse_prefixed(verify_token, e);
        },
        ClientboundV::LoginSuccess { uuid, username } => {
            let b = be_bytes(uuid as nat, 16);
            let c = string_bytes(username);
            assert(clientbound_bytes(p) =~= varint_bytes(2) + (b + (c + e)));
            lemma_parse_var_int(2, b + (c + e));
            lemma_parse_be(uuid as nat, 16, c + e);
            lemma_parse_string(username, e);
        },
        ClientboundV::SetCompression { threshold } => {
            let b = varint_bytes(threshold);
            assert(clientbound_bytes(p) =~= varint_bytes(3) + (b + e));
            lemma_parse_var_int(3, b + e);
            lemma_parse_var_int(threshold, e);
        },
        ClientboundV::LoginPluginRequest { message_id, channel, data } => {
            let b = varint_bytes(message_id);
            let c = string_bytes(channel);
            assert(clientbound_bytes(p) =~= varint_bytes(4) + (b + (c + data)));
            lemma_parse_var_int(4, b + (c + data));
            lemma_parse_var_int(message_id, c + data);
            lemma_parse_short_string(channel, data);
        },
    }
}

/// Every serverbound login packet whose fields fit decodes to itself.
#[verifier::spinoff_prover]
#[verifier::rlimit(100)]
pub proof fn lemma_serverbound_round_trip(p: ServerboundV)
    requires
        serverbound_fits(p),
    ensures
        decode_serverbound(serverbound_bytes(p)) == Ok::<ServerboundV, ProtocolError>(p),
{
    let e = Seq::<u8>::empty();
    match p {
        ServerboundV::LoginStart { name } => {
            let b = string_bytes(name);
            assert(serverbound_bytes(p) =~= varint_bytes(0) + (b + e));
            lemma_parse_var_int(0, b + e);
            lemma_parse_string(name, e);
        },
        ServerboundV::EncryptionResponse { shared_secret, verify_token } => {
            let b = prefixed_bytes(shared_secret);
            let c = prefixed_bytes(verify_token);
            assert(serverbound_bytes(p) =~= varint_bytes(1) + (b + (c + e)));
            lemma_parse_var_int(1, b + (c + e));
            lemma_parse_prefixed(shared_secret, c + e);
            lemma_parse_prefixed(verify_token, e);
        },
        ServerboundV::LoginPluginResponse { message_id, success, data } => {
            let b = varint_bytes(message_id);
            let c = bool_bytes(success);
            assert(serverbound_bytes(p) =~= varint_bytes(2) + (b + (c + data)));
            lemma_parse_var_int(2, b + (c + data));
            lemma_parse_var_int(message_id, c + data);
            lemma_parse_bool(success, data);
        },
    }
}

impl Clientbound {
    /// The wire form of this packet; fails when a field is too long for its prefix.
    pub fn encode(&self) -> (r: Result<Vec<u8>, ProtocolError>)
        ensures
            r is Ok <==> clientbound_fits(self@),
            r matches Ok(w) ==> w@ == clientbound_bytes(self@),
            r is Err ==> r == Err::<Vec<u8>, ProtocolError>(ProtocolError::BadLength),
    {
        let mut out: Vec<u8> = Vec::new();
        match self {
            Clientbound::Disconnect { reason } => {
                if utf8_len(&reason.0.0) > 32767 {
                    return Err(ProtocolError::BadLength);
                }
                write_var_int(0, &mut out);
                reason.encode(&mut out);
            },
            Clientbound::EncryptionRequest { server_id, public_key_der, verify_token } => {
                if utf8_len(&server_id.0) > 0x7fff_ffff || public_key_der.len() > 0x7fff_ffff
                    || verify_token.len() > 0x7fff_ffff {
                    return Err(ProtocolError::BadLength);
                }
                write_var_int(1, &mut out);
                server_id.encode(&mut out);
                write_prefixed(public_key_der.as_slice(), &mut out);
                write_prefixed(verify_token.as_slice(), &mut out);
            },
            Clientbound::LoginSuccess { uuid, username } => {
                if utf8_len(&username.0) > 0x7fff_ffff {
                    return Err(ProtocolError::BadLength);
                }
                write_var_int(2, &mut out);
                uuid.encode(&mut out);
                username.encode(&mut out);
            },
            Clientbound::SetCompression { threshold } => {
                write_var_int(3, &mut out);
                threshold.encode(&mut out);
            },
            Clientbound::LoginPluginRequest { message_id, channel, data } => {
                if utf8_len(&channel.0.0) > 32767 {
                    return Err(ProtocolError::BadLength);
                }
                write_var_int(4, &mut out);
                message_id.encode(&mut out);
                channel.encode(&mut out);
                write_raw(data.as_slice(), &mut out);
            },
        }
        assert(out@ =~= clientbound_bytes(self@));
        Ok(out)
    }

    /// Reads one packet that fills `data`.
    #[verifier::spinoff_prover]
    #[verifier::rlimit(100)]
    pub fn decode(data: &[u8]) -> (r: Result<Clientbound, ProtocolError>)
        ensures
            match decode_clientbound(data@) {
                Ok(v) => r matches Ok(p) && p@ == v,
                Err(e) => r == Err::<Clientbound, ProtocolError>(e),
            },
    {
        assert(data@.skip(0) =~= data@);
        let (id, p) = match read_var_int(data, 0) {
            Ok(x) => x,
            Err(e) => return Err(e),
        };
        let (packet, p) = if id == 0 {
            match Chat::decode(data, p) {
                Ok((reason, p)) => (Clientbound::Disconnect { reason }, p),
                Err(e) => return Err(e),
            }
        } else if id == 1 {
            let (server_id, p) = match String::decode(data, p) {
                Ok(x) => x,
                Err(e) => return Err(e),
            };
            let (public_key_der, p) = match read_prefixed(data, p) {
                Ok(x) => x,
                Err(e) => return Err(e),
            };
            let (verify_token, p) = match read_prefixed(data, p) {
                Ok(x) => x,
                Err(e) => return Err(e),
            };
            (Clientbound::EncryptionRequest { server_id, public_key_der, verify_token }, p)
        } else if id == 2 {
            let (uuid, p) = match Uuid::decode(data, p) {
                Ok(x) => x,
                Err(e) => return Err(e),
            };
            let (username, p) = match String::decode(data, p) {
                Ok(x) => x,
                Err(e) => return Err(e),
            };
            (Clientbound::LoginSuccess { uuid, username }, p)
        } else if id == 3 {
            match read_var_int(data, p) {
                Ok((t, p)) => (Clientbound::SetCompression { threshold: VarInt(t) }, p),
                Err(e) => return Err(e),
            }
        } else if id == 4 {
            let (message_id, p) = match read_var_int(data, p) {
                Ok(x) => x,
                Err(e) => return Err(e),
            };
            let (channel, p) = match Identifier::decode(data, p) {
                Ok(x) => x,
                Err(e) => return Err(e),
            };
            let (rest, p) = read_greedy(data, p);
            (
                Clientbound::LoginPluginRequest {
                    message_id: VarInt(message_id),
                    channel,
                    data: rest,
                },
                p,
            )
        } else {
            return Err(ProtocolError::UnknownId);
        };
        if p != data.len() {
            return Err(ProtocolError::TrailingBytes);
        }
        Ok(packet)
    }
}

impl Serverbound {
    /// The wire form of this packet; fails when a field is too long for its prefix.
    pub fn encode(&self) -> (r: Result<Vec<u8>, ProtocolError>)
        ensures
            r is Ok <==> serverbound_fits(self@),
            r matches Ok(w) ==> w@ == serverbound_bytes(self@),
            r is Err ==> r == Err::<Vec<u8>, ProtocolError>(ProtocolError::BadLength),
    {
        let mut out: Vec<u8> = Vec::new();
        match self {
            Serverbound::LoginStart { name } => {
                if utf8_len(&name.0) > 0x7fff_ffff {
                    return Err(ProtocolError::BadLength);
                }
                write_var_int(0, &mut out);
                name.encode(&mut out);
            },
            Serverbound::EncryptionResponse { shared_secret, verify_token } => {
                if shared_secret.len() > 0x7fff_ffff || verify_token.len() > 0x7fff_ffff {
                    return Err(ProtocolError::BadLength);
                }
                write_var_int(1, &mut out);
                write_prefixed(shared_secret.as_slice(), &mut out);
                write_prefixed(verify_token.as_slice(), &mut out);
            },
            Serverbound::LoginPluginResponse { message_id, success, data } => {
                write_var_int(2, &mut out);
                message_id.encode(&mut out);
                write_bool(*success, &mut out);
                write_raw(data.as_slice(), &mut out);
            },
        }
        assert(out@ =~= serverbound_bytes(self@));
        Ok(out)
    }

    /// Reads one packet that fills `data`.
    pub fn decode(data: &[u8]) -> (r: Result<Serverbound, ProtocolError>)
        ensures
            match decode_serverbound(data@) {
                Ok(v) => r matches Ok(p) && p@ == v,
                Err(e) => r == Err::<Serverbound, ProtocolError>(e),
            },
    {
        assert(data@.skip(0) =~= data@);
        let (id, p) = match read_var_int(data, 0) {
            Ok(x) => x,
            Err(e) => return Err(e),
        };
        let (packet, p) = if id == 0 {
            match String::decode(data, p) {
                Ok((name, p)) => (Serverbound::LoginStart { name }, p),
                Err(e) => return Err(e),
            }
        } else if id == 1 {
            let (shared_secret, p) = match read_prefixed(data, p) {
                Ok(x) => x,
                Err(e) => return Err(e),
            };
            let (verify_token, p) = match read_prefixed(data, p) {
                Ok(x) => x,
                Err(e) => return Err(e),
            };
            (Serverbound::EncryptionResponse { shared_secret, verify_token }, p)
        } else if id == 2 {
            let (message_id, p) = match read_var_int(data, p) {
                Ok(x) => x,
                Err(e) => return Err(e),
            };
            let (success, p) = match read_bool(data, p) {
                Ok(x) => x,
                Err(e) => return Err(e),
            };
            let (rest, p) = read_greedy(data, p);
            (Serverbound::LoginPluginResponse { message_id: VarInt(message_id), success, data: rest }, p)
        } else {
            return Err(ProtocolError::UnknownId);
        };
        if p != data.len() {
            return Err(ProtocolError::TrailingBytes);
        }
        Ok(packet)
    }
}

} // verus!
