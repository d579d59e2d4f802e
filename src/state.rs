use vstd::prelude::*;
use crate::error::ProtocolError;
use crate::varint::VarInt;
use crate::types::{String, Uuid};
use crate::codec::{string_fits, write_raw};
use crate::transport::{TransportSession, frame_bytes, frame_fits};
use crate::auth::Authentication;
use crate::crypto::{rsa_key_parses, sha1_of, signed_hex, sha1_digest, hex_digest, random_secret, parse_public_key,
    rsa_encrypt};
use crate::proto::{handshake, login, play, status};
use crate::proto::play::Gamemode;

verus! {

/// Why a session operation failed.
#[derive(Debug, Clone, PartialEq)]
pub enum SessionError {
    /// The bytes on the wire broke the protocol.
    Protocol(ProtocolError),
    /// The server ended the session, with this reason.
    Disconnected(std::string::String),
    /// The server's public key could not be read.
    BadServerKey,
    /// RSA encryption of the shared secret or verify token failed.
    EncryptionFailed,
}

/// The start of a connection: where it goes and which protocol version it speaks.
pub struct Handshake {
    pub host: std::string::String,
    pub port: u16,
    pub version: i32,
}

/// The handshake packet that asks for `next_state`.
pub open spec fn handshake_packet(h: &Handshake, next_state: handshake::NextState) -> handshake::ServerboundV {
    handshake::ServerboundV::Handshake {
        protocol_version: h.version,
        server_address: h.host@,
        server_port: h.port,
        next_state,
    }
}

impl Handshake {
    pub fn new(host: std::string::String, port: u16, version: i32) -> (r: Handshake)
        ensures
            r.host@ == host@,
            r.port == port,
            r.version == version,
    {
        Handshake { host, port, version }
    }

    fn send(self, next_state: handshake::NextState) -> (r: Result<(TransportSession, Vec<u8>), ProtocolError>)
        ensures
            r is Ok <==> string_fits(self.host@) && frame_fits(
                handshake::serverbound_bytes(handshake_packet(&self, next_state)),
                None,
            ),
            r matches Ok((s, w)) ==> !s.encrypting() && s.threshold() is None && w@ == frame_bytes(
                handshake::serverbound_bytes(handshake_packet(&self, next_state)),
                None,
            ),
    {
        let ghost h = self;
        let packet = handshake::Serverbound::Handshake {
            protocol_version: VarInt(self.version),
            server_address: String(self.host),
            server_port: self.port,
            next_state,
        };
        assert(packet@ == handshake_packet(&h, next_state));
        let payload = match packet.encode() {
            Ok(p) => p,
            Err(e) => return Err(e),
        };
        let mut session = TransportSession::new();
        match session.write_packet(payload.as_slice()) {
            Ok(w) => Ok((session, w)),
            Err(e) => Err(e),
        }
    }

    /// Asks for the status phase: the next state and the handshake's wire bytes.
    pub fn status(self) -> (r: Result<(Status, Vec<u8>), ProtocolError>)
        ensures
            r is Ok <==> string_fits(self.host@) && frame_fits(
                handshake::serverbound_bytes(handshake_packet(&self, handshake::NextState::Status)),
                None,
            ),
            r matches Ok((st, w)) ==> !st.session.encrypting() && st.session.threshold() is None
                && w@ == frame_bytes(
                handshake::serverbound_bytes(handshake_packet(&self, handshake::NextState::Status)),
                None,
            ),
    {
        match self.send(handshake::NextState::Status) {
            Ok((session, w)) => Ok((Status { session }, w)),
            Err(e) => Err(e),
        }
    }

    /// Asks for the login phase: the next state and the handshake's wire bytes.
    pub fn login(self) -> (r: Result<(Login, Vec<u8>), ProtocolError>)
        ensures
            r is Ok <==> string_fits(self.host@) && frame_fits(
                handshake::serverbound_bytes(handshake_packet(&self, handshake::NextState::Login)),
                None,
            ),
            r matches Ok((l, w)) ==> !l.session.encrypting() && l.session.threshold() is None
                && w@ == frame_bytes(
                handshake::serverbound_bytes(handshake_packet(&self, handshake::NextState::Login)),
                None,
            ),
    {
        match self.send(handshake::NextState::Login) {
            Ok((session, w)) => Ok((Login { session }, w)),
            Err(e) => Err(e),
        }
    }
}

/// The status phase.
pub struct Status {
    pub session: TransportSession,
}

impl Status {
    pub fn new(session: TransportSession) -> (r: Status)
        ensures
            r.session == session,
    {
        Status { session }
    }

    /// The wire bytes of a status request followed by a ping carrying `timestamp`.
    pub fn query(&mut self, timestamp: i64) -> (r: Result<Vec<u8>, ProtocolError>)
        ensures
            final(self).session.encrypting() == old(self).session.encrypting(),
            final(self).session.threshold() == old(self).session.threshold(),
            r is Ok <==> frame_fits(
                status::serverbound_bytes(status::Serverbound::Request),
                old(self).session.threshold(),
            ) && frame_fits(
                status::serverbound_bytes(status::Serverbound::Ping { payload: timestamp }),
                old(self).session.threshold(),
            ),
            r matches Ok(w) ==> !old(self).session.encrypting() ==> w@ == frame_bytes(
                status::serverbound_bytes(status::Serverbound::Request),
                old(self).session.threshold(),
            ) + frame_bytes(
                status::serverbound_bytes(status::Serverbound::Ping { payload: timestamp }),
                old(self).session.threshold(),
            ),
    {
        let request = status::Serverbound::Request.encode();
        let ping = status::Serverbound::Ping { payload: timestamp }.encode();
        let mut w = match self.session.write_packet(request.as_slice()) {
            Ok(w) => w,
            Err(e) => return Err(e),
        };
        let w2 = match self.session.write_packet(ping.as_slice()) {
            Ok(w) => w,
            Err(e) => return Err(e),
        };
        write_raw(w2.as_slice(), &mut w);
        Ok(w)
    }

    /// The status JSON of the server's first reply, which must be a response.
    pub fn read_response(&self, packet: &status::Clientbound) -> (r: Result<std::string::String, ProtocolError>)
        ensures
            match packet@ {
                status::ClientboundV::Response { data } => r matches Ok(s) && s@ == data,
                _ => r == Err::<std::string::String, ProtocolError>(ProtocolError::UnexpectedPacket),
            },
    {
        match packet {
            status::Clientbound::Response { data } => Ok(data.0.clone()),
            _ => Err(ProtocolError::UnexpectedPacket),
        }
    }

    /// Checks the server's second reply: a pong that echoes `timestamp`.
    pub fn read_pong(&self, packet: &status::Clientbound, timestamp: i64) -> (r: Result<(), ProtocolError>)
        ensures
            match packet@ {
                status::ClientboundV::Pong { payload } => if payload == timestamp {
                    r is Ok
                } else {
                    r == Err::<(), ProtocolError>(ProtocolError::PingMismatch)
                },
                _ => r == Err::<(), ProtocolError>(ProtocolError::UnexpectedPacket),
            },
    {
        match packet {
            status::Clientbound::Pong { payload } => {
                if *payload == timestamp {
                    Ok(())
                } else {
                    Err(ProtocolError::PingMismatch)
                }
            },
            _ => Err(ProtocolError::UnexpectedPacket),
        }
    }

    /// The outcome of a status query from the server's two replies: the status JSON
    /// when a response comes first and a pong echoing `timestamp` second; a ping
    /// mismatch when the pong echoes something else; an unexpected packet otherwise.
    pub fn read_replies(
        &self,
        first: &status::Clientbound,
        second: &status::Clientbound,
        timestamp: i64,
    ) -> (r: Result<std::string::String, ProtocolError>)
        ensures
            match (first@, second@) {
                (
                    status::ClientboundV::Response { data },
                    status::ClientboundV::Pong { payload },
                ) => if payload == timestamp {
                    r matches Ok(s) && s@ == data
                } else {
                    r == Err::<std::string::String, ProtocolError>(ProtocolError::PingMismatch)
                },
                _ => r == Err::<std::string::String, ProtocolError>(ProtocolError::UnexpectedPacket),
            },
    {
        let data = match self.read_response(first) {
            Ok(d) => d,
            Err(e) => return Err(e),
        };
        match self.read_pong(second, timestamp) {
            Ok(()) => Ok(data),
            Err(e) => Err(e),
        }
    }
}

/// What the login phase asks of its caller after a packet.
pub enum LoginAction {
    /// Nothing to send.
    Continue,
    /// Send these wire bytes.
    Send(Vec<u8>),
    /// Tell the session server that this player joins the server named by
    /// `server_hash`; once it agrees, send `response` and then turn encryption on
    /// with `shared_secret`.
    Verify { server_hash: std::string::String, response: Vec<u8>, shared_secret: [u8; 16] },
    /// Login is over; play begins under the identity the server gave.
    Success { uuid: Uuid, username: std::string::String },
}

/// The text that names a server to the session server: the signed hex SHA-1 of the
/// server id's UTF-8 bytes, the shared secret and the server's public key.
pub open spec fn server_hash_of(server_id: Seq<char>, shared_secret: Seq<u8>, public_key_der: Seq<u8>) -> Seq<char> {
    signed_hex(sha1_of(vstd::utf8::encode_utf8(server_id) + shared_secret + public_key_der))
}

/// The unencrypted frame of an encryption response carrying the encrypted secret
/// `e1` and the encrypted verify token `e2`.
pub open spec fn encryption_response_frame(e1: Seq<u8>, e2: Seq<u8>, threshold: Option<usize>) -> Seq<u8> {
    frame_bytes(
        login::serverbound_bytes(login::ServerboundV::EncryptionResponse { shared_secret: e1, verify_token: e2 }),
        threshold,
    )
}

/// The server hash for `server_id`, `shared_secret` and `public_key_der`.
pub fn server_hash(server_id: &str, shared_secret: &[u8], public_key_der: &[u8]) -> (r: std::string::String)
    ensures
        r@ == server_hash_of(server_id@, shared_secret@, public_key_der@),
{
    let mut buf: Vec<u8> = Vec::new();
    write_raw(server_id.as_bytes(), &mut buf);
    write_raw(shared_secret, &mut buf);
    write_raw(public_key_der, &mut buf);
    let digest = sha1_digest(buf.as_slice());
    hex_digest(digest.as_slice())
}

/// The login phase.
pub struct Login {
    pub session: TransportSession,
}

impl Login {
    pub fn new(session: TransportSession) -> (r: Login)
        ensures
            r.session == session,
    {
        Login { session }
    }

    /// The wire bytes of the login start that names the player `auth` holds.
    pub fn start(&mut self, auth: &Authentication) -> (r: Result<Vec<u8>, ProtocolError>)
        ensures
            final(self).session.encrypting() == old(self).session.encrypting(),
            final(self).session.threshold() == old(self).session.threshold(),
            r is Ok <==> string_fits(auth@.name) && frame_fits(
                login::serverbound_bytes(login::ServerboundV::LoginStart { name: auth@.name }),
                old(self).session.threshold(),
            ),
            r matches Ok(w) ==> !old(self).session.encrypting() ==> w@ == frame_bytes(
                login::serverbound_bytes(login::ServerboundV::LoginStart { name: auth@.name }),
                old(self).session.threshold(),
            ),
    {
        let name = auth.name().to_owned();
        let packet = login::Serverbound::LoginStart { name: String(name) };
        let payload = match packet.encode() {
            Ok(p) => p,
            Err(e) => return Err(e),
        };
        self.session.write_packet(payload.as_slice())
    }

    /// Turns encryption on once the session server agreed; see `LoginAction::Verify`.
    pub fn enable_encryption(&mut self, shared_secret: [u8; 16]) -> (r: Result<(), ProtocolError>)
        ensures
            r is Ok <==> !old(self).session.encrypting(),
            r is Ok ==> final(self).session.encrypting() && final(self).session.secret()
                == shared_secret@ && final(self).session.send_register() == shared_secret@
                && final(self).session.receive_register() == shared_secret@,
            r is Err ==> final(self).session == old(self).session,
            final(self).session.threshold() == old(self).session.threshold(),
    {
        self.session.enable_encryption(shared_secret)
    }

    /// Decides what a clientbound login packet asks for. A disconnect ends the login
    /// with its reason; a compression threshold below zero turns compression off,
    /// any other sets it; a plugin request is declined; an encryption request is
    /// answered with a fresh shared secret; a login success ends the phase.
    pub fn handle(&mut self, packet: login::Clientbound) -> (r: Result<LoginAction, SessionError>)
        ensures
            final(self).session.encrypting() == old(self).session.encrypting(),
            match packet@ {
                login::ClientboundV::Disconnect { reason } => (r matches Err(
                    SessionError::Disconnected(s),
                ) && s@ == reason) && final(self).session == old(self).session,
                login::ClientboundV::SetCompression { threshold } => r matches Ok(
                    LoginAction::Continue,
                ) && final(self).session.threshold() == (if threshold < 0 {
                    None::<usize>
                } else {
                    Some(threshold as usize)
                }),
                login::ClientboundV::LoginPluginRequest { message_id, .. } => {
                    let reply = login::serverbound_bytes(
                        login::ServerboundV::LoginPluginResponse {
                            message_id,
                            success: false,
                            data: seq![],
                        },
                    );
                    &&& final(self).session.threshold() == old(self).session.threshold()
                    &&& (r is Ok <==> frame_fits(reply, old(self).session.threshold()))
                    &&& (r is Ok ==> (r matches Ok(LoginAction::Send(w)) && (
                    !old(self).session.encrypting() ==> w@ == frame_bytes(
                        reply,
                        old(self).session.threshold(),
                    ))))
                },
                login::ClientboundV::EncryptionRequest {
                    server_id,
                    public_key_der,
                    ..
                } => final(self).session == old(self).session && (!rsa_key_parses(public_key_der)
                    <==> r == Err::<LoginAction, SessionError>(SessionError::BadServerKey)) && (r is Ok
                    ==> (r matches Ok(LoginAction::Verify { server_hash, response, shared_secret })
                    && server_hash@ == server_hash_of(server_id, shared_secret@, public_key_der)
                    && exists|e1: Seq<u8>, e2: Seq<u8>|
                    response@ == #[trigger] encryption_response_frame(
                        e1,
                        e2,
                        old(self).session.threshold(),
                    ))),
                login::ClientboundV::LoginSuccess { uuid, username } => (r matches Ok(
                    LoginAction::Success { uuid: u, username: n },
                ) && u.0 == uuid && n@ == username) && final(self).session == old(self).session,
            },
    {
        match packet {
            login::Clientbound::Disconnect { reason } => Err(SessionError::Disconnected(reason.0.0)),
            login::Clientbound::SetCompression { threshold } => {
                if threshold.0 < 0 {
                    self.session.set_compression_threshold(None);
                } else {
                    self.session.set_compression_threshold(Some(threshold.0 as usize));
                }
                Ok(LoginAction::Continue)
            },
            login::Clientbound::LoginPluginRequest { message_id, .. } => {
                let reply = login::Serverbound::LoginPluginResponse {
                    message_id,
                    success: false,
                    data: Vec::new(),
                };
                assert(reply@.arrow_LoginPluginResponse_data() =~= seq![]);
                let payload = match reply.encode() {
                    Ok(p) => p,
                    Err(e) => return Err(SessionError::Protocol(e)),
                };
                match self.session.write_packet(payload.as_slice()) {
                    Ok(w) => Ok(LoginAction::Send(w)),
                    Err(e) => Err(SessionError::Protocol(e)),
                }
            },
            login::Clientbound::EncryptionRequest { server_id, public_key_der, verify_token } => {
                let key = match parse_public_key(public_key_der.as_slice()) {
                    Some(k) => k,
                    None => return Err(SessionError::BadServerKey),
                };
                let shared_secret = random_secret();
                let secret_encrypted = match rsa_encrypt(&key, shared_secret.as_slice()) {
                    Some(c) => c,
                    None => return Err(SessionError::EncryptionFailed),
                };
                let token_encrypted = match rsa_encrypt(&key, verify_token.as_slice()) {
                    Some(c) => c,
                    None => return Err(SessionError::EncryptionFailed),
                };
                let hash = server_hash(
                    server_id.0.as_str(),
                    shared_secret.as_slice(),
                    public_key_der.as_slice(),
                );
                let reply = login::Serverbound::EncryptionResponse {
                    shared_secret: secret_encrypted,
                    verify_token: token_encrypted,
                };
                let payload = match reply.encode() {
                    Ok(p) => p,
                    Err(e) => return Err(SessionError::Protocol(e)),
                };
                let ghost e1 = reply@->EncryptionResponse_shared_secret;
                let ghost e2 = reply@->EncryptionResponse_verify_token;
                let response = match self.session.frame(payload.as_slice()) {
                    Ok(w) => w,
                    Err(e) => return Err(SessionError::Protocol(e)),
                };
                assert(response@ == encryption_response_frame(e1, e2, self.session.threshold()));
                Ok(LoginAction::Verify { server_hash: hash, response, shared_secret })
            },
            login::Clientbound::LoginSuccess { uuid, username } => Ok(
                LoginAction::Success { uuid, username: username.0 },
            ),
        }
    }
}

/// A position change the server asked for. Each component is a new value, or,
/// where its flag is set, an amount to add to the current one; coordinates are
/// IEEE-754 doubles and angles floats, as their bit patterns.
pub struct Teleport {
    pub teleport_id: i32,
    pub x: u64,
    pub y: u64,
    pub z: u64,
    pub yaw: u32,
    pub pitch: u32,
    pub relative_x: bool,
    pub relative_y: bool,
    pub relative_z: bool,
    pub relative_yaw: bool,
    pub relative_pitch: bool,
}

/// What the play phase asks of its caller after a packet.
pub enum PlayAction {
    /// Send these packets, in order.
    Reply(Vec<play::Serverbound>),
    /// Work out the new position and rotation, then call `Play::complete_teleport`.
    Teleport(Teleport),
}

/// The play phase and what it knows of the player. Coordinates are IEEE-754
/// doubles and angles floats, as their bit patterns.
pub struct Play {
    pub session: TransportSession,
    pub uuid: Uuid,
    pub username: std::string::String,
    pub entity_id: i32,
    pub gamemode: Gamemode,
    pub view_distance: i32,
    pub enable_respawn_screen: bool,
    pub held_item: i8,
    pub x: u64,
    pub y: u64,
    pub z: u64,
    pub yaw: u32,
    pub pitch: u32,
    pub on_ground: bool,
}

/// The client settings sent after joining a game.
pub open spec fn default_settings() -> play::ServerboundV {
    play::ServerboundV::ClientSettings {
        locale: seq!['e', 'n', '_', 'U', 'S'],
        view_distance: 16,
        chat_mode: 0,
        chat_colors: true,
        displayed_skin_parts: 0x7f,
        main_hand: 0,
    }
}

impl Play {
    pub fn new(session: TransportSession, uuid: Uuid, username: std::string::String) -> (r: Play)
        ensures
            r.session == session,
            r.uuid == uuid,
            r.username@ == username@,
            r.entity_id == -1,
            r.gamemode == Gamemode::Survival,
            r.view_distance == -1,
            r.enable_respawn_screen,
            r.held_item == 0,
            r.x == 0 && r.y == 0 && r.z == 0 && r.yaw == 0 && r.pitch == 0,
            r.on_ground,
    {
        Play {
            session,
            uuid,
            username,
            entity_id: -1,
            gamemode: Gamemode::Survival,
            view_distance: -1,
            enable_respawn_screen: true,
            held_item: 0,
            x: 0,
            y: 0,
            z: 0,
            yaw: 0,
            pitch: 0,
            on_ground: true,
        }
    }

    /// Decides what a clientbound play packet asks for: a keep-alive is echoed, a
    /// join is recorded and answered with the client settings, a held-item change
    /// is recorded, a position change goes back to the caller, a disconnect ends
    /// the phase, and anything else is ignored.
    pub fn handle_packet(&mut self, packet: &play::Clientbound) -> (r: Result<PlayAction, SessionError>)
        ensures
            final(self).session == old(self).session,
            final(self).x == old(self).x && final(self).y == old(self).y && final(self).z == old(
                self,
            ).z,
            match packet@ {
                play::ClientboundV::KeepAlive { keepalive_id } => (r matches Ok(
                    PlayAction::Reply(v),
                ) && v@.len() == 1 && v@[0]@ == (play::ServerboundV::KeepAlive { keepalive_id }))
                    && *final(self) == *old(self),
                play::ClientboundV::JoinGame(j) => (r matches Ok(PlayAction::Reply(v)) && v@.len()
                    == 1 && v@[0]@ == default_settings()) && *final(self) == (Play {
                    entity_id: j.entity_id,
                    gamemode: j.gamemode,
                    view_distance: j.view_distance,
                    enable_respawn_screen: j.enable_respawn_screen,
                    ..*old(self)
                }),
                play::ClientboundV::HeldItemChange { slot } => (r matches Ok(PlayAction::Reply(v))
                    && v@.len() == 0) && *final(self) == (Play { held_item: slot, ..*old(self) }),
                play::ClientboundV::PlayerPositionAndLook {
                    x,
                    y,
                    z,
                    yaw,
                    pitch,
                    flags,
                    teleport_id,
                } => (r matches Ok(PlayAction::Teleport(t)) && t.teleport_id == teleport_id && t.x
                    == x && t.y == y && t.z == z && t.yaw == yaw && t.pitch == pitch
                    && t.relative_x == ((flags as u8) & 0x01u8 != 0) && t.relative_y == ((
                flags as u8) & 0x02u8 != 0) && t.relative_z == ((flags as u8) & 0x04u8 != 0)
                    && t.relative_yaw == ((flags as u8) & 0x08u8 != 0) && t.relative_pitch == ((
                flags as u8) & 0x10u8 != 0)) && *final(self) == *old(self),
                play::ClientboundV::Disconnect { reason } => (r matches Err(
                    SessionError::Disconnected(s),
                ) && s@ == reason) && *final(self) == *old(self),
                _ => (r matches Ok(PlayAction::Reply(v))
                    && v@.len() == 0) && *final(self) == *old(self),
            },
    {
        match packet {
            play::Clientbound::KeepAlive { keepalive_id } => {
                let reply = vec![play::Serverbound::KeepAlive { keepalive_id: *keepalive_id }];
                Ok(PlayAction::Reply(reply))
            },
            play::Clientbound::JoinGame(j) => {
                self.entity_id = j.entity_id;
                self.gamemode = j.gamemode;
                self.view_distance = j.view_distance.0;
                self.enable_respawn_screen = j.enable_respawn_screen;
                let locale = "en_US".to_owned();
                proof {
                    reveal_strlit("en_US");
                }
                assert(locale@ =~= seq!['e', 'n', '_', 'U', 'S']);
                let settings = play::Serverbound::ClientSettings {
                    locale: String(locale),
                    view_distance: 16,
                    chat_mode: VarInt(0),
                    chat_colors: true,
                    displayed_skin_parts: 0x7f,
                    main_hand: VarInt(0),
                };
                Ok(PlayAction::Reply(vec![settings]))
            },
            play::Clientbound::HeldItemChange { slot } => {
                self.held_item = *slot;
                Ok(PlayAction::Reply(Vec::new()))
            },
            play::Clientbound::PlayerPositionAndLook { x, y, z, yaw, pitch, flags, teleport_id } => {
                let f = *flags as u8;
                Ok(
                    PlayAction::Teleport(
                        Teleport {
                            teleport_id: teleport_id.0,
                            x: *x,
                            y: *y,
                            z: *z,
                            yaw: *yaw,
                            pitch: *pitch,
                            relative_x: f & 0x01 != 0,
                            relative_y: f & 0x02 != 0,
                            relative_z: f & 0x04 != 0,
                            relative_yaw: f & 0x08 != 0,
                            relative_pitch: f & 0x10 != 0,
                        },
                    ),
                )
            },
            play::Clientbound::Disconnect { reason } => Err(
                SessionError::Disconnected(reason.0.0.clone()),
            ),
            _ => Ok(PlayAction::Reply(Vec::new())),
        }
    }

    /// Records the position and rotation that a teleport led to, and gives the
    /// confirmation and the position report to send, in that order.
    pub fn complete_teleport(
        &mut self,
        teleport_id: i32,
        x: u64,
        y: u64,
        z: u64,
        yaw: u32,
        pitch: u32,
    ) -> (r: Vec<play::Serverbound>)
        ensures
            *final(self) == (Play { x, y, z, yaw, pitch, ..*old(self) }),
            r@.len() == 2,
            r@[0]@ == (play::ServerboundV::TeleportConfirm { teleport_id }),
            r@[1]@ == (play::ServerboundV::PlayerPositionAndRotation {
                x,
                y,
                z,
                yaw,
                pitch,
                on_ground: old(self).on_ground,
            }),
    {
        self.x = x;
        self.y = y;
        self.z = z;
        self.yaw = yaw;
        self.pitch = pitch;
        vec![
            play::Serverbound::TeleportConfirm { teleport_id: VarInt(teleport_id) },
            play::Serverbound::PlayerPositionAndRotation {
                x,
                y,
                z,
                yaw,
                pitch,
                on_ground: self.on_ground,
            },
        ]
    }
}

} // verus!
