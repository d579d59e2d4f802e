use domo_arigato::proto::{play_clientbound as pc, play_serverbound as ps};
use domo_arigato::auth::Authentication;
use domo_arigato::codec::{write_bool, write_i32, write_i64, write_string, write_u8, write_var_int};
use domo_arigato::nbt::{Nbt, Value};
use rsa::pkcs8::EncodePublicKey;
use domo_arigato::crypto::hex_digest;
use domo_arigato::error::ProtocolError;
use domo_arigato::proto::{handshake, login, play, status};
use domo_arigato::state::{server_hash, Handshake, LoginAction, PlayAction, SessionError};
use domo_arigato::transport::TransportSession;
use domo_arigato::types::{Chat, String, Uuid};
use domo_arigato::varint::VarInt;

fn auth() -> Authentication {
    Authentication::new("0123456789abcdef0123456789abcdef".into(), "Steve".into(), "token".into())
}

#[test]
fn status_ping() {
    let hs = Handshake::new("localhost".into(), 25565, -1);
    let (mut st, wire) = hs.status().unwrap();
    let expected = handshake::Serverbound::Handshake {
        protocol_version: VarInt(-1),
        server_address: String("localhost".into()),
        server_port: 25565,
        next_state: handshake::NextState::Status,
    }
    .encode()
    .unwrap();
    assert_eq!(wire[0] as usize, expected.len());
    assert_eq!(&wire[1..], expected.as_slice());
    assert_eq!(handshake::Serverbound::decode(&wire[1..]).unwrap(), handshake::Serverbound::Handshake {
        protocol_version: VarInt(-1),
        server_address: String("localhost".into()),
        server_port: 25565,
        next_state: handshake::NextState::Status,
    });

    let ts = 1_600_000_000_123i64;
    let q = st.query(ts).unwrap();
    assert_eq!(&q[..2], &[0x01, 0x00]);
    assert_eq!(status::Serverbound::decode(&q[3..]).unwrap(), status::Serverbound::Ping { payload: ts });

    let response = status::Clientbound::Response { data: String("{\"players\":{}}".into()) };
    let bytes = response.encode().unwrap();
    let back = status::Clientbound::decode(bytes.as_slice()).unwrap();
    assert_eq!(st.read_response(&back).unwrap(), "{\"players\":{}}");
    let pong = status::Clientbound::Pong { payload: ts };
    assert_eq!(st.read_pong(&pong, ts), Ok(()));
    assert_eq!(st.read_pong(&status::Clientbound::Pong { payload: ts + 1 }, ts), Err(ProtocolError::PingMismatch));
    assert_eq!(st.read_response(&pong), Err(ProtocolError::UnexpectedPacket));
    assert_eq!(st.read_replies(&back, &pong, ts).unwrap(), "{\"players\":{}}");
    assert_eq!(
        st.read_replies(&back, &status::Clientbound::Pong { payload: 1 }, ts),
        Err(ProtocolError::PingMismatch)
    );
    assert_eq!(st.read_replies(&pong, &pong, ts), Err(ProtocolError::UnexpectedPacket));
}

#[test]
fn login_success_unencrypted() {
    let (mut lg, wire) = Handshake::new("example.org".into(), 25565, 751).login().unwrap();
    let (_, p) = VarInt::decode(wire.as_slice(), 0).unwrap();
    match handshake::Serverbound::decode(&wire[p..]).unwrap() {
        handshake::Serverbound::Handshake { protocol_version, next_state, .. } => {
            assert_eq!(protocol_version, VarInt(751));
            assert_eq!(next_state, handshake::NextState::Login);
        }
    }
    let start = lg.start(&auth()).unwrap();
    assert_eq!(
        login::Serverbound::decode(&start[1..]).unwrap(),
        login::Serverbound::LoginStart { name: String("Steve".into()) }
    );
    let success = login::Clientbound::LoginSuccess { uuid: Uuid(42), username: String("Steve".into()) };
    let bytes = success.encode().unwrap();
    let packet = login::Clientbound::decode(bytes.as_slice()).unwrap();
    match lg.handle(packet).unwrap() {
        LoginAction::Success { uuid, username } => {
            assert_eq!(uuid, Uuid(42));
            assert_eq!(username, "Steve");
        }
        _ => panic!("expected login success"),
    }
}

#[test]
fn login_disconnect_carries_reason() {
    let (mut lg, _) = Handshake::new("h".into(), 1, 751).login().unwrap();
    let packet = login::Clientbound::Disconnect { reason: Chat(String("{\"text\":\"bye\"}".into())) };
    assert_eq!(lg.handle(packet).err(), Some(SessionError::Disconnected("{\"text\":\"bye\"}".into())));
}

#[test]
fn login_set_compression_and_plugin_request() {
    let (mut lg, _) = Handshake::new("h".into(), 1, 751).login().unwrap();
    assert!(matches!(lg.handle(login::Clientbound::SetCompression { threshold: VarInt(256) }), Ok(LoginAction::Continue)));
    assert_eq!(lg.session.compression_threshold(), Some(256));
    let req = login::Clientbound::LoginPluginRequest {
        message_id: VarInt(9),
        channel: domo_arigato::types::Identifier(String("mod:hello".into())),
        data: vec![1, 2, 3],
    };
    match lg.handle(req).unwrap() {
        LoginAction::Send(w) => {
            // length, data length 0, then the reply
            assert_eq!(&w[..2], &[4, 0]);
            assert_eq!(
                login::Serverbound::decode(&w[2..]).unwrap(),
                login::Serverbound::LoginPluginResponse { message_id: VarInt(9), success: false, data: vec![] }
            );
        }
        _ => panic!("expected a reply"),
    }
    assert!(matches!(lg.handle(login::Clientbound::SetCompression { threshold: VarInt(-1) }), Ok(LoginAction::Continue)));
    assert_eq!(lg.session.compression_threshold(), None);
}

#[test]
fn login_with_encryption() {
    let mut rng = rand::thread_rng();
    let private = rsa::RsaPrivateKey::new(&mut rng, 512).unwrap();
    let der = private.to_public_key().to_public_key_der().unwrap().as_bytes().to_vec();

    let (mut lg, _) = Handshake::new("h".into(), 1, 751).login().unwrap();
    let request = login::Clientbound::EncryptionRequest {
        server_id: String("".into()),
        public_key_der: der.clone(),
        verify_token: vec![1, 2, 3, 4],
    };
    let (hash, response, secret) = match lg.handle(request).unwrap() {
        LoginAction::Verify { server_hash: h, response, shared_secret } => (h, response, shared_secret),
        _ => panic!("expected a verify action"),
    };
    assert_eq!(hash, server_hash("", &secret, der.as_slice()));
    assert!(!lg.session.is_encrypting());

    let (_, p) = VarInt::decode(response.as_slice(), 0).unwrap();
    match login::Serverbound::decode(&response[p..]).unwrap() {
        login::Serverbound::EncryptionResponse { shared_secret, verify_token } => {
            let s = private.decrypt(rsa::Pkcs1v15Encrypt, &shared_secret).unwrap();
            assert_eq!(s, secret.to_vec());
            let t = private.decrypt(rsa::Pkcs1v15Encrypt, &verify_token).unwrap();
            assert_eq!(t, vec![1, 2, 3, 4]);
        }
        _ => panic!("expected an encryption response"),
    }

    lg.enable_encryption(secret).unwrap();
    assert_eq!(lg.enable_encryption(secret), Err(ProtocolError::AlreadyEncrypted));

    let mut server = TransportSession::new();
    server.enable_encryption(secret).unwrap();
    let success = login::Clientbound::LoginSuccess { uuid: Uuid(7), username: String("Steve".into()) };
    let mut wire = server.write_packet(success.encode().unwrap().as_slice()).unwrap();
    lg.session.decrypt_incoming(&mut wire);
    let (payload, _) = lg.session.read_packet(wire.as_slice()).unwrap().unwrap();
    assert_eq!(login::Clientbound::decode(payload.as_slice()).unwrap(), success);
}

#[test]
fn bad_server_key_fails() {
    let (mut lg, _) = Handshake::new("h".into(), 1, 751).login().unwrap();
    let request = login::Clientbound::EncryptionRequest {
        server_id: String("".into()),
        public_key_der: vec![1, 2, 3],
        verify_token: vec![],
    };
    assert!(matches!(lg.handle(request), Err(SessionError::BadServerKey)));
}

#[test]
fn server_hash_samples() {
    assert_eq!(server_hash("Notch", &[], &[]), "4ed1f46bbe04bc756bcb17c0c7ce3e4632f06a48");
    assert_eq!(server_hash("jeb_", &[], &[]), "-7c9d5b0044c130109a5d7b5fb5c317c02b4e28c1");
    assert_eq!(server_hash("simon", &[], &[]), "88e16a1019277b15d58faf0541e11910eb756f6");
}

#[test]
fn hex_digest_edges() {
    assert_eq!(hex_digest(&[0u8; 20]), "0");
    assert_eq!(hex_digest(&[0xffu8; 20]), "-1");
    let mut d = [0u8; 20];
    d[19] = 0x0a;
    assert_eq!(hex_digest(&d), "a");
    d[0] = 0x80;
    d[19] = 0;
    assert_eq!(hex_digest(&d), "-8000000000000000000000000000000000000000");
}

fn play_state() -> domo_arigato::state::Play {
    domo_arigato::state::Play::new(TransportSession::new(), Uuid(1), "Steve".into())
}

#[test]
fn keepalive_echo() {
    let mut p = play_state();
    match p.handle_packet(&play::Clientbound::KeepAlive { keepalive_id: 123456789 }).unwrap() {
        PlayAction::Reply(v) => {
            assert_eq!(v, vec![play::Serverbound::KeepAlive { keepalive_id: 123456789 }]);
            assert_eq!(v[0].encode().unwrap()[0], 0x10);
        }
        _ => panic!("expected a reply"),
    }
}

#[test]
fn teleport_with_mixed_flags() {
    let mut p = play_state();
    p.complete_teleport(0, 1.5f64.to_bits(), 2.0f64.to_bits(), 7.0f64.to_bits(), 90.0f32.to_bits(), 0.0f32.to_bits());
    let packet = play::Clientbound::PlayerPositionAndLook {
        x: 10.0f64.to_bits(),
        y: 5.0f64.to_bits(),
        z: (-3.0f64).to_bits(),
        yaw: 0.0f32.to_bits(),
        pitch: 0.0f32.to_bits(),
        flags: 0b00011,
        teleport_id: VarInt(42),
    };
    let t = match p.handle_packet(&packet).unwrap() {
        PlayAction::Teleport(t) => t,
        _ => panic!("expected a teleport"),
    };
    assert!(t.relative_x && t.relative_y);
    assert!(!t.relative_z && !t.relative_yaw && !t.relative_pitch);
    let x = f64::from_bits(p.x) + f64::from_bits(t.x);
    let y = f64::from_bits(p.y) + f64::from_bits(t.y);
    let z = f64::from_bits(t.z);
    let sent = p.complete_teleport(t.teleport_id, x.to_bits(), y.to_bits(), z.to_bits(), t.yaw, t.pitch);
    assert_eq!(sent[0], play::Serverbound::TeleportConfirm { teleport_id: VarInt(42) });
    assert_eq!(
        sent[1],
        play::Serverbound::PlayerPositionAndRotation {
            x: 11.5f64.to_bits(),
            y: 7.0f64.to_bits(),
            z: (-3.0f64).to_bits(),
            yaw: 0.0f32.to_bits(),
            pitch: 0.0f32.to_bits(),
            on_ground: true,
        }
    );
    assert_eq!(f64::from_bits(p.x), 11.5);
}

#[test]
fn play_decodes_position_and_other_packets() {
    let mut b = vec![0x34];
    b.extend_from_slice(&10.0f64.to_bits().to_be_bytes());
    b.extend_from_slice(&5.0f64.to_bits().to_be_bytes());
    b.extend_from_slice(&(-3.0f64).to_bits().to_be_bytes());
    b.extend_from_slice(&0.0f32.to_bits().to_be_bytes());
    b.extend_from_slice(&0.0f32.to_bits().to_be_bytes());
    b.push(0b00011);
    b.push(42);
    match play::Clientbound::decode(b.as_slice()).unwrap() {
        play::Clientbound::PlayerPositionAndLook { x, flags, teleport_id, .. } => {
            assert_eq!(f64::from_bits(x), 10.0);
            assert_eq!(flags, 3);
            assert_eq!(teleport_id, VarInt(42));
        }
        _ => panic!("wrong packet"),
    }
    assert_eq!(
        play::Clientbound::decode(&[0x06, 1, 2]).unwrap(),
        play::Clientbound::Other { id: 0x06, data: vec![1, 2] }
    );
    assert_eq!(play::Clientbound::decode(&[0x60]).unwrap_err(), ProtocolError::UnknownId);
    assert_eq!(play::Clientbound::decode(&[0x3f, 1, 2]).unwrap_err(), ProtocolError::TrailingBytes);
    let mut p = play_state();
    assert!(matches!(p.handle_packet(&play::Clientbound::HeldItemChange { slot: 4 }), Ok(PlayAction::Reply(v)) if v.is_empty()));
    assert_eq!(p.held_item, 4);
    let d = play::Clientbound::Disconnect { reason: Chat(String("x".into())) };
    assert_eq!(p.handle_packet(&d).err(), Some(SessionError::Disconnected("x".into())));
}

#[test]
fn join_game_is_recorded_and_answered() {
    let mut b = Vec::new();
    write_var_int(0x24, &mut b);
    write_i32(77, &mut b);
    write_bool(false, &mut b);
    write_u8(1, &mut b);
    write_u8(255, &mut b);
    write_var_int(1, &mut b);
    write_string("minecraft:overworld", &mut b);
    b.extend(Nbt::new("", Value::Compound(vec![])).encode().unwrap());
    b.extend(Nbt::new("", Value::Compound(vec![(b"height".to_vec(), Value::Int(256))])).encode().unwrap());
    write_string("minecraft:overworld", &mut b);
    write_i64(-5, &mut b);
    write_var_int(20, &mut b);
    write_var_int(10, &mut b);
    for v in [false, true, false, true] {
        write_bool(v, &mut b);
    }
    let packet = play::Clientbound::decode(b.as_slice()).unwrap();
    let mut p = play_state();
    match p.handle_packet(&packet).unwrap() {
        PlayAction::Reply(v) => {
            assert_eq!(v.len(), 1);
            assert_eq!(
                v[0],
                play::Serverbound::ClientSettings {
                    locale: String("en_US".into()),
                    view_distance: 16,
                    chat_mode: VarInt(0),
                    chat_colors: true,
                    displayed_skin_parts: 0x7f,
                    main_hand: VarInt(0),
                }
            );
        }
        _ => panic!("expected a reply"),
    }
    assert_eq!(p.entity_id, 77);
    assert_eq!(p.gamemode, play::Gamemode::Creative);
    assert_eq!(p.view_distance, 10);
}

#[test]
fn packet_round_trips() {
    let c = login::Clientbound::EncryptionRequest {
        server_id: String("srv".into()),
        public_key_der: vec![1, 2, 3],
        verify_token: vec![9],
    };
    assert_eq!(login::Clientbound::decode(c.encode().unwrap().as_slice()).unwrap(), c);
    let s = login::Serverbound::EncryptionResponse { shared_secret: vec![5; 16], verify_token: vec![] };
    assert_eq!(login::Serverbound::decode(s.encode().unwrap().as_slice()).unwrap(), s);
    assert_eq!(login::Clientbound::decode(&[0x07]).unwrap_err(), ProtocolError::UnknownId);
    let t = play::Serverbound::TeleportConfirm { teleport_id: VarInt(300) };
    assert_eq!(t.encode().unwrap(), vec![0x00, 0xac, 0x02]);
}

#[test]
fn more_play_packets_decode() {
    let mut b = vec![0x4e];
    b.extend_from_slice(&5i64.to_be_bytes());
    b.extend_from_slice(&(-6000i64).to_be_bytes());
    assert_eq!(
        play::Clientbound::decode(b.as_slice()).unwrap(),
        play::Clientbound::TimeUpdate { world_age: 5, time_of_day: -6000 }
    );

    let mut pos = Vec::new();
    domo_arigato::types::Position { x: 10, z: -4, y: 64 }.encode(&mut pos).unwrap();
    let mut b = vec![0x42];
    b.extend_from_slice(&pos);
    assert_eq!(
        play::Clientbound::decode(b.as_slice()).unwrap(),
        play::Clientbound::SpawnPosition { location: domo_arigato::types::Position { x: 10, z: -4, y: 64 } }
    );

    let mut b = vec![0x0e, 2, b'h', b'i', 1];
    b.extend_from_slice(&7u128.to_be_bytes());
    assert_eq!(
        play::Clientbound::decode(b.as_slice()).unwrap(),
        play::Clientbound::ChatMessage { json_data: Chat(String("hi".into())), position: 1, sender: Uuid(7) }
    );

    assert_eq!(
        play::Clientbound::decode(&[0x4f, 4]).unwrap(),
        play::Clientbound::Title { action: domo_arigato::proto::records::TitleAction::Hide }
    );
    assert_eq!(
        play::Clientbound::decode(&[0x4c, 1, b't', 1]).unwrap(),
        play::Clientbound::Teams {
            team_name: String("t".into()),
            action: domo_arigato::proto::records::TeamsAction::RemoveTeam,
        }
    );
    assert_eq!(play::Clientbound::decode(&[0x41, 12]).unwrap(), play::Clientbound::UpdateViewDistance { view_distance: VarInt(12) });
    assert_eq!(play::Clientbound::decode(&[0x1a, 0, 0, 0, 9, 3]).unwrap(), play::Clientbound::EntityStatus { entity_id: 9, entity_status: 3 });
    assert_eq!(play::Clientbound::decode(&[0x41]).unwrap_err(), ProtocolError::UnexpectedEnd);
    let mut p = play_state();
    assert!(matches!(p.handle_packet(&play::Clientbound::UpdateViewDistance { view_distance: VarInt(3) }), Ok(PlayAction::Reply(v)) if v.is_empty()));
}

#[test]
fn generated_play_packets_round_trip() {
    let chat = play::Serverbound::Packet(ps::Packet::ChatMessage(ps::ChatMessage { message: String("hello".into()) }));
    let bytes = chat.encode().unwrap();
    assert_eq!(bytes, vec![0x03, 5, b'h', b'e', b'l', b'l', b'o']);

    let mut b = vec![0x01, 0x07];
    b.extend_from_slice(&1.5f64.to_bits().to_be_bytes());
    b.extend_from_slice(&2.0f64.to_bits().to_be_bytes());
    b.extend_from_slice(&(-3.0f64).to_bits().to_be_bytes());
    b.extend_from_slice(&9i16.to_be_bytes());
    assert_eq!(
        play::Clientbound::decode(b.as_slice()).unwrap(),
        play::Clientbound::Packet(pc::Packet::SpawnExperienceOrb(pc::SpawnExperienceOrb {
            entity_id: VarInt(7),
            x: 1.5f64.to_bits(),
            y: 2.0f64.to_bits(),
            z: (-3.0f64).to_bits(),
            count: 9,
        }))
    );
    assert_eq!(
        play::Clientbound::decode(&[0x5a, 1, 2]).unwrap(),
        play::Clientbound::Packet(pc::Packet::DeclareRecipes(pc::DeclareRecipes { raw: vec![1, 2] }))
    );
    let long = play::Serverbound::Packet(ps::Packet::ChatMessage(ps::ChatMessage { message: String("x".repeat(10).into()) }));
    assert!(long.encode().is_ok());
}
