use domo_arigato::error::ProtocolError;
use domo_arigato::proto::records::{
    BlockChangeRecord, CombatEvent, ExplosionRecord, MapIcon, PlayerInfoRemovePlayer,
    PlayerInfoUpdateDisplayName, PlayerInfoUpdateGamemode, PlayerProperty, Statistic,
    TabCompleteMatch, Tag, TeamsAction, TitleAction,
};
use domo_arigato::types::Identifier;
use domo_arigato::types::{Chat, String, Uuid};
use domo_arigato::varint::VarInt;

#[test]
fn tab_complete_tooltip_follows_its_flag() {
    let with = TabCompleteMatch {
        match_: String("help".into()),
        has_tooltip: true,
        tooltip: Some(Chat(String("shows help".into()))),
    };
    let mut out = Vec::new();
    with.encode(&mut out).unwrap();
    assert_eq!(out[..6], [4, b'h', b'e', b'l', b'p', 1]);
    assert_eq!(out.len(), 6 + 1 + 10);
    let (back, end) = TabCompleteMatch::decode(out.as_slice(), 0).unwrap();
    assert_eq!(back, with);
    assert_eq!(end, out.len());

    let without = TabCompleteMatch { match_: String("x".into()), has_tooltip: false, tooltip: None };
    let mut out = Vec::new();
    without.encode(&mut out).unwrap();
    assert_eq!(out, vec![1, b'x', 0]);
    assert_eq!(TabCompleteMatch::decode(out.as_slice(), 0).unwrap().0, without);

    let inconsistent = TabCompleteMatch { match_: String("x".into()), has_tooltip: true, tooltip: None };
    let mut out = Vec::new();
    assert_eq!(inconsistent.encode(&mut out), Err(ProtocolError::BadLength));
    assert!(out.is_empty());
}

#[test]
fn player_property_signature_follows_its_flag() {
    let p = PlayerProperty {
        name: String("textures".into()),
        value: String("abc".into()),
        is_signed: true,
        signature: Some(String("sig".into())),
    };
    let mut out = Vec::new();
    p.encode(&mut out).unwrap();
    let (back, end) = PlayerProperty::decode(out.as_slice(), 0).unwrap();
    assert_eq!(back, p);
    assert_eq!(end, out.len());
    let unsigned = PlayerProperty { signature: None, is_signed: false, ..p.clone() };
    let mut out2 = Vec::new();
    unsigned.encode(&mut out2).unwrap();
    assert_eq!(out2.len(), out.len() - 4);
}

#[test]
fn map_icon_layout() {
    let icon = MapIcon {
        type_: VarInt(3),
        x: -5,
        z: 6,
        direction: 15,
        has_display_name: true,
        display_name: Some(Chat(String("home".into()))),
    };
    let mut out = Vec::new();
    icon.encode(&mut out).unwrap();
    assert_eq!(out, vec![3, 0xfb, 6, 15, 1, 4, b'h', b'o', b'm', b'e']);
}

#[test]
fn combat_event_ids() {
    let cases = [
        (CombatEvent::EnterCombat, vec![0u8]),
        (CombatEvent::EndCombat { duration: VarInt(20), entity_id: 7 }, vec![1, 20, 0, 0, 0, 7]),
        (
            CombatEvent::EntityDead { player_id: VarInt(1), entity_id: -1, message: Chat(String("x".into())) },
            vec![2, 1, 0xff, 0xff, 0xff, 0xff, 1, b'x'],
        ),
    ];
    for (event, bytes) in cases {
        let mut out = Vec::new();
        event.encode(&mut out).unwrap();
        assert_eq!(out, bytes);
        let (back, end) = CombatEvent::decode(out.as_slice(), 0).unwrap();
        assert_eq!(back, event);
        assert_eq!(end, bytes.len());
    }
    assert_eq!(CombatEvent::decode(&[3], 0), Err(ProtocolError::UnknownId));
}

#[test]
fn plain_records_round_trip() {
    let st = Statistic { category_id: VarInt(2), statistic_id: VarInt(300), value: VarInt(-1) };
    let mut out = Vec::new();
    st.encode(&mut out);
    assert_eq!(Statistic::decode(out.as_slice(), 0).unwrap(), (st, out.len()));

    let b = BlockChangeRecord { horizontal_position: 0x12, y_coordinate: 64, block_id: VarInt(1) };
    let mut out = Vec::new();
    b.encode(&mut out);
    assert_eq!(out, vec![0x12, 64, 1]);
    assert_eq!(BlockChangeRecord::decode(out.as_slice(), 0).unwrap(), (b, 3));

    let x = ExplosionRecord { x: -1, y: 0, z: 127 };
    let mut out = Vec::new();
    x.encode(&mut out);
    assert_eq!(out, vec![0xff, 0, 127]);
    assert_eq!(ExplosionRecord::decode(out.as_slice(), 0).unwrap(), (x, 3));

    let mut out = Vec::new();
    let g = PlayerInfoUpdateGamemode { uuid: Uuid(1), gamemode: VarInt(2) };
    g.encode(&mut out);
    assert_eq!(out.len(), 17);
    assert_eq!(out[15..], [1, 2]);
    assert_eq!(PlayerInfoUpdateGamemode::decode(out.as_slice(), 0).unwrap(), (g, 17));
    assert_eq!(PlayerInfoRemovePlayer::decode(&[0u8; 15], 0), Err(ProtocolError::UnexpectedEnd));
    let mut out = Vec::new();
    PlayerInfoRemovePlayer { uuid: Uuid(u128::MAX) }.encode(&mut out);
    assert_eq!(out, vec![0xff; 16]);
}

#[test]
fn title_actions_round_trip() {
    let cases = [
        TitleAction::SetTitle { text: Chat(String("hi".into())) },
        TitleAction::SetActionBar { text: Chat(String("bar".into())) },
        TitleAction::SetTimesAndDisplay { fade_in: 10, stay: 70, fade_out: 20 },
        TitleAction::Hide,
        TitleAction::Reset,
    ];
    for t in cases {
        let mut out = Vec::new();
        t.encode(&mut out).unwrap();
        let (back, end) = TitleAction::decode(out.as_slice(), 0).unwrap();
        assert_eq!(back, t);
        assert_eq!(end, out.len());
    }
    let mut out = Vec::new();
    TitleAction::SetTimesAndDisplay { fade_in: 1, stay: 2, fade_out: 3 }.encode(&mut out).unwrap();
    assert_eq!(out, vec![3, 0, 0, 0, 1, 0, 0, 0, 2, 0, 0, 0, 3]);
    assert_eq!(TitleAction::decode(&[6], 0), Err(ProtocolError::UnknownId));
}

#[test]
fn display_name_update_layout() {
    let d = PlayerInfoUpdateDisplayName {
        uuid: Uuid(5),
        has_display_name: true,
        display_name: Some(Chat(String("Al".into()))),
    };
    let mut out = Vec::new();
    d.encode(&mut out).unwrap();
    assert_eq!(out[15..], [5, 1, 2, b'A', b'l']);
    let none = PlayerInfoUpdateDisplayName { uuid: Uuid(5), has_display_name: false, display_name: None };
    let mut out = Vec::new();
    none.encode(&mut out).unwrap();
    assert_eq!(out.len(), 17);
}

#[test]
fn registry_tag_layout() {
    let t = Tag {
        name: Identifier(String("minecraft:logs".into())),
        entries: vec![VarInt(1), VarInt(300)],
    };
    let mut out = Vec::new();
    t.encode(&mut out).unwrap();
    let mut expected = vec![14u8];
    expected.extend_from_slice(b"minecraft:logs");
    expected.extend_from_slice(&[2, 1, 0xac, 0x02]);
    assert_eq!(out, expected);
}

#[test]
fn teams_action_round_trip() {
    let create = TeamsAction::CreateTeam {
        display_name: Chat(String("Red".into())),
        friendly_flags: 3,
        name_tag_visibility: String("always".into()),
        collision_rule: String("never".into()),
        team_color: VarInt(12),
        team_prefix: Chat(String("[R]".into())),
        team_suffix: Chat(String("".into())),
        entities: vec![String("Steve".into()), String("Alex".into())],
    };
    let (back, end) = TeamsAction::decode(
        &[
            vec![0u8, 3, b'R', b'e', b'd', 3, 6],
            b"always".to_vec(),
            vec![5],
            b"never".to_vec(),
            vec![12, 3],
            b"[R]".to_vec(),
            vec![0, 2, 5],
            b"Steve".to_vec(),
            vec![4],
            b"Alex".to_vec(),
        ]
        .concat(),
        0,
    )
    .unwrap();
    assert_eq!(back, create);
    assert_eq!(end, 37);
    assert_eq!(TeamsAction::decode(&[1], 0).unwrap(), (TeamsAction::RemoveTeam, 1));
    assert_eq!(
        TeamsAction::decode(&[4, 1, 1, b'x'], 0).unwrap(),
        (TeamsAction::RemovePlayers { entities: vec![String("x".into())] }, 4)
    );
    assert_eq!(TeamsAction::decode(&[5], 0).unwrap_err(), ProtocolError::UnknownId);
}
