use curvefever::menu::{Menu, MenuState, PlayerMenu, PLAYER_MENU_FIELDS};
use curvefever::protocol::{
    parse_msg, read_string, read_u16, read_u64, read_u8, write_string, ClientEvent, DecodeError,
    Direction, EncodeError, GameEvent, Player, ServerEvent,
};

fn encoded(e: &ClientEvent) -> Vec<u8> {
    let mut out = Vec::new();
    e.encode(&mut out).unwrap();
    out
}

#[test]
fn events_on_the_wire() {
    assert_eq!(encoded(&ClientEvent::SyncPlayers), vec![1]);
    assert_eq!(
        encoded(&ClientEvent::Input { player_id: 0x0102, dir: Direction::Left }),
        vec![2, 0x02, 0x01, 2]
    );
    assert_eq!(
        encoded(&ClientEvent::AddPlayer { request_id: 0x0807060504030201 }),
        vec![3, 1, 2, 3, 4, 5, 6, 7, 8]
    );
    assert_eq!(
        encoded(&ClientEvent::Rename { player_id: 5, name: "hé".to_string() }),
        vec![4, 5, 0, 3, 0, b'h', 0xc3, 0xa9]
    );
    assert_eq!(encoded(&ClientEvent::PrevColor { player_id: 9 }), vec![5, 9, 0]);
    assert_eq!(encoded(&ClientEvent::NextColor { player_id: 9 }), vec![6, 9, 0]);
    assert_eq!(encoded(&ClientEvent::Restart), vec![7]);
    assert_eq!(encoded(&ClientEvent::Pause), vec![8]);
    assert_eq!(encoded(&ClientEvent::Share), vec![9]);
    assert_eq!(encoded(&ClientEvent::Help), vec![10]);
}

#[test]
fn encode_appends() {
    let mut out = vec![99];
    ClientEvent::Pause.encode(&mut out).unwrap();
    ClientEvent::PrevColor { player_id: 1 }.encode(&mut out).unwrap();
    assert_eq!(out, vec![99, 8, 5, 1, 0]);
}

#[test]
fn overlong_name_is_refused() {
    let mut out = vec![1, 2];
    let e = ClientEvent::Rename { player_id: 1, name: "x".repeat(70_000) };
    assert_eq!(e.encode(&mut out), Err(EncodeError::NameTooLong));
    assert_eq!(out, vec![1, 2]);
    assert_eq!(write_string(&mut out, &"y".repeat(65_536)), Err(EncodeError::NameTooLong));
    assert!(write_string(&mut out, &"y".repeat(65_535)).is_ok());
    assert_eq!(out.len(), 2 + 2 + 65_535);
}

#[test]
fn events_read_back() {
    let events = vec![
        ClientEvent::SyncPlayers,
        ClientEvent::Input { player_id: 300, dir: Direction::Right },
        ClientEvent::AddPlayer { request_id: u64::MAX - 5 },
        ClientEvent::Rename { player_id: 2, name: "Zoë".to_string() },
        ClientEvent::NextColor { player_id: 65535 },
        ClientEvent::Help,
    ];
    let mut bytes = Vec::new();
    for e in events.iter() {
        e.encode(&mut bytes).unwrap();
    }
    let mut pos = 0;
    for e in events.iter() {
        let (d, n) = ClientEvent::decode(&bytes[pos..]).unwrap();
        assert_eq!(format!("{:?}", d), format!("{:?}", e));
        pos += n;
    }
    assert_eq!(pos, bytes.len());
}

#[test]
fn decode_errors() {
    assert_eq!(ClientEvent::decode(&[]).unwrap_err(), DecodeError::UnexpectedEnd);
    assert_eq!(ClientEvent::decode(&[0]).unwrap_err(), DecodeError::UnknownType(0));
    assert_eq!(ClientEvent::decode(&[11, 1]).unwrap_err(), DecodeError::UnknownType(11));
    assert_eq!(ClientEvent::decode(&[2, 1, 0]).unwrap_err(), DecodeError::UnexpectedEnd);
    assert_eq!(ClientEvent::decode(&[2, 1, 0, 3]).unwrap_err(), DecodeError::UnknownDirection(3));
    assert_eq!(ClientEvent::decode(&[3, 1, 2, 3, 4, 5, 6, 7]).unwrap_err(), DecodeError::UnexpectedEnd);
    assert_eq!(ClientEvent::decode(&[4, 1, 0, 2, 0, b'a']).unwrap_err(), DecodeError::UnexpectedEnd);
    assert_eq!(ClientEvent::decode(&[4, 1, 0, 1, 0, 0xff]).unwrap_err(), DecodeError::InvalidName);
    assert_eq!(ClientEvent::decode(&[6, 1]).unwrap_err(), DecodeError::UnexpectedEnd);
}

#[test]
fn decode_stops_at_the_event() {
    let (e, n) = ClientEvent::decode(&[4, 7, 0, 2, 0, b'o', b'k', 8, 8]).unwrap();
    assert_eq!(n, 7);
    match e {
        ClientEvent::Rename { player_id, name } => {
            assert_eq!(player_id, 7);
            assert_eq!(name, "ok");
        }
        _ => panic!("expected a rename"),
    }
    let (e, n) = ClientEvent::decode(&[2, 4, 0, 0, 1]).unwrap();
    assert_eq!(n, 4);
    assert!(matches!(e, ClientEvent::Input { player_id: 4, dir: Direction::Straight }));
}

#[test]
fn readers() {
    let b = [1u8, 2, 3, 4, 5, 6, 7, 8, 9];
    assert_eq!(read_u8(&b, 8), Some(9));
    assert_eq!(read_u8(&b, 9), None);
    assert_eq!(read_u16(&b, 0), Some(0x0201));
    assert_eq!(read_u16(&b, 8), None);
    assert_eq!(read_u64(&b, 1), Some(0x0908070605040302));
    assert_eq!(read_u64(&b, 2), None);
    let (s, n) = read_string(&[0, 3, 0, b'a', b'b', b'c'], 1).unwrap();
    assert_eq!((s.as_str(), n), ("abc", 5));
    assert_eq!(read_string(&[3, 0, b'a'], 0).unwrap_err(), DecodeError::UnexpectedEnd);
}

#[test]
fn direction_codes() {
    assert_eq!(Direction::Straight.code(), 0);
    assert_eq!(Direction::Right.code(), 1);
    assert_eq!(Direction::Left.code(), 2);
    assert_eq!(Direction::from_code(1), Some(Direction::Right));
    assert_eq!(Direction::from_code(3), None);
}

#[test]
fn remote_input_messages() {
    assert_eq!(
        parse_msg(&[1, 3, 0, 7]),
        Some(ServerEvent::Input { player_idx: 3, left_down: false, right_down: true })
    );
    assert_eq!(parse_msg(&[1, 3, 0]), None);
    assert_eq!(parse_msg(&[2, 3, 0, 1]), None);
    assert_eq!(parse_msg(&[1, 3, 0, 1, 0]), None);
}

#[test]
fn menu_cursor_wraps() {
    assert_eq!(Menu::new().state, MenuState::Home);
    let mut m = PlayerMenu::new();
    m.selection_left();
    assert_eq!(m.field_index, PLAYER_MENU_FIELDS - 1);
    m.selection_right();
    assert_eq!(m.field_index, 0);
    m.selection_right();
    assert_eq!(m.field_index, 1);
    m.selection_up(4);
    assert_eq!(m.player_index, 3);
    m.selection_down(4);
    assert_eq!(m.player_index, 0);
    m.selection_down(4);
    m.selection_up(4);
    assert_eq!(m.player_index, 0);
}

#[test]
fn game_events_on_the_wire() {
    let mut out = Vec::new();
    GameEvent::Exit.encode(&mut out).unwrap();
    assert_eq!(out, vec![1]);
    let a = Player::new(1, [1, 2, 3, 4], "ab".to_string());
    let b = Player::new(0x0203, [9, 9, 9, 255], String::new());
    let mut out = Vec::new();
    GameEvent::PlayerSync { players: vec![a.clone(), b.clone()] }.encode(&mut out).unwrap();
    assert_eq!(
        out,
        vec![2, 2, 0, 1, 2, 3, 4, 1, 0, 2, 0, b'a', b'b', 9, 9, 9, 255, 3, 2, 0, 0]
    );
    let mut out = Vec::new();
    GameEvent::PlayerAdded { request_id: 7, player: a.clone() }.encode(&mut out).unwrap();
    assert_eq!(out, vec![3, 7, 0, 0, 0, 0, 0, 0, 0, 1, 2, 3, 4, 1, 0, 2, 0, b'a', b'b']);
}

#[test]
fn game_events_read_back() {
    let players = vec![
        Player::new(4, [10, 20, 30, 255], "Player1".to_string()),
        Player::new(5, [40, 50, 60, 255], "Zoë".to_string()),
    ];
    let mut out = Vec::new();
    GameEvent::PlayerSync { players: players.clone() }.encode(&mut out).unwrap();
    out.push(42);
    let (e, n) = GameEvent::decode(&out).unwrap();
    assert_eq!(n, out.len() - 1);
    match e {
        GameEvent::PlayerSync { players: read } => {
            assert_eq!(read.len(), 2);
            assert_eq!((read[1].id, read[1].color, read[1].name.as_str()), (5, [40, 50, 60, 255], "Zoë"));
            assert_eq!(read[0].name, "Player1");
        }
        _ => panic!("expected a player list"),
    }
    let mut out = Vec::new();
    GameEvent::PlayerAdded { request_id: u64::MAX, player: players[0].clone() }
        .encode(&mut out)
        .unwrap();
    let (e, n) = GameEvent::decode(&out).unwrap();
    assert_eq!(n, out.len());
    assert!(matches!(e, GameEvent::PlayerAdded { request_id: u64::MAX, .. }));
}

#[test]
fn game_event_errors() {
    assert_eq!(GameEvent::decode(&[]).unwrap_err(), DecodeError::UnexpectedEnd);
    assert_eq!(GameEvent::decode(&[4]).unwrap_err(), DecodeError::UnknownType(4));
    assert_eq!(GameEvent::decode(&[2, 1]).unwrap_err(), DecodeError::UnexpectedEnd);
    assert_eq!(GameEvent::decode(&[2, 1, 0, 1, 2, 3]).unwrap_err(), DecodeError::UnexpectedEnd);
    assert_eq!(
        GameEvent::decode(&[2, 1, 0, 1, 2, 3, 4, 0, 0, 1, 0, 0xc0]).unwrap_err(),
        DecodeError::InvalidName
    );
    assert_eq!(GameEvent::decode(&[3, 0, 0, 0]).unwrap_err(), DecodeError::UnexpectedEnd);
    let (e, n) = GameEvent::decode(&[2, 0, 0, 9]).unwrap();
    assert_eq!(n, 3);
    assert!(matches!(e, GameEvent::PlayerSync { players } if players.is_empty()));
    let long = Player::new(1, [0; 4], "n".repeat(65_536));
    let mut out = vec![5];
    assert_eq!(
        GameEvent::PlayerAdded { request_id: 1, player: long.clone() }.encode(&mut out),
        Err(EncodeError::NameTooLong)
    );
    assert_eq!(long.encode(&mut out), Err(EncodeError::NameTooLong));
    let many = vec![Player::new(1, [0; 4], String::new()); 65_536];
    assert_eq!(
        GameEvent::PlayerSync { players: many }.encode(&mut out),
        Err(EncodeError::TooManyPlayers)
    );
    assert_eq!(out, vec![5]);
}
