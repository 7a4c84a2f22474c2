use punk_server::game::{GameState, PlayerState};
use punk_server::link::message::Message;
use punk_server::link::userinfo::UserInfo;
use punk_server::utilities::{as_u32, string_as_24_bytes, u32_to_be_bytes, u32_to_le_bytes};

fn user(name: &str, id: u32, what: &str) -> UserInfo {
    UserInfo::new(name.to_string(), id, what.to_string())
}

#[test]
fn as_u32_reads_little_endian() {
    assert_eq!(as_u32(vec![1, 2, 0, 0]), 513);
    assert_eq!(as_u32(vec![0x78, 0x56, 0x34, 0x12]), 0x1234_5678);
    assert_eq!(as_u32(vec![255, 255, 255, 255, 9]), u32::MAX);
}

#[test]
fn le_bytes_read_back() {
    for x in [0u32, 1, 255, 256, 65_535, 0x0102_0304, u32::MAX] {
        assert_eq!(u32_to_le_bytes(x), x.to_le_bytes().to_vec());
        assert_eq!(as_u32(u32_to_le_bytes(x)), x);
        assert_eq!(u32_to_be_bytes(x), x.to_be_bytes().to_vec());
    }
}

#[test]
fn string_as_24_bytes_pads_with_spaces() {
    let b = string_as_24_bytes("Swordman".to_string());
    assert_eq!(b.len(), 24);
    assert_eq!(&b[..8], b"Swordman");
    assert!(b[8..].iter().all(|&c| c == 32));
}

#[test]
fn string_as_24_bytes_cuts_long_names() {
    let b = string_as_24_bytes("abcdefghijklmnopqrstuvwxyz".to_string());
    assert_eq!(b, b"abcdefghijklmnopqrstuvwx".to_vec());
    let exact = string_as_24_bytes("123456789012345678901234".to_string());
    assert_eq!(exact, b"123456789012345678901234".to_vec());
    let empty = string_as_24_bytes(String::new());
    assert_eq!(empty, vec![32u8; 24]);
}

#[test]
fn string_as_24_bytes_counts_utf8_bytes() {
    // "é" takes two bytes.
    let b = string_as_24_bytes("é".to_string());
    assert_eq!(&b[..2], &[0xC3, 0xA9]);
    assert_eq!(b.len(), 24);
    assert_eq!(b[2], 32);
}

#[test]
fn user_info_text_and_bytes() {
    let u = user("Bob", 7, "peer");
    assert_eq!(u.to_string(), "Bob (id: 7)");
    assert_eq!(user("Global", 0, "chat").to_string(), "Global (id: 0)");
    assert_eq!(user("x", 4_294_967_295, "game").to_string(), "x (id: 4294967295)");
    assert_eq!(u.as_bytes(), vec![0, 0, 0, 7, b'B', b'o', b'b']);
    assert_eq!(user("", 0x01020304, "peer").as_bytes(), vec![1, 2, 3, 4]);
}

#[test]
fn user_info_comparison() {
    let a = user("Bob", 7, "peer");
    assert!(a.same_as(&a.duplicate()));
    assert!(!a.same_as(&user("Bob", 8, "peer")));
    assert!(!a.same_as(&user("Bob", 7, "game")));
    assert!(a.is_peer());
    assert!(!a.is_game());
    assert!(user("GH", 0, "game_handler").is_game_handler());
}

#[test]
fn message_bytes_layout() {
    let m = Message::new(user("Al", 1, "peer"), vec![9, 8]);
    assert_eq!(m.as_bytes(), vec![0, 0, 0, 1, b'A', b'l', b'|', b'u', b's', b'e', b'r', b'|', 9, 8]);
    let empty = Message::new(user("", 0, "peer"), vec![]);
    assert_eq!(empty.as_bytes(), b"\0\0\0\0|user|".to_vec());
}

#[test]
fn player_state_bytes() {
    let p = PlayerState::new(0x0102_0304, false);
    assert_eq!(p, PlayerState { ready: false, connected: true, in_game_id: 0x0102_0304, spectator: false });
    assert_eq!(p.to_bytes(), vec![0, 1, 4, 3, 2, 1, 0]);
    let q = PlayerState { ready: true, connected: false, in_game_id: 2, spectator: true };
    assert_eq!(q.to_bytes(), vec![1, 0, 2, 0, 0, 0, 1]);
}

#[test]
fn game_state_text() {
    let g = GameState { phase: 0, number_of_cities: 12, maximum_players: 4, number_of_players: 300 };
    assert_eq!(g.to_string(), "0 12 4 300 ");
}

#[test]
fn game_state_bytes_round_trip() {
    let g = GameState { phase: 1, number_of_cities: 2, maximum_players: 256, number_of_players: u32::MAX };
    let b = g.to_bytes();
    assert_eq!(b, vec![1, 0, 0, 0, 2, 0, 0, 0, 0, 1, 0, 0, 255, 255, 255, 255]);
    assert_eq!(GameState::from_bytes(b), g);
}

#[test]
fn game_state_from_longer_bytes() {
    let mut b = GameState { phase: 0, number_of_cities: 0, maximum_players: 8, number_of_players: 3 }.to_bytes();
    b.extend([7, 7, 7]);
    let g = GameState::from_bytes(b);
    assert_eq!(g.maximum_players, 8);
    assert_eq!(g.number_of_players, 3);
}
