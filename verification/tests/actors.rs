use punk_server::chat::Chat;
use punk_server::city_board::{city_to_string, with_end_marker, BoardError, CityBoard};
use punk_server::gamehandler::{GameHandler, HandlerAction};
use punk_server::link::message::Message;
use punk_server::link::userinfo::UserInfo;
use punk_server::peer::Peer;
use punk_server::relay;

fn user(name: &str, id: u32, what: &str) -> UserInfo {
    UserInfo::new(name.to_string(), id, what.to_string())
}

fn title(t: &str) -> Vec<u8> {
    let mut b = t.as_bytes().to_vec();
    b.resize(24, b' ');
    b
}

#[test]
fn handler_answers_info_requests() {
    let mut h = GameHandler::new(0, Some("GameHandler".to_string()));
    let bob = user("bob", 0, "peer");
    h.on_link(bob.duplicate());
    match h.on_message(Message::new(bob.duplicate(), vec![105])) {
        HandlerAction::Reply(o) => {
            assert_eq!(o.to.name, "bob");
            assert_eq!(o.message.bytes, vec![105]);
            assert_eq!(o.message.info.what, "game_handler");
        }
        _ => panic!("expected a reply"),
    }
    assert!(h.info_as_bytes(20).is_empty());
}

#[test]
fn handler_creates_numbered_games() {
    let mut h = GameHandler::new(0, None);
    assert_eq!(h.info().name, "GameHandler");
    let bob = user("bob", 0, "peer");
    let mut req = vec![99];
    req.extend(title("Duel"));
    req.push(2);
    let m = Message::new(bob.duplicate(), req.clone());
    assert!(h.accepts(&m));
    match h.on_message(m) {
        HandlerAction::CreateGame { game, creator } => {
            assert_eq!(creator.name, "bob");
            let info = game.info();
            assert_eq!(info.name, "Duel                    ");
            assert_eq!(info.id, 0);
            assert_eq!(info.what, "game");
            assert_eq!(game.game_state().maximum_players, 2);
        }
        _ => panic!("expected a game"),
    }
    match h.on_message(Message::new(bob.duplicate(), req)) {
        HandlerAction::CreateGame { game, .. } => assert_eq!(game.info().id, 1),
        _ => panic!("expected a game"),
    }
}

#[test]
fn handler_refuses_bad_requests() {
    let h = GameHandler::new(0, None);
    let bob = user("bob", 0, "peer");
    let mut bad = vec![99];
    bad.extend(vec![0xFF; 24]);
    bad.push(2);
    assert!(!h.accepts(&Message::new(bob.duplicate(), bad)));
    assert!(!h.accepts(&Message::new(bob.duplicate(), vec![99, 1, 2])));
    assert!(!h.accepts(&Message::new(bob.duplicate(), vec![106, 1])));
    assert!(!h.accepts(&Message::new(bob.duplicate(), vec![])));
    assert!(h.accepts(&Message::new(bob.duplicate(), vec![106, 1, 0, 0, 0])));
}

#[test]
fn handler_ignores_join_requests() {
    let mut h = GameHandler::new(0, None);
    let r = h.on_message(Message::new(user("bob", 0, "peer"), vec![106, 1, 0, 0, 0]));
    assert!(matches!(r, HandlerAction::Nothing));
}

#[test]
fn chat_relays_to_everyone_linked() {
    let mut c = Chat::new(0, Some("Global".to_string()));
    assert_eq!(c.info().what, "chat");
    c.on_link(user("a", 0, "peer"));
    c.on_link(user("b", 0, "peer"));
    c.on_link(user("a", 0, "peer"));
    let out = c.on_message(Message::new(user("a", 0, "peer"), b"hi".to_vec()));
    let mut to: Vec<String> = out.iter().map(|o| o.to.name.clone()).collect();
    to.sort();
    assert_eq!(to, vec!["a".to_string(), "b".to_string()]);
    for o in &out {
        assert_eq!(o.message.bytes, vec![103, b'h', b'i']);
        assert_eq!(o.message.info.name, "a");
    }
    c.remove_unreachable(&vec![user("b", 0, "peer")]);
    let out = c.on_message(Message::new(user("a", 0, "peer"), vec![]));
    assert_eq!(out.len(), 1);
    assert_eq!(out[0].message.bytes, vec![103]);
}

#[test]
fn default_chat_name() {
    assert_eq!(Chat::new(3, None).info().name, "Chat");
}

#[test]
fn peer_frames_messages() {
    let mut p = Peer::new("bob".to_string());
    assert_eq!(p.info().what, "peer");
    let bytes = p.on_message(Message::new(user("G", 1, "chat"), vec![103, 7]));
    assert_eq!(bytes, b"\0\0\0\x01G|user|\x67\x07|end|".to_vec());
}

#[test]
fn peer_routes_only_to_linked_actors() {
    let mut p = Peer::new("bob".to_string());
    assert!(p.interpret_bytes(&b"glohello".to_vec()).is_none());
    p.on_link(user("Global", 0, "chat"));
    let s = p.interpret_bytes(&b"glohello".to_vec()).expect("route");
    assert_eq!(s.out.to.name, "Global");
    assert_eq!(s.out.message.bytes, b"hello".to_vec());
    assert_eq!(s.out.message.info.name, "bob");
    assert!(s.must_deliver);
    assert!(p.interpret_bytes(&b"ghi".to_vec()).is_none());
    p.on_link(user("GameHandler", 0, "game_handler"));
    let s = p.interpret_bytes(&b"ghi".to_vec()).expect("route");
    assert_eq!(s.out.message.bytes, b"i".to_vec());
    assert!(p.interpret_bytes(&b"xyz".to_vec()).is_none());
}

#[test]
fn peer_joins_linked_games() {
    let mut p = Peer::new("bob".to_string());
    assert!(p.interpret_bytes(&b"rea".to_vec()).is_none());
    assert!(p.on_link(user("Global", 0, "chat")).is_none());
    let game = user("Duel", 4, "game");
    let plan = p.on_link(game.duplicate()).expect("join");
    assert_eq!(plan.socket_bytes, b"\0\0\0\x04Duel|user|\x6a|end|".to_vec());
    assert_eq!(plan.notify_game.to.name, "Duel");
    assert_eq!(plan.notify_game.message.bytes, b"joi".to_vec());
    let s = p.interpret_bytes(&b"lauXX".to_vec()).expect("route");
    assert_eq!(s.out.to.id, 4);
    assert_eq!(s.out.message.bytes, b"lau".to_vec());
    assert!(!s.must_deliver);
}

#[test]
fn peer_says_goodbye_to_everyone() {
    let mut p = Peer::new("bob".to_string());
    p.on_link(user("Global", 0, "chat"));
    p.on_link(user("Duel", 4, "game"));
    let out = p.on_disconnect();
    assert_eq!(out.len(), 2);
    assert!(out.iter().all(|o| o.message.bytes == vec![60] && o.message.info.name == "bob"));
}

#[test]
fn city_lines() {
    assert_eq!(city_to_string("Test".to_string(), vec![800, 800]), "c, Test, 800, 800");
    assert_eq!(city_to_string("X".to_string(), vec![]), "c, X");
    assert_eq!(with_end_marker("s".to_string()), "s|end|");
}

#[test]
fn city_board_commands() {
    let mut b = CityBoard::new();
    match b.handle_message(&b"msghello".to_vec()) {
        Ok(v) => assert_eq!(v, vec!["mhello".to_string()]),
        Err(_) => panic!("text"),
    }
    assert!(matches!(b.handle_message(&vec![109, 115, 103, 0xFF]), Err(BoardError::NotText)));
    match b.handle_message(&b"sta".to_vec()) {
        Ok(v) => assert_eq!(v, vec!["s".to_string()]),
        Err(_) => panic!("start"),
    }
    let mut place = b"plc".to_vec();
    place.extend(5u32.to_le_bytes());
    place.extend(6u32.to_le_bytes());
    match b.handle_message(&place) {
        Ok(mut v) => {
            v.sort();
            assert_eq!(v, vec!["c, Orsay, 5, 6".to_string(), "c, Test, 800, 800".to_string()]);
        }
        Err(_) => panic!("place"),
    }
    place[3] = 9;
    match b.handle_message(&place) {
        Ok(mut v) => {
            v.sort();
            assert_eq!(v, vec!["c, Orsay, 9, 6".to_string(), "c, Test, 800, 800".to_string()]);
        }
        Err(_) => panic!("place"),
    }
    match b.handle_message(&b"zzz".to_vec()) {
        Ok(v) => assert!(v.is_empty()),
        Err(_) => panic!("other"),
    }
}

#[test]
fn relay_chat_sends_line_then_author() {
    let mut c = relay::Chat::new("global".to_string());
    c.add_sender("a".to_string());
    c.add_sender("b".to_string());
    let f = c.on_message(relay::Message { user: "a".to_string(), content: vec![1, 2] });
    let mut r = f.recipients.clone();
    r.sort();
    assert_eq!(r, vec!["a".to_string(), "b".to_string()]);
    assert_eq!(f.payloads, vec![vec![103, 1, 2], b"a".to_vec()]);
    c.remove_users(&vec!["a".to_string(), "a".to_string()]);
    let f = c.on_message(relay::Message { user: "b".to_string(), content: vec![] });
    assert_eq!(f.recipients, vec!["b".to_string()]);
}

#[test]
fn relay_handler_answers_ghi() {
    let mut h = relay::GameHandler::new("gh".to_string());
    h.add_user("a".to_string());
    let cmd = relay::Message { user: "a".to_string(), content: b"ghi".to_vec() };
    assert_eq!(h.handle_command(&cmd), Some(vec![105]));
    let other = relay::Message { user: "a".to_string(), content: b"abc".to_vec() };
    assert_eq!(h.handle_command(&other), None);
    assert!(h.info_as_bytes(0).is_empty());
}

#[test]
fn created_game_is_joined_by_its_creator() {
    let mut h = GameHandler::new(0, None);
    let mut p = Peer::new("bob".to_string());
    h.on_link(p.info());
    let mut req = vec![99];
    req.extend(title("Duel"));
    req.push(4);
    let (mut game, creator) = match h.on_message(Message::new(p.info(), req)) {
        HandlerAction::CreateGame { game, creator } => (game, creator),
        _ => panic!("expected a game"),
    };
    assert_eq!(creator.name, "bob");
    // The creator's connection gets the game's link and joins it.
    game.on_link(p.info());
    let plan = p.on_link(game.info()).expect("join");
    assert_eq!(plan.notify_game.to.name, game.info().name);
    let joi = plan.notify_game.message;
    assert!(game.accepts(&joi));
    game.on_message(joi);
    assert_eq!(game.game_state().number_of_players, 1);
}
