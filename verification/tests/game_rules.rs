use punk_server::game::{Game, GameState, PlayerState};
use punk_server::link::message::Message;
use punk_server::link::userinfo::UserInfo;

fn user(name: &str, id: u32, what: &str) -> UserInfo {
    UserInfo::new(name.to_string(), id, what.to_string())
}

fn peer(name: &str) -> UserInfo {
    user(name, 0, "peer")
}

fn say(from: &UserInfo, bytes: &[u8]) -> Message {
    Message::new(from.duplicate(), bytes.to_vec())
}

fn send(game: &mut Game, from: &UserInfo, bytes: &[u8]) -> punk_server::game::GameReaction {
    let m = say(from, bytes);
    assert!(game.accepts(&m));
    game.on_message(m)
}

/// The player states a tick broadcasts, by player name.
fn states(game: &mut Game) -> Vec<(String, PlayerState)> {
    let plan = game.on_tick(1000);
    let mut v: Vec<(String, PlayerState)> = plan
        .player_states
        .iter()
        .map(|m| {
            assert_eq!(m.bytes[0], 108);
            let b = &m.bytes[1..];
            let st = PlayerState {
                ready: b[0] == 1,
                connected: b[1] == 1,
                in_game_id: u32::from_le_bytes([b[2], b[3], b[4], b[5]]),
                spectator: b[6] == 1,
            };
            (m.info.name.clone(), st)
        })
        .collect();
    v.sort_by(|a, b| a.0.cmp(&b.0));
    v
}

#[test]
fn new_game_defaults() {
    let g = Game::new(3, None, 4);
    assert_eq!(g.info().name, "Game");
    assert_eq!(g.info().id, 3);
    assert_eq!(g.info().what, "game");
    assert_eq!(g.game_state(), GameState { phase: 0, number_of_cities: 0, maximum_players: 4, number_of_players: 0 });
    let named = Game::new(1, Some("Duel".to_string()), 2);
    assert_eq!(named.info().name, "Duel");
}

#[test]
fn players_join_until_full() {
    let mut g = Game::new(0, None, 2);
    let (a, b, c) = (peer("a"), peer("b"), peer("c"));
    send(&mut g, &a, b"joi");
    send(&mut g, &b, b"joi");
    send(&mut g, &c, b"joi");
    assert_eq!(g.game_state().number_of_players, 2);
    let s = states(&mut g);
    assert_eq!(s.len(), 2);
    assert_eq!(s[0], ("a".to_string(), PlayerState { ready: false, connected: true, in_game_id: 0, spectator: false }));
    assert_eq!(s[1].1.in_game_id, 1);
}

#[test]
fn joining_twice_changes_nothing() {
    let mut g = Game::new(0, None, 4);
    let a = peer("a");
    send(&mut g, &a, b"joi");
    send(&mut g, &a, b"joi");
    assert_eq!(g.game_state().number_of_players, 1);
}

#[test]
fn only_players_commands_count() {
    let mut g = Game::new(0, None, 4);
    let chat = user("a", 0, "chat");
    send(&mut g, &chat, b"joi");
    assert_eq!(g.game_state().number_of_players, 0);
    // Messages from other kinds need only one byte.
    send(&mut g, &chat, b"j");
}

#[test]
fn join_then_leave_restores_count() {
    let mut g = Game::new(0, None, 4);
    let a = peer("a");
    send(&mut g, &a, b"joi");
    send(&mut g, &a, b"lea");
    assert_eq!(g.game_state().number_of_players, 0);
    assert!(states(&mut g).is_empty());
    // Leaving when not in the game changes nothing.
    send(&mut g, &a, b"lea");
    assert_eq!(g.game_state().number_of_players, 0);
}

#[test]
fn ready_toggles() {
    let mut g = Game::new(0, None, 4);
    let a = peer("a");
    send(&mut g, &a, b"joi");
    send(&mut g, &a, b"rea");
    assert!(states(&mut g)[0].1.ready);
    send(&mut g, &a, b"rea");
    assert!(!states(&mut g)[0].1.ready);
}

#[test]
fn ready_from_a_stranger_is_refused() {
    let g = Game::new(0, None, 4);
    assert!(!g.accepts(&say(&peer("z"), b"rea")));
    assert!(!g.accepts(&say(&peer("z"), b"jo")));
    assert!(!g.accepts(&say(&peer("z"), b"")));
    assert!(g.accepts(&say(&peer("z"), b"<")));
}

#[test]
fn launch_needs_everyone_ready() {
    let mut g = Game::new(0, None, 4);
    let (a, b) = (peer("a"), peer("b"));
    g.on_link(a.duplicate());
    g.on_link(b.duplicate());
    g.on_link(user("Global", 0, "chat"));
    send(&mut g, &a, b"joi");
    send(&mut g, &b, b"joi");
    send(&mut g, &a, b"rea");
    let r = send(&mut g, &a, b"lau");
    assert!(!r.start_battle);
    assert!(r.notices.is_empty());
    assert_eq!(g.game_state().phase, 0);
    send(&mut g, &b, b"rea");
    let r = send(&mut g, &b, b"lau");
    assert!(r.start_battle);
    assert_eq!(g.game_state().phase, 1);
    let mut to: Vec<String> = r.notices.iter().map(|o| o.to.name.clone()).collect();
    to.sort();
    assert_eq!(to, vec!["a".to_string(), "b".to_string()]);
    for o in &r.notices {
        assert_eq!(o.message.bytes, vec![115]);
        assert_eq!(o.message.info.what, "game");
    }
}

#[test]
fn launched_game_is_closed() {
    let mut g = Game::new(0, None, 4);
    let a = peer("a");
    send(&mut g, &a, b"joi");
    send(&mut g, &a, b"rea");
    assert!(send(&mut g, &a, b"lau").start_battle);
    send(&mut g, &peer("b"), b"joi");
    send(&mut g, &a, b"lea");
    assert_eq!(g.game_state().number_of_players, 1);
}

#[test]
fn disconnect_marks_player() {
    let mut g = Game::new(0, None, 4);
    let a = peer("a");
    g.on_link(a.duplicate());
    send(&mut g, &a, b"joi");
    send(&mut g, &a, &[60]);
    let plan = g.on_tick(1000);
    assert!(plan.recipients.is_empty());
    let s = states(&mut g);
    assert!(!s[0].1.connected);
    assert_eq!(g.game_state().number_of_players, 1);
}

#[test]
fn tick_reports_to_handler() {
    let mut g = Game::new(5, None, 3);
    let plan = g.on_tick(1000);
    assert!(plan.handler_report.is_none());
    g.on_link(user("GameHandler", 0, "game_handler"));
    let plan = g.on_tick(1000);
    let report = plan.handler_report.expect("report");
    assert_eq!(report.to.name, "GameHandler");
    assert_eq!(report.message.info.id, 5);
    assert_eq!(report.message.bytes, vec![105, 0, 0, 0, 0, 0, 0, 0, 0, 3, 0, 0, 0, 0, 0, 0, 0]);
    assert_eq!(plan.recipients.len(), 1);
    assert!(!plan.run_battle);
}

#[test]
fn battle_turns_last_ten_seconds() {
    let mut g = Game::new(0, None, 1);
    let a = peer("a");
    send(&mut g, &a, b"joi");
    send(&mut g, &a, b"rea");
    assert!(send(&mut g, &a, b"lau").start_battle);
    let mut runs = Vec::new();
    for _ in 0..12 {
        runs.push(g.on_tick(1000).run_battle);
    }
    // The eleventh second passes the ten-second mark.
    let expected: Vec<bool> = (1..=12).map(|k| k == 11).collect();
    assert_eq!(runs, expected);
}

#[test]
fn a_new_number_can_take_over_an_old_one() {
    // a gets 0, b gets 1; a leaves (count 1); c then gets number 1, which b held.
    let mut g = Game::new(0, None, 4);
    let (a, b, c) = (peer("a"), peer("b"), peer("c"));
    send(&mut g, &a, b"joi");
    send(&mut g, &b, b"joi");
    send(&mut g, &a, b"lea");
    send(&mut g, &c, b"joi");
    assert_eq!(g.game_state().number_of_players, 2);
    let s = states(&mut g);
    assert_eq!(s.len(), 2);
    assert_eq!(s[0].1.in_game_id, 1);
    assert_eq!(s[1].1.in_game_id, 1);
    // b lost its number: leaving does not lower the count.
    send(&mut g, &b, b"lea");
    assert_eq!(g.game_state().number_of_players, 2);
    // b may join again and gets number 2.
    send(&mut g, &b, b"joi");
    assert_eq!(g.game_state().number_of_players, 3);
}
