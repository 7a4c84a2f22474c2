//! A game: its lobby (who joins, leaves, gets ready), its launch, and the
//! reports it sends on each tick.
use vstd::prelude::*;
use vstd::string::StringExecFns;

use crate::link::message::{address_to, all_carry, targets, Message, MessageView, Outgoing};
use crate::link::userinfo::{kind_game, kind_game_handler, kind_peer, UserInfo, UserInfoView};
use crate::player_ids::{
    id_pairs, ids_get_by_right, ids_insert, ids_new, ids_remove_by_right,
    pairs_without_right, PlayerIds,
};
use crate::registry::{entries_map, keys_of, views_of, Roster, UserTable};
use crate::utilities::{as_u32, decimal, le_bytes_u32, le_u32, u32_decimal, u32_to_le_bytes};

verus! {

/// Something on the map that a player owns.
pub struct Entity {
    pub position: Vec<u32>,
    pub owner: u32,
    pub position_matters: bool,
}

impl Entity {
    /// Entities have no byte form yet: this does nothing.
    pub fn to_bytes(&self) {
    }
}

/// Where a player of a game stands.
#[derive(Clone, Copy, PartialEq, Eq, Structural, Debug)]
pub struct PlayerState {
    pub ready: bool,
    pub connected: bool,
    pub in_game_id: u32,
    pub spectator: bool,
}

/// The byte of a flag: 1 for true, 0 for false.
pub open spec fn flag_byte(b: bool) -> u8 {
    if b { 1u8 } else { 0u8 }
}

/// The bytes of a player state: ready, connected, the in-game number in
/// little-endian order, spectator.
pub open spec fn player_state_bytes(p: PlayerState) -> Seq<u8> {
    seq![flag_byte(p.ready), flag_byte(p.connected)] + le_bytes_u32(p.in_game_id) + seq![flag_byte(p.spectator)]
}

/// The state of a player who has just joined.
pub open spec fn fresh_player(in_game_id: u32, spectator: bool) -> PlayerState {
    PlayerState { ready: false, connected: true, in_game_id, spectator }
}

impl PlayerState {
    /// A connected player who is not ready yet.
    pub fn new(in_game_id: u32, spectator: bool) -> (res: PlayerState)
        ensures
            res == fresh_player(in_game_id, spectator),
    {
        PlayerState { ready: false, connected: true, in_game_id, spectator }
    }

    /// Ready, connected, the in-game number (little-endian), spectator.
    pub fn to_bytes(&self) -> (res: Vec<u8>)
        ensures
            res@ == player_state_bytes(*self),
    {
        let mut bytes: Vec<u8> = Vec::new();
        bytes.push(if self.ready { 1u8 } else { 0u8 });
        bytes.push(if self.connected { 1u8 } else { 0u8 });
        let mut id = u32_to_le_bytes(self.in_game_id);
        bytes.append(&mut id);
        bytes.push(if self.spectator { 1u8 } else { 0u8 });
        assert(bytes@ =~= player_state_bytes(*self));
        bytes
    }
}

/// The numbers that describe a game to the lobby.
#[derive(Clone, Copy, PartialEq, Eq, Structural, Debug)]
pub struct GameState {
    pub phase: u32,
    pub number_of_cities: u32,
    pub maximum_players: u32,
    pub number_of_players: u32,
}

/// The four numbers of a game state, in their order.
pub open spec fn game_state_fields(g: GameState) -> Seq<u32> {
    seq![g.phase, g.number_of_cities, g.maximum_players, g.number_of_players]
}

/// Each number followed by a space.
pub open spec fn game_state_text(g: GameState) -> Seq<char> {
    decimal(g.phase as nat) + seq![' '] + decimal(g.number_of_cities as nat) + seq![' '] + decimal(
        g.maximum_players as nat,
    ) + seq![' '] + decimal(g.number_of_players as nat) + seq![' ']
}

/// The four numbers, each in four little-endian bytes.
pub open spec fn game_state_bytes(g: GameState) -> Seq<u8> {
    le_bytes_u32(g.phase) + le_bytes_u32(g.number_of_cities) + le_bytes_u32(g.maximum_players)
        + le_bytes_u32(g.number_of_players)
}

/// The number in bytes `4 * k .. 4 * k + 4`, little-endian.
pub open spec fn le_word(b: Seq<u8>, k: int) -> u32 {
    le_u32(b[4 * k], b[4 * k + 1], b[4 * k + 2], b[4 * k + 3]) as u32
}

/// The game state that the first sixteen bytes of `b` encode.
pub open spec fn game_state_from(b: Seq<u8>) -> GameState {
    GameState {
        phase: le_word(b, 0),
        number_of_cities: le_word(b, 1),
        maximum_players: le_word(b, 2),
        number_of_players: le_word(b, 3),
    }
}

impl GameState {
    /// Each of the four numbers in decimal, each followed by a space.
    pub fn to_string(&self) -> (res: String)
        ensures
            res@ == game_state_text(*self),
    {
        let mut a = String::new();
        let p = u32_decimal(self.phase);
        a.append(p.as_str());
        a.append(" ");
        let c = u32_decimal(self.number_of_cities);
        a.append(c.as_str());
        a.append(" ");
        let m = u32_decimal(self.maximum_players);
        a.append(m.as_str());
        a.append(" ");
        let n = u32_decimal(self.number_of_players);
        a.append(n.as_str());
        a.append(" ");
        proof {
            reveal_strlit(" ");
        }
        assert(a@ =~= game_state_text(*self));
        a
    }

    /// The four numbers, each in four little-endian bytes.
    pub fn to_bytes(&self) -> (res: Vec<u8>)
        ensures
            res@ == game_state_bytes(*self),
    {
        let mut bytes: Vec<u8> = Vec::new();
        let mut a = u32_to_le_bytes(self.phase);
        bytes.append(&mut a);
        let mut b = u32_to_le_bytes(self.number_of_cities);
        bytes.append(&mut b);
        let mut c = u32_to_le_bytes(self.maximum_players);
        bytes.append(&mut c);
        let mut d = u32_to_le_bytes(self.number_of_players);
        bytes.append(&mut d);
        assert(bytes@ =~= game_state_bytes(*self));
        bytes
    }

    /// Reads the four numbers back from the first sixteen bytes.
    pub fn from_bytes(bytes: Vec<u8>) -> (res: GameState)
        requires
            bytes@.len() >= 16,
        ensures
            res == game_state_from(bytes@),
    {
        let phase = as_u32(slice_of(&bytes, 0));
        let number_of_cities = as_u32(slice_of(&bytes, 4));
        let maximum_players = as_u32(slice_of(&bytes, 8));
        let number_of_players = as_u32(slice_of(&bytes, 12));
        GameState { phase, number_of_cities, maximum_players, number_of_players }
    }
}

/// The four bytes of `bytes` from `start` on.
fn slice_of(bytes: &Vec<u8>, start: usize) -> (res: Vec<u8>)
    requires
        start + 4 <= bytes.len(),
    ensures
        res@ == bytes@.subrange(start as int, start + 4),
{
    let mut v: Vec<u8> = Vec::new();
    v.push(bytes[start]);
    v.push(bytes[start + 1]);
    v.push(bytes[start + 2]);
    v.push(bytes[start + 3]);
    assert(v@ =~= bytes@.subrange(start as int, start + 4));
    v
}

/// A player state takes 7 bytes.
pub proof fn lemma_player_state_size(p: PlayerState)
    ensures
        player_state_bytes(p).len() == 7,
{
}

/// Reading back the bytes of a game state gives the same game state.
pub proof fn lemma_game_state_round_trip(g: GameState)
    ensures
        game_state_bytes(g).len() == 16,
        game_state_from(game_state_bytes(g)) == g,
{
    let b = game_state_bytes(g);
    crate::utilities::lemma_le_round_trip(g.phase);
    crate::utilities::lemma_le_round_trip(g.number_of_cities);
    crate::utilities::lemma_le_round_trip(g.maximum_players);
    crate::utilities::lemma_le_round_trip(g.number_of_players);
    assert(b.subrange(0, 4) =~= le_bytes_u32(g.phase));
    assert(b.subrange(4, 8) =~= le_bytes_u32(g.number_of_cities));
    assert(b.subrange(8, 12) =~= le_bytes_u32(g.maximum_players));
    assert(b.subrange(12, 16) =~= le_bytes_u32(g.number_of_players));
    assert(le_word(b, 0) == g.phase);
    assert(le_word(b, 1) == g.number_of_cities);
    assert(le_word(b, 2) == g.maximum_players);
    assert(le_word(b, 3) == g.number_of_players);
}

/// The length of a battle turn, in milliseconds.
pub open spec fn turn_length_ms() -> u64 {
    10000
}

/// What a game is, as its rules see it.
pub struct GameView {
    pub info: UserInfoView,
    pub history: Seq<MessageView>,
    pub connected: Set<UserInfoView>,
    pub game_handler: Option<UserInfoView>,
    pub players: Map<UserInfoView, PlayerState>,
    pub state: GameState,
    pub battle_running: bool,
    pub ids: Map<u32, UserInfoView>,
    pub turn_time_ms: u64,
    pub turn_elapsed_ms: u64,
}

/// Whether some in-game number is paired with `u`.
pub open spec fn is_paired(ids: Map<u32, UserInfoView>, u: UserInfoView) -> bool {
    exists|l: u32| ids.contains_key(l) && ids[l] == u
}

/// What holds of every game between two events: the player count stays within
/// the maximum and counts every numbered player, no two numbers share a player,
/// every numbered player has a state, the phase is 0 (lobby) or 1 (launched),
/// and turns last ten seconds, of which no more have passed.
pub open spec fn game_invariant(g: GameView) -> bool {
    &&& g.state.number_of_players <= g.state.maximum_players
    &&& g.state.phase <= 1
    &&& g.ids.dom().finite()
    &&& g.ids.dom().len() <= g.state.number_of_players
    &&& forall|a: u32, b: u32| g.ids.contains_key(a) && g.ids.contains_key(b) && a != b ==> g.ids[a] != g.ids[b]
    &&& forall|l: u32| g.ids.contains_key(l) ==> g.players.contains_key(#[trigger] g.ids[l])
    &&& g.turn_time_ms == turn_length_ms()
    &&& g.turn_elapsed_ms <= g.turn_time_ms
}

/// A player joins: one who never had a number gets the next one, if the
/// lobby is open and not full; anyone else changes nothing.
pub open spec fn after_join(g: GameView, u: UserInfoView) -> GameView {
    if is_paired(g.ids, u) {
        g
    } else if g.state.number_of_players < g.state.maximum_players && g.state.phase == 0 {
        let id = g.state.number_of_players;
        GameView {
            ids: g.ids.insert(id, u),
            players: g.players.insert(u, fresh_player(id, false)),
            state: GameState { number_of_players: (id + 1) as u32, ..g.state },
            ..g
        }
    } else {
        g
    }
}

/// A player leaves: while the lobby is open, a numbered player loses the
/// number and the state, and the count drops by one; otherwise nothing changes.
pub open spec fn after_leave(g: GameView, u: UserInfoView) -> GameView {
    if g.state.phase == 0 && is_paired(g.ids, u) {
        GameView {
            ids: pairs_without_right(g.ids, u),
            players: g.players.remove(u),
            state: GameState { number_of_players: (g.state.number_of_players - 1) as u32, ..g.state },
            ..g
        }
    } else {
        g
    }
}

/// Every player who is not a spectator is ready.
pub open spec fn all_ready(players: Map<UserInfoView, PlayerState>) -> bool {
    forall|u: UserInfoView| #[trigger] players.contains_key(u) ==> players[u].ready || players[u].spectator
}

/// A player's ready flag flips.
pub open spec fn after_toggle_ready(g: GameView, u: UserInfoView) -> GameView {
    GameView { players: g.players.insert(u, PlayerState { ready: !g.players[u].ready, ..g.players[u] }), ..g }
}

/// The game starts: phase 1, and a battle runs.
pub open spec fn after_launch(g: GameView) -> GameView {
    GameView { state: GameState { phase: 1, ..g.state }, battle_running: true, ..g }
}

/// An actor went away: it is no longer linked, and a player among them is
/// marked as not connected.
pub open spec fn after_disconnect(g: GameView, u: UserInfoView) -> GameView {
    let g2 = GameView { connected: g.connected.remove(u), ..g };
    if u.what == kind_peer() && g.players.contains_key(u) {
        GameView { players: g.players.insert(u, PlayerState { connected: false, ..g.players[u] }), ..g2 }
    } else {
        g2
    }
}

/// The first three bytes are `x`, `y`, `z`.
pub open spec fn starts_with3(b: Seq<u8>, x: u8, y: u8, z: u8) -> bool {
    b.len() >= 3 && b[0] == x && b[1] == y && b[2] == z
}

/// `joi`: join the game.
pub open spec fn is_join(b: Seq<u8>) -> bool {
    starts_with3(b, 106, 111, 105)
}

/// `rea`: flip the ready flag.
pub open spec fn is_ready(b: Seq<u8>) -> bool {
    starts_with3(b, 114, 101, 97)
}

/// `lau`: launch the game.
pub open spec fn is_launch(b: Seq<u8>) -> bool {
    starts_with3(b, 108, 97, 117)
}

/// `lea`: leave the game.
pub open spec fn is_leave(b: Seq<u8>) -> bool {
    starts_with3(b, 108, 101, 97)
}

/// The messages a game handles: a first byte; three bytes from a player
/// unless it says goodbye (60); and a `rea` only from a player with a state.
pub open spec fn message_accepted(g: GameView, m: MessageView) -> bool {
    &&& m.bytes.len() >= 1
    &&& (m.bytes[0] != 60 && m.info.what == kind_peer()) ==> m.bytes.len() >= 3
    &&& (m.bytes[0] != 60 && m.info.what == kind_peer() && is_ready(m.bytes)) ==> g.players.contains_key(m.info)
}

/// Whether a message launches the game: a player's `lau` when every player
/// who is not a spectator is ready.
pub open spec fn launches(g: GameView, m: MessageView) -> bool {
    m.bytes[0] != 60 && m.info.what == kind_peer() && is_launch(m.bytes) && all_ready(g.players)
}

/// The game after it handles a message.
pub open spec fn after_message(g0: GameView, m: MessageView) -> GameView {
    let g = GameView { history: g0.history.push(m), ..g0 };
    if m.bytes[0] == 60 {
        after_disconnect(g, m.info)
    } else if m.info.what == kind_peer() {
        if is_join(m.bytes) {
            after_join(g, m.info)
        } else if is_ready(m.bytes) {
            after_toggle_ready(g, m.info)
        } else if is_launch(m.bytes) {
            if all_ready(g.players) {
                after_launch(g)
            } else {
                g
            }
        } else if is_leave(m.bytes) {
            after_leave(g, m.info)
        } else {
            g
        }
    } else {
        g
    }
}

/// The game after a new link: the actor is linked, and a game handler is
/// remembered as the one to report to.
pub open spec fn after_link(g: GameView, u: UserInfoView) -> GameView {
    GameView {
        connected: g.connected.insert(u),
        game_handler: if u.what == kind_game_handler() { Some(u) } else { g.game_handler },
        ..g
    }
}

/// The game after `period` milliseconds: a running battle counts them, and a
/// turn ends (the count starts again) once more than ten seconds have passed.
pub open spec fn after_tick(g: GameView, period: u64) -> GameView {
    if g.battle_running {
        let t = g.turn_elapsed_ms + period;
        GameView { turn_elapsed_ms: if t > g.turn_time_ms { 0 } else { t as u64 }, ..g }
    } else {
        g
    }
}

/// Whether the battle is due to advance after `period` milliseconds.
pub open spec fn turn_ends(g: GameView, period: u64) -> bool {
    g.battle_running && g.turn_elapsed_ms + period > g.turn_time_ms
}

/// The launch notice: byte 115 from the game.
pub open spec fn launch_notice(g: GameView) -> MessageView {
    MessageView { info: g.info, bytes: seq![115u8] }
}

/// The report a game sends its handler: byte 105, then the game state.
pub open spec fn handler_report(g: GameView) -> MessageView {
    MessageView { info: g.info, bytes: seq![105u8] + game_state_bytes(g.state) }
}

/// The broadcast of one player's state: byte 108, then the state.
pub open spec fn player_state_message(u: UserInfoView, p: PlayerState) -> MessageView {
    MessageView { info: u, bytes: seq![108u8] + player_state_bytes(p) }
}

/// The messages are the broadcasts of the players' states, one per player.
pub open spec fn broadcasts_players(s: Seq<MessageView>, players: Map<UserInfoView, PlayerState>) -> bool {
    &&& s.map_values(|m: MessageView| m.info).no_duplicates()
    &&& s.map_values(|m: MessageView| m.info).to_set() == players.dom()
    &&& forall|i: int| 0 <= i < s.len() ==> players.contains_key((#[trigger] s[i]).info) && s[i] == player_state_message(s[i].info, players[s[i].info])
}

/// A game that has just been made, in its lobby, for up to `maximum_players`.
pub open spec fn fresh_game(info: UserInfoView, maximum_players: u32) -> GameView {
    GameView {
        info,
        history: Seq::empty(),
        connected: Set::empty(),
        game_handler: None,
        players: Map::empty(),
        state: GameState { phase: 0, number_of_cities: 0, maximum_players, number_of_players: 0 },
        battle_running: false,
        ids: Map::empty(),
        turn_time_ms: turn_length_ms(),
        turn_elapsed_ms: 0,
    }
}

/// What a game asks to be sent after a message.
pub struct GameReaction {
    /// Launch notices, one to each linked player.
    pub notices: Vec<Outgoing>,
    /// Whether a battle engine is to be set up.
    pub start_battle: bool,
}

/// What a game asks to be done on a tick.
pub struct TickPlan {
    /// The linked actors, each to be sent every player-state broadcast.
    pub recipients: Vec<UserInfo>,
    /// The player-state broadcasts.
    pub player_states: Vec<Message>,
    /// The report to the game handler, if the game knows one.
    pub handler_report: Option<Outgoing>,
    /// Whether the battle advances a turn (and its state goes to every recipient).
    pub run_battle: bool,
}

/// The lobby and rules of one game.
pub struct Game {
    info: UserInfo,
    message_history: Vec<Message>,
    connected: Roster,
    game_handler_info: Option<UserInfo>,
    player_states: UserTable<PlayerState>,
    game_state: GameState,
    battle_running: bool,
    username_ids: PlayerIds,
    turn_time_ms: u64,
    turn_time_current_ms: u64,
}

impl View for Game {
    type V = GameView;

    closed spec fn view(&self) -> GameView {
        GameView {
            info: self.info@,
            history: self.message_history@.map_values(|m: Message| m@),
            connected: self.connected@,
            game_handler: match self.game_handler_info {
                Some(u) => Some(u@),
                None => None,
            },
            players: self.player_states.map(),
            state: self.game_state,
            battle_running: self.battle_running,
            ids: id_pairs(self.username_ids),
            turn_time_ms: self.turn_time_ms,
            turn_elapsed_ms: self.turn_time_current_ms,
        }
    }
}

impl Game {
    /// The game's own collections are well formed and its rules' invariant holds.
    pub closed spec fn wf(&self) -> bool {
        &&& self.connected.wf()
        &&& self.player_states.wf()
        &&& game_invariant(self@)
    }

    /// A game in its lobby, named `name` (or `Game`), for up to `maximum_players`.
    pub fn new(id: u32, name: Option<String>, maximum_players: u32) -> (res: Game)
        ensures
            res.wf(),
            game_invariant(res@),
            res@ == fresh_game(
                UserInfoView {
                    name: match name {
                        Some(n) => n@,
                        None => seq!['G', 'a', 'm', 'e'],
                    },
                    id,
                    what: kind_game(),
                },
                maximum_players,
            ),
    {
        let n = match name {
            Some(n) => n,
            None => {
                proof {
                    reveal_strlit("Game");
                }
                let d = String::from_str("Game");
                assert(d@ =~= seq!['G', 'a', 'm', 'e']);
                d
            },
        };
        proof {
            reveal_strlit("game");
        }
        let what = String::from_str("game");
        assert(what@ =~= kind_game());
        let info = UserInfo { name: n, id, what };
        let ids = ids_new();
        let res = Game {
            info,
            message_history: Vec::new(),
            connected: Roster::new(),
            game_handler_info: None,
            player_states: UserTable::new(),
            game_state: GameState { phase: 0, number_of_cities: 0, maximum_players, number_of_players: 0 },
            battle_running: false,
            username_ids: ids,
            turn_time_ms: 10000,
            turn_time_current_ms: 0,
        };
        assert(res@.history =~= Seq::<MessageView>::empty());
        assert(res@.ids =~= Map::<u32, UserInfoView>::empty());
        assert(res@.players =~= Map::<UserInfoView, PlayerState>::empty());
        res
    }

    /// Who the game is.
    pub fn info(&self) -> (res: UserInfo)
        ensures
            res@ == self@.info,
    {
        self.info.duplicate()
    }

    /// The numbers that describe the game to the lobby.
    pub fn game_state(&self) -> (res: GameState)
        ensures
            res == self@.state,
    {
        self.game_state
    }

    /// Whether the game can handle `message` (see `message_accepted`).
    pub fn accepts(&self, message: &Message) -> (res: bool)
        requires
            self.wf(),
        ensures
            res == message_accepted(self@, message@),
    {
        let b = &message.bytes;
        if b.len() < 1 {
            return false;
        }
        if b[0] != 60 && message.info.is_peer() {
            if b.len() < 3 {
                return false;
            }
            if b[0] == 114 && b[1] == 101 && b[2] == 97 {
                return self.player_states.get(&message.info).is_some();
            }
        }
        true
    }

    fn add_player(&mut self, user: &UserInfo)
        requires
            old(self).wf(),
        ensures
            final(self).wf(),
            final(self)@ == after_join(old(self)@, user@),
    {
        let ghost g = self@;
        match ids_get_by_right(&self.username_ids, user) {
            Some(_) => {},
            None => {
                if self.game_state.number_of_players < self.game_state.maximum_players && self.game_state.phase == 0 {
                    let new_user_id = self.game_state.number_of_players;
                    ids_insert(&mut self.username_ids, new_user_id, user.duplicate());
                    self.player_states.set(user.duplicate(), PlayerState::new(new_user_id, false));
                    self.game_state.number_of_players = new_user_id + 1;
                    assert(id_pairs(self.username_ids) =~= g.ids.insert(new_user_id, user@));
                    assert(self@ == after_join(g, user@));
                    assert(g.ids.insert(new_user_id, user@).dom() == g.ids.dom().insert(new_user_id));
                    assert(game_invariant(self@)) by {
                        let ids2 = self@.ids;
                        assert forall|a: u32, b: u32| ids2.contains_key(a) && ids2.contains_key(b) && a != b implies ids2[a] != ids2[b] by {
                            if a != new_user_id && b != new_user_id {
                            }
                        }
                        assert forall|l: u32| ids2.contains_key(l) implies self@.players.contains_key(#[trigger] ids2[l]) by {
                            if l != new_user_id {
                                assert(g.players.contains_key(g.ids[l]));
                            }
                        }
                    }
                }
            },
        }
    }

    fn remove_player(&mut self, user: &UserInfo)
        requires
            old(self).wf(),
        ensures
            final(self).wf(),
            final(self)@ == after_leave(old(self)@, user@),
    {
        let ghost g = self@;
        if self.game_state.phase == 0 {
            match ids_get_by_right(&self.username_ids, user) {
                Some(l) => {
                    ids_remove_by_right(&mut self.username_ids, user);
                    self.player_states.remove(user);
                    proof {
                        let ids2 = pairs_without_right(g.ids, user@);
                        assert(ids2.dom().subset_of(g.ids.dom().remove(l)));
                        vstd::set_lib::lemma_len_subset(ids2.dom(), g.ids.dom().remove(l));
                        assert(g.ids.dom().len() >= 1) by {
                            assert(g.ids.dom().contains(l));
                        }
                    }
                    self.game_state.number_of_players = self.game_state.number_of_players - 1;
                    assert(self@ == after_leave(g, user@));
                    assert(game_invariant(self@)) by {
                        let ids2 = self@.ids;
                        assert forall|k: u32| ids2.contains_key(k) implies self@.players.contains_key(#[trigger] ids2[k]) by {
                            assert(g.players.contains_key(g.ids[k]));
                        }
                    }
                },
                None => {},
            }
        }
    }

    /// Handles a message from a linked actor (see `after_message`), and says
    /// what to send and whether a battle starts.
    pub fn on_message(&mut self, message: Message) -> (res: GameReaction)
        requires
            old(self).wf(),
            message_accepted(old(self)@, message@),
        ensures
            final(self).wf(),
            game_invariant(final(self)@),
            final(self)@ == after_message(old(self)@, message@),
            res.start_battle == launches(old(self)@, message@),
            launches(old(self)@, message@) ==> {
                &&& targets(res.notices@).no_duplicates()
                &&& targets(res.notices@).to_set() == old(self)@.connected.filter(|u: UserInfoView| u.what == kind_peer())
                &&& all_carry(res.notices@, launch_notice(old(self)@))
            },
            !launches(old(self)@, message@) ==> res.notices@.len() == 0,
    {
        let ghost g0 = self@;
        let kept = message.duplicate();
        self.message_history.push(kept);
        assert(self@.history =~= g0.history.push(message@));
        let ghost g = self@;
        let none = GameReaction { notices: Vec::new(), start_battle: false };
        if message.bytes[0] == 60 {
            self.connected.remove(&message.info);
            if message.info.is_peer() {
                match self.player_states.get(&message.info) {
                    Some(ps) => {
                        self.player_states.set(
                            message.info.duplicate(),
                            PlayerState { connected: false, ..ps },
                        );
                    },
                    None => {},
                }
            }
            assert(self@ == after_disconnect(g, message@.info));
            return none;
        }
        if message.info.is_peer() {
            let b0 = message.bytes[0];
            let b1 = message.bytes[1];
            let b2 = message.bytes[2];
            if b0 == 106 && b1 == 111 && b2 == 105 {
                self.add_player(&message.info);
            } else if b0 == 114 && b1 == 101 && b2 == 97 {
                match self.player_states.get(&message.info) {
                    Some(ps) => {
                        self.player_states.set(message.info.duplicate(), PlayerState { ready: !ps.ready, ..ps });
                    },
                    None => {},
                }
                assert(self@ == after_toggle_ready(g, message@.info));
            } else if b0 == 108 && b1 == 97 && b2 == 117 {
                if self.all_ready() {
                    return self.launch();
                }
            } else if b0 == 108 && b1 == 101 && b2 == 97 {
                self.remove_player(&message.info);
            }
        }
        none
    }

    fn all_ready(&self) -> (res: bool)
        requires
            self.wf(),
        ensures
            res == all_ready(self@.players),
    {
        let pairs = self.player_states.pairs();
        let mut i: usize = 0;
        while i < pairs.len()
            invariant
                i <= pairs@.len(),
                entries_map(pairs@) == self@.players,
                keys_of(pairs@).no_duplicates(),
                forall|j: int| 0 <= j < i ==> (#[trigger] pairs@[j]).1.ready || pairs@[j].1.spectator,
            decreases pairs@.len() - i,
        {
            if !pairs[i].1.ready && !pairs[i].1.spectator {
                proof {
                    crate::registry::lemma_entries_map_at(pairs@, i as int);
                }
                return false;
            }
            i = i + 1;
        }
        assert forall|u: UserInfoView| #[trigger] self@.players.contains_key(u) implies self@.players[u].ready || self@.players[u].spectator by {
            let j = choose|j: int| 0 <= j < keys_of(pairs@).len() && keys_of(pairs@)[j] == u;
            crate::registry::lemma_entries_map_at(pairs@, j);
            assert(pairs@[j].0@ == u);
        }
        true
    }

    fn launch(&mut self) -> (res: GameReaction)
        requires
            old(self).wf(),
        ensures
            final(self).wf(),
            final(self)@ == after_launch(old(self)@),
            res.start_battle,
            targets(res.notices@).no_duplicates(),
            targets(res.notices@).to_set() == old(self)@.connected.filter(|u: UserInfoView| u.what == kind_peer()),
            all_carry(res.notices@, launch_notice(old(self)@)),
    {
        self.game_state.phase = 1;
        let peers = self.connected.members_of_kind("peer");
        proof {
            reveal_strlit("peer");
            assert("peer"@ =~= kind_peer());
        }
        let bytes: Vec<u8> = vec![115u8];
        let notices = address_to(peers, &self.info, &bytes);
        assert(bytes@ =~= seq![115u8]);
        self.battle_running = true;
        GameReaction { notices, start_battle: true }
    }

    /// Records a new link (see `after_link`).
    pub fn on_link(&mut self, info: UserInfo)
        requires
            old(self).wf(),
        ensures
            final(self).wf(),
            game_invariant(final(self)@),
            final(self)@ == after_link(old(self)@, info@),
    {
        if info.is_game_handler() {
            self.game_handler_info = Some(info.duplicate());
        }
        self.connected.insert(info);
    }

    /// Handles a tick of `period` milliseconds (see `after_tick`), and says
    /// what to send.
    pub fn on_tick(&mut self, period: u64) -> (res: TickPlan)
        requires
            old(self).wf(),
            period <= u64::MAX - turn_length_ms(),
        ensures
            final(self).wf(),
            game_invariant(final(self)@),
            final(self)@ == after_tick(old(self)@, period),
            views_of(res.recipients@).no_duplicates(),
            views_of(res.recipients@).to_set() == old(self)@.connected,
            broadcasts_players(res.player_states@.map_values(|m: Message| m@), old(self)@.players),
            match old(self)@.game_handler {
                Some(h) => res.handler_report matches Some(o) && o.to@ == h && o.message@ == handler_report(old(self)@),
                None => res.handler_report is None,
            },
            res.run_battle == turn_ends(old(self)@, period),
            res.run_battle ==> old(self)@.battle_running,
            !old(self)@.battle_running ==> final(self)@.turn_elapsed_ms == old(self)@.turn_elapsed_ms,
            res.run_battle ==> final(self)@.turn_elapsed_ms == 0,
            old(self)@.battle_running && !res.run_battle ==> final(self)@.turn_elapsed_ms == old(self)@.turn_elapsed_ms + period,
    {
        let recipients = self.connected.members();
        let player_states = self.player_state_messages();
        let handler_report = match &self.game_handler_info {
            Some(h) => {
                let mut bytes: Vec<u8> = vec![105u8];
                let mut state = self.game_state.to_bytes();
                bytes.append(&mut state);
                assert(bytes@ =~= seq![105u8] + game_state_bytes(self@.state));
                let m = Message { info: self.info.duplicate(), bytes };
                assert(m@ == handler_report(self@));
                Some(Outgoing { to: h.duplicate(), message: m })
            },
            None => None,
        };
        let mut run_battle = false;
        if self.battle_running {
            self.turn_time_current_ms = self.turn_time_current_ms + period;
            if self.turn_time_current_ms > self.turn_time_ms {
                self.turn_time_current_ms = 0;
                run_battle = true;
            }
        }
        TickPlan { recipients, player_states, handler_report, run_battle }
    }

    fn player_state_messages(&self) -> (res: Vec<Message>)
        requires
            self.wf(),
        ensures
            broadcasts_players(res@.map_values(|m: Message| m@), self@.players),
    {
        let pairs = self.player_states.pairs();
        let mut res: Vec<Message> = Vec::new();
        let mut i: usize = 0;
        while i < pairs.len()
            invariant
                i <= pairs@.len(),
                entries_map(pairs@) == self@.players,
                keys_of(pairs@).no_duplicates(),
                res@.len() == i,
                forall|j: int| 0 <= j < i ==> (#[trigger] res@[j])@ == player_state_message(pairs@[j].0@, pairs@[j].1),
            decreases pairs@.len() - i,
        {
            let mut bytes: Vec<u8> = vec![108u8];
            let mut st = pairs[i].1.to_bytes();
            bytes.append(&mut st);
            assert(bytes@ =~= seq![108u8] + player_state_bytes(pairs@[i as int].1));
            let m = Message { info: pairs[i].0.duplicate(), bytes };
            assert(m@ =~= player_state_message(pairs@[i as int].0@, pairs@[i as int].1));
            res.push(m);
            i = i + 1;
        }
        let ghost s = res@.map_values(|m: Message| m@);
        assert(s.map_values(|m: MessageView| m.info) =~= keys_of(pairs@));
        assert forall|j: int| 0 <= j < s.len() implies self@.players.contains_key((#[trigger] s[j]).info) && s[j] == player_state_message(s[j].info, self@.players[s[j].info]) by {
            crate::registry::lemma_entries_map_at(pairs@, j);
        }
        assert(keys_of(pairs@).to_set() =~= self@.players.dom());
        res
    }
}

/// The phase of a game never goes back, and it moves only when a player
/// launches the game while every player who is not a spectator is ready.
pub proof fn lemma_phase_moves_only_on_launch(g: GameView, m: MessageView)
    requires
        game_invariant(g),
        message_accepted(g, m),
    ensures
        after_message(g, m).state.phase >= g.state.phase,
        after_message(g, m).state.phase != g.state.phase ==> launches(g, m) && all_ready(g.players),
{
}

/// Once a game is launched, no message changes who plays it or how many play.
pub proof fn lemma_players_fixed_after_launch(g: GameView, m: MessageView)
    requires
        game_invariant(g),
        message_accepted(g, m),
        g.state.phase == 1,
    ensures
        after_message(g, m).ids == g.ids,
        after_message(g, m).state.number_of_players == g.state.number_of_players,
        after_message(g, m).players.dom() == g.players.dom(),
{
    let g1 = GameView { history: g.history.push(m), ..g };
    if m.bytes[0] == 60 {
        if m.info.what == kind_peer() && g.players.contains_key(m.info) {
            assert(after_message(g, m).players.dom() =~= g.players.dom());
        }
    } else if m.info.what == kind_peer() && is_ready(m.bytes) {
        assert(after_message(g, m).players.dom() =~= g.players.dom());
    }
}

/// The battle clock runs only in a launched game: a game whose battle has not
/// started never ends a turn, and a tick leaves it exactly as it was; in a
/// running battle a turn ends exactly when the time counted passes ten
/// seconds, and the count then starts again from zero.
pub proof fn lemma_no_battle_turn_before_launch(g: GameView, period: u64)
    requires
        game_invariant(g),
        period <= u64::MAX - turn_length_ms(),
    ensures
        !g.battle_running ==> !turn_ends(g, period) && after_tick(g, period) == g,
        turn_ends(g, period) ==> g.battle_running && after_tick(g, period).turn_elapsed_ms == 0,
        g.battle_running && !turn_ends(g, period) ==> after_tick(g, period).turn_elapsed_ms == g.turn_elapsed_ms + period
            && g.turn_elapsed_ms + period <= turn_length_ms(),
        g.battle_running ==> (turn_ends(g, period) <==> g.turn_elapsed_ms + period > turn_length_ms()),
{
}

/// A game in its lobby never ends a battle turn, however many ticks pass.
pub proof fn lemma_lobby_ticks_never_run_battle(g: GameView, periods: Seq<u64>)
    requires
        game_invariant(g),
        !g.battle_running,
    ensures
        forall|i: int| 0 <= i < periods.len() ==> !turn_ends(g, #[trigger] periods[i]) && after_tick(g, periods[i]) == g,
{
}

/// A join is refused while the game is full or launched: nothing but the
/// message history changes.
pub proof fn lemma_join_refused_when_closed(g: GameView, u: UserInfoView)
    requires
        g.state.number_of_players >= g.state.maximum_players || g.state.phase != 0,
    ensures
        after_join(g, u) == g,
{
}

/// In an open lobby with room, a new player who joins and then leaves puts
/// the count and the states back as they were; only the number the player
/// took is no longer held by anyone.
pub proof fn lemma_join_then_leave(g: GameView, u: UserInfoView)
    requires
        game_invariant(g),
        g.state.phase == 0,
        g.state.number_of_players < g.state.maximum_players,
        !is_paired(g.ids, u),
        !g.players.contains_key(u),
    ensures
        after_leave(after_join(g, u), u).state == g.state,
        after_leave(after_join(g, u), u).players == g.players,
        after_leave(after_join(g, u), u).ids == g.ids.remove(g.state.number_of_players),
{
    let id = g.state.number_of_players;
    let g1 = after_join(g, u);
    assert(g1.ids.contains_key(id) && g1.ids[id] == u);
    assert(is_paired(g1.ids, u));
    assert(after_leave(g1, u).players =~= g.players);
    assert(after_leave(g1, u).ids =~= g.ids.remove(id));
}

} // verus!
