//! The game handler: it answers the lobby's requests and makes games.
use vstd::prelude::*;
use vstd::string::StringExecFns;
use vstd::utf8::{decode_utf8, valid_utf8};

use crate::game::{fresh_game, Game};
use crate::link::message::{Message, MessageView, Outgoing};
use crate::link::userinfo::{kind_game, kind_game_handler, UserInfo, UserInfoView};
use crate::registry::Roster;
use crate::utilities::{as_u32, copy_range, utf8_to_string};

verus! {

/// What the game handler is, as its rules see it.
pub struct GameHandlerView {
    pub info: UserInfoView,
    pub history: Seq<MessageView>,
    pub connected: Set<UserInfoView>,
    pub games: Set<UserInfoView>,
    pub number_of_games: u32,
}

/// `i`: a request for the list of games.
pub open spec fn is_info_request(b: Seq<u8>) -> bool {
    b[0] == 105
}

/// `j`: a request to join a game, whose number follows.
pub open spec fn is_join_request(b: Seq<u8>) -> bool {
    b[0] == 106
}

/// `c`: a request to create a game: 24 bytes of title, then the maximum
/// number of players.
pub open spec fn is_create_request(b: Seq<u8>) -> bool {
    b[0] == 99
}

/// The messages the handler can handle: a first byte; a game number after a
/// `j`; after a `c`, a title of 24 bytes of UTF-8 and a player count, and room
/// for one more game number.
pub open spec fn handler_accepts(h: GameHandlerView, m: MessageView) -> bool {
    &&& m.bytes.len() >= 1
    &&& is_join_request(m.bytes) ==> m.bytes.len() >= 5
    &&& is_create_request(m.bytes) ==> {
        &&& m.bytes.len() >= 26
        &&& valid_utf8(m.bytes.subrange(1, 25))
        &&& h.number_of_games < u32::MAX
    }
}

/// The game that a `c` request makes: its title, the next game number, kind `game`.
pub open spec fn created_game_info(h: GameHandlerView, m: MessageView) -> UserInfoView {
    UserInfoView { name: decode_utf8(m.bytes.subrange(1, 25)), id: h.number_of_games, what: kind_game() }
}

/// The handler after a message: it is kept, and a `c` adds a game and counts it.
pub open spec fn after_handler_message(h: GameHandlerView, m: MessageView) -> GameHandlerView {
    let h1 = GameHandlerView { history: h.history.push(m), ..h };
    if is_create_request(m.bytes) {
        GameHandlerView {
            games: h1.games.insert(created_game_info(h, m)),
            number_of_games: (h.number_of_games + 1) as u32,
            ..h1
        }
    } else {
        h1
    }
}

/// What the handler asks to be done after a message.
pub enum HandlerAction {
    /// Nothing to send.
    Nothing,
    /// A reply to send.
    Reply(Outgoing),
    /// A game to start, whose link goes to `creator`.
    CreateGame { game: Game, creator: UserInfo },
}

/// The game handler of the server.
pub struct GameHandler {
    info: UserInfo,
    message_history: Vec<Message>,
    connected: Roster,
    game_links: Roster,
    number_of_games: u32,
}

impl View for GameHandler {
    type V = GameHandlerView;

    closed spec fn view(&self) -> GameHandlerView {
        GameHandlerView {
            info: self.info@,
            history: self.message_history@.map_values(|m: Message| m@),
            connected: self.connected@,
            games: self.game_links@,
            number_of_games: self.number_of_games,
        }
    }
}

impl GameHandler {
    /// Its rosters are well formed.
    pub closed spec fn wf(&self) -> bool {
        self.connected.wf() && self.game_links.wf()
    }

    /// A handler named `name` (or `GameHandler`) that has made no game yet.
    pub fn new(id: u32, name: Option<String>) -> (res: GameHandler)
        ensures
            res.wf(),
            res@ == (GameHandlerView {
                info: UserInfoView {
                    name: match name {
                        Some(n) => n@,
                        None => seq!['G', 'a', 'm', 'e', 'H', 'a', 'n', 'd', 'l', 'e', 'r'],
                    },
                    id,
                    what: kind_game_handler(),
                },
                history: Seq::empty(),
                connected: Set::empty(),
                games: Set::empty(),
                number_of_games: 0,
            }),
    {
        let n = match name {
            Some(n) => n,
            None => {
                proof {
                    reveal_strlit("GameHandler");
                }
                let d = String::from_str("GameHandler");
                assert(d@ =~= seq!['G', 'a', 'm', 'e', 'H', 'a', 'n', 'd', 'l', 'e', 'r']);
                d
            },
        };
        proof {
            reveal_strlit("game_handler");
        }
        let what = String::from_str("game_handler");
        assert(what@ =~= kind_game_handler());
        let res = GameHandler {
            info: UserInfo { name: n, id, what },
            message_history: Vec::new(),
            connected: Roster::new(),
            game_links: Roster::new(),
            number_of_games: 0,
        };
        assert(res@.history =~= Seq::<MessageView>::empty());
        res
    }

    /// Who the handler is.
    pub fn info(&self) -> (res: UserInfo)
        ensures
            res@ == self@.info,
    {
        self.info.duplicate()
    }

    /// The bytes that describe up to `n` games: none, as the list of games is
    /// not kept here.
    pub fn info_as_bytes(&self, n: u32) -> (res: Vec<u8>)
        ensures
            res@.len() == 0,
    {
        Vec::new()
    }

    /// Whether the handler can handle `message` (see `handler_accepts`).
    pub fn accepts(&self, message: &Message) -> (res: bool)
        ensures
            res == handler_accepts(self@, message@),
    {
        let b = &message.bytes;
        if b.len() < 1 {
            return false;
        }
        if b[0] == 106 && b.len() < 5 {
            return false;
        }
        if b[0] == 99 {
            if b.len() < 26 || self.number_of_games == u32::MAX {
                return false;
            }
            let title = copy_range(b, 1, 25);
            return utf8_to_string(title).is_some();
        }
        true
    }

    /// Records a new link.
    pub fn on_link(&mut self, info: UserInfo)
        requires
            old(self).wf(),
        ensures
            final(self).wf(),
            final(self)@ == (GameHandlerView { connected: old(self)@.connected.insert(info@), ..old(self)@ }),
    {
        self.connected.insert(info);
    }

    /// Handles a message (see `after_handler_message`): an `i` is answered
    /// with byte 105 and the (empty) list of games; a `c` makes a game whose
    /// link goes to the sender.
    pub fn on_message(&mut self, message: Message) -> (res: HandlerAction)
        requires
            old(self).wf(),
            handler_accepts(old(self)@, message@),
        ensures
            final(self).wf(),
            final(self)@ == after_handler_message(old(self)@, message@),
            is_info_request(message@.bytes) ==> (res matches HandlerAction::Reply(o) && o.to@ == message@.info
                && o.message@ == (MessageView { info: old(self)@.info, bytes: seq![105u8] })),
            is_create_request(message@.bytes) ==> (res matches HandlerAction::CreateGame { game, creator }
                && creator@ == message@.info && game.wf()
                && game@ == fresh_game(created_game_info(old(self)@, message@), message@.bytes[25] as u32)),
            !is_info_request(message@.bytes) && !is_create_request(message@.bytes) ==> res is Nothing,
    {
        let ghost h = self@;
        let kept = message.duplicate();
        self.message_history.push(kept);
        assert(self@.history =~= h.history.push(message@));
        let b0 = message.bytes[0];
        if b0 == 105 {
            let mut bytes: Vec<u8> = vec![105u8];
            let mut list = self.info_as_bytes(20);
            bytes.append(&mut list);
            assert(bytes@ =~= seq![105u8]);
            let reply = Message { info: self.info.duplicate(), bytes };
            return HandlerAction::Reply(Outgoing { to: message.info.duplicate(), message: reply });
        }
        if b0 == 106 {
            let id_bytes = copy_range(&message.bytes, 1, 5);
            let _game_id = as_u32(id_bytes);
        }
        if b0 == 99 {
            let game_id = self.number_of_games;
            let title_bytes = copy_range(&message.bytes, 1, 25);
            let game_title = match utf8_to_string(title_bytes) {
                Some(t) => t,
                None => String::new(),
            };
            let maximum_players = message.bytes[25];
            let game = Game::new(game_id, Some(game_title), maximum_players as u32);
            self.game_links.insert(game.info());
            self.number_of_games = self.number_of_games + 1;
            return HandlerAction::CreateGame { game, creator: message.info.duplicate() };
        }
        HandlerAction::Nothing
    }
}

/// Each game the handler makes gets the number after the last one: two games
/// made one after the other have different numbers.
pub proof fn lemma_game_numbers_distinct(h: GameHandlerView, m1: MessageView, m2: MessageView)
    requires
        is_create_request(m1.bytes),
        is_create_request(m2.bytes),
        handler_accepts(h, m1),
        handler_accepts(after_handler_message(h, m1), m2),
    ensures
        created_game_info(h, m1).id != created_game_info(after_handler_message(h, m1), m2).id,
        after_handler_message(h, m1).games.contains(created_game_info(h, m1)),
{
}

} // verus!
