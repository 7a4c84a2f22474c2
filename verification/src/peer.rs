//! A player's connection: what it writes back to its socket and where it
//! routes what the player sends.
use vstd::prelude::*;
use vstd::string::StringExecFns;

use crate::game::starts_with3;
use crate::link::message::{address_to, all_carry, message_bytes, targets, Message, MessageView, Outgoing};
use crate::link::userinfo::{kind_chat, kind_game, kind_game_handler, kind_peer, UserInfo, UserInfoView};
use crate::registry::Roster;

verus! {

/// What a peer is: the player, what it got, who it is linked to, and the game
/// it plays in.
pub struct PeerView {
    pub info: UserInfoView,
    pub history: Seq<MessageView>,
    pub connected: Set<UserInfoView>,
    pub active_game: Option<UserInfoView>,
}

/// The bytes of `|end|`.
pub open spec fn end_marker() -> Seq<u8> {
    seq![124u8, 101u8, 110u8, 100u8, 124u8]
}

/// What a peer writes to its socket for a message: its bytes, then `|end|`.
pub open spec fn socket_frame(m: MessageView) -> Seq<u8> {
    message_bytes(m) + end_marker()
}

/// The global chat: `Global`, number 0, kind `chat`.
pub open spec fn global_chat() -> UserInfoView {
    UserInfoView { name: seq!['G', 'l', 'o', 'b', 'a', 'l'], id: 0, what: kind_chat() }
}

/// The game handler: `GameHandler`, number 0, kind `game_handler`.
pub open spec fn lobby_handler() -> UserInfoView {
    UserInfoView {
        name: seq!['G', 'a', 'm', 'e', 'H', 'a', 'n', 'd', 'l', 'e', 'r'],
        id: 0,
        what: kind_game_handler(),
    }
}

/// `rea`, `lau` or `lea`: a request meant for the active game.
pub open spec fn is_game_request(b: Seq<u8>) -> bool {
    starts_with3(b, 114, 101, 97) || starts_with3(b, 108, 97, 117) || starts_with3(b, 108, 101, 97)
}

/// Where the bytes a player sent go, with what message, and whether the
/// delivery must succeed: `glo...` to the global chat (without `glo`),
/// `gh...` to the game handler (without `gh`), a game request to the active
/// game; only to an actor the peer is linked to.
pub open spec fn peer_route(p: PeerView, b: Seq<u8>) -> Option<(UserInfoView, MessageView, bool)> {
    if starts_with3(b, 103, 108, 111) {
        if p.connected.contains(global_chat()) {
            Some((global_chat(), MessageView { info: p.info, bytes: b.subrange(3, b.len() as int) }, true))
        } else {
            None
        }
    } else if b[0] == 103 && b[1] == 104 {
        if p.connected.contains(lobby_handler()) {
            Some((lobby_handler(), MessageView { info: p.info, bytes: b.subrange(2, b.len() as int) }, true))
        } else {
            None
        }
    } else if is_game_request(b) {
        match p.active_game {
            Some(g) => if p.connected.contains(g) {
                Some((g, MessageView { info: p.info, bytes: b.take(3) }, false))
            } else {
                None
            },
            None => None,
        }
    } else {
        None
    }
}

/// The peer after a new link: linked, and a game becomes the active game.
pub open spec fn after_peer_link(p: PeerView, u: UserInfoView) -> PeerView {
    PeerView {
        connected: p.connected.insert(u),
        active_game: if u.what == kind_game() { Some(u) } else { p.active_game },
        ..p
    }
}

/// A message that the peer routes, and whether its delivery must succeed.
pub struct PeerSend {
    pub out: Outgoing,
    pub must_deliver: bool,
}

/// What the peer does when it is linked to a game: it tells its player (byte
/// 106, from the game) and tells the game that the player joins (`joi`).
pub struct JoinPlan {
    pub socket_bytes: Vec<u8>,
    pub notify_game: Outgoing,
}

/// A player's connection.
pub struct Peer {
    info: UserInfo,
    message_history: Vec<Message>,
    connected: Roster,
    active_game: Option<UserInfo>,
}

impl View for Peer {
    type V = PeerView;

    closed spec fn view(&self) -> PeerView {
        PeerView {
            info: self.info@,
            history: self.message_history@.map_values(|m: Message| m@),
            connected: self.connected@,
            active_game: match self.active_game {
                Some(g) => Some(g@),
                None => None,
            },
        }
    }
}

impl Peer {
    /// Its roster is well formed.
    pub closed spec fn wf(&self) -> bool {
        self.connected.wf()
    }

    /// The connection of the player called `username`: number 0, kind `peer`.
    pub fn new(username: String) -> (res: Peer)
        ensures
            res.wf(),
            res@ == (PeerView {
                info: UserInfoView { name: username@, id: 0, what: kind_peer() },
                history: Seq::empty(),
                connected: Set::empty(),
                active_game: None,
            }),
    {
        proof {
            reveal_strlit("peer");
        }
        let what = String::from_str("peer");
        assert(what@ =~= kind_peer());
        let res = Peer {
            info: UserInfo { name: username, id: 0, what },
            message_history: Vec::new(),
            connected: Roster::new(),
            active_game: None,
        };
        assert(res@.history =~= Seq::<MessageView>::empty());
        res
    }

    /// Who the player is.
    pub fn info(&self) -> (res: UserInfo)
        ensures
            res@ == self@.info,
    {
        self.info.duplicate()
    }

    /// The bytes of `message` and `|end|`.
    pub fn frame(message: &Message) -> (res: Vec<u8>)
        ensures
            res@ == socket_frame(message@),
    {
        let mut bytes = message.as_bytes();
        let mut end: Vec<u8> = vec![124u8, 101u8, 110u8, 100u8, 124u8];
        bytes.append(&mut end);
        assert(bytes@ =~= socket_frame(message@));
        bytes
    }

    /// Keeps `message` and gives the bytes to write to the player's socket.
    pub fn on_message(&mut self, message: Message) -> (res: Vec<u8>)
        requires
            old(self).wf(),
        ensures
            final(self).wf(),
            final(self)@ == (PeerView { history: old(self)@.history.push(message@), ..old(self)@ }),
            res@ == socket_frame(message@),
    {
        let ghost p = self@;
        let res = Peer::frame(&message);
        self.message_history.push(message);
        assert(self@.history =~= p.history.push(message@));
        res
    }

    /// Records a new link (see `after_peer_link`); a link to a game makes it
    /// the active game and says what to send for the join.
    pub fn on_link(&mut self, info: UserInfo) -> (res: Option<JoinPlan>)
        requires
            old(self).wf(),
        ensures
            final(self).wf(),
            final(self)@ == after_peer_link(old(self)@, info@),
            info@.what == kind_game() ==> (res matches Some(plan)
                && plan.socket_bytes@ == socket_frame(MessageView { info: info@, bytes: seq![106u8] })
                && plan.notify_game.to@ == info@
                && plan.notify_game.message@ == (MessageView { info: old(self)@.info, bytes: seq![106u8, 111u8, 105u8] })),
            info@.what != kind_game() ==> res is None,
            info@.what == kind_game() ==> final(self)@.active_game == Some(info@),
            info@.what != kind_game() ==> final(self)@.active_game == old(self)@.active_game,
            final(self)@.connected.contains(info@),
    {
        let is_game = info.is_game();
        let game = info.duplicate();
        self.connected.insert(info);
        if is_game {
            let joined = Message { info: game.duplicate(), bytes: vec![106u8] };
            assert(joined@.bytes =~= seq![106u8]);
            let socket_bytes = Peer::frame(&joined);
            let joi = Message { info: self.info.duplicate(), bytes: vec![106u8, 111u8, 105u8] };
            assert(joi@.bytes =~= seq![106u8, 111u8, 105u8]);
            let notify_game = Outgoing { to: game.duplicate(), message: joi };
            self.active_game = Some(game);
            Some(JoinPlan { socket_bytes, notify_game })
        } else {
            None
        }
    }

    /// Routes the bytes the player sent (see `peer_route`).
    pub fn interpret_bytes(&self, bytes: &Vec<u8>) -> (res: Option<PeerSend>)
        requires
            self.wf(),
            bytes@.len() >= 3,
        ensures
            match peer_route(self@, bytes@) {
                Some((to, m, must)) => res matches Some(s) && s.out.to@ == to && s.out.message@ == m
                    && s.must_deliver == must,
                None => res is None,
            },
            (starts_with3(bytes@, 114, 101, 97) || starts_with3(bytes@, 108, 97, 117) || starts_with3(bytes@, 108, 101, 97))
                ==> match self@.active_game {
                Some(g) => if self@.connected.contains(g) {
                    res matches Some(s) && s.out.to@ == g && s.out.message@.info == self@.info
                        && s.out.message@.bytes == bytes@.take(3) && !s.must_deliver
                } else {
                    res is None
                },
                None => res is None,
            },
    {
        let b0 = bytes[0];
        let b1 = bytes[1];
        let b2 = bytes[2];
        if b0 == 103 && b1 == 108 && b2 == 111 {
            let chat = global_chat_info();
            if self.connected.contains(&chat) {
                let rest = crate::utilities::copy_range(bytes, 3, bytes.len());
                let m = Message { info: self.info.duplicate(), bytes: rest };
                return Some(PeerSend { out: Outgoing { to: chat, message: m }, must_deliver: true });
            }
            return None;
        }
        if b0 == 103 && b1 == 104 {
            let handler = lobby_handler_info();
            if self.connected.contains(&handler) {
                let rest = crate::utilities::copy_range(bytes, 2, bytes.len());
                let m = Message { info: self.info.duplicate(), bytes: rest };
                return Some(PeerSend { out: Outgoing { to: handler, message: m }, must_deliver: true });
            }
            return None;
        }
        if (b0 == 114 && b1 == 101 && b2 == 97) || (b0 == 108 && b1 == 97 && b2 == 117) || (b0 == 108 && b1 == 101
            && b2 == 97) {
            match &self.active_game {
                Some(g) => {
                    if self.connected.contains(g) {
                        let req = crate::utilities::copy_range(bytes, 0, 3);
                        let m = Message { info: self.info.duplicate(), bytes: req };
                        return Some(PeerSend { out: Outgoing { to: g.duplicate(), message: m }, must_deliver: false });
                    }
                    return None;
                },
                None => {
                    return None;
                },
            }
        }
        None
    }

    /// What the peer sends when its player leaves: byte 60 to every linked actor.
    pub fn on_disconnect(&self) -> (res: Vec<Outgoing>)
        requires
            self.wf(),
        ensures
            targets(res@).no_duplicates(),
            targets(res@).to_set() == self@.connected,
            all_carry(res@, MessageView { info: self@.info, bytes: seq![60u8] }),
    {
        let to = self.connected.members();
        let bytes: Vec<u8> = vec![60u8];
        assert(bytes@ =~= seq![60u8]);
        address_to(to, &self.info, &bytes)
    }
}

/// The global chat's identity.
fn global_chat_info() -> (res: UserInfo)
    ensures
        res@ == global_chat(),
{
    proof {
        reveal_strlit("Global");
        reveal_strlit("chat");
    }
    let name = String::from_str("Global");
    let what = String::from_str("chat");
    assert(name@ =~= seq!['G', 'l', 'o', 'b', 'a', 'l']);
    assert(what@ =~= kind_chat());
    UserInfo { name, id: 0, what }
}

/// The game handler's identity.
fn lobby_handler_info() -> (res: UserInfo)
    ensures
        res@ == lobby_handler(),
{
    proof {
        reveal_strlit("GameHandler");
        reveal_strlit("game_handler");
    }
    let name = String::from_str("GameHandler");
    let what = String::from_str("game_handler");
    assert(name@ =~= seq!['G', 'a', 'm', 'e', 'H', 'a', 'n', 'd', 'l', 'e', 'r']);
    assert(what@ =~= kind_game_handler());
    UserInfo { name, id: 0, what }
}

/// A player's `rea`, `lau` and `lea` go to the active game, as those three
/// bytes and from the player, when the peer is linked to it; with no linked
/// active game they go nowhere.
pub proof fn lemma_game_requests_reach_active_game(p: PeerView, b: Seq<u8>)
    requires
        starts_with3(b, 114, 101, 97) || starts_with3(b, 108, 97, 117) || starts_with3(b, 108, 101, 97),
    ensures
        match p.active_game {
            Some(g) => if p.connected.contains(g) {
                peer_route(p, b) == Some((g, MessageView { info: p.info, bytes: seq![b[0], b[1], b[2]] }, false))
            } else {
                peer_route(p, b) is None
            },
            None => peer_route(p, b) is None,
        },
{
    assert(b.take(3) =~= seq![b[0], b[1], b[2]]);
}

/// Linking to a game makes it the active game, even when another game was
/// active; any other link leaves the active game as it was. Either way the
/// peer is linked to the actor afterwards.
pub proof fn lemma_game_link_sets_active_game(p: PeerView, u: UserInfoView)
    ensures
        u.what == kind_game() ==> after_peer_link(p, u).active_game == Some(u),
        u.what != kind_game() ==> after_peer_link(p, u).active_game == p.active_game,
        after_peer_link(p, u).connected.contains(u),
        after_peer_link(p, u).info == p.info,
{
}

} // verus!
