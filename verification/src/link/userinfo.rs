//! Who an actor is: a name, a number and a kind (`"peer"`, `"chat"`, `"game"`, ...).
use vstd::prelude::*;
use vstd::string::StringExecFns;
use vstd::utf8::encode_utf8;

use crate::utilities::{be_bytes_u32, decimal, u32_decimal, u32_to_be_bytes};

verus! {

/// The identity of an actor of the server.
#[derive(Hash, PartialEq, Eq, Clone, Debug)]
pub struct UserInfo {
    pub name: String,
    pub id: u32,
    pub what: String,
}

/// What a `UserInfo` is: its name, its number and its kind.
pub struct UserInfoView {
    pub name: Seq<char>,
    pub id: u32,
    pub what: Seq<char>,
}

impl View for UserInfo {
    type V = UserInfoView;

    open spec fn view(&self) -> UserInfoView {
        UserInfoView { name: self.name@, id: self.id, what: self.what@ }
    }
}

/// The text `name (id: N)`.
pub open spec fn user_text(u: UserInfoView) -> Seq<char> {
    u.name + seq![' ', '(', 'i', 'd', ':', ' '] + decimal(u.id as nat) + seq![')']
}

/// The bytes of a user: its number in big-endian order, then its name.
pub open spec fn user_bytes(u: UserInfoView) -> Seq<u8> {
    be_bytes_u32(u.id) + encode_utf8(u.name)
}

/// The kind of a player's connection.
pub open spec fn kind_peer() -> Seq<char> {
    seq!['p', 'e', 'e', 'r']
}

/// The kind of a game.
pub open spec fn kind_game() -> Seq<char> {
    seq!['g', 'a', 'm', 'e']
}

/// The kind of a chat.
pub open spec fn kind_chat() -> Seq<char> {
    seq!['c', 'h', 'a', 't']
}

/// The kind of the game handler.
pub open spec fn kind_game_handler() -> Seq<char> {
    seq!['g', 'a', 'm', 'e', '_', 'h', 'a', 'n', 'd', 'l', 'e', 'r']
}

impl UserInfo {
    /// A user with the given name, number and kind.
    pub fn new(name: String, id: u32, what: String) -> (res: UserInfo)
        ensures
            res@ == (UserInfoView { name: name@, id, what: what@ }),
    {
        UserInfo { name, id, what }
    }

    /// A copy of this user.
    pub fn duplicate(&self) -> (res: UserInfo)
        ensures
            res@ == self@,
    {
        UserInfo { name: self.name.clone(), id: self.id, what: self.what.clone() }
    }

    /// Whether both users have the same name, number and kind.
    pub fn same_as(&self, other: &UserInfo) -> (res: bool)
        ensures
            res == (self@ == other@),
    {
        self.id == other.id && self.name == other.name && self.what == other.what
    }

    /// Whether this user is of the given kind.
    pub fn is_kind(&self, what: &str) -> (res: bool)
        ensures
            res == (self@.what == what@),
    {
        let w = String::from_str(what);
        self.what == w
    }

    /// Whether this user is a player's connection.
    pub fn is_peer(&self) -> (res: bool)
        ensures
            res == (self@.what == kind_peer()),
    {
        proof {
            reveal_strlit("peer");
            assert("peer"@ =~= kind_peer());
        }
        self.is_kind("peer")
    }

    /// Whether this user is a game.
    pub fn is_game(&self) -> (res: bool)
        ensures
            res == (self@.what == kind_game()),
    {
        proof {
            reveal_strlit("game");
            assert("game"@ =~= kind_game());
        }
        self.is_kind("game")
    }

    /// Whether this user is the game handler.
    pub fn is_game_handler(&self) -> (res: bool)
        ensures
            res == (self@.what == kind_game_handler()),
    {
        proof {
            reveal_strlit("game_handler");
            assert("game_handler"@ =~= kind_game_handler());
        }
        self.is_kind("game_handler")
    }

    /// The text `name (id: N)`.
    pub fn to_string(&self) -> (res: String)
        ensures
            res@ == user_text(self@),
    {
        let mut s = self.name.clone();
        s.append(" (id: ");
        let digits = u32_decimal(self.id);
        s.append(digits.as_str());
        s.append(")");
        proof {
            reveal_strlit(" (id: ");
            reveal_strlit(")");
        }
        assert(s@ =~= user_text(self@));
        s
    }

    /// The number in big-endian order, followed by the bytes of the name.
    pub fn as_bytes(&self) -> (res: Vec<u8>)
        ensures
            res@ == user_bytes(self@),
    {
        let mut bytes = u32_to_be_bytes(self.id);
        let mut name = vstd::slice::slice_to_vec(self.name.as_str().as_bytes());
        bytes.append(&mut name);
        bytes
    }
}

} // verus!
