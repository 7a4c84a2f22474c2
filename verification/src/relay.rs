//! The lobby in which actors are known by name alone: a chat that relays
//! each line with its author, and a handler that lists games.
use vstd::prelude::*;
use vstd::utf8::encode_utf8;

use crate::game::{game_state_bytes, starts_with3, GameState};

verus! {

/// A chat line and the name of its author.
pub struct Message {
    pub user: String,
    pub content: Vec<u8>,
}

/// What a chat line is: its author's name and its bytes.
pub struct RelayMessageView {
    pub user: Seq<char>,
    pub content: Seq<u8>,
}

impl View for Message {
    type V = RelayMessageView;

    open spec fn view(&self) -> RelayMessageView {
        RelayMessageView { user: self.user@, content: self.content@ }
    }
}

impl Message {
    /// A copy of this line.
    pub fn duplicate(&self) -> (res: Message)
        ensures
            res@ == self@,
    {
        Message { user: self.user.clone(), content: self.content.clone() }
    }
}

/// The names of a sequence of strings.
pub open spec fn names_of(s: Seq<String>) -> Seq<Seq<char>> {
    s.map_values(|n: String| n@)
}

/// A set of names, each held once.
pub struct NameSet {
    names: Vec<String>,
}

impl View for NameSet {
    type V = Set<Seq<char>>;

    closed spec fn view(&self) -> Set<Seq<char>> {
        names_of(self.names@).to_set()
    }
}

impl NameSet {
    /// No name is held twice.
    pub closed spec fn wf(&self) -> bool {
        names_of(self.names@).no_duplicates()
    }

    /// No names.
    pub fn new() -> (res: NameSet)
        ensures
            res.wf(),
            res@ == Set::<Seq<char>>::empty(),
    {
        let res = NameSet { names: Vec::new() };
        assert(names_of(res.names@) =~= Seq::<Seq<char>>::empty());
        assert(res@ =~= Set::<Seq<char>>::empty());
        res
    }

    fn find(&self, n: &String) -> (res: Option<usize>)
        ensures
            match res {
                Some(i) => i < self.names@.len() && names_of(self.names@)[i as int] == n@,
                None => !names_of(self.names@).contains(n@),
            },
    {
        let mut i: usize = 0;
        while i < self.names.len()
            invariant
                i <= self.names@.len(),
                forall|j: int| 0 <= j < i ==> names_of(self.names@)[j] != n@,
            decreases self.names@.len() - i,
        {
            if self.names[i] == *n {
                return Some(i);
            }
            i = i + 1;
        }
        None
    }

    /// Adds `n` unless it is held.
    pub fn insert(&mut self, n: String)
        requires
            old(self).wf(),
        ensures
            final(self).wf(),
            final(self)@ == old(self)@.insert(n@),
    {
        match self.find(&n) {
            Some(i) => {
                assert(names_of(self.names@).contains(n@));
                assert(old(self)@.insert(n@) =~= old(self)@);
            },
            None => {
                let ghost before = names_of(self.names@);
                let ghost nv = n@;
                self.names.push(n);
                assert(names_of(self.names@) =~= before.push(nv));
                assert forall|x: Seq<char>| names_of(self.names@).contains(x) <==> (before.contains(x) || x == nv) by {
                    let after = names_of(self.names@);
                    if after.contains(x) {
                        let k = choose|k: int| 0 <= k < after.len() && after[k] == x;
                        if k < before.len() {
                            assert(before[k] == x);
                        }
                    }
                    if before.contains(x) {
                        let k = choose|k: int| 0 <= k < before.len() && before[k] == x;
                        assert(after[k] == x);
                    }
                    if x == nv {
                        assert(after[before.len() as int] == x);
                    }
                }
                assert(self@ =~= old(self)@.insert(nv));
            },
        }
    }

    /// Removes `n` if it is held.
    pub fn remove(&mut self, n: &String)
        requires
            old(self).wf(),
        ensures
            final(self).wf(),
            final(self)@ == old(self)@.remove(n@),
    {
        match self.find(n) {
            Some(i) => {
                let ghost before = names_of(self.names@);
                let _ = self.names.remove(i);
                let ghost after = names_of(self.names@);
                assert(after =~= before.remove(i as int));
                assert forall|x: Seq<char>| after.contains(x) <==> (before.contains(x) && x != n@) by {
                    if after.contains(x) {
                        let k = choose|k: int| 0 <= k < after.len() && after[k] == x;
                        if k < i {
                            assert(before[k] == x);
                        } else {
                            assert(before[k + 1] == x);
                        }
                    }
                    if before.contains(x) && x != n@ {
                        let k = choose|k: int| 0 <= k < before.len() && before[k] == x;
                        if k < i {
                            assert(after[k] == x);
                        } else {
                            assert(after[k - 1] == x);
                        }
                    }
                }
                assert(self@ =~= old(self)@.remove(n@));
            },
            None => {
                assert(old(self)@.remove(n@) =~= old(self)@);
            },
        }
    }

    /// Copies of all names, each once.
    pub fn members(&self) -> (res: Vec<String>)
        requires
            self.wf(),
        ensures
            names_of(res@).no_duplicates(),
            names_of(res@).to_set() == self@,
    {
        let mut res: Vec<String> = Vec::new();
        let mut i: usize = 0;
        while i < self.names.len()
            invariant
                i <= self.names@.len(),
                res@.len() == i,
                forall|j: int| 0 <= j < i ==> (#[trigger] res@[j])@ == self.names@[j]@,
            decreases self.names@.len() - i,
        {
            res.push(self.names[i].clone());
            i = i + 1;
        }
        assert(names_of(res@) =~= names_of(self.names@));
        res
    }
}

/// What the relay chat is: its name, the lines it got, and who listens.
pub struct RelayChatView {
    pub id: Seq<char>,
    pub history: Seq<RelayMessageView>,
    pub connected: Set<Seq<char>>,
}

/// What a relay chat sends for a line: to each listener, byte 103 and the
/// line, then the author's name.
pub struct RelayFanout {
    pub recipients: Vec<String>,
    pub payloads: Vec<Vec<u8>>,
}

/// A chat in which actors are known by name.
pub struct Chat {
    id: String,
    message_history: Vec<Message>,
    connected: NameSet,
}

impl View for Chat {
    type V = RelayChatView;

    closed spec fn view(&self) -> RelayChatView {
        RelayChatView {
            id: self.id@,
            history: self.message_history@.map_values(|m: Message| m@),
            connected: self.connected@,
        }
    }
}

impl Chat {
    /// Its listeners are well formed.
    pub closed spec fn wf(&self) -> bool {
        self.connected.wf()
    }

    /// A chat called `id` with no listeners.
    pub fn new(id: String) -> (res: Chat)
        ensures
            res.wf(),
            res@ == (RelayChatView { id: id@, history: Seq::empty(), connected: Set::empty() }),
    {
        let res = Chat { id, message_history: Vec::new(), connected: NameSet::new() };
        assert(res@.history =~= Seq::<RelayMessageView>::empty());
        res
    }

    /// Adds a listener.
    pub fn add_sender(&mut self, user: String)
        requires
            old(self).wf(),
        ensures
            final(self).wf(),
            final(self)@ == (RelayChatView { connected: old(self)@.connected.insert(user@), ..old(self)@ }),
    {
        self.connected.insert(user);
    }

    /// Keeps the line and says what goes to whom.
    pub fn on_message(&mut self, msg: Message) -> (res: RelayFanout)
        requires
            old(self).wf(),
        ensures
            final(self).wf(),
            final(self)@ == (RelayChatView { history: old(self)@.history.push(msg@), ..old(self)@ }),
            names_of(res.recipients@).no_duplicates(),
            names_of(res.recipients@).to_set() == old(self)@.connected,
            res.payloads@.len() == 2,
            res.payloads@[0]@ == seq![103u8] + msg@.content,
            res.payloads@[1]@ == encode_utf8(msg@.user),
    {
        let ghost c = self@;
        let kept = msg.duplicate();
        self.message_history.push(kept);
        assert(self@.history =~= c.history.push(msg@));
        let mut first: Vec<u8> = vec![103u8];
        let mut content = msg.content.clone();
        first.append(&mut content);
        assert(first@ =~= seq![103u8] + msg@.content);
        let second = vstd::slice::slice_to_vec(msg.user.as_str().as_bytes());
        let mut payloads: Vec<Vec<u8>> = Vec::new();
        payloads.push(first);
        payloads.push(second);
        let recipients = self.connected.members();
        RelayFanout { recipients, payloads }
    }

    /// Drops the listeners that could not be reached.
    pub fn remove_users(&mut self, users: &Vec<String>)
        requires
            old(self).wf(),
        ensures
            final(self).wf(),
            final(self)@ == (RelayChatView { connected: old(self)@.connected.difference(names_of(users@).to_set()), ..old(self)@ }),
    {
        let ghost c = self@;
        let mut i: usize = 0;
        assert(c.connected.difference(names_of(users@).take(0).to_set()) =~= c.connected);
        while i < users.len()
            invariant
                i <= users@.len(),
                self.wf(),
                self@ == (RelayChatView { connected: c.connected.difference(names_of(users@).take(i as int).to_set()), ..c }),
            decreases users@.len() - i,
        {
            self.connected.remove(&users[i]);
            proof {
                let s0 = names_of(users@).take(i as int);
                let s1 = names_of(users@).take(i + 1);
                let u = users@[i as int]@;
                assert(s1 =~= s0.push(u));
                assert forall|x: Seq<char>| s1.contains(x) <==> (s0.contains(x) || x == u) by {
                    if s1.contains(x) {
                        let k = choose|k: int| 0 <= k < s1.len() && s1[k] == x;
                        if k < s0.len() {
                            assert(s0[k] == x);
                        }
                    }
                    if s0.contains(x) {
                        let k = choose|k: int| 0 <= k < s0.len() && s0[k] == x;
                        assert(s1[k] == x);
                    }
                    if x == u {
                        assert(s1[s0.len() as int] == x);
                    }
                }
                assert(self@.connected =~= c.connected.difference(s1.to_set()));
            }
            i = i + 1;
        }
        assert(names_of(users@).take(users@.len() as int) =~= names_of(users@));
    }
}

/// The games that `info_as_bytes(n)` lists: the first `n`, and at least the
/// first one, as its counter is checked only after a game is listed.
pub open spec fn listed_count(len: nat, n: u32) -> nat {
    if len == 0 {
        0
    } else if n <= 1 {
        1
    } else if n >= len {
        len
    } else {
        n as nat
    }
}

/// The bytes of the game states in `s`, one after another.
pub open spec fn states_bytes(s: Seq<GameState>) -> Seq<u8>
    decreases s.len(),
{
    if s.len() == 0 {
        Seq::empty()
    } else {
        states_bytes(s.drop_last()) + game_state_bytes(s.last())
    }
}

/// The game states of a list of games.
pub open spec fn states_of(s: Seq<(u32, GameState)>) -> Seq<GameState> {
    s.map_values(|g: (u32, GameState)| g.1)
}

/// What the relay handler is: its name, its games, and who it answers.
pub struct RelayHandlerView {
    pub id: Seq<char>,
    pub games: Seq<(u32, GameState)>,
    pub connected: Set<Seq<char>>,
}

/// A handler in which actors are known by name.
pub struct GameHandler {
    id: String,
    list_of_games: Vec<(u32, GameState)>,
    connected: NameSet,
}

impl View for GameHandler {
    type V = RelayHandlerView;

    closed spec fn view(&self) -> RelayHandlerView {
        RelayHandlerView { id: self.id@, games: self.list_of_games@, connected: self.connected@ }
    }
}

impl GameHandler {
    /// Its listeners are well formed.
    pub closed spec fn wf(&self) -> bool {
        self.connected.wf()
    }

    /// A handler called `id` with no games and nobody to answer.
    pub fn new(id: String) -> (res: GameHandler)
        ensures
            res.wf(),
            res@ == (RelayHandlerView { id: id@, games: Seq::empty(), connected: Set::empty() }),
    {
        GameHandler { id, list_of_games: Vec::new(), connected: NameSet::new() }
    }

    /// The states of the first games, as `listed_count` says how many.
    pub fn info_as_bytes(&self, n: u32) -> (res: Vec<u8>)
        ensures
            res@ == states_bytes(states_of(self@.games).take(listed_count(self@.games.len(), n) as int)),
    {
        let mut counter: u32 = 0;
        let mut bytes: Vec<u8> = Vec::new();
        let mut i: usize = 0;
        let ghost games = states_of(self@.games);
        while i < self.list_of_games.len()
            invariant_except_break
                i == 0 || i < n,
            invariant
                i <= self.list_of_games@.len(),
                games == states_of(self@.games),
                counter == i,
                bytes@ == states_bytes(games.take(i as int)),
            ensures
                bytes@ == states_bytes(games.take(listed_count(games.len(), n) as int)),
            decreases self.list_of_games@.len() - i,
        {
            let mut b = self.list_of_games[i].1.to_bytes();
            bytes.append(&mut b);
            assert(games.take(i + 1).drop_last() =~= games.take(i as int));
            assert(bytes@ =~= states_bytes(games.take(i + 1)));
            counter = counter + 1;
            i = i + 1;
            if counter >= n {
                break;
            }
        }
        assert(games.take(games.len() as int) =~= games);
        bytes
    }

    /// Adds someone to answer.
    pub fn add_user(&mut self, user: String)
        requires
            old(self).wf(),
        ensures
            final(self).wf(),
            final(self)@ == (RelayHandlerView { connected: old(self)@.connected.insert(user@), ..old(self)@ }),
    {
        self.connected.insert(user);
    }

    /// Answers a command: `ghi` is answered with byte 105 and the states of up
    /// to twenty games; anything else gets no answer.
    pub fn handle_command(&self, command: &Message) -> (res: Option<Vec<u8>>)
        requires
            command@.content.len() >= 3,
        ensures
            starts_with3(command@.content, 103, 104, 105) ==> (res matches Some(b) && b@ == seq![105u8]
                + states_bytes(states_of(self@.games).take(listed_count(self@.games.len(), 20) as int))),
            !starts_with3(command@.content, 103, 104, 105) ==> res is None,
    {
        let c = &command.content;
        if c[0] == 103 && c[1] == 104 && c[2] == 105 {
            let mut to_send_back: Vec<u8> = vec![105u8];
            let mut list = self.info_as_bytes(20);
            to_send_back.append(&mut list);
            Some(to_send_back)
        } else {
            None
        }
    }
}

} // verus!
