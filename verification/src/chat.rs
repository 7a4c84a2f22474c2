//! A chat room: every message it gets goes to every actor linked to it.
use vstd::prelude::*;
use vstd::string::StringExecFns;

use crate::link::message::{address_to, all_carry, targets, Message, MessageView, Outgoing};
use crate::link::userinfo::{kind_chat, UserInfo, UserInfoView};
use crate::registry::{views_of, Roster};

verus! {

/// What a chat is: who it is, what it got, and who is linked to it.
pub struct ChatView {
    pub info: UserInfoView,
    pub history: Seq<MessageView>,
    pub connected: Set<UserInfoView>,
}

/// The message that a chat relays: the same author, byte 103 before the content.
pub open spec fn relayed(m: MessageView) -> MessageView {
    MessageView { info: m.info, bytes: seq![103u8] + m.bytes }
}

/// A chat room.
pub struct Chat {
    info: UserInfo,
    message_history: Vec<Message>,
    connected: Roster,
}

impl View for Chat {
    type V = ChatView;

    closed spec fn view(&self) -> ChatView {
        ChatView {
            info: self.info@,
            history: self.message_history@.map_values(|m: Message| m@),
            connected: self.connected@,
        }
    }
}

impl Chat {
    /// Its roster is well formed.
    pub closed spec fn wf(&self) -> bool {
        self.connected.wf()
    }

    /// A chat named `name` (or `Chat`) with nobody linked.
    pub fn new(id: u32, name: Option<String>) -> (res: Chat)
        ensures
            res.wf(),
            res@ == (ChatView {
                info: UserInfoView {
                    name: match name {
                        Some(n) => n@,
                        None => seq!['C', 'h', 'a', 't'],
                    },
                    id,
                    what: kind_chat(),
                },
                history: Seq::empty(),
                connected: Set::empty(),
            }),
    {
        let n = match name {
            Some(n) => n,
            None => {
                proof {
                    reveal_strlit("Chat");
                }
                let d = String::from_str("Chat");
                assert(d@ =~= seq!['C', 'h', 'a', 't']);
                d
            },
        };
        proof {
            reveal_strlit("chat");
        }
        let what = String::from_str("chat");
        assert(what@ =~= kind_chat());
        let res = Chat { info: UserInfo { name: n, id, what }, message_history: Vec::new(), connected: Roster::new() };
        assert(res@.history =~= Seq::<MessageView>::empty());
        res
    }

    /// Who the chat is.
    pub fn info(&self) -> (res: UserInfo)
        ensures
            res@ == self@.info,
    {
        self.info.duplicate()
    }

    /// Records a new link.
    pub fn on_link(&mut self, info: UserInfo)
        requires
            old(self).wf(),
        ensures
            final(self).wf(),
            final(self)@ == (ChatView { connected: old(self)@.connected.insert(info@), ..old(self)@ }),
    {
        self.connected.insert(info);
    }

    /// Keeps `message` and relays it (byte 103 first) to every linked actor, once each.
    pub fn on_message(&mut self, message: Message) -> (res: Vec<Outgoing>)
        requires
            old(self).wf(),
        ensures
            final(self).wf(),
            final(self)@ == (ChatView { history: old(self)@.history.push(message@), ..old(self)@ }),
            targets(res@).no_duplicates(),
            targets(res@).to_set() == old(self)@.connected,
            all_carry(res@, relayed(message@)),
    {
        let ghost c = self@;
        let kept = message.duplicate();
        self.message_history.push(kept);
        assert(self@.history =~= c.history.push(message@));
        let mut bytes: Vec<u8> = vec![103u8];
        let mut content = message.bytes.clone();
        bytes.append(&mut content);
        assert(bytes@ =~= seq![103u8] + message@.bytes);
        let recipients = self.connected.members();
        address_to(recipients, &message.info, &bytes)
    }

    /// Drops the links of the actors that a relay could not reach.
    pub fn remove_unreachable(&mut self, users: &Vec<UserInfo>)
        requires
            old(self).wf(),
        ensures
            final(self).wf(),
            final(self)@ == (ChatView { connected: old(self)@.connected.difference(views_of(users@).to_set()), ..old(self)@ }),
    {
        let ghost c = self@;
        let mut i: usize = 0;
        assert(c.connected.difference(views_of(users@).take(0).to_set()) =~= c.connected);
        while i < users.len()
            invariant
                i <= users@.len(),
                self.wf(),
                self@ == (ChatView { connected: c.connected.difference(views_of(users@).take(i as int).to_set()), ..c }),
            decreases users@.len() - i,
        {
            self.connected.remove(&users[i]);
            proof {
                let s0 = views_of(users@).take(i as int);
                let s1 = views_of(users@).take(i + 1);
                let u = users@[i as int]@;
                assert(s1 =~= s0.push(u));
                assert forall|x: UserInfoView| s1.contains(x) <==> (s0.contains(x) || x == u) by {
                    if s1.contains(x) {
                        let k = choose|k: int| 0 <= k < s1.len() && s1[k] == x;
                        if k < s0.len() {
                            assert(s0[k] == x);
                        }
                    }
                    if s0.contains(x) {
                        let k = choose|k: int| 0 <= k < s0.len() && s0[k] == x;
                        assert(s1[k] == x);
                    }
                    if x == u {
                        assert(s1[s0.len() as int] == x);
                    }
                }
                assert(self@.connected =~= c.connected.difference(s1.to_set()));
            }
            i = i + 1;
        }
        assert(views_of(users@).take(users@.len() as int) =~= views_of(users@));
    }
}

} // verus!
