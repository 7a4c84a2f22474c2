//! A message between two actors: who sent it and its bytes.
use vstd::prelude::*;

use crate::link::userinfo::{user_bytes, UserInfo, UserInfoView};
use crate::registry::views_of;

verus! {

/// A message and the actor it comes from.
pub struct Message {
    pub info: UserInfo,
    pub bytes: Vec<u8>,
}

/// What a message is: its author and its bytes.
pub struct MessageView {
    pub info: UserInfoView,
    pub bytes: Seq<u8>,
}

impl View for Message {
    type V = MessageView;

    open spec fn view(&self) -> MessageView {
        MessageView { info: self.info@, bytes: self.bytes@ }
    }
}

/// The bytes of `|user|`.
pub open spec fn user_separator() -> Seq<u8> {
    seq![124u8, 117u8, 115u8, 101u8, 114u8, 124u8]
}

/// The bytes of a message: its author, `|user|`, then its content.
pub open spec fn message_bytes(m: MessageView) -> Seq<u8> {
    user_bytes(m.info) + user_separator() + m.bytes
}

impl Message {
    /// A message from `info` holding `bytes`.
    pub fn new(info: UserInfo, bytes: Vec<u8>) -> (res: Message)
        ensures
            res@ == (MessageView { info: info@, bytes: bytes@ }),
    {
        Message { info, bytes }
    }

    /// A copy of this message.
    pub fn duplicate(&self) -> (res: Message)
        ensures
            res@ == self@,
    {
        Message { info: self.info.duplicate(), bytes: self.bytes.clone() }
    }

    /// The author's bytes, `|user|`, then the content.
    pub fn as_bytes(&self) -> (res: Vec<u8>)
        ensures
            res@ == message_bytes(self@),
    {
        let mut bytes = self.info.as_bytes();
        let mut sep: Vec<u8> = vec![124u8, 117u8, 115u8, 101u8, 114u8, 124u8];
        bytes.append(&mut sep);
        let mut content = self.bytes.clone();
        bytes.append(&mut content);
        assert(bytes@ =~= message_bytes(self@));
        bytes
    }
}

/// A message to hand to an actor.
pub struct Outgoing {
    pub to: UserInfo,
    pub message: Message,
}

/// The actors that a list of outgoing messages goes to.
pub open spec fn targets(s: Seq<Outgoing>) -> Seq<UserInfoView> {
    s.map_values(|o: Outgoing| o.to@)
}

/// Every message of the list is `m`.
pub open spec fn all_carry(s: Seq<Outgoing>, m: MessageView) -> bool {
    forall|i: int| 0 <= i < s.len() ==> (#[trigger] s[i]).message@ == m
}

/// The same message, from `from` with `bytes`, addressed to each of `to`.
pub fn address_to(to: Vec<UserInfo>, from: &UserInfo, bytes: &Vec<u8>) -> (res: Vec<Outgoing>)
    ensures
        targets(res@) == views_of(to@),
        all_carry(res@, MessageView { info: from@, bytes: bytes@ }),
{
    let mut res: Vec<Outgoing> = Vec::new();
    let mut i: usize = 0;
    while i < to.len()
        invariant
            i <= to@.len(),
            res@.len() == i,
            forall|j: int| 0 <= j < i ==> (#[trigger] res@[j]).to@ == to@[j]@,
            all_carry(res@, MessageView { info: from@, bytes: bytes@ }),
        decreases to@.len() - i,
    {
        let m = Message { info: from.duplicate(), bytes: bytes.clone() };
        res.push(Outgoing { to: to[i].duplicate(), message: m });
        i = i + 1;
    }
    assert(targets(res@) =~= views_of(to@));
    res
}

} // verus!
