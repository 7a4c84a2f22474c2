//! Collections keyed by actors: a roster of linked actors and a table that
//! holds one value per actor.
use vstd::prelude::*;

use crate::link::userinfo::{UserInfo, UserInfoView};

verus! {

/// The views of a sequence of users.
pub open spec fn views_of(s: Seq<UserInfo>) -> Seq<UserInfoView> {
    s.map_values(|u: UserInfo| u@)
}

/// A set of actors, each held once.
pub struct Roster {
    members: Vec<UserInfo>,
}

impl Roster {
    /// The members in the order in which they are held.
    pub closed spec fn order(&self) -> Seq<UserInfoView> {
        views_of(self.members@)
    }

    /// No actor is held twice.
    pub closed spec fn wf(&self) -> bool {
        self.order().no_duplicates()
    }
}

impl View for Roster {
    type V = Set<UserInfoView>;

    closed spec fn view(&self) -> Set<UserInfoView> {
        self.order().to_set()
    }
}

impl Roster {
    /// An empty roster.
    pub fn new() -> (res: Roster)
        ensures
            res.wf(),
            res@ == Set::<UserInfoView>::empty(),
    {
        let res = Roster { members: Vec::new() };
        assert(res.order() =~= Seq::<UserInfoView>::empty());
        assert(res@ =~= Set::<UserInfoView>::empty());
        res
    }

    fn find(&self, u: &UserInfo) -> (res: Option<usize>)
        ensures
            match res {
                Some(i) => i < self.members@.len() && self.order()[i as int] == u@,
                None => !self.order().contains(u@),
            },
    {
        let mut i: usize = 0;
        while i < self.members.len()
            invariant
                i <= self.members@.len(),
                forall|j: int| 0 <= j < i ==> self.order()[j] != u@,
            decreases self.members@.len() - i,
        {
            if self.members[i].same_as(u) {
                return Some(i);
            }
            i = i + 1;
        }
        None
    }

    /// Whether `u` is a member.
    pub fn contains(&self, u: &UserInfo) -> (res: bool)
        ensures
            res == self@.contains(u@),
    {
        match self.find(u) {
            Some(i) => {
                assert(self.order().contains(u@));
                true
            },
            None => false,
        }
    }

    /// Adds `u` unless it is already a member.
    pub fn insert(&mut self, u: UserInfo)
        requires
            old(self).wf(),
        ensures
            final(self).wf(),
            final(self)@ == old(self)@.insert(u@),
    {
        if !self.contains(&u) {
            let ghost before = self.order();
            let ghost uv = u@;
            self.members.push(u);
            assert(self.order() =~= before.push(uv));
            assert(self@ =~= old(self)@.insert(uv)) by {
                assert forall|x: UserInfoView| self.order().contains(x) <==> (before.contains(x) || x == uv) by {
                    if self.order().contains(x) {
                        let k = choose|k: int| 0 <= k < self.order().len() && self.order()[k] == x;
                        if k < before.len() {
                            assert(before[k] == x);
                        }
                    }
                    if before.contains(x) {
                        let k = choose|k: int| 0 <= k < before.len() && before[k] == x;
                        assert(self.order()[k] == x);
                    }
                    if x == uv {
                        assert(self.order()[before.len() as int] == x);
                    }
                }
            }
        } else {
            assert(old(self)@.insert(u@) =~= old(self)@);
        }
    }

    /// Removes `u` if it is a member.
    pub fn remove(&mut self, u: &UserInfo)
        requires
            old(self).wf(),
        ensures
            final(self).wf(),
            final(self)@ == old(self)@.remove(u@),
    {
        match self.find(u) {
            Some(i) => {
                let ghost before = self.order();
                let _ = self.members.remove(i);
                assert(self.order() =~= before.remove(i as int));
                assert forall|x: UserInfoView| self.order().contains(x) <==> (before.contains(x) && x != u@) by {
                    if self.order().contains(x) {
                        let k = choose|k: int| 0 <= k < self.order().len() && self.order()[k] == x;
                        if k < i {
                            assert(before[k] == x);
                        } else {
                            assert(before[k + 1] == x);
                        }
                    }
                    if before.contains(x) && x != u@ {
                        let k = choose|k: int| 0 <= k < before.len() && before[k] == x;
                        if k < i {
                            assert(self.order()[k] == x);
                        } else {
                            assert(self.order()[k - 1] == x);
                        }
                    }
                }
                assert(self@ =~= old(self)@.remove(u@));
            },
            None => {
                assert(old(self)@.remove(u@) =~= old(self)@);
            },
        }
    }

    /// Copies of all members, each once.
    pub fn members(&self) -> (res: Vec<UserInfo>)
        requires
            self.wf(),
        ensures
            views_of(res@).no_duplicates(),
            views_of(res@).to_set() == self@,
    {
        let mut res: Vec<UserInfo> = Vec::new();
        let mut i: usize = 0;
        while i < self.members.len()
            invariant
                i <= self.members@.len(),
                res@.len() == i,
                forall|j: int| 0 <= j < i ==> (#[trigger] res@[j])@ == self.members@[j]@,
            decreases self.members@.len() - i,
        {
            let c = self.members[i].duplicate();
            res.push(c);
            i = i + 1;
        }
        assert(views_of(res@) =~= self.order());
        res
    }

    /// Copies of the members whose kind is `what`, each once.
    pub fn members_of_kind(&self, what: &str) -> (res: Vec<UserInfo>)
        requires
            self.wf(),
        ensures
            views_of(res@).no_duplicates(),
            views_of(res@).to_set() == self@.filter(|u: UserInfoView| u.what == what@),
    {
        let mut res: Vec<UserInfo> = Vec::new();
        let mut i: usize = 0;
        let ghost all = self.order();
        let ghost mut src: Seq<int> = Seq::empty();
        while i < self.members.len()
            invariant
                i <= self.members@.len(),
                all == self.order(),
                all.no_duplicates(),
                src.len() == res@.len(),
                forall|k: int| 0 <= k < src.len() ==> 0 <= #[trigger] src[k] < i && all[src[k]] == views_of(res@)[k],
                forall|k: int, l: int| 0 <= k < l < src.len() ==> src[k] < src[l],
                forall|j: int| 0 <= j < i && all[j].what == what@ ==> views_of(res@).contains(#[trigger] all[j]),
                forall|k: int| 0 <= k < views_of(res@).len() ==> (#[trigger] views_of(res@)[k]).what == what@,
            decreases self.members@.len() - i,
        {
            if self.members[i].is_kind(what) {
                let ghost before = views_of(res@);
                let c = self.members[i].duplicate();
                res.push(c);
                proof {
                    src = src.push(i as int);
                }
                assert(views_of(res@) =~= before.push(all[i as int]));
                assert forall|j: int| 0 <= j < i + 1 && all[j].what == what@ implies views_of(res@).contains(#[trigger] all[j]) by {
                    if j == i {
                        assert(views_of(res@)[before.len() as int] == all[j]);
                    } else {
                        let k = choose|k: int| 0 <= k < before.len() && before[k] == all[j];
                        assert(views_of(res@)[k] == all[j]);
                    }
                }
            }
            i = i + 1;
        }
        assert(views_of(res@).no_duplicates()) by {
            assert forall|k: int, l: int| 0 <= k < views_of(res@).len() && 0 <= l < views_of(res@).len() && k != l implies views_of(res@)[k] != views_of(res@)[l] by {
                assert(src[k] != src[l]);
                assert(all[src[k]] != all[src[l]]);
            }
        }
        assert(views_of(res@).to_set() =~= self@.filter(|u: UserInfoView| u.what == what@)) by {
            assert forall|x: UserInfoView| views_of(res@).contains(x) implies all.contains(x) && x.what == what@ by {
                let k = choose|k: int| 0 <= k < views_of(res@).len() && views_of(res@)[k] == x;
                assert(all[src[k]] == x);
            }
            assert forall|x: UserInfoView| all.contains(x) && x.what == what@ implies views_of(res@).contains(x) by {
                let j = choose|j: int| 0 <= j < all.len() && all[j] == x;
            }
        }
        res
    }
}

/// The keys of a sequence of entries.
pub open spec fn keys_of<V>(s: Seq<(UserInfo, V)>) -> Seq<UserInfoView> {
    s.map_values(|e: (UserInfo, V)| e.0@)
}

/// The map that a sequence of entries with distinct keys stands for.
pub open spec fn entries_map<V>(s: Seq<(UserInfo, V)>) -> Map<UserInfoView, V> {
    Map::new(
        |k: UserInfoView| keys_of(s).contains(k),
        |k: UserInfoView| s[choose|i: int| 0 <= i < s.len() && keys_of(s)[i] == k].1,
    )
}

/// In a sequence with distinct keys, each key maps to the value held beside it.
pub proof fn lemma_entries_map_at<V>(s: Seq<(UserInfo, V)>, i: int)
    requires
        keys_of(s).no_duplicates(),
        0 <= i < s.len(),
    ensures
        entries_map(s).contains_key(s[i].0@),
        entries_map(s)[s[i].0@] == s[i].1,
{
    assert(keys_of(s)[i] == s[i].0@);
    let j = choose|j: int| 0 <= j < s.len() && keys_of(s)[j] == s[i].0@;
    assert(keys_of(s)[j] == keys_of(s)[i]);
}

/// A map is the one that a sequence stands for when it has the same keys and
/// the same value beside each key.
pub proof fn lemma_entries_map_equal<V>(s: Seq<(UserInfo, V)>, m: Map<UserInfoView, V>)
    requires
        keys_of(s).no_duplicates(),
        forall|k: UserInfoView| m.contains_key(k) <==> keys_of(s).contains(k),
        forall|i: int| 0 <= i < s.len() ==> m[#[trigger] s[i].0@] == s[i].1,
    ensures
        entries_map(s) == m,
{
    assert forall|k: UserInfoView| #[trigger] entries_map(s).contains_key(k) implies entries_map(s)[k] == m[k] by {
        let i = choose|i: int| 0 <= i < keys_of(s).len() && keys_of(s)[i] == k;
        lemma_entries_map_at(s, i);
        assert(s[i].0@ == k);
    }
    assert(entries_map(s) =~= m);
}

/// One value per actor.
pub struct UserTable<V> {
    entries: Vec<(UserInfo, V)>,
}

impl<V: Copy> UserTable<V> {
    /// No actor has two entries.
    pub closed spec fn wf(&self) -> bool {
        keys_of(self.entries@).no_duplicates()
    }

    /// The value of each actor.
    pub closed spec fn map(&self) -> Map<UserInfoView, V> {
        entries_map(self.entries@)
    }

    /// An empty table.
    pub fn new() -> (res: UserTable<V>)
        ensures
            res.wf(),
            res.map() == Map::<UserInfoView, V>::empty(),
    {
        let res = UserTable { entries: Vec::new() };
        assert(keys_of(res.entries@) =~= Seq::<UserInfoView>::empty());
        assert(res.map() =~= Map::<UserInfoView, V>::empty());
        res
    }

    fn find(&self, u: &UserInfo) -> (res: Option<usize>)
        ensures
            match res {
                Some(i) => i < self.entries@.len() && keys_of(self.entries@)[i as int] == u@,
                None => !keys_of(self.entries@).contains(u@),
            },
    {
        let mut i: usize = 0;
        while i < self.entries.len()
            invariant
                i <= self.entries@.len(),
                forall|j: int| 0 <= j < i ==> keys_of(self.entries@)[j] != u@,
            decreases self.entries@.len() - i,
        {
            if self.entries[i].0.same_as(u) {
                return Some(i);
            }
            i = i + 1;
        }
        None
    }

    /// The value of `u`, if it has one.
    pub fn get(&self, u: &UserInfo) -> (res: Option<V>)
        requires
            self.wf(),
        ensures
            res == (if self.map().contains_key(u@) { Some(self.map()[u@]) } else { None::<V> }),
    {
        match self.find(u) {
            Some(i) => {
                proof {
                    lemma_entries_map_at(self.entries@, i as int);
                }
                Some(self.entries[i].1)
            },
            None => None,
        }
    }

    /// Gives `u` the value `v`, in place of any value it had.
    pub fn set(&mut self, u: UserInfo, v: V)
        requires
            old(self).wf(),
        ensures
            final(self).wf(),
            final(self).map() == old(self).map().insert(u@, v),
    {
        let ghost uv = u@;
        let ghost before = self.entries@;
        match self.find(&u) {
            Some(i) => {
                self.entries.set(i, (u, v));
                assert(keys_of(self.entries@) =~= keys_of(before).update(i as int, uv));
                assert forall|k: UserInfoView| keys_of(self.entries@).contains(k) <==> keys_of(before).contains(k) by {
                    if keys_of(self.entries@).contains(k) {
                        let j = choose|j: int| 0 <= j < keys_of(self.entries@).len() && keys_of(self.entries@)[j] == k;
                        assert(keys_of(before)[j] == k);
                    }
                    if keys_of(before).contains(k) {
                        let j = choose|j: int| 0 <= j < keys_of(before).len() && keys_of(before)[j] == k;
                        assert(keys_of(self.entries@)[j] == k);
                    }
                }
                assert forall|j: int| 0 <= j < self.entries@.len() implies old(self).map().insert(uv, v)[#[trigger] self.entries@[j].0@] == self.entries@[j].1 by {
                    if j != i {
                        lemma_entries_map_at(before, j);
                        assert(keys_of(before)[j] != keys_of(before)[i as int]);
                    }
                }
                assert forall|k: UserInfoView| old(self).map().insert(uv, v).contains_key(k) <==> keys_of(self.entries@).contains(k) by {
                    if k == uv {
                        assert(keys_of(self.entries@)[i as int] == k);
                    }
                }
                proof {
                    lemma_entries_map_equal(self.entries@, old(self).map().insert(uv, v));
                }
            },
            None => {
                self.entries.push((u, v));
                assert(keys_of(self.entries@) =~= keys_of(before).push(uv));
                assert forall|k: UserInfoView| old(self).map().insert(uv, v).contains_key(k) <==> keys_of(self.entries@).contains(k) by {
                    if keys_of(self.entries@).contains(k) {
                        let j = choose|j: int| 0 <= j < keys_of(self.entries@).len() && keys_of(self.entries@)[j] == k;
                        if j < before.len() {
                            assert(keys_of(before)[j] == k);
                        }
                    }
                    if keys_of(before).contains(k) {
                        let j = choose|j: int| 0 <= j < keys_of(before).len() && keys_of(before)[j] == k;
                        assert(keys_of(self.entries@)[j] == k);
                    }
                    if k == uv {
                        assert(keys_of(self.entries@)[before.len() as int] == k);
                    }
                }
                assert forall|j: int| 0 <= j < self.entries@.len() implies old(self).map().insert(uv, v)[#[trigger] self.entries@[j].0@] == self.entries@[j].1 by {
                    if j < before.len() {
                        lemma_entries_map_at(before, j);
                        assert(keys_of(before)[j] != uv);
                    }
                }
                proof {
                    lemma_entries_map_equal(self.entries@, old(self).map().insert(uv, v));
                }
            },
        }
    }

    /// Drops the value of `u`, if it has one.
    pub fn remove(&mut self, u: &UserInfo)
        requires
            old(self).wf(),
        ensures
            final(self).wf(),
            final(self).map() == old(self).map().remove(u@),
    {
        let ghost before = self.entries@;
        match self.find(u) {
            Some(i) => {
                let _ = self.entries.remove(i);
                assert(keys_of(self.entries@) =~= keys_of(before).remove(i as int));
                assert forall|k: UserInfoView| old(self).map().remove(u@).contains_key(k) <==> keys_of(self.entries@).contains(k) by {
                    if keys_of(self.entries@).contains(k) {
                        let j = choose|j: int| 0 <= j < keys_of(self.entries@).len() && keys_of(self.entries@)[j] == k;
                        if j < i {
                            assert(keys_of(before)[j] == k);
                        } else {
                            assert(keys_of(before)[j + 1] == k);
                        }
                    }
                    if keys_of(before).contains(k) && k != u@ {
                        let j = choose|j: int| 0 <= j < keys_of(before).len() && keys_of(before)[j] == k;
                        if j < i {
                            assert(keys_of(self.entries@)[j] == k);
                        } else {
                            assert(keys_of(self.entries@)[j - 1] == k);
                        }
                    }
                }
                assert forall|j: int| 0 <= j < self.entries@.len() implies old(self).map().remove(u@)[#[trigger] self.entries@[j].0@] == self.entries@[j].1 by {
                    if j < i {
                        lemma_entries_map_at(before, j);
                        assert(keys_of(before)[j] != keys_of(before)[i as int]);
                    } else {
                        lemma_entries_map_at(before, j + 1);
                        assert(keys_of(before)[j + 1] != keys_of(before)[i as int]);
                    }
                }
                proof {
                    lemma_entries_map_equal(self.entries@, old(self).map().remove(u@));
                }
            },
            None => {
                assert(old(self).map().remove(u@) =~= old(self).map());
            },
        }
    }

    /// Copies of all entries, each actor once.
    pub fn pairs(&self) -> (res: Vec<(UserInfo, V)>)
        requires
            self.wf(),
        ensures
            keys_of(res@).no_duplicates(),
            entries_map(res@) == self.map(),
    {
        let mut res: Vec<(UserInfo, V)> = Vec::new();
        let mut i: usize = 0;
        while i < self.entries.len()
            invariant
                i <= self.entries@.len(),
                res@.len() == i,
                forall|j: int| 0 <= j < i ==> (#[trigger] res@[j]).0@ == self.entries@[j].0@ && res@[j].1 == self.entries@[j].1,
            decreases self.entries@.len() - i,
        {
            let u = self.entries[i].0.duplicate();
            res.push((u, self.entries[i].1));
            i = i + 1;
        }
        assert(keys_of(res@) =~= keys_of(self.entries@));
        assert forall|j: int| 0 <= j < res@.len() implies self.map()[#[trigger] res@[j].0@] == res@[j].1 by {
            lemma_entries_map_at(self.entries@, j);
        }
        proof {
            lemma_entries_map_equal(res@, self.map());
        }
        res
    }
}

} // verus!
