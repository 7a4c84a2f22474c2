//! The two-way map between in-game player numbers and players, held in a
//! `bimap::BiHashMap`.
use vstd::prelude::*;

use bimap::BiHashMap;

use crate::link::userinfo::{UserInfo, UserInfoView};

verus! {

#[verifier::external_type_specification]
#[verifier::external_body]
#[verifier::reject_recursive_types(L)]
#[verifier::reject_recursive_types(R)]
#[verifier::reject_recursive_types(LS)]
#[verifier::reject_recursive_types(RS)]
pub struct ExBiHashMap<L, R, LS, RS>(BiHashMap<L, R, LS, RS>);

/// The in-game player numbers and the players they belong to.
pub type PlayerIds = BiHashMap<u32, UserInfo>;

/// The left-right pairs that a bimap of player numbers and players holds.
pub uninterp spec fn id_pairs(m: PlayerIds) -> Map<u32, UserInfoView>;

/// The pairs of `m` after `insert(left, right)`: every pair whose left value
/// is `left` or whose right value is `right` is gone, and `(left, right)` is there.
pub open spec fn pairs_after_insert(m: Map<u32, UserInfoView>, left: u32, right: UserInfoView) -> Map<u32, UserInfoView> {
    Map::new(
        |l: u32| l == left || (m.contains_key(l) && m[l] != right),
        |l: u32| if l == left { right } else { m[l] },
    )
}

/// The pairs of `m` without those whose right value is `right`.
pub open spec fn pairs_without_right(m: Map<u32, UserInfoView>, right: UserInfoView) -> Map<u32, UserInfoView> {
    Map::new(|l: u32| m.contains_key(l) && m[l] != right, |l: u32| m[l])
}

/// `BiHashMap::new`: a bimap with no pairs.
#[verifier::external_body]
pub(crate) fn ids_new() -> (res: PlayerIds)
    ensures
        id_pairs(res).dom() == Set::<u32>::empty(),
{
    BiHashMap::new()
}

/// `BiHashMap::get_by_right`: the left value paired with `right`, if there is
/// one. The bimap finds `right` with the derived `Eq` and `Hash` of
/// `UserInfo`, which compare the name, number and kind, as the view does.
#[verifier::external_body]
pub(crate) fn ids_get_by_right(m: &PlayerIds, right: &UserInfo) -> (res: Option<u32>)
    ensures
        match res {
            Some(l) => id_pairs(*m).contains_key(l) && id_pairs(*m)[l] == right@,
            None => forall|l: u32| id_pairs(*m).contains_key(l) ==> id_pairs(*m)[l] != right@,
        },
{
    m.get_by_right(right).copied()
}

/// `BiHashMap::insert`: removes the pair whose left value is `left` and the
/// pair whose right value is `right`, then adds `(left, right)`. What it
/// returns (the pairs it overwrote) is dropped here.
#[verifier::external_body]
pub(crate) fn ids_insert(m: &mut PlayerIds, left: u32, right: UserInfo)
    ensures
        id_pairs(*final(m)) == pairs_after_insert(id_pairs(*old(m)), left, right@),
{
    let _ = m.insert(left, right);
}

/// `BiHashMap::remove_by_right`: removes the pair whose right value is
/// `right`, if there is one. What it returns (the removed pair) is dropped here.
#[verifier::external_body]
pub(crate) fn ids_remove_by_right(m: &mut PlayerIds, right: &UserInfo)
    ensures
        id_pairs(*final(m)) == pairs_without_right(id_pairs(*old(m)), right@),
{
    let _ = m.remove_by_right(right);
}

} // verus!
