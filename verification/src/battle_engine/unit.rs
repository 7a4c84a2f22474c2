//! A unit: a block of soldiers with a queue of orders.
use std::collections::HashMap;

use vstd::prelude::*;
use vstd::utf8::encode_utf8;

use crate::battle_engine::order::{empty_order, order_bytes, order_complete, Order, OrderType};
use crate::battle_engine::soldier::{fresh_soldier, soldier_bytes, Soldier, SoldierInfo, SoldierView};
use crate::battle_engine::vector2::{vector_bytes, PunkVector2};
use crate::game::flag_byte;
use crate::utilities::{fit_to_24, le_bytes_u32, string_as_24_bytes, u32_to_le_bytes};

verus! {

/// A kind of unit: its name, stance, speed and spacing (bit patterns of
/// `f32`s), width in soldiers, and the variety of each of its soldiers.
pub struct UnitInfo {
    pub name: String,
    pub stance: u8,
    pub speed_bits: u32,
    pub spacing_bits: u32,
    pub width: u8,
    pub soldiers: Vec<u8>,
}

/// What a kind of unit is.
pub struct UnitInfoView {
    pub name: Seq<char>,
    pub stance: u8,
    pub speed_bits: u32,
    pub spacing_bits: u32,
    pub width: u8,
    pub soldiers: Seq<u8>,
}

impl View for UnitInfo {
    type V = UnitInfoView;

    open spec fn view(&self) -> UnitInfoView {
        UnitInfoView {
            name: self.name@,
            stance: self.stance,
            speed_bits: self.speed_bits,
            spacing_bits: self.spacing_bits,
            width: self.width,
            soldiers: self.soldiers@,
        }
    }
}

/// The bytes of a kind of unit: the name in 24 bytes, stance, width, then
/// speed and spacing, little-endian. The soldiers' varieties are not sent.
pub open spec fn unit_info_bytes(u: UnitInfoView) -> Seq<u8> {
    fit_to_24(encode_utf8(u.name)) + seq![u.stance, u.width] + le_bytes_u32(u.speed_bits) + le_bytes_u32(
        u.spacing_bits,
    )
}

impl UnitInfo {
    /// A copy of this kind of unit.
    pub fn duplicate(&self) -> (res: UnitInfo)
        ensures
            res@ == self@,
    {
        UnitInfo {
            name: self.name.clone(),
            stance: self.stance,
            speed_bits: self.speed_bits,
            spacing_bits: self.spacing_bits,
            width: self.width,
            soldiers: self.soldiers.clone(),
        }
    }

    /// The name in 24 bytes, stance, width, speed, spacing.
    pub fn to_bytes(&self) -> (res: Vec<u8>)
        ensures
            res@ == unit_info_bytes(self@),
    {
        let mut bytes = string_as_24_bytes(self.name.clone());
        bytes.push(self.stance);
        bytes.push(self.width);
        let mut s = u32_to_le_bytes(self.speed_bits);
        bytes.append(&mut s);
        let mut p = u32_to_le_bytes(self.spacing_bits);
        bytes.append(&mut p);
        assert(bytes@ =~= unit_info_bytes(self@));
        bytes
    }
}

/// The two little-endian bytes of `x`.
pub open spec fn le_bytes_u16(x: u16) -> Seq<u8> {
    seq![(x % 256) as u8, (x / 256) as u8]
}

fn u16_to_le_bytes(x: u16) -> (res: Vec<u8>)
    ensures
        res@ == le_bytes_u16(x),
{
    let mut v: Vec<u8> = Vec::new();
    v.push((x % 256) as u8);
    v.push((x / 256) as u8);
    assert(v@ =~= le_bytes_u16(x));
    v
}

/// The bytes of orders, one after another.
pub open spec fn orders_bytes(s: Seq<Order>) -> Seq<u8>
    decreases s.len(),
{
    if s.len() == 0 {
        Seq::empty()
    } else {
        orders_bytes(s.drop_last()) + order_bytes(s.last())
    }
}

/// The bytes of soldiers, one after another.
pub open spec fn soldiers_bytes(s: Seq<SoldierView>) -> Seq<u8>
    decreases s.len(),
{
    if s.len() == 0 {
        Seq::empty()
    } else {
        soldiers_bytes(s.drop_last()) + soldier_bytes(s.last())
    }
}

/// The views of soldiers.
pub open spec fn soldier_views(s: Seq<Soldier>) -> Seq<SoldierView> {
    s.map_values(|x: Soldier| x@)
}

/// A unit of the battle.
pub struct Unit {
    pub info: UnitInfo,
    pub n: u16,
    pub idx: u32,
    pub center_of_mass: PunkVector2,
    pub current_angle_bits: u32,
    pub current_position: PunkVector2,
    pub team: u8,
    pub incombat: bool,
    pub soldiers_alive: u16,
    pub soldiers_incombat: u16,
    pub orders: Vec<Order>,
    pub soldiers: Vec<Soldier>,
}

/// The bytes of a unit: its number (4), its soldier count (2), team,
/// position, center of mass, angle, in combat, soldiers alive (2), soldiers in
/// combat (2), the separator 255, its orders, then its soldiers.
pub open spec fn unit_bytes(u: Unit) -> Seq<u8> {
    le_bytes_u32(u.idx) + le_bytes_u16(u.n) + seq![u.team] + vector_bytes(u.current_position) + vector_bytes(
        u.center_of_mass,
    ) + le_bytes_u32(u.current_angle_bits) + seq![flag_byte(u.incombat)] + le_bytes_u16(u.soldiers_alive)
        + le_bytes_u16(u.soldiers_incombat) + seq![255u8] + orders_bytes(u.orders@) + soldiers_bytes(
        soldier_views(u.soldiers@),
    )
}

/// The orders after a step of the queue: the first is done and dropped, and
/// an empty queue gets the order that does nothing.
pub open spec fn orders_after_step(o: Seq<Order>) -> Seq<Order> {
    let rest = if o.len() > 0 { o.drop_first() } else { o };
    if rest.len() == 0 { seq![empty_order()] } else { rest }
}

/// Where the unit stands once its first order is done.
pub open spec fn position_after_step(o: Seq<Order>, p: PunkVector2) -> PunkVector2 {
    if o.len() > 0 && o[0].what == OrderType::Position { o[0].position.unwrap() } else { p }
}

/// The angle of the unit once its first order is done.
pub open spec fn angle_after_step(o: Seq<Order>, a: u32) -> u32 {
    if o.len() > 0 && o[0].what == OrderType::Rotate { o[0].angle_bits.unwrap() } else { a }
}

/// Where the soldiers are sent once the next order starts: the new position
/// at the current angle, or the current position at the new angle.
pub open spec fn targets_after_step(o: Seq<Order>, p: PunkVector2, a: u32) -> Option<(PunkVector2, u32)> {
    if o.len() > 1 {
        let next = o[1];
        match next.what {
            OrderType::Position => Some((next.position.unwrap(), angle_after_step(o, a))),
            OrderType::Rotate => Some((position_after_step(o, p), next.angle_bits.unwrap())),
            OrderType::Empty => None,
        }
    } else {
        None
    }
}

/// The first order and the one after it carry what their type needs.
pub open spec fn queue_ready(o: Seq<Order>) -> bool {
    &&& o.len() > 0 ==> order_complete(o[0])
    &&& o.len() > 1 ==> order_complete(o[1])
}

impl Unit {
    /// A unit of kind `info` at `position`, facing `angle_bits`, whose
    /// soldiers are made from `soldier_compendium` by variety.
    pub fn new(
        idx: u32,
        info: UnitInfo,
        position: PunkVector2,
        angle_bits: u32,
        team: u8,
        soldier_compendium: &HashMap<u8, SoldierInfo>,
    ) -> (res: Unit)
        requires
            info@.soldiers.len() <= u16::MAX,
            forall|i: int| 0 <= i < info@.soldiers.len() ==> soldier_compendium@.contains_key(#[trigger] info@.soldiers[i]),
        ensures
            res.info@ == info@,
            res.n == info@.soldiers.len(),
            res.idx == idx,
            res.center_of_mass == position,
            res.current_position == position,
            res.current_angle_bits == angle_bits,
            res.team == team,
            !res.incombat,
            res.soldiers_alive == res.n,
            res.soldiers_incombat == 0,
            res.orders@.len() == 0,
            res.soldiers@.len() == info@.soldiers.len(),
            forall|i: int| 0 <= i < res.soldiers@.len() ==> (#[trigger] res.soldiers@[i])@ == fresh_soldier(
                soldier_compendium@[info@.soldiers[i]]@,
                position,
            ),
    {
        broadcast use vstd::std_specs::hash::group_hash_axioms;

        let n = info.soldiers.len() as u16;
        let mut soldiers: Vec<Soldier> = Vec::new();
        let mut i: usize = 0;
        while i < info.soldiers.len()
            invariant
                i <= info@.soldiers.len(),
                soldiers@.len() == i,
                forall|j: int| 0 <= j < info@.soldiers.len() ==> soldier_compendium@.contains_key(#[trigger] info@.soldiers[j]),
                forall|j: int| 0 <= j < i ==> (#[trigger] soldiers@[j])@ == fresh_soldier(
                    soldier_compendium@[info@.soldiers[j]]@,
                    position,
                ),
            decreases info@.soldiers.len() - i,
        {
            let variety = info.soldiers[i];
            assert(soldier_compendium@.contains_key(info@.soldiers[i as int]));
            match soldier_compendium.get(&variety) {
                Some(kind) => {
                    soldiers.push(Soldier::new(kind.duplicate(), position));
                },
                None => {
                    return Unit {
                        info,
                        n,
                        idx,
                        center_of_mass: position,
                        current_angle_bits: angle_bits,
                        current_position: position,
                        team,
                        incombat: false,
                        soldiers_alive: n,
                        soldiers_incombat: 0,
                        orders: Vec::new(),
                        soldiers,
                    };
                },
            }
            i = i + 1;
        }
        Unit {
            info,
            n,
            idx,
            center_of_mass: position,
            current_angle_bits: angle_bits,
            current_position: position,
            team,
            incombat: false,
            soldiers_alive: n,
            soldiers_incombat: 0,
            orders: Vec::new(),
            soldiers,
        }
    }

    /// The unit's bytes (see `unit_bytes`).
    pub fn to_bytes(&self) -> (res: Vec<u8>)
        ensures
            res@ == unit_bytes(*self),
    {
        let mut bytes = u32_to_le_bytes(self.idx);
        let mut n = u16_to_le_bytes(self.n);
        bytes.append(&mut n);
        bytes.push(self.team);
        let mut p = self.current_position.to_bytes();
        bytes.append(&mut p);
        let mut c = self.center_of_mass.to_bytes();
        bytes.append(&mut c);
        let mut a = u32_to_le_bytes(self.current_angle_bits);
        bytes.append(&mut a);
        bytes.push(if self.incombat { 1u8 } else { 0u8 });
        let mut alive = u16_to_le_bytes(self.soldiers_alive);
        bytes.append(&mut alive);
        let mut fighting = u16_to_le_bytes(self.soldiers_incombat);
        bytes.append(&mut fighting);
        bytes.push(255u8);
        let ghost head = bytes@;
        let mut i: usize = 0;
        while i < self.orders.len()
            invariant
                i <= self.orders@.len(),
                bytes@ == head + orders_bytes(self.orders@.take(i as int)),
            decreases self.orders@.len() - i,
        {
            let mut o = self.orders[i].to_bytes();
            bytes.append(&mut o);
            assert(self.orders@.take(i + 1).drop_last() =~= self.orders@.take(i as int));
            assert(bytes@ =~= head + orders_bytes(self.orders@.take(i + 1)));
            i = i + 1;
        }
        assert(self.orders@.take(self.orders@.len() as int) =~= self.orders@);
        let ghost mid = bytes@;
        let ghost sv = soldier_views(self.soldiers@);
        let mut j: usize = 0;
        while j < self.soldiers.len()
            invariant
                j <= self.soldiers@.len(),
                sv == soldier_views(self.soldiers@),
                bytes@ == mid + soldiers_bytes(sv.take(j as int)),
            decreases self.soldiers@.len() - j,
        {
            let mut s = self.soldiers[j].to_bytes();
            bytes.append(&mut s);
            assert(sv.take(j + 1).drop_last() =~= sv.take(j as int));
            assert(bytes@ =~= mid + soldiers_bytes(sv.take(j + 1)));
            j = j + 1;
        }
        assert(sv.take(sv.len() as int) =~= sv);
        assert(bytes@ =~= unit_bytes(*self));
        bytes
    }

    /// Whether the first two orders carry what their type needs (see `queue_ready`).
    pub fn orders_ready(&self) -> (res: bool)
        ensures
            res == queue_ready(self.orders@),
    {
        let mut k: usize = 0;
        while k < 2 && k < self.orders.len()
            invariant
                k <= 2,
                forall|j: int| 0 <= j < k && j < self.orders@.len() ==> order_complete(#[trigger] self.orders@[j]),
            decreases 2 - k,
        {
            let o = self.orders[k];
            let complete = match o.what {
                OrderType::Position => o.position.is_some(),
                OrderType::Rotate => o.angle_bits.is_some(),
                OrderType::Empty => true,
            };
            if !complete {
                return false;
            }
            k = k + 1;
        }
        true
    }

    /// Ends the first order and starts the next: the unit takes the position
    /// or angle of the order it ends, drops it, and says where the soldiers are
    /// to be sent for the next one; a queue left empty gets the order that
    /// does nothing.
    pub fn queue_next_order(&mut self) -> (res: Option<(PunkVector2, u32)>)
        requires
            queue_ready(old(self).orders@),
        ensures
            final(self).orders@ == orders_after_step(old(self).orders@),
            final(self).current_position == position_after_step(old(self).orders@, old(self).current_position),
            final(self).current_angle_bits == angle_after_step(old(self).orders@, old(self).current_angle_bits),
            res == targets_after_step(old(self).orders@, old(self).current_position, old(self).current_angle_bits),
            old(self).orders@.len() > 0 && old(self).orders@[0].what == OrderType::Rotate
                ==> final(self).current_angle_bits == old(self).orders@[0].angle_bits.unwrap(),
            old(self).orders@.len() > 0 && old(self).orders@[0].what == OrderType::Position
                ==> final(self).current_position == old(self).orders@[0].position.unwrap(),
            old(self).orders@.len() > 1 && old(self).orders@[1].what == OrderType::Position
                ==> res == Some((old(self).orders@[1].position.unwrap(), final(self).current_angle_bits)),
            old(self).orders@.len() > 1 && old(self).orders@[1].what == OrderType::Rotate
                ==> res == Some((final(self).current_position, old(self).orders@[1].angle_bits.unwrap())),
            (old(self).orders@.len() <= 1 || old(self).orders@[1].what == OrderType::Empty) ==> res is None,
            final(self).info == old(self).info,
            final(self).n == old(self).n,
            final(self).idx == old(self).idx,
            final(self).center_of_mass == old(self).center_of_mass,
            final(self).team == old(self).team,
            final(self).incombat == old(self).incombat,
            final(self).soldiers_alive == old(self).soldiers_alive,
            final(self).soldiers_incombat == old(self).soldiers_incombat,
            final(self).soldiers == old(self).soldiers,
    {
        let mut targets: Option<(PunkVector2, u32)> = None;
        if self.orders.len() > 0 {
            let first = self.orders[0];
            match first.what {
                OrderType::Position => {
                    match first.position {
                        Some(p) => {
                            self.current_position = p;
                        },
                        None => {},
                    }
                },
                OrderType::Rotate => {
                    match first.angle_bits {
                        Some(a) => {
                            self.current_angle_bits = a;
                        },
                        None => {},
                    }
                },
                OrderType::Empty => {},
            }
            let _ = self.orders.remove(0);
            assert(self.orders@ =~= old(self).orders@.drop_first());
            if self.orders.len() > 0 {
                let next = self.orders[0];
                match next.what {
                    OrderType::Position => {
                        match next.position {
                            Some(p) => {
                                targets = Some((p, self.current_angle_bits));
                            },
                            None => {},
                        }
                    },
                    OrderType::Rotate => {
                        match next.angle_bits {
                            Some(a) => {
                                targets = Some((self.current_position, a));
                            },
                            None => {},
                        }
                    },
                    OrderType::Empty => {},
                }
            }
        }
        if self.orders.len() == 0 {
            self.orders.push(Order { what: OrderType::Empty, position: None, angle_bits: None });
            assert(self.orders@ =~= seq![empty_order()]);
        }
        targets
    }
}

/// Every record has a fixed size: a vector 8 bytes, an order 1 to 13, a
/// soldier 34, a kind of soldier 41, a kind of unit 34.
pub proof fn lemma_record_sizes(v: PunkVector2, o: Order, s: SoldierView, si: crate::battle_engine::soldier::SoldierInfoView, ui: UnitInfoView)
    ensures
        vector_bytes(v).len() == 8,
        1 <= order_bytes(o).len() <= 13,
        soldier_bytes(s).len() == 34,
        crate::battle_engine::soldier::soldier_info_bytes(si).len() == 41,
        unit_info_bytes(ui).len() == 34,
{
    crate::utilities::lemma_fit_to_24_len(encode_utf8(si.name));
    crate::utilities::lemma_fit_to_24_len(encode_utf8(ui.name));
}

/// The next order starts from where the finished one left the unit: a move
/// starts at the angle the unit has once the first order is done (the angle
/// of a finished rotation), and a rotation starts at the position the unit has
/// once the first order is done (the position of a finished move).
pub proof fn lemma_next_order_starts_from_finished_state(o: Seq<Order>, p: PunkVector2, a: u32)
    requires
        queue_ready(o),
        o.len() > 1,
    ensures
        o[1].what == OrderType::Position ==> targets_after_step(o, p, a) == Some((
            o[1].position.unwrap(),
            if o[0].what == OrderType::Rotate { o[0].angle_bits.unwrap() } else { a },
        )),
        o[1].what == OrderType::Rotate ==> targets_after_step(o, p, a) == Some((
            if o[0].what == OrderType::Position { o[0].position.unwrap() } else { p },
            o[1].angle_bits.unwrap(),
        )),
        o[1].what == OrderType::Empty ==> targets_after_step(o, p, a) is None,
        targets_after_step(o, p, a) matches Some((tp, ta)) ==> (o[1].what == OrderType::Position
            && ta == angle_after_step(o, a)) || (o[1].what == OrderType::Rotate && tp == position_after_step(o, p)),
{
}

/// After a step, a unit always has an order, and the first order still
/// carries what its type needs when the one after it did.
pub proof fn lemma_queue_never_empty(o: Seq<Order>)
    requires
        queue_ready(o),
    ensures
        orders_after_step(o).len() >= 1,
        order_complete(orders_after_step(o)[0]),
{
}

/// A unit that only holds the order that does nothing keeps just that order,
/// and its soldiers are sent nowhere.
pub proof fn lemma_idle_queue_stays_idle(p: PunkVector2, a: u32)
    ensures
        orders_after_step(seq![empty_order()]) == seq![empty_order()],
        position_after_step(seq![empty_order()], p) == p,
        angle_after_step(seq![empty_order()], a) == a,
        targets_after_step(seq![empty_order()], p, a) is None,
{
    assert(seq![empty_order()].drop_first() =~= Seq::<Order>::empty());
}

} // verus!
