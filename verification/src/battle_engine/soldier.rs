//! A soldier and the kind of soldier it is.
use vstd::prelude::*;
use vstd::utf8::encode_utf8;

use crate::battle_engine::vector2::{vector_bytes, PunkVector2};
use crate::game::flag_byte;
use crate::utilities::{fit_to_24, le_bytes_u32, string_as_24_bytes, u32_to_le_bytes};

verus! {

/// A kind of soldier; its four numbers are the bit patterns of `f32`s.
pub struct SoldierInfo {
    pub name: String,
    pub variety: u8,
    pub attack_bits: u32,
    pub defense_bits: u32,
    pub health_bits: u32,
    pub mass_bits: u32,
}

/// What a kind of soldier is.
pub struct SoldierInfoView {
    pub name: Seq<char>,
    pub variety: u8,
    pub attack_bits: u32,
    pub defense_bits: u32,
    pub health_bits: u32,
    pub mass_bits: u32,
}

impl View for SoldierInfo {
    type V = SoldierInfoView;

    open spec fn view(&self) -> SoldierInfoView {
        SoldierInfoView {
            name: self.name@,
            variety: self.variety,
            attack_bits: self.attack_bits,
            defense_bits: self.defense_bits,
            health_bits: self.health_bits,
            mass_bits: self.mass_bits,
        }
    }
}

/// The bytes of a kind of soldier: the name in 24 bytes, the variety, then
/// attack, defense, health and mass, little-endian.
pub open spec fn soldier_info_bytes(s: SoldierInfoView) -> Seq<u8> {
    fit_to_24(encode_utf8(s.name)) + seq![s.variety] + le_bytes_u32(s.attack_bits) + le_bytes_u32(s.defense_bits)
        + le_bytes_u32(s.health_bits) + le_bytes_u32(s.mass_bits)
}

impl SoldierInfo {
    /// A copy of this kind of soldier.
    pub fn duplicate(&self) -> (res: SoldierInfo)
        ensures
            res@ == self@,
    {
        SoldierInfo {
            name: self.name.clone(),
            variety: self.variety,
            attack_bits: self.attack_bits,
            defense_bits: self.defense_bits,
            health_bits: self.health_bits,
            mass_bits: self.mass_bits,
        }
    }

    /// The name in 24 bytes, the variety, then the four numbers.
    pub fn to_bytes(&self) -> (res: Vec<u8>)
        ensures
            res@ == soldier_info_bytes(self@),
    {
        let mut bytes = string_as_24_bytes(self.name.clone());
        bytes.push(self.variety);
        let mut a = u32_to_le_bytes(self.attack_bits);
        bytes.append(&mut a);
        let mut d = u32_to_le_bytes(self.defense_bits);
        bytes.append(&mut d);
        let mut h = u32_to_le_bytes(self.health_bits);
        bytes.append(&mut h);
        let mut m = u32_to_le_bytes(self.mass_bits);
        bytes.append(&mut m);
        assert(bytes@ =~= soldier_info_bytes(self@));
        bytes
    }
}

/// A soldier of a unit.
pub struct Soldier {
    pub info: SoldierInfo,
    pub position: PunkVector2,
    pub target_position: PunkVector2,
    pub combat_position: PunkVector2,
    pub incombat: bool,
    pub opponent: [u32; 2],
    pub alive: bool,
}

/// What a soldier is.
pub struct SoldierView {
    pub info: SoldierInfoView,
    pub position: PunkVector2,
    pub target_position: PunkVector2,
    pub combat_position: PunkVector2,
    pub incombat: bool,
    pub opponent: Seq<u32>,
    pub alive: bool,
}

impl View for Soldier {
    type V = SoldierView;

    open spec fn view(&self) -> SoldierView {
        SoldierView {
            info: self.info@,
            position: self.position,
            target_position: self.target_position,
            combat_position: self.combat_position,
            incombat: self.incombat,
            opponent: self.opponent@,
            alive: self.alive,
        }
    }
}

/// A soldier of kind `info` standing at `position`: alive, out of combat,
/// with zero targets and no opponent.
pub open spec fn fresh_soldier(info: SoldierInfoView, position: PunkVector2) -> SoldierView {
    SoldierView {
        info,
        position,
        target_position: PunkVector2 { x_bits: 0, y_bits: 0 },
        combat_position: PunkVector2 { x_bits: 0, y_bits: 0 },
        incombat: false,
        opponent: seq![0u32, 0u32],
        alive: true,
    }
}

/// The bytes of a soldier: its three vectors, in combat, alive, then its two
/// opponent numbers, little-endian.
pub open spec fn soldier_bytes(s: SoldierView) -> Seq<u8> {
    vector_bytes(s.position) + vector_bytes(s.target_position) + vector_bytes(s.combat_position) + seq![
        flag_byte(s.incombat),
        flag_byte(s.alive),
    ] + le_bytes_u32(s.opponent[0]) + le_bytes_u32(s.opponent[1])
}

impl Soldier {
    /// A soldier of kind `info` standing at `position`.
    pub fn new(info: SoldierInfo, position: PunkVector2) -> (res: Soldier)
        ensures
            res@ == fresh_soldier(info@, position),
    {
        let res = Soldier {
            info,
            position,
            target_position: PunkVector2::zero(),
            combat_position: PunkVector2::zero(),
            incombat: false,
            opponent: [0u32, 0u32],
            alive: true,
        };
        assert(res@.opponent =~= seq![0u32, 0u32]);
        res
    }

    /// The three vectors, the two flags, then the two opponent numbers.
    pub fn to_bytes(&self) -> (res: Vec<u8>)
        ensures
            res@ == soldier_bytes(self@),
    {
        let mut bytes = self.position.to_bytes();
        let mut t = self.target_position.to_bytes();
        bytes.append(&mut t);
        let mut c = self.combat_position.to_bytes();
        bytes.append(&mut c);
        bytes.push(if self.incombat { 1u8 } else { 0u8 });
        bytes.push(if self.alive { 1u8 } else { 0u8 });
        let mut o0 = u32_to_le_bytes(self.opponent[0]);
        bytes.append(&mut o0);
        let mut o1 = u32_to_le_bytes(self.opponent[1]);
        bytes.append(&mut o1);
        assert(bytes@ =~= soldier_bytes(self@));
        bytes
    }
}

} // verus!
