use std::collections::HashMap;

use punk_server::battle_engine::order::{Order, OrderType};
use punk_server::battle_engine::soldier::{Soldier, SoldierInfo};
use punk_server::battle_engine::unit::{Unit, UnitInfo};
use punk_server::battle_engine::vector2::PunkVector2;

fn v(x: f32, y: f32) -> PunkVector2 {
    PunkVector2::new(x.to_bits(), y.to_bits())
}

fn swordman() -> SoldierInfo {
    SoldierInfo {
        name: "Swordman".to_string(),
        variety: 0,
        attack_bits: 2.0f32.to_bits(),
        defense_bits: 2.0f32.to_bits(),
        health_bits: 100.0f32.to_bits(),
        mass_bits: 8.0f32.to_bits(),
    }
}

fn swordmen(n: usize) -> UnitInfo {
    UnitInfo {
        name: "Swordmen".to_string(),
        stance: 0,
        speed_bits: 100.0f32.to_bits(),
        spacing_bits: 50.0f32.to_bits(),
        width: 6,
        soldiers: vec![0; n],
    }
}

fn compendium() -> HashMap<u8, SoldierInfo> {
    let mut c = HashMap::new();
    c.insert(0u8, swordman());
    c
}

#[test]
fn vector_bytes_are_float_bytes() {
    let p = v(1.5, -2.0);
    let mut expected = 1.5f32.to_le_bytes().to_vec();
    expected.extend((-2.0f32).to_le_bytes());
    assert_eq!(p.to_bytes(), expected);
    assert_eq!(PunkVector2::zero().to_bytes(), vec![0; 8]);
}

#[test]
fn order_bytes() {
    assert_eq!(Order { what: OrderType::Empty, position: None, angle_bits: None }.to_bytes(), vec![2]);
    let rot = Order { what: OrderType::Rotate, position: None, angle_bits: Some(45.0f32.to_bits()) };
    let mut expected = vec![1];
    expected.extend(45.0f32.to_le_bytes());
    assert_eq!(rot.to_bytes(), expected);
    let pos = Order { what: OrderType::Position, position: Some(v(3.0, 4.0)), angle_bits: None };
    let b = pos.to_bytes();
    assert_eq!(b.len(), 9);
    assert_eq!(b[0], 0);
    assert_eq!(&b[1..5], &3.0f32.to_le_bytes());
}

#[test]
fn soldier_info_bytes() {
    let b = swordman().to_bytes();
    assert_eq!(b.len(), 41);
    assert_eq!(&b[..8], b"Swordman");
    assert_eq!(b[24], 0);
    assert_eq!(&b[25..29], &2.0f32.to_le_bytes());
    assert_eq!(&b[33..37], &100.0f32.to_le_bytes());
}

#[test]
fn soldier_bytes() {
    let mut s = Soldier::new(swordman(), v(1.0, 2.0));
    assert!(s.alive && !s.incombat);
    assert_eq!(s.opponent, [0, 0]);
    s.opponent = [3, 0x0100];
    let b = s.to_bytes();
    assert_eq!(b.len(), 34);
    assert_eq!(&b[0..4], &1.0f32.to_le_bytes());
    assert_eq!(&b[8..24], &[0u8; 16]);
    assert_eq!(&b[24..26], &[0, 1]);
    assert_eq!(&b[26..34], &[3, 0, 0, 0, 0, 1, 0, 0]);
}

#[test]
fn unit_info_bytes() {
    let b = swordmen(15).to_bytes();
    assert_eq!(b.len(), 34);
    assert_eq!(&b[24..26], &[0, 6]);
    assert_eq!(&b[26..30], &100.0f32.to_le_bytes());
    assert_eq!(&b[30..34], &50.0f32.to_le_bytes());
}

#[test]
fn new_unit_has_one_soldier_per_variety() {
    let u = Unit::new(7, swordmen(15), v(10.0, 20.0), 0.5f32.to_bits(), 1, &compendium());
    assert_eq!(u.n, 15);
    assert_eq!(u.soldiers.len(), 15);
    assert_eq!(u.soldiers_alive, 15);
    assert_eq!(u.soldiers_incombat, 0);
    assert!(u.orders.is_empty());
    assert!(u.soldiers.iter().all(|s| s.position == v(10.0, 20.0) && s.info.name == "Swordman"));
}

#[test]
fn unit_bytes_layout() {
    let mut u = Unit::new(7, swordmen(2), v(10.0, 20.0), 0.5f32.to_bits(), 1, &compendium());
    u.orders.push(Order { what: OrderType::Empty, position: None, angle_bits: None });
    let b = u.to_bytes();
    assert_eq!(b.len(), 4 + 2 + 1 + 8 + 8 + 4 + 1 + 2 + 2 + 1 + 1 + 2 * 34);
    assert_eq!(&b[0..4], &[7, 0, 0, 0]);
    assert_eq!(&b[4..6], &[2, 0]);
    assert_eq!(b[6], 1);
    assert_eq!(&b[23..27], &0.5f32.to_le_bytes());
    assert_eq!(b[27], 0);
    assert_eq!(&b[28..32], &[2, 0, 0, 0]);
    assert_eq!(b[32], 255);
    assert_eq!(b[33], 2);
    assert_eq!(&b[34..68], &u.soldiers[0].to_bytes()[..]);
}

#[test]
fn order_queue_steps() {
    let mut u = Unit::new(0, swordmen(1), v(0.0, 0.0), 0, 0, &compendium());
    // An empty queue gets the order that does nothing.
    assert_eq!(u.queue_next_order(), None);
    assert_eq!(u.orders, vec![Order { what: OrderType::Empty, position: None, angle_bits: None }]);
    // The idle order stays.
    assert_eq!(u.queue_next_order(), None);
    assert_eq!(u.orders.len(), 1);
    u.orders.push(Order { what: OrderType::Position, position: Some(v(5.0, 5.0)), angle_bits: None });
    u.orders.push(Order { what: OrderType::Rotate, position: None, angle_bits: Some(1.0f32.to_bits()) });
    // Ending the idle order starts the move: soldiers go to (5, 5) at angle 0.
    assert_eq!(u.queue_next_order(), Some((v(5.0, 5.0), 0)));
    // Ending the move puts the unit at (5, 5) and starts the rotation there.
    assert_eq!(u.queue_next_order(), Some((v(5.0, 5.0), 1.0f32.to_bits())));
    assert_eq!(u.current_position, v(5.0, 5.0));
    // Ending the rotation sets the angle; the queue is left with the idle order.
    assert_eq!(u.queue_next_order(), None);
    assert_eq!(u.current_angle_bits, 1.0f32.to_bits());
    assert_eq!(u.orders.len(), 1);
}
