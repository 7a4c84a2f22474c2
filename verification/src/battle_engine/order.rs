//! Orders that a unit carries out one after another.
use vstd::prelude::*;

use crate::battle_engine::vector2::{vector_bytes, PunkVector2};
use crate::utilities::{le_bytes_u32, u32_to_le_bytes};

verus! {

/// What an order asks.
#[derive(Clone, Copy, PartialEq, Eq, Structural, Debug)]
pub enum OrderType {
    Position,
    Rotate,
    Empty,
}

/// An order: where to go or which angle to take (the bit pattern of an `f32`).
#[derive(Clone, Copy, PartialEq, Eq, Structural, Debug)]
pub struct Order {
    pub what: OrderType,
    pub position: Option<PunkVector2>,
    pub angle_bits: Option<u32>,
}

/// The byte of an order type: its rank in the declaration.
pub open spec fn order_type_byte(t: OrderType) -> u8 {
    match t {
        OrderType::Position => 0,
        OrderType::Rotate => 1,
        OrderType::Empty => 2,
    }
}

/// The bytes of an order: its type, then its position and its angle where it has them.
pub open spec fn order_bytes(o: Order) -> Seq<u8> {
    seq![order_type_byte(o.what)] + match o.position {
        Some(v) => vector_bytes(v),
        None => Seq::empty(),
    } + match o.angle_bits {
        Some(a) => le_bytes_u32(a),
        None => Seq::empty(),
    }
}

/// The order that does nothing.
pub open spec fn empty_order() -> Order {
    Order { what: OrderType::Empty, position: None, angle_bits: None }
}

/// A position order has a position and a rotation order has an angle.
pub open spec fn order_complete(o: Order) -> bool {
    &&& o.what == OrderType::Position ==> o.position is Some
    &&& o.what == OrderType::Rotate ==> o.angle_bits is Some
}

impl Order {
    /// The type (0, 1 or 2), then the position and the angle where present.
    pub fn to_bytes(&self) -> (res: Vec<u8>)
        ensures
            res@ == order_bytes(*self),
    {
        let mut bytes: Vec<u8> = Vec::new();
        let t: u8 = match self.what {
            OrderType::Position => 0,
            OrderType::Rotate => 1,
            OrderType::Empty => 2,
        };
        bytes.push(t);
        match self.position {
            Some(vector) => {
                let mut v = vector.to_bytes();
                bytes.append(&mut v);
            },
            None => {},
        }
        match self.angle_bits {
            Some(a) => {
                let mut b = u32_to_le_bytes(a);
                bytes.append(&mut b);
            },
            None => {},
        }
        assert(bytes@ =~= order_bytes(*self));
        bytes
    }
}

} // verus!
