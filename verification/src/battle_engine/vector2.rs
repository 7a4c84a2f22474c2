//! A 2D vector of the battle field.
use vstd::prelude::*;

use crate::utilities::{le_bytes_u32, u32_to_le_bytes};

verus! {

/// A 2D vector; `x_bits` and `y_bits` are the bit patterns of its two `f32`
/// coordinates.
#[derive(Clone, Copy, PartialEq, Eq, Structural, Debug)]
pub struct PunkVector2 {
    pub x_bits: u32,
    pub y_bits: u32,
}

/// The eight bytes of a vector: x then y, each little-endian.
pub open spec fn vector_bytes(v: PunkVector2) -> Seq<u8> {
    le_bytes_u32(v.x_bits) + le_bytes_u32(v.y_bits)
}

impl PunkVector2 {
    /// The vector whose coordinates have the bit patterns `x_bits`, `y_bits`.
    pub fn new(x_bits: u32, y_bits: u32) -> (res: PunkVector2)
        ensures
            res == (PunkVector2 { x_bits, y_bits }),
    {
        PunkVector2 { x_bits, y_bits }
    }

    /// The zero vector (both coordinates `0.0`, whose bit pattern is 0).
    pub fn zero() -> (res: PunkVector2)
        ensures
            res == (PunkVector2 { x_bits: 0, y_bits: 0 }),
    {
        PunkVector2 { x_bits: 0, y_bits: 0 }
    }

    /// x then y, four little-endian bytes each.
    pub fn to_bytes(&self) -> (res: Vec<u8>)
        ensures
            res@ == vector_bytes(*self),
    {
        let mut bytes = u32_to_le_bytes(self.x_bits);
        let mut y = u32_to_le_bytes(self.y_bits);
        bytes.append(&mut y);
        bytes
    }
}

} // verus!
