//! The battle's units, soldiers and orders as the server holds and sends
//! them. Every `f32` of the battle is held here as its IEEE-754 bit pattern
//! (`f32::to_bits`), which is exactly what its little-endian bytes encode;
//! the movement and geometry that compute on those numbers lie outside this
//! library.
pub mod order;
pub mod soldier;
pub mod unit;
pub mod vector2;
