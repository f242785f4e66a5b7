//! A fixed-capacity set of the integers 0 to 127, stored as one 128-bit word.

pub mod bits;
pub mod bitset;
pub mod laws;

pub use bitset::{Bitset, BitsetError};
