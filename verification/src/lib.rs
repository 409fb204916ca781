//! A fixed-capacity bit array packed into a single unsigned integer word.
//!
//! A [`BitArray`] stores one boolean per bit of its underlying integer type,
//! with index 0 at the least significant bit. The set of underlying types is
//! closed: exactly `u8`, `u16`, `u32`, `u64` and `u128` implement [`Base`].

mod sealed;

pub mod array;
pub mod base;
pub mod iter;
pub mod laws;
pub mod model;

pub use array::BitArray;
pub use base::Base;
pub use iter::{BitArrayIter, Ones, Zeroes};
