//! DES and Triple DES on single 64-bit blocks, with the round trip of each
//! proved for every block and key.
pub mod tables;
pub mod bits;
pub mod des;
pub mod tdes;
