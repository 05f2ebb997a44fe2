//! A lane-parallel pseudorandom state generator: `N` integer lanes advanced
//! in lockstep by `x -> x * 5 + 1`, wrapping at the lane type's width.
//!
//! Not for cryptographic use. Each lane runs through every value of its type
//! before it repeats; its low-order bits have short cycles of their own.
pub mod bytes;
mod entropy;
pub mod generator;
pub mod laws;
pub mod num;
pub mod recurrence;

pub use generator::{EntropyUnavailable, PacRand};
pub use num::PacRandNum;
