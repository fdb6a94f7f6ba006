//! AIR-side tables for the Ananse zkVM: the program ROM the control-flow lookup
//! binds against.
//!
//! A field element of the Goldilocks field (`p = 2^64 - 2^32 + 1`) is carried
//! here by its canonical `u64` value; every packed ROM entry lies below `2^63`.

pub mod bus;
pub mod constraints;
pub mod error;
pub mod field;
pub mod matrix;
pub mod rom;

pub use error::AirError;
pub use rom::{pack_edge, program_rom};
