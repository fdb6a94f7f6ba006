//! Ananse: a WebAssembly-native zero-knowledge virtual machine, as a verified
//! library.
//!
//! The crate follows the machine's pipeline: [`decoder`] turns a module into
//! plain data and checks it against the allowed feature set, [`lift`] derives the
//! static register schedule of every function, [`executor`] runs a function
//! under that schedule and emits one record per executed instruction, [`wasi`]
//! is the deterministic host, [`trace`] checks the linear-memory access log the
//! prover permutes, [`air`] packs the program ROM, and [`runtime`] ties decoding
//! and execution together.
#![allow(unused_imports)]

pub mod air;
pub mod binary;
pub mod cli;
pub mod decoder;
pub mod executor;
pub mod lift;
pub mod mvm;
pub mod runtime;
pub mod trace;
pub mod wasi;
