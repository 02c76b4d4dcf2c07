//! Generation of randomized, state-aware contract calls for invariant testing.
//!
//! Every choice is made from explicit random draws handed in by the caller, so each
//! selection step is a plain function whose result is stated exactly.

pub mod types;
pub mod abi;
pub mod select;
pub mod registry;
pub mod dictionary;
pub mod sender;
pub mod calldata;
pub mod generate;
pub mod laws;
pub mod config;
