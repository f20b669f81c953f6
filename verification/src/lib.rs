//! Exact fraction arithmetic over overflow-checked scalar types.
//!
//! The crate provides several fraction representations over an abstract
//! scalar capability contract: a plain fraction, a never-reducing
//! growing fraction, an eagerly reduced fraction, a cadence-reduced
//! fraction, and two variants of an overflow-recovering fraction whose
//! arithmetic falls back to reduction and cross-cancellation before
//! giving up.

pub mod arith;
pub mod engine;
pub mod fract;
pub mod inf_grow;
pub mod laws;
pub mod primitives;
pub mod reducible;
pub mod tech;
