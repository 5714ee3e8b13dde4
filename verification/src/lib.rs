//! Numeric-domain bridge for an MPC bytecode interpreter: conversions between
//! native 64-bit signed integers, elements of a large prime field, and their
//! secret-tagged counterparts, including a single-bit secret domain.
//!
//! Field residues and the modulus are held as little-endian base-2^32 digit
//! vectors; their arbitrary-precision arithmetic is delegated to `num_bigint`
//! behind a handful of trusted wrappers, while every conversion rule (modular
//! embedding, balanced representative, bit extraction, narrowing checks) is
//! verified here.

pub mod digits;
mod bigops;
pub mod convert;
pub mod laws;
