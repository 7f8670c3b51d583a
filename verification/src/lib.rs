//! Garbled gates over big natural numbers, the modular arithmetic they rest
//! on, and a small literal boolean-circuit model.
//!
//! Big numbers are carried as little-endian base-256 byte strings (`bignum`);
//! the arithmetic on them is done by `num-bigint`.
pub mod bag;
pub mod bignum;
pub mod circuit;
pub mod lit_circuit;
pub mod math;
