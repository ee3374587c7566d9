//! Orbital: a multi-asset sphere-invariant AMM with institutional settlement.
//!
//! The library holds the program's arithmetic (Q64.64 fixed point), the sphere
//! and torus geometry, the swap domain logic, the account state it works on,
//! and the decisions that each instruction makes. Token transfers, clocks and
//! account (de)serialization stay with the program shell around it.
pub mod errors;
pub mod math;
pub mod state;
pub mod domain;
pub mod events;
pub mod instructions;
