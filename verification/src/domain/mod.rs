//! Business logic: the pool aggregate and swap (amm) and institutional settlement.
pub mod amm;
pub mod settlement;
