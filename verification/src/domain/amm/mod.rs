//! AMM context: domain logic of the pool aggregate (sphere invariant, cached
//! geometry, swap execution).
pub mod pool;
pub mod rounding;
pub mod swap;

pub use pool::{
    compute_radius_from_deposit, initialize_pool_reserves, recompute_sphere, update_caches,
    verify_invariant,
};
pub use swap::{compute_fee, compute_slippage_bps, execute_swap, SwapResult};
