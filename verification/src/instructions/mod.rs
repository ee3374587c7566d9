//! The decisions each instruction makes, apart from moving tokens,
//! reading clocks and loading accounts.
pub mod accounts;
pub mod add_liquidity;
pub mod close_pool;
pub mod close_tick;
pub mod execute_settlement;
pub mod execute_swap;
pub mod initialize_pool;
pub mod manage_allowlist;
pub mod remove_liquidity;
pub mod update_policy;
