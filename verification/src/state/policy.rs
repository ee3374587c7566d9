//! Settlement policy state.
use crate::math::FixedPoint;
use crate::state::address::Address;
use vstd::prelude::*;

verus! {

/// Size in bytes of a policy account, discriminator included.
pub const POLICY_STATE_SIZE: usize = 8 + 1 + 32 + 32 + 16 + 16 + 16 + 8 + 1 + 8 + 8 + 64;

/// Limits that an institutional settlement on a pool must respect.
#[derive(Clone, Copy, Debug)]
pub struct PolicyState {
    pub bump: u8,
    pub authority: Address,
    pub pool: Address,
    pub max_trade_amount: FixedPoint,
    pub max_daily_volume: FixedPoint,
    pub current_daily_volume: FixedPoint,
    pub last_reset_timestamp: i64,
    pub is_active: bool,
    pub created_at: i64,
    pub updated_at: i64,
    pub _reserved: [u8; 64],
}

} // verus!
