//! Pool account state.
use crate::math::sphere::{Sphere, MAX_ASSETS};
use crate::math::FixedPoint;
use crate::state::address::Address;
use vstd::prelude::*;

verus! {

/// Size in bytes of a pool account, discriminator included.
pub const POOL_STATE_SIZE: usize = 8 + 1 + 32 + 17 + (16 * MAX_ASSETS) + 1 + (32 * MAX_ASSETS) + (32
    * MAX_ASSETS) + MAX_ASSETS + 2 + 16 + 16 + 16 + 16 + 2 + 1 + 16 + 16 + 8 + 8 + 112;

/// An N-asset Orbital pool.
#[derive(Clone, Copy, Debug)]
pub struct PoolState {
    pub bump: u8,
    pub authority: Address,
    pub sphere: Sphere,
    pub reserves: [FixedPoint; MAX_ASSETS],
    pub n_assets: u8,
    pub token_mints: [Address; MAX_ASSETS],
    pub token_vaults: [Address; MAX_ASSETS],
    /// Bump seeds for vault PDAs (needed for CPI signing)
    pub vault_bumps: [u8; MAX_ASSETS],
    pub fee_rate_bps: u16,
    pub total_interior_liquidity: FixedPoint,
    pub total_boundary_liquidity: FixedPoint,
    pub alpha_cache: FixedPoint,
    pub w_norm_sq_cache: FixedPoint,
    pub tick_count: u16,
    pub is_active: bool,
    pub total_volume: FixedPoint,
    pub total_fees: FixedPoint,
    pub created_at: i64,
    /// Monotonically incrementing counter for position PDA derivation
    pub position_count: u64,
    pub _reserved: [u8; 112],
}

impl PoolState {
    /// Size in bytes of a pool account, discriminator included.
    pub const SIZE: usize = POOL_STATE_SIZE;

    /// The reserves of the pool's active assets: the first `n_assets` entries.
    pub open spec fn active_reserves_view(self) -> Seq<FixedPoint> {
        self.reserves@.take(self.n_assets as int)
    }

    /// The pool's active reserves
    pub fn active_reserves(&self) -> (r: &[FixedPoint])
        requires
            self.n_assets as usize <= MAX_ASSETS,
        ensures
            r@ == self.active_reserves_view(),
    {
        vstd::slice::slice_subrange(self.reserves.as_slice(), 0, self.n_assets as usize)
    }
}

} // verus!
