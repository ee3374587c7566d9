//! Concentrated-liquidity tick state.
use crate::math::sphere::MAX_ASSETS;
use crate::math::FixedPoint;
use crate::state::address::Address;
use vstd::prelude::*;

verus! {

/// Size in bytes of a tick account, discriminator included.
pub const TICK_STATE_SIZE: usize = 8 + 1 + 32 + 16 + 1 + 16 + 16 + 16 + 16 + 16 + 16 + 32 + 8 + (16
    * MAX_ASSETS) + 32;

/// Whether a tick's liquidity is inside the active region or pinned at its boundary.
#[derive(Clone, Copy, Debug, PartialEq, Eq, Structural)]
pub enum TickStatus {
    Interior,
    Boundary,
}

/// A concentrated-liquidity tick: a spherical cap bounded by the plane x·v = k.
#[derive(Clone, Copy, Debug)]
pub struct TickState {
    pub bump: u8,
    pub pool: Address,
    pub k: FixedPoint,
    pub status: TickStatus,
    pub liquidity: FixedPoint,
    pub sphere_radius: FixedPoint,
    pub depeg_price: FixedPoint,
    pub x_min: FixedPoint,
    pub x_max: FixedPoint,
    pub capital_efficiency: FixedPoint,
    pub owner: Address,
    pub created_at: i64,
    /// Per-tick reserves: each asset's share of liquidity within this tick.
    /// Only the first `pool.n_assets` entries are used (rest are zero).
    /// While Interior they are part of the pool's reserves; while Boundary
    /// they are held apart from them.
    pub reserves: [FixedPoint; MAX_ASSETS],
    pub _reserved: [u8; 32],
}

} // verus!
