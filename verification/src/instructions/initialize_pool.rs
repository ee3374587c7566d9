//! `initialize_pool`: create an N-asset pool with the sphere invariant.
use crate::domain::amm::pool::{initialize_pool_reserves, is_seeded, seed_result};
use crate::errors::OrbitalError;
use crate::math::fixed_point::{checked_raw, FixedPoint};
use crate::math::sphere::{Sphere, MAX_ASSETS};
use crate::state::address::Address;
use crate::state::pool::PoolState;
use vstd::prelude::*;

verus! {

/// Largest accepted fee rate: 100%.
pub const MAX_FEE_RATE_BPS: u16 = 10_000;

/// Parameters of `initialize_pool`.
#[derive(Clone, Copy, Debug)]
pub struct InitPoolParams {
    pub n_assets: u8,
    pub fee_rate_bps: u16,
    /// Per-asset deposit amount in token base units
    pub initial_deposit_per_asset: u64,
    /// Token mints for the pool; only first n_assets entries are used
    pub token_mints: [Address; MAX_ASSETS],
}

/// The parameter checks of `initialize_pool`, in order.
pub open spec fn init_check(params: InitPoolParams) -> Option<OrbitalError> {
    if !(2 <= params.n_assets && params.n_assets <= MAX_ASSETS) {
        Some(OrbitalError::InvalidAssetCount)
    } else if params.fee_rate_bps > MAX_FEE_RATE_BPS {
        Some(OrbitalError::InvalidFeeRate)
    } else {
        None
    }
}

/// The pool account as `initialize_pool` sets it up before seeding reserves:
/// identity and settings from the parameters, everything else zeroed.
pub open spec fn fresh_pool(
    pool: PoolState,
    bump: u8,
    authority: Address,
    params: InitPoolParams,
    created_at: i64,
) -> PoolState {
    PoolState {
        bump,
        authority,
        n_assets: params.n_assets,
        fee_rate_bps: params.fee_rate_bps,
        is_active: true,
        tick_count: 0,
        total_volume: FixedPoint { raw: 0 },
        total_fees: FixedPoint { raw: 0 },
        total_interior_liquidity: FixedPoint { raw: 0 },
        total_boundary_liquidity: FixedPoint { raw: 0 },
        alpha_cache: FixedPoint { raw: 0 },
        w_norm_sq_cache: FixedPoint { raw: 0 },
        sphere: Sphere { radius: FixedPoint { raw: 0 }, n: params.n_assets },
        reserves: [FixedPoint { raw: 0 };MAX_ASSETS],
        token_mints: [Address { bytes: [0u8;32usize] };MAX_ASSETS],
        token_vaults: [Address { bytes: [0u8;32usize] };MAX_ASSETS],
        position_count: 0,
        _reserved: [0u8;112usize],
        created_at,
        ..pool
    }
}

/// Set up a new pool and seed it with `initial_deposit_per_asset` of each
/// token. `vaults` are the vault accounts of the active assets, in order.
/// The settings are written first: a rejected asset count or fee leaves the
/// pool account as it was, a failure after that leaves it freshly set up but
/// unseeded (`fresh_pool`).
pub fn handler(
    pool: &mut PoolState,
    bump: u8,
    authority: Address,
    params: &InitPoolParams,
    vaults: &[Address],
    created_at: i64,
) -> (r: Result<(), OrbitalError>)
    requires
        init_check(*params) is None ==> vaults.len() == params.n_assets,
    ensures
        match init_check(*params) {
            Some(e) => r == Err::<(), OrbitalError>(e) && *final(pool) == *old(pool),
            None => match checked_raw(FixedPoint::int_raw(params.initial_deposit_per_asset as int)) {
                Err(e) => r == Err::<(), OrbitalError>(e) && *final(pool) == fresh_pool(
                    *old(pool),
                    bump,
                    authority,
                    *params,
                    created_at,
                ),
                Ok(deposit) => match seed_result(
                    deposit,
                    params.n_assets,
                    params.token_mints@.take(params.n_assets as int),
                ) {
                    Err(e) => r == Err::<(), OrbitalError>(e) && *final(pool) == fresh_pool(
                        *old(pool),
                        bump,
                        authority,
                        *params,
                        created_at,
                    ),
                    Ok((radius, liquidity, alpha, w)) => r is Ok && is_seeded(
                        *final(pool),
                        fresh_pool(*old(pool), bump, authority, *params, created_at),
                        deposit,
                        params.token_mints@.take(params.n_assets as int),
                        vaults@,
                        radius,
                        liquidity,
                        alpha,
                        w,
                    ),
                },
            },
        },
{
    if !(params.n_assets >= 2 && (params.n_assets as usize) <= MAX_ASSETS) {
        return Err(OrbitalError::InvalidAssetCount);
    }
    if params.fee_rate_bps > MAX_FEE_RATE_BPS {
        return Err(OrbitalError::InvalidFeeRate);
    }
    let mut next = *pool;
    next.bump = bump;
    next.authority = authority;
    next.n_assets = params.n_assets;
    next.fee_rate_bps = params.fee_rate_bps;
    next.is_active = true;
    next.tick_count = 0;
    next.total_volume = FixedPoint::zero();
    next.total_fees = FixedPoint::zero();
    next.total_interior_liquidity = FixedPoint::zero();
    next.total_boundary_liquidity = FixedPoint::zero();
    next.alpha_cache = FixedPoint::zero();
    next.w_norm_sq_cache = FixedPoint::zero();
    next.sphere = Sphere { radius: FixedPoint::zero(), n: params.n_assets };
    next.reserves = [FixedPoint::zero();MAX_ASSETS];
    next.token_mints = [Address { bytes: [0u8;32] };MAX_ASSETS];
    next.token_vaults = [Address { bytes: [0u8;32] };MAX_ASSETS];
    next.position_count = 0;
    next._reserved = [0u8;112];
    next.created_at = created_at;
    proof {
        assert(next == fresh_pool(*old(pool), bump, authority, *params, created_at));
    }
    *pool = next;
    let deposit = match FixedPoint::checked_from_u64(params.initial_deposit_per_asset) {
        Err(e) => return Err(e),
        Ok(v) => v,
    };
    let n = params.n_assets as usize;
    let mints = vstd::slice::slice_subrange(params.token_mints.as_slice(), 0, n);
    match initialize_pool_reserves(pool, deposit, mints, vaults) {
        Err(e) => return Err(e),
        Ok(()) => {},
    }
    Ok(())
}

} // verus!
