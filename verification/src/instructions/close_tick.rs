//! `close_tick`: retire an empty tick and fold any boundary reserves it held
//! back into the pool.
use crate::domain::amm::pool::{caches_result, recompute_sphere, refit_radius_result, update_caches};
use crate::errors::OrbitalError;
use crate::math::fixed_point::{fits_i128, FixedPoint};
use crate::math::sphere::{Sphere, MAX_ASSETS};
use crate::state::address::Address;
use crate::state::pool::PoolState;
use crate::state::tick::{TickState, TickStatus};
use vstd::prelude::*;

verus! {

/// Parameters of `close_tick`.
#[derive(Clone, Copy, Debug)]
pub struct CloseTickParams {
    /// k_raw of the tick to close (used in the tick account's address)
    pub k_raw: i128,
}

/// A pool reserve after a boundary tick's reserve is folded into it: the sum,
/// or the reserve unchanged when the sum would overflow.
pub open spec fn folded(pool_reserve: FixedPoint, tick_reserve: FixedPoint) -> FixedPoint {
    match pool_reserve.add_result(tick_reserve) {
        Ok(v) => v,
        Err(_) => pool_reserve,
    }
}

/// Pool reserves with the first `k` non-zero tick reserves folded in.
pub open spec fn fold_upto(
    reserves: [FixedPoint; MAX_ASSETS],
    tick: [FixedPoint; MAX_ASSETS],
    k: int,
) -> [FixedPoint; MAX_ASSETS]
    decreases k,
{
    if k <= 0 {
        reserves
    } else {
        let prev = fold_upto(reserves, tick, k - 1);
        if tick@[k - 1].raw == 0 {
            prev
        } else {
            vstd::array::spec_array_update(prev, k - 1, folded(prev@[k - 1], tick@[k - 1]))
        }
    }
}

/// Whether closing the tick moves reserves into the pool.
pub open spec fn moves_reserves(pool: PoolState, tick: TickState) -> bool {
    tick.status == TickStatus::Boundary && exists|i: int|
        0 <= i < pool.n_assets && #[trigger] tick.reserves@[i].raw != 0
}

/// Outcome of `handler`: the pool after the tick is closed, or the first
/// failing check.
pub open spec fn close_tick_result(
    pool: PoolState,
    tick: TickState,
    authority: Address,
    pool_key: Address,
) -> Result<PoolState, OrbitalError> {
    if authority.bytes@ != pool.authority.bytes@ {
        Err(OrbitalError::Unauthorized)
    } else if tick.pool.bytes@ != pool_key.bytes@ {
        Err(OrbitalError::TickPoolMismatch)
    } else if tick.liquidity.raw != 0 {
        Err(OrbitalError::TickHasLiquidity)
    } else {
        let merged = if tick.status == TickStatus::Boundary {
            PoolState {
                reserves: fold_upto(pool.reserves, tick.reserves, pool.n_assets as int),
                ..pool
            }
        } else {
            pool
        };
        let refreshed = if moves_reserves(pool, tick) {
            match refit_radius_result(merged.active_reserves_view(), merged.n_assets) {
                Err(e) => Err(e),
                Ok(radius) => {
                    let p3 = PoolState { sphere: Sphere { radius, n: merged.sphere.n }, ..merged };
                    match caches_result(p3.active_reserves_view(), p3.n_assets) {
                        Err(e) => Err(e),
                        Ok((alpha, w)) => Ok(
                            PoolState { alpha_cache: alpha, w_norm_sq_cache: w, ..p3 },
                        ),
                    }
                },
            }
        } else {
            Ok(merged)
        };
        match refreshed {
            Err(e) => Err(e),
            Ok(p) => if p.tick_count == 0 {
                Err(OrbitalError::MathOverflow)
            } else {
                Ok(PoolState { tick_count: (p.tick_count - 1) as u16, ..p })
            },
        }
    }
}

/// The pool after the tick's boundary reserves are folded in and the sphere
/// and caches refreshed, keeping every write made before a failing step.
pub open spec fn close_tick_refreshed(pool: PoolState, tick: TickState) -> PoolState {
    let merged = if tick.status == TickStatus::Boundary {
        PoolState { reserves: fold_upto(pool.reserves, tick.reserves, pool.n_assets as int), ..pool }
    } else {
        pool
    };
    if moves_reserves(pool, tick) {
        match refit_radius_result(merged.active_reserves_view(), merged.n_assets) {
            Err(_) => merged,
            Ok(radius) => {
                let p3 = PoolState { sphere: Sphere { radius, n: merged.sphere.n }, ..merged };
                match caches_result(p3.active_reserves_view(), p3.n_assets) {
                    Err(_) => p3,
                    Ok((alpha, w)) => PoolState { alpha_cache: alpha, w_norm_sq_cache: w, ..p3 },
                }
            },
        }
    } else {
        merged
    }
}

/// The pool `handler` leaves behind, whether it succeeds or not: untouched
/// when a check on the caller or the tick fails, otherwise every write made
/// before the first failing step.
pub open spec fn close_tick_pool_after(
    pool: PoolState,
    tick: TickState,
    authority: Address,
    pool_key: Address,
) -> PoolState {
    match close_tick_result(pool, tick, authority, pool_key) {
        Ok(p) => p,
        Err(_) => if authority.bytes@ != pool.authority.bytes@ || tick.pool.bytes@
            != pool_key.bytes@ || tick.liquidity.raw != 0 {
            pool
        } else {
            close_tick_refreshed(pool, tick)
        },
    }
}

/// Close a tick of the pool, as its authority. The tick must be empty of
/// liquidity. A boundary tick's reserves are held apart from the pool's, so
/// they are folded back into the pool's reserves (and the sphere re-fitted);
/// an interior tick's reserves are already part of the pool's and stay put.
/// A pool reserve whose sum with the tick's reserve would overflow keeps its
/// old value (the tick's share of it is dropped, not reported).
/// The pool is written in place: what is left on error is `close_tick_pool_after`.
pub fn handler(pool: &mut PoolState, tick: &TickState, authority: &Address, pool_key: &Address) -> (r:
    Result<(), OrbitalError>)
    requires
        old(pool).n_assets as usize <= MAX_ASSETS,
    ensures
        *final(pool) == close_tick_pool_after(*old(pool), *tick, *authority, *pool_key),
        match close_tick_result(*old(pool), *tick, *authority, *pool_key) {
            Err(e) => r == Err::<(), OrbitalError>(e),
            Ok(p) => r is Ok && *final(pool) == p,
        },
{
    // Only pool authority can close ticks
    if !authority.same_as(&pool.authority) {
        return Err(OrbitalError::Unauthorized);
    }
    // Tick must belong to this pool
    if !tick.pool.same_as(pool_key) {
        return Err(OrbitalError::TickPoolMismatch);
    }
    // Tick must have zero liquidity — LP must withdraw first
    if !tick.liquidity.is_zero() {
        return Err(OrbitalError::TickHasLiquidity);
    }
    let n = pool.n_assets as usize;
    let mut reserves_changed = false;
    if tick.status == TickStatus::Boundary {
        let mut i: usize = 0;
        while i < n
            invariant
                0 <= i <= n,
                n == old(pool).n_assets,
                n <= MAX_ASSETS,
                tick.status == TickStatus::Boundary,
                *pool == (PoolState {
                    reserves: fold_upto(old(pool).reserves, tick.reserves, i as int),
                    ..*old(pool)
                }),
                reserves_changed == exists|j: int|
                    0 <= j < i && #[trigger] tick.reserves@[j].raw != 0,
            decreases n - i,
        {
            if !tick.reserves[i].is_zero() {
                let sum = match pool.reserves[i].checked_add(tick.reserves[i]) {
                    Ok(v) => v,
                    Err(_) => pool.reserves[i],
                };
                pool.reserves[i] = sum;
                reserves_changed = true;
            }
            proof {
                if reserves_changed {
                    if tick.reserves@[i as int].raw != 0 {
                        assert(exists|j: int| 0 <= j < i + 1 && #[trigger] tick.reserves@[j].raw != 0);
                    }
                }
            }
            i = i + 1;
        }
    }
    // Refresh sphere geometry and caches after the reserve mutation.
    if reserves_changed {
        match recompute_sphere(pool) {
            Err(e) => return Err(e),
            Ok(()) => {},
        }
        match update_caches(pool) {
            Err(e) => return Err(e),
            Ok(()) => {},
        }
    }
    if pool.tick_count == 0 {
        return Err(OrbitalError::MathOverflow);
    }
    pool.tick_count = pool.tick_count - 1;
    Ok(())
}

/// Closing a tick removes exactly one tick from the pool's count, and closing
/// an interior tick leaves every reserve where it was.
pub proof fn lemma_close_tick_effect(
    pool: PoolState,
    tick: TickState,
    authority: Address,
    pool_key: Address,
)
    ensures
        close_tick_result(pool, tick, authority, pool_key) matches Ok(p) ==> {
            &&& p.tick_count == pool.tick_count - 1
            &&& tick.status == TickStatus::Interior ==> p.reserves == pool.reserves
        },
{
}

/// Reserve by reserve, folding the first `k` tick reserves adds each non-zero
/// one to its pool reserve (keeping the pool reserve when the sum would
/// overflow) and leaves every other reserve as it was.
proof fn lemma_fold_upto_each(
    reserves: [FixedPoint; MAX_ASSETS],
    tick: [FixedPoint; MAX_ASSETS],
    k: int,
)
    requires
        0 <= k <= MAX_ASSETS,
    ensures
        forall|i: int|
            0 <= i < MAX_ASSETS ==> #[trigger] fold_upto(reserves, tick, k)@[i] == if i < k
                && tick@[i].raw != 0 {
                folded(reserves@[i], tick@[i])
            } else {
                reserves@[i]
            },
    decreases k,
{
    if k > 0 {
        lemma_fold_upto_each(reserves, tick, k - 1);
        let prev = fold_upto(reserves, tick, k - 1);
        if tick@[k - 1].raw != 0 {
            let v = folded(prev@[k - 1], tick@[k - 1]);
            vstd::array::axiom_spec_array_update(prev, k - 1, v);
            assert(fold_upto(reserves, tick, k)@ == prev@.update(k - 1, v));
        }
    }
}

/// Closing a tick gives a boundary tick's reserves back to the pool: on
/// success every active pool reserve is the old one plus the tick's reserve
/// of that asset (the old one where that sum would overflow), the inactive
/// reserves stay, and when the tick held any reserve the sphere is re-fitted
/// to the new reserves. Closing an interior tick moves no reserve.
pub proof fn lemma_close_tick_returns_boundary_reserves(
    pool: PoolState,
    tick: TickState,
    authority: Address,
    pool_key: Address,
)
    requires
        pool.n_assets as usize <= MAX_ASSETS,
    ensures
        close_tick_result(pool, tick, authority, pool_key) matches Ok(p) ==> {
            &&& tick.status == TickStatus::Boundary ==> forall|i: int|
                0 <= i < pool.n_assets ==> (#[trigger] p.reserves@[i]).raw == if fits_i128(
                    pool.reserves@[i].raw + tick.reserves@[i].raw,
                ) {
                    pool.reserves@[i].raw + tick.reserves@[i].raw
                } else {
                    pool.reserves@[i].raw as int
                }
            &&& forall|i: int|
                pool.n_assets <= i < MAX_ASSETS ==> #[trigger] p.reserves@[i] == pool.reserves@[i]
            &&& tick.status == TickStatus::Interior ==> p.reserves == pool.reserves
            &&& (tick.status == TickStatus::Boundary && exists|i: int|
                0 <= i < pool.n_assets && #[trigger] tick.reserves@[i].raw != 0) ==> refit_radius_result(
                p.active_reserves_view(),
                p.n_assets,
            ) == Ok::<FixedPoint, OrbitalError>(p.sphere.radius)
            &&& p.n_assets == pool.n_assets
        },
{
    lemma_fold_upto_each(pool.reserves, tick.reserves, pool.n_assets as int);
    if let Ok(p) = close_tick_result(pool, tick, authority, pool_key) {
        if tick.status == TickStatus::Boundary {
            let merged = PoolState {
                reserves: fold_upto(pool.reserves, tick.reserves, pool.n_assets as int),
                ..pool
            };
            assert(p.reserves == merged.reserves);
            assert forall|i: int| 0 <= i < pool.n_assets implies (#[trigger] p.reserves@[i]).raw
                == if fits_i128(pool.reserves@[i].raw + tick.reserves@[i].raw) {
                pool.reserves@[i].raw + tick.reserves@[i].raw
            } else {
                pool.reserves@[i].raw as int
            } by {
                assert(p.reserves@[i] == merged.reserves@[i]);
            }
            if moves_reserves(pool, tick) {
                assert(p.active_reserves_view() == merged.active_reserves_view());
            }
        }
    }
}

} // verus!
