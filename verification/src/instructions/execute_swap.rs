//! `execute_swap`: a swap between two of the pool's tokens.
//!
//! The shell checks the request with `validate`, moves `amount_in` into the
//! input vault, lets `handler` price and apply the trade, then pays out
//! `amount_out_u64` from the output vault.
use crate::domain::amm::pool::{
    caches_result, recompute_sphere, refit_radius_result, update_caches,
};
use crate::domain::amm::swap::{
    execute_swap, fee_result, swap_pool_after, swap_result, compute_fee, SwapResult,
};
use crate::errors::OrbitalError;
use crate::instructions::accounts::{check_vault, vault_check_result};
use crate::math::fixed_point::{checked_raw, FixedPoint};
use crate::math::newton::{amount_out_result, compute_amount_out_analytical};
use crate::math::sphere::{Sphere, MAX_ASSETS};
use crate::state::address::Address;
use crate::state::pool::PoolState;
use vstd::prelude::*;

verus! {

/// Parameters of `execute_swap`. Amounts are in token base units.
#[derive(Clone, Copy, Debug)]
pub struct SwapParams {
    pub token_in_index: u8,
    pub token_out_index: u8,
    /// Amount of token_in to deposit.
    pub amount_in: u64,
    /// Expected output computed off-chain (informational: the handler
    /// recomputes the exact output on-chain).
    pub expected_amount_out: u64,
    /// Minimum acceptable output (slippage floor).
    pub min_amount_out: u64,
}

/// What a successful swap pays out.
#[derive(Clone, Copy, Debug)]
pub struct SwapFill {
    /// The swap as applied to the pool.
    pub result: SwapResult,
    /// Whole base units of token_out paid to the user (the output rounded down).
    pub amount_out_u64: u64,
}

/// The checks made before any token moves, in order.
pub open spec fn swap_request_check(
    pool: PoolState,
    params: SwapParams,
    remaining: Seq<Address>,
) -> Result<(), OrbitalError> {
    let token_in = params.token_in_index as int;
    let token_out = params.token_out_index as int;
    if !pool.is_active {
        Err(OrbitalError::PoolNotActive)
    } else if !(token_in < pool.n_assets && token_out < pool.n_assets) {
        Err(OrbitalError::InvalidTokenIndex)
    } else if token_in == token_out {
        Err(OrbitalError::SameTokenSwap)
    } else if params.amount_in == 0 {
        Err(OrbitalError::NegativeTradeAmount)
    } else if remaining.len() != 4 {
        Err(OrbitalError::InvalidRemainingAccounts)
    } else if vault_check_result(pool, token_in, remaining[0]) is Err {
        Err(OrbitalError::InvalidVaultAddress)
    } else if vault_check_result(pool, token_out, remaining[1]) is Err {
        Err(OrbitalError::InvalidVaultAddress)
    } else {
        Ok(())
    }
}

/// Check a swap request against the pool and the accounts passed with it
/// (`remaining`: vault in, vault out, user account in, user account out).
pub fn validate(pool: &PoolState, params: &SwapParams, remaining: &[Address]) -> (r: Result<
    (),
    OrbitalError,
>)
    requires
        pool.n_assets as usize <= MAX_ASSETS,
    ensures
        r == swap_request_check(*pool, *params, remaining@),
{
    let token_in = params.token_in_index as usize;
    let token_out = params.token_out_index as usize;
    if !pool.is_active {
        return Err(OrbitalError::PoolNotActive);
    }
    if !(token_in < pool.n_assets as usize && token_out < pool.n_assets as usize) {
        return Err(OrbitalError::InvalidTokenIndex);
    }
    if token_in == token_out {
        return Err(OrbitalError::SameTokenSwap);
    }
    if params.amount_in == 0 {
        return Err(OrbitalError::NegativeTradeAmount);
    }
    if remaining.len() != 4 {
        return Err(OrbitalError::InvalidRemainingAccounts);
    }
    match check_vault(pool, token_in, &remaining[0]) {
        Err(e) => return Err(e),
        Ok(()) => {},
    }
    check_vault(pool, token_out, &remaining[1])
}

/// The exact output of a swap on the sphere for a net input, or
/// `InvalidTokenIndex` when an index is not an active asset.
pub open spec fn precise_out_result(
    pool: PoolState,
    token_in: int,
    token_out: int,
    net: FixedPoint,
) -> Result<FixedPoint, OrbitalError> {
    if token_in < pool.n_assets && token_out < pool.n_assets {
        amount_out_result(
            pool.sphere.radius,
            pool.reserves@[token_in],
            pool.reserves@[token_out],
            net,
        )
    } else {
        Err(OrbitalError::InvalidTokenIndex)
    }
}

/// The pool after adding back to the output reserve the fraction of a base
/// unit that was not paid out, re-fitting the sphere and refreshing caches.
pub open spec fn return_dust_result(
    pool: PoolState,
    token_out: int,
    amount_out: FixedPoint,
    paid: FixedPoint,
) -> Result<PoolState, OrbitalError> {
    if amount_out.raw > paid.raw {
        match amount_out.sub_result(paid) {
            Err(e) => Err(e),
            Ok(dust) => match pool.reserves@[token_out].add_result(dust) {
                Err(e) => Err(e),
                Ok(reserve) => {
                    let p2 = PoolState {
                        reserves: vstd::array::spec_array_update(pool.reserves, token_out, reserve),
                        ..pool
                    };
                    match refit_radius_result(p2.active_reserves_view(), p2.n_assets) {
                        Err(e) => Err(e),
                        Ok(radius) => {
                            let p3 = PoolState { sphere: Sphere { radius, n: p2.sphere.n }, ..p2 };
                            match caches_result(p3.active_reserves_view(), p3.n_assets) {
                                Err(e) => Err(e),
                                Ok((alpha, w)) => Ok(
                                    PoolState { alpha_cache: alpha, w_norm_sq_cache: w, ..p3 },
                                ),
                            }
                        },
                    }
                },
            },
        }
    } else {
        Ok(pool)
    }
}

/// Outcome of `price_and_apply`: the pool after the trade, the trade, and the
/// whole base units it pays out, or the first failing step.
pub open spec fn priced_swap_result(
    pool: PoolState,
    token_in: usize,
    token_out: usize,
    amount: u64,
    min_amount_out: u64,
) -> Result<(PoolState, SwapResult, u64), OrbitalError> {
    match checked_raw(FixedPoint::int_raw(amount as int)) {
        Err(e) => Err(e),
        Ok(amount_in) => match checked_raw(FixedPoint::int_raw(min_amount_out as int)) {
            Err(e) => Err(e),
            Ok(min_out) => match fee_result(amount_in, pool.fee_rate_bps) {
                Err(e) => Err(e),
                Ok(fee) => match amount_in.sub_result(fee) {
                    Err(e) => Err(e),
                    Ok(net) => match precise_out_result(
                        pool,
                        token_in as int,
                        token_out as int,
                        net,
                    ) {
                        Err(e) => Err(e),
                        Ok(precise) => match swap_result(
                            pool,
                            token_in,
                            token_out,
                            amount_in,
                            precise,
                            min_out,
                        ) {
                            Err(e) => Err(e),
                            Ok((p1, res)) => match res.amount_out.to_u64_result() {
                                Err(e) => Err(e),
                                Ok(out_u64) => if out_u64 == 0 {
                                    Err(OrbitalError::SwapOutputTooSmall)
                                } else {
                                    Ok((p1, res, out_u64))
                                },
                            },
                        },
                    },
                },
            },
        },
    }
}

/// Outcome of `handler`: the pool after the swap and the payout, or the first
/// failing step.
pub open spec fn swap_handler_result(pool: PoolState, params: SwapParams) -> Result<
    (PoolState, SwapFill),
    OrbitalError,
> {
    match priced_swap_result(
        pool,
        params.token_in_index as usize,
        params.token_out_index as usize,
        params.amount_in,
        params.min_amount_out,
    ) {
        Err(e) => Err(e),
        Ok((p1, res, out_u64)) => match return_dust_result(
            p1,
            params.token_out_index as int,
            res.amount_out,
            FixedPoint { raw: FixedPoint::int_raw(out_u64 as int) as i128 },
        ) {
            Err(e) => Err(e),
            Ok(p) => Ok((p, SwapFill { result: res, amount_out_u64: out_u64 })),
        },
    }
}

/// The pool `price_and_apply` leaves behind: untouched when pricing fails,
/// otherwise what the domain `execute_swap` leaves (a payout that rounds to
/// nothing or does not fit is rejected after the swap was applied).
pub open spec fn priced_pool_after(
    pool: PoolState,
    token_in: usize,
    token_out: usize,
    amount: u64,
    min_amount_out: u64,
) -> PoolState {
    match checked_raw(FixedPoint::int_raw(amount as int)) {
        Err(_) => pool,
        Ok(amount_in) => match checked_raw(FixedPoint::int_raw(min_amount_out as int)) {
            Err(_) => pool,
            Ok(min_out) => match fee_result(amount_in, pool.fee_rate_bps) {
                Err(_) => pool,
                Ok(fee) => match amount_in.sub_result(fee) {
                    Err(_) => pool,
                    Ok(net) => match precise_out_result(
                        pool,
                        token_in as int,
                        token_out as int,
                        net,
                    ) {
                        Err(_) => pool,
                        Ok(precise) => swap_pool_after(
                            pool,
                            token_in,
                            token_out,
                            amount_in,
                            precise,
                            min_out,
                        ),
                    },
                },
            },
        },
    }
}

/// The pool after the dust correction of `handler`, whether it succeeds or
/// not: the output reserve, the sphere and the caches are written in turn,
/// and the first failing step stops the writes.
pub open spec fn return_dust_pool_after(
    pool: PoolState,
    token_out: int,
    amount_out: FixedPoint,
    paid: FixedPoint,
) -> PoolState {
    if amount_out.raw > paid.raw {
        match amount_out.sub_result(paid) {
            Err(_) => pool,
            Ok(dust) => match pool.reserves@[token_out].add_result(dust) {
                Err(_) => pool,
                Ok(reserve) => {
                    let p2 = PoolState {
                        reserves: vstd::array::spec_array_update(pool.reserves, token_out, reserve),
                        ..pool
                    };
                    match refit_radius_result(p2.active_reserves_view(), p2.n_assets) {
                        Err(_) => p2,
                        Ok(radius) => {
                            let p3 = PoolState { sphere: Sphere { radius, n: p2.sphere.n }, ..p2 };
                            match caches_result(p3.active_reserves_view(), p3.n_assets) {
                                Err(_) => p3,
                                Ok((alpha, w)) => PoolState {
                                    alpha_cache: alpha,
                                    w_norm_sq_cache: w,
                                    ..p3
                                },
                            }
                        },
                    }
                },
            },
        }
    } else {
        pool
    }
}

/// The pool `handler` leaves behind, whether it succeeds or not.
pub open spec fn swap_handler_pool_after(pool: PoolState, params: SwapParams) -> PoolState {
    match priced_swap_result(
        pool,
        params.token_in_index as usize,
        params.token_out_index as usize,
        params.amount_in,
        params.min_amount_out,
    ) {
        Err(_) => priced_pool_after(
            pool,
            params.token_in_index as usize,
            params.token_out_index as usize,
            params.amount_in,
            params.min_amount_out,
        ),
        Ok((p1, res, out_u64)) => return_dust_pool_after(
            p1,
            params.token_out_index as int,
            res.amount_out,
            FixedPoint { raw: FixedPoint::int_raw(out_u64 as int) as i128 },
        ),
    }
}

/// Price a trade of `amount` base units exactly with the analytical solver,
/// apply it with the domain `execute_swap`, and round the output down to the
/// whole base units to pay out (rejecting a payout of zero).
/// The pool is written in place: what is left on error is `priced_pool_after`.
pub fn price_and_apply(
    pool: &mut PoolState,
    token_in: usize,
    token_out: usize,
    amount: u64,
    min_amount_out: u64,
) -> (r: Result<(SwapResult, u64), OrbitalError>)
    requires
        old(pool).n_assets as usize <= MAX_ASSETS,
    ensures
        *final(pool) == priced_pool_after(*old(pool), token_in, token_out, amount, min_amount_out),
        match priced_swap_result(*old(pool), token_in, token_out, amount, min_amount_out) {
            Err(e) => r == Err::<(SwapResult, u64), OrbitalError>(e),
            Ok((p, res, out_u64)) => r == Ok::<(SwapResult, u64), OrbitalError>((res, out_u64))
                && *final(pool) == p,
        },
{
    let amount_in = match FixedPoint::checked_from_u64(amount) {
        Err(e) => return Err(e),
        Ok(v) => v,
    };
    let min_out = match FixedPoint::checked_from_u64(min_amount_out) {
        Err(e) => return Err(e),
        Ok(v) => v,
    };
    let fee = match compute_fee(amount_in, pool.fee_rate_bps) {
        Err(e) => return Err(e),
        Ok(v) => v,
    };
    let net_in = match amount_in.checked_sub(fee) {
        Err(e) => return Err(e),
        Ok(v) => v,
    };
    let precise_amount_out = match compute_amount_out_analytical(
        &pool.sphere,
        pool.active_reserves(),
        token_in,
        token_out,
        net_in,
    ) {
        Err(e) => return Err(e),
        Ok(v) => v,
    };
    let result = match execute_swap(
        pool,
        token_in,
        token_out,
        amount_in,
        precise_amount_out,
        min_out,
    ) {
        Err(e) => return Err(e),
        Ok(v) => v,
    };
    let amount_out_u64 = match result.amount_out.to_u64() {
        Err(e) => return Err(e),
        Ok(v) => v,
    };
    if amount_out_u64 == 0 {
        return Err(OrbitalError::SwapOutputTooSmall);
    }
    Ok((result, amount_out_u64))
}

/// Price and apply a swap after `amount_in` has reached the input vault.
///
/// The output is recomputed exactly with the analytical solver (the request's
/// `expected_amount_out` is not trusted), the trade is applied by the domain
/// `execute_swap`, and the payout is the output rounded down to whole base
/// units; the fraction left over goes back into the output reserve (with the
/// sphere re-fitted) so that reserves match the vault balances.
/// The pool is written in place: what is left on error is `swap_handler_pool_after`.
pub fn handler(pool: &mut PoolState, params: &SwapParams) -> (r: Result<SwapFill, OrbitalError>)
    requires
        old(pool).n_assets as usize <= MAX_ASSETS,
    ensures
        *final(pool) == swap_handler_pool_after(*old(pool), *params),
        match swap_handler_result(*old(pool), *params) {
            Err(e) => r == Err::<SwapFill, OrbitalError>(e),
            Ok((p, fill)) => r == Ok::<SwapFill, OrbitalError>(fill) && *final(pool) == p,
        },
{
    let token_out = params.token_out_index as usize;
    let (result, amount_out_u64) = match price_and_apply(
        pool,
        params.token_in_index as usize,
        token_out,
        params.amount_in,
        params.min_amount_out,
    ) {
        Err(e) => return Err(e),
        Ok(v) => v,
    };
    // Floor rounding: correct the reserve for the fraction not paid out.
    let transferred = FixedPoint::from_u64(amount_out_u64);
    if result.amount_out.raw > transferred.raw {
        let dust = match result.amount_out.checked_sub(transferred) {
            Err(e) => return Err(e),
            Ok(v) => v,
        };
        let reserve = match pool.reserves[token_out].checked_add(dust) {
            Err(e) => return Err(e),
            Ok(v) => v,
        };
        pool.reserves[token_out] = reserve;
        match recompute_sphere(pool) {
            Err(e) => return Err(e),
            Ok(()) => {},
        }
        match update_caches(pool) {
            Err(e) => return Err(e),
            Ok(()) => {},
        }
    }
    Ok(SwapFill { result, amount_out_u64 })
}

/// The pool keeps account of exactly what the vaults hold after a swap: the
/// input reserve grows by the net amount in, and the output reserve shrinks
/// by exactly the whole base units paid out (the fraction that the rounding
/// kept back stays in the reserve).
pub proof fn lemma_swap_payout_matches_reserves(pool: PoolState, params: SwapParams)
    requires
        pool.n_assets as usize <= MAX_ASSETS,
    ensures
        swap_handler_result(pool, params) matches Ok((p, fill)) ==> {
            let token_in = params.token_in_index as int;
            let token_out = params.token_out_index as int;
            &&& p.reserves@[token_out].raw == pool.reserves@[token_out].raw - FixedPoint::int_raw(
                fill.amount_out_u64 as int,
            )
            &&& p.reserves@[token_in].raw == pool.reserves@[token_in].raw
                + fill.result.net_amount_in.raw
            &&& 0 < fill.amount_out_u64
            &&& FixedPoint::int_raw(fill.amount_out_u64 as int) <= fill.result.amount_out.raw
        },
{
    let token_in = params.token_in_index as usize;
    let token_out = params.token_out_index as usize;
    if let Ok((p, fill)) = swap_handler_result(pool, params) {
        let (p1, res, out_u64) = priced_swap_result(
            pool,
            token_in,
            token_out,
            params.amount_in,
            params.min_amount_out,
        )->Ok_0;
        let amount_in = checked_raw(FixedPoint::int_raw(params.amount_in as int))->Ok_0;
        let min_out = checked_raw(FixedPoint::int_raw(params.min_amount_out as int))->Ok_0;
        let fee = fee_result(amount_in, pool.fee_rate_bps)->Ok_0;
        let net = amount_in.sub_result(fee)->Ok_0;
        let precise = precise_out_result(pool, token_in as int, token_out as int, net)->Ok_0;
        crate::domain::amm::swap::lemma_swap_conserves(
            pool,
            token_in,
            token_out,
            amount_in,
            precise,
            min_out,
        );
        let s = crate::math::fixed_point::SCALE as int;
        vstd::arithmetic::div_mod::lemma_fundamental_div_mod(res.amount_out.raw as int, s);
        vstd::arithmetic::div_mod::lemma_mod_bound(res.amount_out.raw as int, s);
        assert(out_u64 as int == (res.amount_out.raw as int) / s);
        assert(out_u64 * s <= res.amount_out.raw) by (nonlinear_arith)
            requires
                out_u64 as int == (res.amount_out.raw as int) / s,
                res.amount_out.raw == s * ((res.amount_out.raw as int) / s) + (res.amount_out.raw as int) % s,
                (res.amount_out.raw as int) % s >= 0,
        ;
        let paid = FixedPoint { raw: FixedPoint::int_raw(out_u64 as int) as i128 };
        if res.amount_out.raw > paid.raw {
            let dust = res.amount_out.sub_result(paid)->Ok_0;
            let reserve = p1.reserves@[token_out as int].add_result(dust)->Ok_0;
            let p2 = PoolState {
                reserves: vstd::array::spec_array_update(p1.reserves, token_out as int, reserve),
                ..p1
            };
            assert(p2.reserves@ == p1.reserves@.update(token_out as int, reserve));
            assert(p.reserves == p2.reserves);
        }
    }
}

} // verus!
