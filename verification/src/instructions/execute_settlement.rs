//! `execute_settlement`: a policy-checked institutional swap with an audit hash.
//!
//! The shell checks the request with `validate` (which records the trade in
//! the policy's daily volume), moves `amount` into the input vault, lets
//! `handler` price and apply the trade, pays out `amount_out_u64`, and writes
//! the settlement and audit records with the returned action hash.
use crate::domain::amm::pool::{caches_result, update_caches};
use crate::domain::amm::swap::SwapResult;
use crate::domain::settlement::{
    action_preimage, check_policy, compute_action_hash, policy_check_after, policy_check_result,
    sha256,
};
use crate::errors::OrbitalError;
use crate::instructions::accounts::{
    check_token_account_owner, check_vault, owner_check_result, vault_check_result,
};
use crate::instructions::execute_swap::{price_and_apply, priced_pool_after, priced_swap_result};
use crate::math::fixed_point::{checked_raw, FixedPoint};
use crate::math::sphere::MAX_ASSETS;
use crate::state::address::Address;
use crate::state::policy::PolicyState;
use crate::state::pool::PoolState;
use vstd::prelude::*;

verus! {

/// Parameters of `execute_settlement`. Amounts are in token base units.
#[derive(Clone, Copy, Debug)]
pub struct ExecuteSettlementParams {
    pub token_in_index: u8,
    pub token_out_index: u8,
    pub amount: u64,
    pub min_amount_out: u64,
    pub nonce: u64,
}

/// What a successful settlement pays out and records.
#[derive(Clone, Copy, Debug)]
pub struct SettlementFill {
    /// The swap as applied to the pool.
    pub result: SwapResult,
    /// Whole base units of token_out paid to the executor.
    pub amount_out_u64: u64,
    /// SHA-256 binding the settlement to its accounts, amounts and time.
    pub action_hash: [u8; 32],
}

/// The checks made before any token moves, in order, and the policy with
/// the trade recorded in its daily volume.
pub open spec fn settlement_request_check(
    pool: PoolState,
    pool_key: Address,
    policy: PolicyState,
    params: ExecuteSettlementParams,
    executor_allowlisted: bool,
    now: i64,
    remaining: Seq<Address>,
    executor_ata_out: Seq<u8>,
    executor: Address,
) -> Result<PolicyState, OrbitalError> {
    let token_in = params.token_in_index as int;
    let token_out = params.token_out_index as int;
    if policy.pool.bytes@ != pool_key.bytes@ {
        Err(OrbitalError::PolicyNotFound)
    } else if !policy.is_active {
        Err(OrbitalError::SettlementPolicyViolation)
    } else if !pool.is_active {
        Err(OrbitalError::PoolNotActive)
    } else if token_in == token_out {
        Err(OrbitalError::SameTokenSwap)
    } else if !(token_in < pool.n_assets && token_out < pool.n_assets) {
        Err(OrbitalError::InvalidTokenIndex)
    } else if params.amount == 0 {
        Err(OrbitalError::NegativeTradeAmount)
    } else if !executor_allowlisted {
        Err(OrbitalError::Unauthorized)
    } else {
        match checked_raw(FixedPoint::int_raw(params.amount as int)) {
            Err(e) => Err(e),
            Ok(amount) => match policy_check_result(policy, amount, now) {
                Err(e) => Err(e),
                Ok(p) => if remaining.len() != 4 {
                    Err(OrbitalError::InvalidRemainingAccounts)
                } else if vault_check_result(pool, token_in, remaining[0]) is Err {
                    Err(OrbitalError::InvalidVaultAddress)
                } else if vault_check_result(pool, token_out, remaining[1]) is Err {
                    Err(OrbitalError::InvalidVaultAddress)
                } else {
                    match owner_check_result(executor_ata_out, executor) {
                        Err(e) => Err(e),
                        Ok(_) => Ok(p),
                    }
                },
            },
        }
    }
}

/// The policy `validate` leaves behind, whether the request passes or not:
/// once the trade is well formed and the executor admitted, the policy
/// records the trade (or its daily reset) before the accounts are checked.
pub open spec fn settlement_policy_after(
    pool: PoolState,
    pool_key: Address,
    policy: PolicyState,
    params: ExecuteSettlementParams,
    executor_allowlisted: bool,
    now: i64,
) -> PolicyState {
    let token_in = params.token_in_index as int;
    let token_out = params.token_out_index as int;
    if policy.pool.bytes@ != pool_key.bytes@ || !policy.is_active || !pool.is_active || token_in
        == token_out || !(token_in < pool.n_assets && token_out < pool.n_assets) || params.amount
        == 0 || !executor_allowlisted {
        policy
    } else {
        match checked_raw(FixedPoint::int_raw(params.amount as int)) {
            Err(_) => policy,
            Ok(amount) => policy_check_after(policy, amount, now),
        }
    }
}

/// Check a settlement request: the policy belongs to the pool and is active,
/// the trade is well formed, the executor is on the allowlist, the trade fits
/// the policy's limits (and is recorded in its daily volume), the vaults are
/// the pool's, and the output account belongs to the executor.
/// `remaining`: vault in, vault out, executor account in, executor account out.
/// The policy is written in place: what is left on error is
/// `settlement_policy_after`.
pub fn validate(
    pool: &PoolState,
    pool_key: &Address,
    policy: &mut PolicyState,
    params: &ExecuteSettlementParams,
    executor_allowlisted: bool,
    now: i64,
    remaining: &[Address],
    executor_ata_out: &[u8],
    executor: &Address,
) -> (r: Result<(), OrbitalError>)
    requires
        pool.n_assets as usize <= MAX_ASSETS,
        i64::MIN <= now - old(policy).last_reset_timestamp <= i64::MAX,
    ensures
        *final(policy) == settlement_policy_after(
            *pool,
            *pool_key,
            *old(policy),
            *params,
            executor_allowlisted,
            now,
        ),
        match settlement_request_check(
            *pool,
            *pool_key,
            *old(policy),
            *params,
            executor_allowlisted,
            now,
            remaining@,
            executor_ata_out@,
            *executor,
        ) {
            Err(e) => r == Err::<(), OrbitalError>(e),
            Ok(p) => r is Ok && *final(policy) == p,
        },
{
    let token_in = params.token_in_index as usize;
    let token_out = params.token_out_index as usize;
    if !policy.pool.same_as(pool_key) {
        return Err(OrbitalError::PolicyNotFound);
    }
    if !policy.is_active {
        return Err(OrbitalError::SettlementPolicyViolation);
    }
    if !pool.is_active {
        return Err(OrbitalError::PoolNotActive);
    }
    if token_in == token_out {
        return Err(OrbitalError::SameTokenSwap);
    }
    if !(token_in < pool.n_assets as usize && token_out < pool.n_assets as usize) {
        return Err(OrbitalError::InvalidTokenIndex);
    }
    if params.amount == 0 {
        return Err(OrbitalError::NegativeTradeAmount);
    }
    if !executor_allowlisted {
        return Err(OrbitalError::Unauthorized);
    }
    let amount = match FixedPoint::checked_from_u64(params.amount) {
        Err(e) => return Err(e),
        Ok(v) => v,
    };
    match check_policy(policy, amount, now) {
        Err(e) => return Err(e),
        Ok(()) => {},
    }
    if remaining.len() != 4 {
        return Err(OrbitalError::InvalidRemainingAccounts);
    }
    match check_vault(pool, token_in, &remaining[0]) {
        Err(e) => return Err(e),
        Ok(()) => {},
    }
    match check_vault(pool, token_out, &remaining[1]) {
        Err(e) => return Err(e),
        Ok(()) => {},
    }
    match check_token_account_owner(executor_ata_out, executor) {
        Err(e) => return Err(e),
        Ok(()) => {},
    }
    Ok(())
}

/// The pool after adding back to the output reserve the fraction of a base
/// unit that was not paid out, with caches refreshed.
pub open spec fn settle_dust_result(
    pool: PoolState,
    token_out: int,
    amount_out: FixedPoint,
    paid: FixedPoint,
) -> Result<PoolState, OrbitalError> {
    match amount_out.sub_result(paid) {
        Err(e) => Err(e),
        Ok(dust) => if dust.raw > 0 {
            match pool.reserves@[token_out].add_result(dust) {
                Err(e) => Err(e),
                Ok(reserve) => {
                    let p2 = PoolState {
                        reserves: vstd::array::spec_array_update(pool.reserves, token_out, reserve),
                        ..pool
                    };
                    match caches_result(p2.active_reserves_view(), p2.n_assets) {
                        Err(e) => Err(e),
                        Ok((alpha, w)) => Ok(
                            PoolState { alpha_cache: alpha, w_norm_sq_cache: w, ..p2 },
                        ),
                    }
                },
            }
        } else {
            Ok(pool)
        },
    }
}

/// Outcome of `handler` apart from the action hash: the pool after the
/// settlement, the trade, and the whole base units paid out.
pub open spec fn settlement_handler_result(pool: PoolState, params: ExecuteSettlementParams) -> Result<
    (PoolState, SwapResult, u64),
    OrbitalError,
> {
    match priced_swap_result(
        pool,
        params.token_in_index as usize,
        params.token_out_index as usize,
        params.amount,
        params.min_amount_out,
    ) {
        Err(e) => Err(e),
        Ok((p1, res, out_u64)) => match settle_dust_result(
            p1,
            params.token_out_index as int,
            res.amount_out,
            FixedPoint { raw: FixedPoint::int_raw(out_u64 as int) as i128 },
        ) {
            Err(e) => Err(e),
            Ok(p) => Ok((p, res, out_u64)),
        },
    }
}

/// The pool after the dust correction of `handler`, whether it succeeds or
/// not: the output reserve and then the caches are written, and the first
/// failing step stops the writes.
pub open spec fn settle_dust_pool_after(
    pool: PoolState,
    token_out: int,
    amount_out: FixedPoint,
    paid: FixedPoint,
) -> PoolState {
    match amount_out.sub_result(paid) {
        Err(_) => pool,
        Ok(dust) => if dust.raw > 0 {
            match pool.reserves@[token_out].add_result(dust) {
                Err(_) => pool,
                Ok(reserve) => {
                    let p2 = PoolState {
                        reserves: vstd::array::spec_array_update(pool.reserves, token_out, reserve),
                        ..pool
                    };
                    match caches_result(p2.active_reserves_view(), p2.n_assets) {
                        Err(_) => p2,
                        Ok((alpha, w)) => PoolState { alpha_cache: alpha, w_norm_sq_cache: w, ..p2 },
                    }
                },
            }
        } else {
            pool
        },
    }
}

/// The pool `handler` leaves behind, whether it succeeds or not.
pub open spec fn settlement_pool_after(pool: PoolState, params: ExecuteSettlementParams) -> PoolState {
    match priced_swap_result(
        pool,
        params.token_in_index as usize,
        params.token_out_index as usize,
        params.amount,
        params.min_amount_out,
    ) {
        Err(_) => priced_pool_after(
            pool,
            params.token_in_index as usize,
            params.token_out_index as usize,
            params.amount,
            params.min_amount_out,
        ),
        Ok((p1, res, out_u64)) => settle_dust_pool_after(
            p1,
            params.token_out_index as int,
            res.amount_out,
            FixedPoint { raw: FixedPoint::int_raw(out_u64 as int) as i128 },
        ),
    }
}

/// Price and apply a settlement after `amount` has reached the input vault,
/// return the fraction of a base unit not paid out to the output reserve,
/// and compute the action hash over the settlement's accounts, amounts and
/// time. The pool is written in place: what is left on error is
/// `settlement_pool_after`.
pub fn handler(
    pool: &mut PoolState,
    params: &ExecuteSettlementParams,
    settlement_key: &Address,
    pool_key: &Address,
    policy_key: &Address,
    executor_key: &Address,
    now: i64,
) -> (r: Result<SettlementFill, OrbitalError>)
    requires
        old(pool).n_assets as usize <= MAX_ASSETS,
    ensures
        *final(pool) == settlement_pool_after(*old(pool), *params),
        match settlement_handler_result(*old(pool), *params) {
            Err(e) => r == Err::<SettlementFill, OrbitalError>(e),
            Ok((p, res, out_u64)) => r matches Ok(fill) && *final(pool) == p && fill.result == res
                && fill.amount_out_u64 == out_u64 && fill.action_hash@ == sha256(
                action_preimage(
                    *settlement_key,
                    *pool_key,
                    *policy_key,
                    *executor_key,
                    params.token_in_index,
                    params.token_out_index,
                    res.amount_in,
                    res.amount_out,
                    now,
                ),
            ),
        },
{
    let token_out = params.token_out_index as usize;
    let (result, amount_out_u64) = match price_and_apply(
        pool,
        params.token_in_index as usize,
        token_out,
        params.amount,
        params.min_amount_out,
    ) {
        Err(e) => return Err(e),
        Ok(v) => v,
    };
    // Correct the reserve for the fraction of a base unit not paid out.
    let transferred = FixedPoint::from_u64(amount_out_u64);
    let truncation_dust = match result.amount_out.checked_sub(transferred) {
        Err(e) => return Err(e),
        Ok(v) => v,
    };
    if truncation_dust.raw > 0 {
        let reserve = match pool.reserves[token_out].checked_add(truncation_dust) {
            Err(e) => return Err(e),
            Ok(v) => v,
        };
        pool.reserves[token_out] = reserve;
        match update_caches(pool) {
            Err(e) => return Err(e),
            Ok(()) => {},
        }
    }
    let action_hash = compute_action_hash(
        settlement_key,
        pool_key,
        policy_key,
        executor_key,
        params.token_in_index,
        params.token_out_index,
        result.amount_in,
        result.amount_out,
        now,
    );
    Ok(SettlementFill { result, amount_out_u64, action_hash })
}

} // verus!
