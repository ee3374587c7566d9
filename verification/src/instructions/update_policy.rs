//! `update_policy`: change a settlement policy's limits or switch it on or off.
use crate::errors::OrbitalError;
use crate::math::fixed_point::{checked_raw, FixedPoint};
use crate::state::address::Address;
use crate::state::policy::PolicyState;
use vstd::prelude::*;

verus! {

/// Parameters of `update_policy`; `None` leaves a field as it is.
/// Amounts are in token base units.
#[derive(Clone, Copy, Debug)]
pub struct UpdatePolicyParams {
    pub max_trade_amount: Option<u64>,
    pub max_daily_volume: Option<u64>,
    pub is_active: Option<bool>,
}

/// An optional new limit in base units, converted to Q64.64.
pub open spec fn limit_result(amount: Option<u64>, current: FixedPoint) -> Result<
    FixedPoint,
    OrbitalError,
> {
    match amount {
        None => Ok(current),
        Some(a) => checked_raw(FixedPoint::int_raw(a as int)),
    }
}

/// Outcome of `handler`: the updated policy, or the first failing check.
pub open spec fn update_policy_result(
    policy: PolicyState,
    signer: Address,
    pool_key: Address,
    params: UpdatePolicyParams,
    now: i64,
) -> Result<PolicyState, OrbitalError> {
    if policy.authority.bytes@ != signer.bytes@ {
        Err(OrbitalError::Unauthorized)
    } else if policy.pool.bytes@ != pool_key.bytes@ {
        Err(OrbitalError::PolicyNotFound)
    } else if params.max_trade_amount is None && params.max_daily_volume is None
        && params.is_active is None {
        Err(OrbitalError::NoFieldsToUpdate)
    } else {
        match limit_result(params.max_trade_amount, policy.max_trade_amount) {
            Err(e) => Err(e),
            Ok(max_trade) => match limit_result(params.max_daily_volume, policy.max_daily_volume) {
                Err(e) => Err(e),
                Ok(max_daily) => Ok(
                    PolicyState {
                        max_trade_amount: max_trade,
                        max_daily_volume: max_daily,
                        is_active: match params.is_active {
                            Some(a) => a,
                            None => policy.is_active,
                        },
                        updated_at: now,
                        ..policy
                    },
                ),
            },
        }
    }
}

/// The policy `handler` leaves behind, whether it succeeds or not: the fields
/// are written in turn, so a daily limit that cannot be converted leaves a new
/// trade limit already written.
pub open spec fn update_policy_after(
    policy: PolicyState,
    signer: Address,
    pool_key: Address,
    params: UpdatePolicyParams,
    now: i64,
) -> PolicyState {
    match update_policy_result(policy, signer, pool_key, params, now) {
        Ok(p) => p,
        Err(_) => if policy.authority.bytes@ != signer.bytes@ || policy.pool.bytes@
            != pool_key.bytes@ {
            policy
        } else {
            match limit_result(params.max_trade_amount, policy.max_trade_amount) {
                Err(_) => policy,
                Ok(max_trade) => PolicyState { max_trade_amount: max_trade, ..policy },
            }
        },
    }
}

/// Apply a policy update, as the policy's authority, at time `now`.
/// The policy is written in place: what is left on error is `update_policy_after`.
pub fn handler(
    policy: &mut PolicyState,
    signer: &Address,
    pool_key: &Address,
    params: &UpdatePolicyParams,
    now: i64,
) -> (r: Result<(), OrbitalError>)
    ensures
        *final(policy) == update_policy_after(*old(policy), *signer, *pool_key, *params, now),
        match update_policy_result(*old(policy), *signer, *pool_key, *params, now) {
            Err(e) => r == Err::<(), OrbitalError>(e),
            Ok(p) => r is Ok && *final(policy) == p,
        },
{
    if !policy.authority.same_as(signer) {
        return Err(OrbitalError::Unauthorized);
    }
    if !policy.pool.same_as(pool_key) {
        return Err(OrbitalError::PolicyNotFound);
    }
    if params.max_trade_amount.is_none() && params.max_daily_volume.is_none()
        && params.is_active.is_none() {
        return Err(OrbitalError::NoFieldsToUpdate);
    }
    if let Some(max_trade) = params.max_trade_amount {
        policy.max_trade_amount = match FixedPoint::checked_from_u64(max_trade) {
            Err(e) => return Err(e),
            Ok(v) => v,
        };
    }
    if let Some(max_daily) = params.max_daily_volume {
        policy.max_daily_volume = match FixedPoint::checked_from_u64(max_daily) {
            Err(e) => return Err(e),
            Ok(v) => v,
        };
    }
    if let Some(active) = params.is_active {
        policy.is_active = active;
    }
    policy.updated_at = now;
    Ok(())
}

} // verus!
