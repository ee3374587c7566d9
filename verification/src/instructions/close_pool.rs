//! `close_pool`: drain and close the vaults of an empty pool, as its authority.
//!
//! The shell checks the pool with `validate`, then for each vault checks it
//! with `check_vault_to_drain`, reads its balance with `token_account_amount`,
//! moves the balance to the authority and closes the vault.
use crate::errors::OrbitalError;
use crate::instructions::accounts::{
    check_token_account_owner, check_vault, owner_check_result, vault_check_result,
};
use crate::math::sphere::MAX_ASSETS;
use crate::state::address::Address;
use crate::state::pool::PoolState;
use vstd::prelude::*;

verus! {

/// Result of `validate`: no outstanding liquidity, and one vault and one
/// authority account per asset.
pub open spec fn close_pool_check(pool: PoolState, remaining_len: int) -> Result<(), OrbitalError> {
    if pool.total_interior_liquidity.raw != 0 {
        Err(OrbitalError::PoolNotEmpty)
    } else if remaining_len != 2 * pool.n_assets {
        Err(OrbitalError::InvalidRemainingAccounts)
    } else {
        Ok(())
    }
}

/// A pool can be closed only when it holds no interior liquidity, and with a
/// vault and a destination account for each asset.
pub fn validate(pool: &PoolState, remaining_len: usize) -> (r: Result<(), OrbitalError>)
    ensures
        r == close_pool_check(*pool, remaining_len as int),
{
    if !pool.total_interior_liquidity.is_zero() {
        return Err(OrbitalError::PoolNotEmpty);
    }
    if remaining_len != 2 * (pool.n_assets as usize) {
        return Err(OrbitalError::InvalidRemainingAccounts);
    }
    Ok(())
}

/// Result of `check_vault_to_drain`.
pub open spec fn drain_check(
    pool: PoolState,
    index: int,
    vault_key: Address,
    destination_data: Seq<u8>,
    authority: Address,
) -> Result<(), OrbitalError> {
    match vault_check_result(pool, index, vault_key) {
        Err(e) => Err(e),
        Ok(_) => owner_check_result(destination_data, authority),
    }
}

/// The vault for asset `index` must be the pool's, and the account that
/// receives its tokens must belong to the authority.
pub fn check_vault_to_drain(
    pool: &PoolState,
    index: usize,
    vault_key: &Address,
    destination_data: &[u8],
    authority: &Address,
) -> (r: Result<(), OrbitalError>)
    requires
        index < MAX_ASSETS,
    ensures
        r == drain_check(*pool, index as int, *vault_key, destination_data@, *authority),
{
    match check_vault(pool, index, vault_key) {
        Err(e) => Err(e),
        Ok(()) => check_token_account_owner(destination_data, authority),
    }
}

} // verus!
