//! `remove_liquidity`: the checks and the tick bookkeeping of a withdrawal.
//!
//! There is no `is_active` check: liquidity providers can always withdraw.
//! The shell checks the request with `validate`, applies the withdrawal to
//! the pool, takes a concentrated position's returned amounts out of its tick with
//! `withdraw_from_tick`, and moves the returned tokens to the provider.
use crate::errors::OrbitalError;
use crate::math::fixed_point::{fits_i128, FixedPoint};
use crate::math::sphere::MAX_ASSETS;
use crate::state::address::Address;
use crate::state::pool::PoolState;
use crate::state::tick::TickState;
use vstd::prelude::*;

verus! {

/// Parameters of `remove_liquidity`.
#[derive(Clone, Copy, Debug)]
pub struct RemoveLiquidityParams {
    /// Raw Q64.64 liquidity to remove. For full withdrawal, pass the
    /// position's liquidity exactly.
    pub liquidity_raw: i128,
}

/// The position a withdrawal draws on, as far as the checks read it.
#[derive(Clone, Copy, Debug)]
pub struct PositionView {
    pub owner: Address,
    pub pool: Address,
    /// The tick of a concentrated position; all zero for a full-range one.
    pub tick: Address,
    pub liquidity: FixedPoint,
}

/// Whether an address is the all-zero "no account" address.
pub open spec fn is_unset(a: Address) -> bool {
    a.bytes@ == Seq::new(32, |i: int| 0u8)
}

/// Result of `validate`: the liquidity to remove, or the first failing check.
/// `remaining`: the n vaults, the n provider accounts, then the position's
/// tick if it has one.
pub open spec fn remove_liquidity_check(
    pool: PoolState,
    pool_key: Address,
    provider: Address,
    position: PositionView,
    params: RemoveLiquidityParams,
    remaining: Seq<Address>,
) -> Result<FixedPoint, OrbitalError> {
    let n = pool.n_assets as int;
    let has_tick = !is_unset(position.tick);
    if position.owner.bytes@ != provider.bytes@ {
        Err(OrbitalError::Unauthorized)
    } else if position.pool.bytes@ != pool_key.bytes@ {
        Err(OrbitalError::PositionNotFound)
    } else if remaining.len() != (if has_tick {
        2 * n + 1
    } else {
        2 * n
    }) {
        Err(OrbitalError::InvalidRemainingAccounts)
    } else if params.liquidity_raw <= 0 {
        Err(OrbitalError::InvalidLiquidityAmount)
    } else if params.liquidity_raw > position.liquidity.raw {
        Err(OrbitalError::InsufficientPositionBalance)
    } else if exists|i: int|
        0 <= i < n && #[trigger] remaining[i].bytes@ != pool.token_vaults@[i].bytes@ {
        Err(OrbitalError::InvalidVaultAddress)
    } else {
        Ok(FixedPoint { raw: params.liquidity_raw })
    }
}

/// Check a withdrawal request: the provider owns the position on this pool,
/// the accounts are laid out for the position's kind, the amount is positive
/// and within the position's liquidity, and the vaults are the pool's.
pub fn validate(
    pool: &PoolState,
    pool_key: &Address,
    provider: &Address,
    position: &PositionView,
    params: &RemoveLiquidityParams,
    remaining: &[Address],
) -> (r: Result<FixedPoint, OrbitalError>)
    requires
        pool.n_assets as usize <= MAX_ASSETS,
    ensures
        r == remove_liquidity_check(*pool, *pool_key, *provider, *position, *params, remaining@),
{
    if !position.owner.same_as(provider) {
        return Err(OrbitalError::Unauthorized);
    }
    if !position.pool.same_as(pool_key) {
        return Err(OrbitalError::PositionNotFound);
    }
    let n = pool.n_assets as usize;
    let has_tick = !position.tick.same_as(&Address::zeroed());
    let expected = if has_tick {
        2 * n + 1
    } else {
        2 * n
    };
    if remaining.len() != expected {
        return Err(OrbitalError::InvalidRemainingAccounts);
    }
    let remove_amount = FixedPoint::from_raw(params.liquidity_raw);
    if !remove_amount.is_positive() {
        return Err(OrbitalError::InvalidLiquidityAmount);
    }
    if remove_amount.raw > position.liquidity.raw {
        return Err(OrbitalError::InsufficientPositionBalance);
    }
    let mut i: usize = 0;
    while i < n
        invariant
            0 <= i <= n,
            n == pool.n_assets,
            n <= MAX_ASSETS,
            remaining.len() >= 2 * n,
            position.owner.bytes@ == provider.bytes@,
            position.pool.bytes@ == pool_key.bytes@,
            remaining.len() == (if !is_unset(position.tick) {
                2 * n + 1
            } else {
                2 * n
            }),
            0 < params.liquidity_raw <= position.liquidity.raw,
            forall|j: int|
                0 <= j < i ==> #[trigger] remaining@[j].bytes@ == pool.token_vaults@[j].bytes@,
        decreases n - i,
    {
        if !remaining[i].same_as(&pool.token_vaults[i]) {
            assert(remaining@[i as int].bytes@ != pool.token_vaults@[i as int].bytes@);
            return Err(OrbitalError::InvalidVaultAddress);
        }
        i = i + 1;
    }
    Ok(remove_amount)
}

/// Result of `withdraw_from_tick`: the tick's reserves less the returned
/// amounts and its liquidity less the removed liquidity, or the first
/// failing check.
pub open spec fn tick_withdrawal_result(
    tick: TickState,
    tick_key: Address,
    position_tick: Address,
    pool_key: Address,
    return_amounts: Seq<FixedPoint>,
    removed: FixedPoint,
) -> Result<(Seq<FixedPoint>, FixedPoint), OrbitalError> {
    if tick_key.bytes@ != position_tick.bytes@ {
        Err(OrbitalError::InvalidVaultAddress)
    } else if tick.pool.bytes@ != pool_key.bytes@ {
        Err(OrbitalError::InvalidVaultAddress)
    } else if exists|i: int|
        0 <= i < return_amounts.len() && #[trigger] tick.reserves@[i].sub_result(return_amounts[i]) is Err {
        Err(OrbitalError::MathOverflow)
    } else {
        match tick.liquidity.sub_result(removed) {
            Err(e) => Err(e),
            Ok(total) => Ok(
                (
                    Seq::new(
                        MAX_ASSETS as nat,
                        |i: int|
                            if i < return_amounts.len() {
                                tick.reserves@[i].sub_result(return_amounts[i])->Ok_0
                            } else {
                                tick.reserves@[i]
                            },
                    ),
                    total,
                ),
            ),
        }
    }
}

/// Take a concentrated position's withdrawal out of its tick: the tick
/// account must be the position's and belong to the pool; the per-asset
/// returned amounts leave its reserves and the removed liquidity leaves its total.
/// On error the tick is left as it was.
pub fn withdraw_from_tick(
    tick: &mut TickState,
    tick_key: &Address,
    position_tick: &Address,
    pool_key: &Address,
    return_amounts: &[FixedPoint],
    removed: FixedPoint,
) -> (r: Result<(), OrbitalError>)
    requires
        return_amounts.len() <= MAX_ASSETS,
    ensures
        match tick_withdrawal_result(
            *old(tick),
            *tick_key,
            *position_tick,
            *pool_key,
            return_amounts@,
            removed,
        ) {
            Err(e) => r == Err::<(), OrbitalError>(e) && *final(tick) == *old(tick),
            Ok((reserves, total)) => {
                &&& r is Ok
                &&& final(tick).reserves@ == reserves
                &&& *final(tick) == (TickState {
                    reserves: final(tick).reserves,
                    liquidity: total,
                    ..*old(tick)
                })
            },
        },
{
    if !tick_key.same_as(position_tick) {
        return Err(OrbitalError::InvalidVaultAddress);
    }
    if !tick.pool.same_as(pool_key) {
        return Err(OrbitalError::InvalidVaultAddress);
    }
    let mut next = *tick;
    let mut i: usize = 0;
    while i < return_amounts.len()
        invariant
            0 <= i <= return_amounts.len(),
            return_amounts.len() <= MAX_ASSETS,
            next == (TickState { reserves: next.reserves, ..*old(tick) }),
            forall|j: int|
                0 <= j < MAX_ASSETS ==> #[trigger] next.reserves@[j] == if j < i {
                    old(tick).reserves@[j].sub_result(return_amounts@[j])->Ok_0
                } else {
                    old(tick).reserves@[j]
                },
            forall|j: int| 0 <= j < i ==> #[trigger] old(tick).reserves@[j].sub_result(return_amounts@[j]) is Ok,
            tick_key.bytes@ == position_tick.bytes@,
            old(tick).pool.bytes@ == pool_key.bytes@,
        decreases return_amounts.len() - i,
    {
        let diff = match next.reserves[i].checked_sub(return_amounts[i]) {
            Err(e) => {
                assert(old(tick).reserves@[i as int].sub_result(return_amounts@[i as int]) is Err);
                return Err(e);
            },
            Ok(v) => v,
        };
        next.reserves[i] = diff;
        i = i + 1;
    }
    let total = match next.liquidity.checked_sub(removed) {
        Err(e) => return Err(e),
        Ok(v) => v,
    };
    next.liquidity = total;
    proof {
        let expected = tick_withdrawal_result(
            *old(tick),
            *tick_key,
            *position_tick,
            *pool_key,
            return_amounts@,
            removed,
        );
        assert(expected is Ok);
        assert(next.reserves@ =~= expected->Ok_0.0);
    }
    *tick = next;
    Ok(())
}

/// Liquidity providers can always withdraw: whether the pool is active
/// makes no difference to the checks on a withdrawal.
pub proof fn lemma_withdrawal_ignores_pool_activity(
    pool: PoolState,
    pool_key: Address,
    provider: Address,
    position: PositionView,
    params: RemoveLiquidityParams,
    remaining: Seq<Address>,
)
    ensures
        remove_liquidity_check(
            PoolState { is_active: false, ..pool },
            pool_key,
            provider,
            position,
            params,
            remaining,
        ) == remove_liquidity_check(
            PoolState { is_active: true, ..pool },
            pool_key,
            provider,
            position,
            params,
            remaining,
        ),
{
}

/// A withdrawal leaves its tick in full: on success each returned asset's
/// tick reserve shrinks by exactly its returned amount, the reserves past
/// them stay, and the tick's liquidity shrinks by the removed liquidity. It
/// succeeds whenever the tick is the position's and this pool's and every one
/// of these differences fits.
pub proof fn lemma_tick_withdrawal_takes_each_asset(
    tick: TickState,
    tick_key: Address,
    position_tick: Address,
    pool_key: Address,
    return_amounts: Seq<FixedPoint>,
    removed: FixedPoint,
)
    requires
        return_amounts.len() <= MAX_ASSETS,
    ensures
        tick_withdrawal_result(tick, tick_key, position_tick, pool_key, return_amounts, removed) matches Ok(
            (reserves, total),
        ) ==> {
            &&& reserves.len() == MAX_ASSETS
            &&& forall|i: int|
                0 <= i < return_amounts.len() ==> #[trigger] reserves[i].raw == tick.reserves@[i].raw
                    - return_amounts[i].raw
            &&& forall|i: int|
                return_amounts.len() <= i < MAX_ASSETS ==> #[trigger] reserves[i] == tick.reserves@[i]
            &&& total.raw == tick.liquidity.raw - removed.raw
        },
        tick_key.bytes@ == position_tick.bytes@ && tick.pool.bytes@ == pool_key.bytes@ && (forall|i: int|
            0 <= i < return_amounts.len() ==> fits_i128(
                #[trigger] tick.reserves@[i].raw - return_amounts[i].raw,
            )) && fits_i128(tick.liquidity.raw - removed.raw) ==> tick_withdrawal_result(
            tick,
            tick_key,
            position_tick,
            pool_key,
            return_amounts,
            removed,
        ) is Ok,
{
    if tick.pool.bytes@ == pool_key.bytes@ && (forall|i: int|
        0 <= i < return_amounts.len() ==> fits_i128(
            #[trigger] tick.reserves@[i].raw - return_amounts[i].raw,
        )) {
        assert(!exists|i: int|
            0 <= i < return_amounts.len() && #[trigger] tick.reserves@[i].sub_result(return_amounts[i]) is Err);
    }
}

/// An accepted withdrawal is the provider's own, on this pool, of exactly the
/// requested liquidity, which is positive and no more than the position holds,
/// with the pool's own vaults; and a request that meets all of that (with the
/// accounts laid out for the position's kind) is accepted.
pub proof fn lemma_withdrawal_within_position(
    pool: PoolState,
    pool_key: Address,
    provider: Address,
    position: PositionView,
    params: RemoveLiquidityParams,
    remaining: Seq<Address>,
)
    ensures
        remove_liquidity_check(pool, pool_key, provider, position, params, remaining) matches Ok(
            amount,
        ) ==> {
            &&& amount.raw == params.liquidity_raw
            &&& 0 < amount.raw <= position.liquidity.raw
            &&& position.owner.bytes@ == provider.bytes@
            &&& position.pool.bytes@ == pool_key.bytes@
            &&& forall|i: int|
                0 <= i < pool.n_assets ==> #[trigger] remaining[i].bytes@
                    == pool.token_vaults@[i].bytes@
        },
        position.owner.bytes@ == provider.bytes@ && position.pool.bytes@ == pool_key.bytes@
            && remaining.len() == (if is_unset(position.tick) {
            2 * pool.n_assets
        } else {
            2 * pool.n_assets + 1
        }) && 0 < params.liquidity_raw <= position.liquidity.raw && (forall|i: int|
            0 <= i < pool.n_assets ==> #[trigger] remaining[i].bytes@
                == pool.token_vaults@[i].bytes@) ==> remove_liquidity_check(
            pool,
            pool_key,
            provider,
            position,
            params,
            remaining,
        ) is Ok,
{
}

} // verus!
