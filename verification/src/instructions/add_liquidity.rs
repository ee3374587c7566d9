//! `add_liquidity`: the checks and the tick bookkeeping of a deposit.
//!
//! The shell checks the request with `validate`, moves the deposits into the
//! vaults, applies them to the pool, records a concentrated deposit in its
//! tick with `deposit_into_tick`, and advances the pool's position counter
//! with `advance_position_count`.
use crate::errors::OrbitalError;
use crate::math::fixed_point::{fits_i128, FixedPoint};
use crate::math::sphere::MAX_ASSETS;
use crate::state::address::Address;
use crate::state::pool::PoolState;
use crate::state::tick::{TickState, TickStatus};
use vstd::prelude::*;

verus! {

/// Parameters of `add_liquidity`.
#[derive(Clone, Copy, Debug)]
pub struct AddLiquidityParams {
    /// Per-token deposit amounts in base units.
    /// Only first `pool.n_assets` entries are used.
    pub amounts: [u64; MAX_ASSETS],
}

/// Result of `validate`: whether a tick account was passed (concentrated
/// liquidity) or not (full range), or the first failing check.
/// `remaining`: the n vaults, the n provider accounts, then optionally a tick.
pub open spec fn add_liquidity_check(
    pool: PoolState,
    params: AddLiquidityParams,
    remaining: Seq<Address>,
) -> Result<bool, OrbitalError> {
    let n = pool.n_assets as int;
    let has_tick = remaining.len() == 2 * n + 1;
    if !pool.is_active {
        Err(OrbitalError::PoolNotActive)
    } else if !(remaining.len() == 2 * n || has_tick) {
        Err(OrbitalError::InvalidRemainingAccounts)
    } else if exists|i: int| 0 <= i < n && #[trigger] params.amounts@[i] == 0 {
        Err(OrbitalError::InvalidLiquidityAmount)
    } else if exists|i: int|
        0 <= i < n && #[trigger] remaining[i].bytes@ != pool.token_vaults@[i].bytes@ {
        Err(OrbitalError::InvalidVaultAddress)
    } else {
        Ok(has_tick)
    }
}

/// Check a deposit request: the pool is active, the accounts are laid out
/// for a full-range or a tick deposit, every active asset gets a positive
/// amount, and the vaults are the pool's.
pub fn validate(pool: &PoolState, params: &AddLiquidityParams, remaining: &[Address]) -> (r: Result<
    bool,
    OrbitalError,
>)
    requires
        pool.n_assets as usize <= MAX_ASSETS,
    ensures
        r == add_liquidity_check(*pool, *params, remaining@),
{
    if !pool.is_active {
        return Err(OrbitalError::PoolNotActive);
    }
    let n = pool.n_assets as usize;
    let has_tick = remaining.len() == 2 * n + 1;
    if !(remaining.len() == 2 * n || has_tick) {
        return Err(OrbitalError::InvalidRemainingAccounts);
    }
    let mut i: usize = 0;
    while i < n
        invariant
            0 <= i <= n,
            n == pool.n_assets,
            n <= MAX_ASSETS,
            forall|j: int| 0 <= j < i ==> #[trigger] params.amounts@[j] != 0,
            pool.is_active,
            has_tick == (remaining.len() == 2 * n + 1),
            remaining.len() == 2 * n || has_tick,
        decreases n - i,
    {
        if params.amounts[i] == 0 {
            assert(params.amounts@[i as int] == 0);
            return Err(OrbitalError::InvalidLiquidityAmount);
        }
        i = i + 1;
    }
    let mut i: usize = 0;
    while i < n
        invariant
            0 <= i <= n,
            n == pool.n_assets,
            n <= MAX_ASSETS,
            remaining.len() >= 2 * n,
            forall|j: int| 0 <= j < n ==> #[trigger] params.amounts@[j] != 0,
            pool.is_active,
            has_tick == (remaining.len() == 2 * n + 1),
            remaining.len() == 2 * n || has_tick,
            forall|j: int|
                0 <= j < i ==> #[trigger] remaining@[j].bytes@ == pool.token_vaults@[j].bytes@,
        decreases n - i,
    {
        if !remaining[i].same_as(&pool.token_vaults[i]) {
            assert(remaining@[i as int].bytes@ != pool.token_vaults@[i as int].bytes@);
            return Err(OrbitalError::InvalidVaultAddress);
        }
        i = i + 1;
    }
    Ok(has_tick)
}

/// Result of `deposit_into_tick`: the tick with the deposits added to its
/// reserves and the liquidity to its total, or the first failing check.
pub open spec fn tick_deposit_result(
    tick: TickState,
    pool_key: Address,
    deposits: Seq<FixedPoint>,
    liquidity: FixedPoint,
) -> Result<(Seq<FixedPoint>, FixedPoint), OrbitalError> {
    if tick.pool.bytes@ != pool_key.bytes@ {
        Err(OrbitalError::InvalidVaultAddress)
    } else if tick.status != TickStatus::Interior {
        Err(OrbitalError::InvalidTickBound)
    } else if exists|i: int|
        0 <= i < deposits.len() && #[trigger] tick.reserves@[i].add_result(deposits[i]) is Err {
        Err(OrbitalError::MathOverflow)
    } else {
        match tick.liquidity.add_result(liquidity) {
            Err(e) => Err(e),
            Ok(total) => Ok(
                (
                    Seq::new(
                        MAX_ASSETS as nat,
                        |i: int|
                            if i < deposits.len() {
                                tick.reserves@[i].add_result(deposits[i])->Ok_0
                            } else {
                                tick.reserves@[i]
                            },
                    ),
                    total,
                ),
            ),
        }
    }
}

/// Record a concentrated deposit in its tick: the tick must belong to the
/// pool and be interior (boundary ticks are deactivated), and it takes the
/// per-asset deposits into its reserves and the liquidity into its total.
/// On error the tick is left as it was.
pub fn deposit_into_tick(
    tick: &mut TickState,
    pool_key: &Address,
    deposits: &[FixedPoint],
    liquidity: FixedPoint,
) -> (r: Result<(), OrbitalError>)
    requires
        deposits.len() <= MAX_ASSETS,
    ensures
        match tick_deposit_result(*old(tick), *pool_key, deposits@, liquidity) {
            Err(e) => r == Err::<(), OrbitalError>(e) && *final(tick) == *old(tick),
            Ok((reserves, total)) => {
                &&& r is Ok
                &&& final(tick).reserves@ == reserves
                &&& *final(tick) == (TickState {
                    reserves: final(tick).reserves,
                    liquidity: total,
                    ..*old(tick)
                })
            },
        },
{
    if !tick.pool.same_as(pool_key) {
        return Err(OrbitalError::InvalidVaultAddress);
    }
    if tick.status != TickStatus::Interior {
        return Err(OrbitalError::InvalidTickBound);
    }
    let mut next = *tick;
    let mut i: usize = 0;
    while i < deposits.len()
        invariant
            0 <= i <= deposits.len(),
            deposits.len() <= MAX_ASSETS,
            next == (TickState { reserves: next.reserves, ..*old(tick) }),
            forall|j: int|
                0 <= j < MAX_ASSETS ==> #[trigger] next.reserves@[j] == if j < i {
                    old(tick).reserves@[j].add_result(deposits@[j])->Ok_0
                } else {
                    old(tick).reserves@[j]
                },
            forall|j: int| 0 <= j < i ==> #[trigger] old(tick).reserves@[j].add_result(deposits@[j]) is Ok,
            old(tick).pool.bytes@ == pool_key.bytes@,
            old(tick).status == TickStatus::Interior,
        decreases deposits.len() - i,
    {
        let sum = match next.reserves[i].checked_add(deposits[i]) {
            Err(e) => {
                assert(old(tick).reserves@[i as int].add_result(deposits@[i as int]) is Err);
                return Err(e);
            },
            Ok(v) => v,
        };
        next.reserves[i] = sum;
        i = i + 1;
    }
    let total = match next.liquidity.checked_add(liquidity) {
        Err(e) => return Err(e),
        Ok(v) => v,
    };
    next.liquidity = total;
    proof {
        let expected = tick_deposit_result(*old(tick), *pool_key, deposits@, liquidity);
        assert(expected is Ok);
        assert(next.reserves@ =~= expected->Ok_0.0);
    }
    *tick = next;
    Ok(())
}

/// Advance the counter from which position account addresses are derived.
/// On overflow the pool is left as it was.
pub fn advance_position_count(pool: &mut PoolState) -> (r: Result<(), OrbitalError>)
    ensures
        if old(pool).position_count < u64::MAX {
            r is Ok && *final(pool) == (PoolState {
                position_count: (old(pool).position_count + 1) as u64,
                ..*old(pool)
            })
        } else {
            r == Err::<(), OrbitalError>(OrbitalError::MathOverflow) && *final(pool) == *old(pool)
        },
{
    match pool.position_count.checked_add(1) {
        Some(v) => {
            pool.position_count = v;
            Ok(())
        },
        None => Err(OrbitalError::MathOverflow),
    }
}

/// A concentrated deposit lands in full in its tick: on success each
/// deposited asset's tick reserve grows by exactly its own deposit, the
/// reserves past the deposits stay, and the tick's liquidity grows by the
/// deposited liquidity. It succeeds whenever the tick is this pool's, interior,
/// and every one of these sums fits.
pub proof fn lemma_tick_deposit_adds_each_asset(
    tick: TickState,
    pool_key: Address,
    deposits: Seq<FixedPoint>,
    liquidity: FixedPoint,
)
    requires
        deposits.len() <= MAX_ASSETS,
    ensures
        tick_deposit_result(tick, pool_key, deposits, liquidity) matches Ok((reserves, total)) ==> {
            &&& reserves.len() == MAX_ASSETS
            &&& forall|i: int|
                0 <= i < deposits.len() ==> #[trigger] reserves[i].raw == tick.reserves@[i].raw
                    + deposits[i].raw
            &&& forall|i: int|
                deposits.len() <= i < MAX_ASSETS ==> #[trigger] reserves[i] == tick.reserves@[i]
            &&& total.raw == tick.liquidity.raw + liquidity.raw
        },
        tick.pool.bytes@ == pool_key.bytes@ && tick.status == TickStatus::Interior && (forall|i: int|
            0 <= i < deposits.len() ==> fits_i128(#[trigger] tick.reserves@[i].raw + deposits[i].raw))
            && fits_i128(tick.liquidity.raw + liquidity.raw) ==> tick_deposit_result(
            tick,
            pool_key,
            deposits,
            liquidity,
        ) is Ok,
{
    if tick.pool.bytes@ == pool_key.bytes@ && tick.status == TickStatus::Interior && (forall|i: int|
        0 <= i < deposits.len() ==> fits_i128(#[trigger] tick.reserves@[i].raw + deposits[i].raw)) {
        assert(!exists|i: int|
            0 <= i < deposits.len() && #[trigger] tick.reserves@[i].add_result(deposits[i]) is Err);
    }
}

/// An accepted deposit goes to an active pool, gives every active asset a
/// positive amount, pays into the pool's own vaults, and is concentrated
/// exactly when a tick account follows the 2n token accounts; and a request
/// that meets all of that is accepted.
pub proof fn lemma_deposit_request_is_complete(
    pool: PoolState,
    params: AddLiquidityParams,
    remaining: Seq<Address>,
)
    ensures
        add_liquidity_check(pool, params, remaining) matches Ok(has_tick) ==> {
            &&& pool.is_active
            &&& has_tick <==> remaining.len() == 2 * pool.n_assets + 1
            &&& remaining.len() == 2 * pool.n_assets || remaining.len() == 2 * pool.n_assets + 1
            &&& forall|i: int| 0 <= i < pool.n_assets ==> #[trigger] params.amounts@[i] > 0
            &&& forall|i: int|
                0 <= i < pool.n_assets ==> #[trigger] remaining[i].bytes@
                    == pool.token_vaults@[i].bytes@
        },
        pool.is_active && (remaining.len() == 2 * pool.n_assets || remaining.len() == 2
            * pool.n_assets + 1) && (forall|i: int|
            0 <= i < pool.n_assets ==> #[trigger] params.amounts@[i] > 0) && (forall|i: int|
            0 <= i < pool.n_assets ==> #[trigger] remaining[i].bytes@
                == pool.token_vaults@[i].bytes@) ==> add_liquidity_check(pool, params, remaining) is Ok,
{
}

} // verus!
