//! Swap Execution — Domain Logic
//!
//! Implements the on-chain portion of the swap flow:
//!   1. the amount out is computed before the trade (off-chain SDK or the
//!      analytical solver),
//!   2. this module verifies and applies the trade,
//!   3. post-swap: sphere invariant check, slippage enforcement, cache update.
//!
//! A proposed amount out is accepted only if the sphere invariant holds after
//! the trade is applied.
use crate::domain::amm::pool::{caches_result, invariant_result, update_caches, verify_invariant};
use crate::errors::OrbitalError;
use crate::math::fixed_point::{fits_i128, trunc_div, FixedPoint, SCALE};
use crate::math::sphere::{fp_int, MAX_ASSETS};
use crate::state::pool::PoolState;
use vstd::arithmetic::div_mod::*;
use vstd::arithmetic::mul::*;
use vstd::prelude::*;

verus! {

/// Basis points in one whole.
pub const BPS_DENOMINATOR: i64 = 10_000;

// ══════════════════════════════════════════════════════════════
// SwapResult
// ══════════════════════════════════════════════════════════════

/// Result of an on-chain swap execution.
#[derive(Clone, Copy, Debug, PartialEq, Eq, Structural)]
pub struct SwapResult {
    /// Gross amount deposited by user (before fee)
    pub amount_in: FixedPoint,
    /// Fee deducted from amount_in
    pub fee: FixedPoint,
    /// Net amount added to pool reserves (amount_in - fee)
    pub net_amount_in: FixedPoint,
    /// Amount withdrawn from pool to user
    pub amount_out: FixedPoint,
    /// Execution price: amount_in / amount_out
    pub execution_price: FixedPoint,
    /// Slippage in basis points vs pre-swap mid-market price
    pub slippage_bps: u16,
}

// ══════════════════════════════════════════════════════════════
// Fee computation
// ══════════════════════════════════════════════════════════════

/// Result of `compute_fee`: amount_in * fee_rate_bps / 10_000, or zero at 0 bps.
pub open spec fn fee_result(amount_in: FixedPoint, fee_rate_bps: u16) -> Result<
    FixedPoint,
    OrbitalError,
> {
    if fee_rate_bps == 0 {
        Ok(FixedPoint { raw: 0 })
    } else {
        match amount_in.mul_result(fp_int(fee_rate_bps as int)) {
            Err(e) => Err(e),
            Ok(p) => p.div_result(fp_int(BPS_DENOMINATOR as int)),
        }
    }
}

/// Compute swap fee from gross amount and fee rate.
///
/// fee = amount_in * fee_rate_bps / 10_000
pub fn compute_fee(amount_in: FixedPoint, fee_rate_bps: u16) -> (r: Result<
    FixedPoint,
    OrbitalError,
>)
    ensures
        r == fee_result(amount_in, fee_rate_bps),
{
    if fee_rate_bps == 0 {
        return Ok(FixedPoint::zero());
    }
    let bps = FixedPoint::from_int(fee_rate_bps as i64);
    let ten_k = FixedPoint::from_int(BPS_DENOMINATOR);
    match amount_in.checked_mul(bps) {
        Err(e) => Err(e),
        Ok(p) => p.checked_div(ten_k),
    }
}

/// The fee on a non-negative amount, at a rate of at most 100%, is the exact
/// `floor(amount * bps / 10_000)` and never exceeds the amount.
pub proof fn lemma_fee_bounded(amount_in: FixedPoint, fee_rate_bps: u16)
    requires
        amount_in.raw >= 0,
        fee_rate_bps <= 10_000,
    ensures
        fee_result(amount_in, fee_rate_bps) matches Ok(fee) ==> {
            &&& fee.raw == (amount_in.raw * fee_rate_bps) / 10_000
            &&& 0 <= fee.raw <= amount_in.raw
        },
{
    if fee_rate_bps != 0 {
        let a = amount_in.raw as int;
        let b = fee_rate_bps as int;
        let s = SCALE as int;
        assert(a * (b * s) == (a * b) * s) by (nonlinear_arith);
        lemma_div_by_multiple(a * b, s);
        assert(a * b >= 0) by (nonlinear_arith)
            requires
                a >= 0,
                b >= 0,
        ;
        assert((a * b) * s == (a * b) * s);
        assert((a * b) * s / (10_000 * s) == (a * b) / 10_000) by {
            lemma_div_denominator((a * b) * s, s, 10_000);
            lemma_div_by_multiple(a * b, s);
            assert((a * b) * s / s == a * b);
            assert(s * 10_000 == 10_000 * s);
        }
        assert((a * b) / 10_000 <= a) by {
            assert(a * b <= a * 10_000) by (nonlinear_arith)
                requires
                    a >= 0,
                    b <= 10_000,
            ;
            lemma_div_is_ordered(a * b, a * 10_000, 10_000);
            lemma_div_by_multiple(a, 10_000);
        }
        lemma_div_pos_is_pos(a * b, 10_000);
        assert(fp_int(b).raw == b * s);
        assert(fp_int(10_000).raw == 10_000 * s);
    }
}

// ══════════════════════════════════════════════════════════════
// Slippage computation
// ══════════════════════════════════════════════════════════════

/// Result of `compute_slippage_bps`: ((exec - mid) / mid) * 10_000 in whole
/// basis points, saturated at u16::MAX, and 0 when execution is at or better
/// than mid price.
pub open spec fn slippage_result(mid_price: FixedPoint, execution_price: FixedPoint) -> Result<
    u16,
    OrbitalError,
> {
    if execution_price.raw <= mid_price.raw {
        Ok(0)
    } else {
        match execution_price.sub_result(mid_price) {
            Err(e) => Err(e),
            Ok(diff) => match diff.div_result(mid_price) {
                Err(e) => Err(e),
                Ok(ratio) => match ratio.mul_result(fp_int(BPS_DENOMINATOR as int)) {
                    Err(e) => Err(e),
                    Ok(bps_fp) => match bps_fp.to_u64_result() {
                        Err(e) => Err(e),
                        Ok(bps) => Ok(
                            if bps > u16::MAX {
                                u16::MAX
                            } else {
                                bps as u16
                            },
                        ),
                    },
                },
            },
        }
    }
}

/// Compute slippage in basis points.
///
/// slippage = ((exec_price - mid_price) / mid_price) * 10_000
/// Returns 0 if execution is at or better than mid price.
pub fn compute_slippage_bps(mid_price: FixedPoint, execution_price: FixedPoint) -> (r: Result<
    u16,
    OrbitalError,
>)
    ensures
        r == slippage_result(mid_price, execution_price),
{
    if execution_price.raw <= mid_price.raw {
        return Ok(0);
    }
    let diff = match execution_price.checked_sub(mid_price) {
        Err(e) => return Err(e),
        Ok(v) => v,
    };
    let ratio = match diff.checked_div(mid_price) {
        Err(e) => return Err(e),
        Ok(v) => v,
    };
    let bps_fp = match ratio.checked_mul(FixedPoint::from_int(BPS_DENOMINATOR)) {
        Err(e) => return Err(e),
        Ok(v) => v,
    };
    let bps = match bps_fp.to_u64() {
        Err(e) => return Err(e),
        Ok(v) => v,
    };
    Ok(
        if bps > u16::MAX as u64 {
            u16::MAX
        } else {
            bps as u16
        },
    )
}

// ══════════════════════════════════════════════════════════════
// Core swap execution
// ══════════════════════════════════════════════════════════════

/// The input checks of `execute_swap`, in the order it makes them.
pub open spec fn swap_precheck(
    pool: PoolState,
    token_in: usize,
    token_out: usize,
    amount_in: FixedPoint,
    expected_amount_out: FixedPoint,
) -> Option<OrbitalError> {
    if !pool.is_active {
        Some(OrbitalError::PoolNotActive)
    } else if token_in == token_out {
        Some(OrbitalError::SameTokenSwap)
    } else if !(token_in < pool.n_assets && token_out < pool.n_assets) {
        Some(OrbitalError::InvalidTokenIndex)
    } else if amount_in.raw <= 0 || expected_amount_out.raw <= 0 {
        Some(OrbitalError::NegativeTradeAmount)
    } else {
        None
    }
}

/// The pool with the trade applied to its reserves and nothing else changed.
pub open spec fn with_trade(
    pool: PoolState,
    token_in: usize,
    new_in: FixedPoint,
    token_out: usize,
    new_out: FixedPoint,
) -> PoolState {
    PoolState {
        reserves: vstd::array::spec_array_update(
            vstd::array::spec_array_update(pool.reserves, token_in as int, new_in),
            token_out as int,
            new_out,
        ),
        ..pool
    }
}

/// Outcome of `execute_swap`: the pool after the trade and the swap record,
/// or the first check that fails.
pub open spec fn swap_result(
    pool: PoolState,
    token_in: usize,
    token_out: usize,
    amount_in: FixedPoint,
    expected_amount_out: FixedPoint,
    min_amount_out: FixedPoint,
) -> Result<(PoolState, SwapResult), OrbitalError> {
    match swap_precheck(pool, token_in, token_out, amount_in, expected_amount_out) {
        Some(e) => Err(e),
        None => match fee_result(amount_in, pool.fee_rate_bps) {
            Err(e) => Err(e),
            Ok(fee) => match amount_in.sub_result(fee) {
                Err(e) => Err(e),
                Ok(net) => if expected_amount_out.raw < min_amount_out.raw {
                    Err(OrbitalError::SlippageExceeded)
                } else {
                    swap_apply(pool, token_in, token_out, amount_in, expected_amount_out, fee, net)
                },
            },
        },
    }
}

/// The part of `swap_result` after the inputs, fee and slippage floor are accepted.
pub open spec fn swap_apply(
    pool: PoolState,
    token_in: usize,
    token_out: usize,
    amount_in: FixedPoint,
    amount_out: FixedPoint,
    fee: FixedPoint,
    net: FixedPoint,
) -> Result<(PoolState, SwapResult), OrbitalError> {
    let r = pool.sphere.radius;
    let x_in = pool.reserves@[token_in as int];
    let x_out = pool.reserves@[token_out as int];
    match r.sub_result(x_out) {
        Err(e) => Err(e),
        Ok(mid_num) => match r.sub_result(x_in) {
            Err(e) => Err(e),
            Ok(mid_den) => match mid_num.div_result(mid_den) {
                Err(e) => Err(e),
                Ok(mid_price) => match x_in.add_result(net) {
                    Err(e) => Err(e),
                    Ok(new_in) => match x_out.sub_result(amount_out) {
                        Err(e) => Err(e),
                        Ok(new_out) => if new_out.raw < 0 {
                            Err(OrbitalError::InsufficientLiquidity)
                        } else {
                            swap_settle(
                                with_trade(pool, token_in, new_in, token_out, new_out),
                                amount_in,
                                amount_out,
                                fee,
                                net,
                                mid_price,
                            )
                        },
                    },
                },
            },
        },
    }
}

/// The part of `swap_result` after the trade is applied to the reserves.
pub open spec fn swap_settle(
    traded: PoolState,
    amount_in: FixedPoint,
    amount_out: FixedPoint,
    fee: FixedPoint,
    net: FixedPoint,
    mid_price: FixedPoint,
) -> Result<(PoolState, SwapResult), OrbitalError> {
    match invariant_result(traded) {
        Err(e) => Err(e),
        Ok(_) => match caches_result(traded.active_reserves_view(), traded.n_assets) {
            Err(e) => Err(e),
            Ok((alpha, w)) => match traded.total_volume.add_result(amount_in) {
                Err(e) => Err(e),
                Ok(volume) => match traded.total_fees.add_result(fee) {
                    Err(e) => Err(e),
                    Ok(fees) => match amount_in.div_result(amount_out) {
                        Err(e) => Err(e),
                        Ok(price) => match slippage_result(mid_price, price) {
                            Err(e) => Err(e),
                            Ok(bps) => Ok(
                                (
                                    PoolState {
                                        alpha_cache: alpha,
                                        w_norm_sq_cache: w,
                                        total_volume: volume,
                                        total_fees: fees,
                                        ..traded
                                    },
                                    SwapResult {
                                        amount_in,
                                        fee,
                                        net_amount_in: net,
                                        amount_out,
                                        execution_price: price,
                                        slippage_bps: bps,
                                    },
                                ),
                            ),
                        },
                    },
                },
            },
        },
    }
}

/// What the writes of `execute_swap` leave in the pool once the inputs, fee,
/// slippage floor and mid price are accepted: the input reserve, then the
/// output reserve, then the caches, then the volume and fee totals, each
/// written as soon as it is computed; the first failing step stops the writes.
pub open spec fn swap_writes(
    pool: PoolState,
    token_in: usize,
    token_out: usize,
    amount_in: FixedPoint,
    amount_out: FixedPoint,
    fee: FixedPoint,
    net: FixedPoint,
) -> PoolState {
    let x_in = pool.reserves@[token_in as int];
    let x_out = pool.reserves@[token_out as int];
    match x_in.add_result(net) {
        Err(_) => pool,
        Ok(new_in) => {
            let p1 = PoolState {
                reserves: vstd::array::spec_array_update(pool.reserves, token_in as int, new_in),
                ..pool
            };
            match x_out.sub_result(amount_out) {
                Err(_) => p1,
                Ok(new_out) => if new_out.raw < 0 {
                    p1
                } else {
                    let traded = with_trade(pool, token_in, new_in, token_out, new_out);
                    match invariant_result(traded) {
                        Err(_) => traded,
                        Ok(_) => match caches_result(traded.active_reserves_view(), traded.n_assets) {
                            Err(_) => traded,
                            Ok((alpha, w)) => {
                                let p3 = PoolState { alpha_cache: alpha, w_norm_sq_cache: w, ..traded };
                                match p3.total_volume.add_result(amount_in) {
                                    Err(_) => p3,
                                    Ok(volume) => {
                                        let p4 = PoolState { total_volume: volume, ..p3 };
                                        match p4.total_fees.add_result(fee) {
                                            Err(_) => p4,
                                            Ok(fees) => PoolState { total_fees: fees, ..p4 },
                                        }
                                    },
                                }
                            },
                        },
                    }
                },
            }
        },
    }
}

/// The pool `execute_swap` leaves behind, whether it succeeds or fails: it is
/// untouched when a check before the trade fails, and otherwise keeps every
/// write made before the first failing step (all of them on success).
pub open spec fn swap_pool_after(
    pool: PoolState,
    token_in: usize,
    token_out: usize,
    amount_in: FixedPoint,
    expected_amount_out: FixedPoint,
    min_amount_out: FixedPoint,
) -> PoolState {
    match swap_precheck(pool, token_in, token_out, amount_in, expected_amount_out) {
        Some(_) => pool,
        None => match fee_result(amount_in, pool.fee_rate_bps) {
            Err(_) => pool,
            Ok(fee) => match amount_in.sub_result(fee) {
                Err(_) => pool,
                Ok(net) => if expected_amount_out.raw < min_amount_out.raw {
                    pool
                } else {
                    let r = pool.sphere.radius;
                    match r.sub_result(pool.reserves@[token_out as int]) {
                        Err(_) => pool,
                        Ok(mid_num) => match r.sub_result(pool.reserves@[token_in as int]) {
                            Err(_) => pool,
                            Ok(mid_den) => match mid_num.div_result(mid_den) {
                                Err(_) => pool,
                                Ok(_) => swap_writes(
                                    pool,
                                    token_in,
                                    token_out,
                                    amount_in,
                                    expected_amount_out,
                                    fee,
                                    net,
                                ),
                            },
                        },
                    }
                },
            },
        },
    }
}

/// Execute a swap on the pool.
///
/// `expected_amount_out` is computed before the call (by the off-chain SDK via
/// the torus invariant, or by the analytical solver). This function:
///   1. Validates inputs
///   2. Deducts fee from amount_in
///   3. Enforces slippage (expected_amount_out >= min_amount_out)
///   4. Applies the trade to reserves
///   5. Verifies the sphere invariant post-swap
///   6. Updates caches (alpha_cache, w_norm_sq_cache)
///   7. Updates pool statistics (total_volume, total_fees)
///   8. Computes execution price and slippage
///
/// The pool is written in place as the steps go: a swap rejected before the
/// trade is applied leaves it as it was, one rejected later keeps the writes
/// made up to the failing step (`swap_pool_after`).
pub fn execute_swap(
    pool: &mut PoolState,
    token_in: usize,
    token_out: usize,
    amount_in: FixedPoint,
    expected_amount_out: FixedPoint,
    min_amount_out: FixedPoint,
) -> (r: Result<SwapResult, OrbitalError>)
    requires
        old(pool).n_assets as usize <= MAX_ASSETS,
    ensures
        *final(pool) == swap_pool_after(
            *old(pool),
            token_in,
            token_out,
            amount_in,
            expected_amount_out,
            min_amount_out,
        ),
        match swap_result(
            *old(pool),
            token_in,
            token_out,
            amount_in,
            expected_amount_out,
            min_amount_out,
        ) {
            Err(e) => r == Err::<SwapResult, OrbitalError>(e),
            Ok((p, res)) => r == Ok::<SwapResult, OrbitalError>(res) && *final(pool) == p,
        },
{
    let n = pool.n_assets as usize;

    // 1. Validate inputs
    if !pool.is_active {
        return Err(OrbitalError::PoolNotActive);
    }
    if token_in == token_out {
        return Err(OrbitalError::SameTokenSwap);
    }
    if !(token_in < n && token_out < n) {
        return Err(OrbitalError::InvalidTokenIndex);
    }
    if !amount_in.is_positive() || !expected_amount_out.is_positive() {
        return Err(OrbitalError::NegativeTradeAmount);
    }

    // 2. Fee computation
    let fee = match compute_fee(amount_in, pool.fee_rate_bps) {
        Err(e) => return Err(e),
        Ok(v) => v,
    };
    let net_amount_in = match amount_in.checked_sub(fee) {
        Err(e) => return Err(e),
        Ok(v) => v,
    };

    // 3. Slippage check
    if expected_amount_out.raw < min_amount_out.raw {
        return Err(OrbitalError::SlippageExceeded);
    }

    // 4. Snapshot pre-swap prices for slippage calculation
    let r = pool.sphere.radius;
    let old_in_reserve = pool.reserves[token_in];
    let old_out_reserve = pool.reserves[token_out];
    let mid_price_num = match r.checked_sub(old_out_reserve) {
        Err(e) => return Err(e),
        Ok(v) => v,
    };
    let mid_price_den = match r.checked_sub(old_in_reserve) {
        Err(e) => return Err(e),
        Ok(v) => v,
    };
    let mid_price = match mid_price_num.checked_div(mid_price_den) {
        Err(e) => return Err(e),
        Ok(v) => v,
    };

    // 5. Apply trade to reserves
    let new_in = match old_in_reserve.checked_add(net_amount_in) {
        Err(e) => return Err(e),
        Ok(v) => v,
    };
    pool.reserves[token_in] = new_in;
    let new_out = match old_out_reserve.checked_sub(expected_amount_out) {
        Err(e) => return Err(e),
        Ok(v) => v,
    };
    if new_out.raw < 0 {
        return Err(OrbitalError::InsufficientLiquidity);
    }
    pool.reserves[token_out] = new_out;
    proof {
        assert(*pool == with_trade(*old(pool), token_in, new_in, token_out, new_out));
    }

    // 6. Verify sphere invariant post-swap (key safety check)
    match verify_invariant(&*pool) {
        Err(e) => return Err(e),
        Ok(()) => {},
    }

    // 7. Update caches
    match update_caches(pool) {
        Err(e) => return Err(e),
        Ok(()) => {},
    }

    // 8. Update pool statistics
    pool.total_volume = match pool.total_volume.checked_add(amount_in) {
        Err(e) => return Err(e),
        Ok(v) => v,
    };
    pool.total_fees = match pool.total_fees.checked_add(fee) {
        Err(e) => return Err(e),
        Ok(v) => v,
    };

    // 9. Compute execution price and slippage
    let execution_price = match amount_in.checked_div(expected_amount_out) {
        Err(e) => return Err(e),
        Ok(v) => v,
    };
    let slippage_bps = match compute_slippage_bps(mid_price, execution_price) {
        Err(e) => return Err(e),
        Ok(v) => v,
    };

    Ok(
        SwapResult {
            amount_in,
            fee,
            net_amount_in,
            amount_out: expected_amount_out,
            execution_price,
            slippage_bps,
        },
    )
}

/// A swap rejected by its checks before the trade (inputs, fee, slippage
/// floor, mid price) leaves the pool exactly as it was.
pub proof fn lemma_early_rejection_leaves_pool(
    pool: PoolState,
    token_in: usize,
    token_out: usize,
    amount_in: FixedPoint,
    expected_amount_out: FixedPoint,
    min_amount_out: FixedPoint,
)
    requires
        swap_precheck(pool, token_in, token_out, amount_in, expected_amount_out) is Some
            || fee_result(amount_in, pool.fee_rate_bps) is Err
            || expected_amount_out.raw < min_amount_out.raw,
    ensures
        swap_pool_after(pool, token_in, token_out, amount_in, expected_amount_out, min_amount_out)
            == pool,
{
}

// ══════════════════════════════════════════════════════════════
// Laws of a swap
// ══════════════════════════════════════════════════════════════

/// A swap that is accepted leaves the pool on its sphere: the sphere invariant
/// holds for the pool the swap produces.
pub proof fn lemma_swap_keeps_invariant(
    pool: PoolState,
    token_in: usize,
    token_out: usize,
    amount_in: FixedPoint,
    expected_amount_out: FixedPoint,
    min_amount_out: FixedPoint,
)
    ensures
        swap_result(pool, token_in, token_out, amount_in, expected_amount_out, min_amount_out) matches Ok(
            (p, _),
        ) ==> invariant_result(p) == Ok::<(), OrbitalError>(()),
{
    if let Ok((p, res)) = swap_result(
        pool,
        token_in,
        token_out,
        amount_in,
        expected_amount_out,
        min_amount_out,
    ) {
        let fee = res.fee;
        let net = res.net_amount_in;
        let new_in = pool.reserves@[token_in as int].add_result(net)->Ok_0;
        let new_out = pool.reserves@[token_out as int].sub_result(expected_amount_out)->Ok_0;
        let traded = with_trade(pool, token_in, new_in, token_out, new_out);
        assert(p.sphere == traded.sphere);
        assert(p.reserves == traded.reserves);
        assert(p.n_assets == traded.n_assets);
        assert(p.active_reserves_view() == traded.active_reserves_view());
    }
}

/// An accepted swap respects the slippage floor and moves value exactly: the
/// fee and the net amount make up the amount paid in, the net amount is added
/// to the input reserve, the amount out is taken from the output reserve,
/// every other reserve stays, and the volume and fee totals grow by the
/// amount in and the fee.
pub proof fn lemma_swap_conserves(
    pool: PoolState,
    token_in: usize,
    token_out: usize,
    amount_in: FixedPoint,
    expected_amount_out: FixedPoint,
    min_amount_out: FixedPoint,
)
    requires
        pool.n_assets as usize <= MAX_ASSETS,
    ensures
        swap_result(pool, token_in, token_out, amount_in, expected_amount_out, min_amount_out) matches Ok(
            (p, res),
        ) ==> {
            &&& res.amount_in == amount_in
            &&& res.amount_out == expected_amount_out
            &&& expected_amount_out.raw >= min_amount_out.raw
            &&& res.fee.raw + res.net_amount_in.raw == amount_in.raw
            &&& p.reserves@[token_in as int].raw == pool.reserves@[token_in as int].raw
                + res.net_amount_in.raw
            &&& p.reserves@[token_out as int].raw == pool.reserves@[token_out as int].raw
                - expected_amount_out.raw
            &&& forall|i: int|
                0 <= i < MAX_ASSETS && i != token_in && i != token_out ==> #[trigger] p.reserves@[i]
                    == pool.reserves@[i]
            &&& p.total_volume.raw == pool.total_volume.raw + amount_in.raw
            &&& p.total_fees.raw == pool.total_fees.raw + res.fee.raw
            &&& p.sphere == pool.sphere
            &&& p.n_assets == pool.n_assets
            &&& p.fee_rate_bps == pool.fee_rate_bps
            &&& p.is_active == pool.is_active
        },
{
    if let Ok((p, res)) = swap_result(
        pool,
        token_in,
        token_out,
        amount_in,
        expected_amount_out,
        min_amount_out,
    ) {
        let net = res.net_amount_in;
        let new_in = pool.reserves@[token_in as int].add_result(net)->Ok_0;
        let new_out = pool.reserves@[token_out as int].sub_result(expected_amount_out)->Ok_0;
        let traded = with_trade(pool, token_in, new_in, token_out, new_out);
        assert(p.reserves == traded.reserves);
        assert(traded.reserves@ == pool.reserves@.update(token_in as int, new_in).update(
            token_out as int,
            new_out,
        ));
    }
}

/// An accepted swap never takes more than the output reserve holds: the
/// output reserve it leaves behind is not negative.
pub proof fn lemma_swap_reserve_nonnegative(
    pool: PoolState,
    token_in: usize,
    token_out: usize,
    amount_in: FixedPoint,
    expected_amount_out: FixedPoint,
    min_amount_out: FixedPoint,
)
    requires
        pool.n_assets as usize <= MAX_ASSETS,
    ensures
        swap_result(pool, token_in, token_out, amount_in, expected_amount_out, min_amount_out) matches Ok(
            (p, _),
        ) ==> p.reserves@[token_out as int].raw >= 0,
{
    if let Ok((p, res)) = swap_result(
        pool,
        token_in,
        token_out,
        amount_in,
        expected_amount_out,
        min_amount_out,
    ) {
        let net = res.net_amount_in;
        let new_in = pool.reserves@[token_in as int].add_result(net)->Ok_0;
        let new_out = pool.reserves@[token_out as int].sub_result(expected_amount_out)->Ok_0;
        let traded = with_trade(pool, token_in, new_in, token_out, new_out);
        assert(p.reserves == traded.reserves);
        assert(traded.reserves@ == pool.reserves@.update(token_in as int, new_in).update(
            token_out as int,
            new_out,
        ));
    }
}

/// An accepted swap prices itself against the pool before the trade. Its
/// execution price is amount_in / amount_out, and its slippage is measured
/// from the pre-trade marginal price of the input in the output,
/// (r - x_out) / (r - x_in) over the old reserves. When the output reserve is
/// the smaller one (r - x_out > r - x_in > 0) that marginal price is at least 1.
pub proof fn lemma_swap_slippage_from_marginal_price(
    pool: PoolState,
    token_in: usize,
    token_out: usize,
    amount_in: FixedPoint,
    expected_amount_out: FixedPoint,
    min_amount_out: FixedPoint,
)
    ensures
        swap_result(pool, token_in, token_out, amount_in, expected_amount_out, min_amount_out) matches Ok(
            (p, res),
        ) ==> {
            let r = pool.sphere.radius.raw;
            let x_in = pool.reserves@[token_in as int].raw;
            let x_out = pool.reserves@[token_out as int].raw;
            let mid_raw = trunc_div((r - x_out) * (SCALE as int), r - x_in);
            &&& r - x_in != 0
            &&& fits_i128(mid_raw)
            &&& res.execution_price.raw == trunc_div(
                amount_in.raw * (SCALE as int),
                expected_amount_out.raw as int,
            )
            &&& slippage_result(FixedPoint { raw: mid_raw as i128 }, res.execution_price) == Ok::<
                u16,
                OrbitalError,
            >(res.slippage_bps)
            &&& (r - x_out > r - x_in > 0 ==> mid_raw >= SCALE)
        },
{
    if let Ok((p, res)) = swap_result(
        pool,
        token_in,
        token_out,
        amount_in,
        expected_amount_out,
        min_amount_out,
    ) {
        let r = pool.sphere.radius.raw as int;
        let x_in = pool.reserves@[token_in as int].raw as int;
        let x_out = pool.reserves@[token_out as int].raw as int;
        let num: int = r - x_out;
        let den: int = r - x_in;
        let s: int = SCALE as int;
        if num > den > 0 {
            assert(num * s >= den * s) by (nonlinear_arith)
                requires
                    num > den,
                    s > 0,
            ;
            assert(num * s >= 0) by (nonlinear_arith)
                requires
                    num > 0,
                    s > 0,
            ;
            lemma_div_is_ordered(den * s, num * s, den);
            lemma_div_multiples_vanish(s, den);
            assert(den * s == s * den) by (nonlinear_arith);
        }
    }
}

/// Slippage is the relative shortfall of the execution price in basis points,
/// rounded down: when execution is worse than a positive mid price and the
/// result is below the cap, bps·mid <= 10_000·(exec - mid) < (bps + 2)·mid.
/// An execution at or better than mid reports 0.
pub proof fn lemma_slippage_is_relative_shortfall(mid_price: FixedPoint, execution_price: FixedPoint)
    ensures
        execution_price.raw <= mid_price.raw ==> slippage_result(mid_price, execution_price)
            == Ok::<u16, OrbitalError>(0),
        mid_price.raw > 0 && execution_price.raw > mid_price.raw ==> (slippage_result(
            mid_price,
            execution_price,
        ) matches Ok(bps) ==> (bps < u16::MAX ==> {
            &&& bps * mid_price.raw <= 10_000 * (execution_price.raw - mid_price.raw)
            &&& 10_000 * (execution_price.raw - mid_price.raw) < (bps + 2) * mid_price.raw
        })),
{
    if mid_price.raw > 0 && execution_price.raw > mid_price.raw {
        if let Ok(bps) = slippage_result(mid_price, execution_price) {
            if bps < u16::MAX {
                let s: int = SCALE as int;
                let m: int = mid_price.raw as int;
                let diff: int = execution_price.raw - mid_price.raw;
                let ratio: int = (diff * s) / m;
                assert(diff * s > 0) by (nonlinear_arith)
                    requires
                        diff > 0,
                        s > 0,
                ;
                lemma_fundamental_div_mod(diff * s, m);
                lemma_mod_pos_bound(diff * s, m);
                lemma_div_pos_is_pos(diff * s, m);
                let prod: int = ratio * (10_000 * s);
                assert(prod == (ratio * 10_000) * s) by (nonlinear_arith)
                    requires
                        prod == ratio * (10_000 * s),
                ;
                lemma_div_multiples_vanish(ratio * 10_000, s);
                assert((ratio * 10_000) * s == s * (ratio * 10_000)) by (nonlinear_arith);
                assert(fp_int(BPS_DENOMINATOR as int).raw == 10_000 * s);
                let big: int = ratio * 10_000;
                lemma_fundamental_div_mod(big, s);
                lemma_mod_pos_bound(big, s);
                assert(bps == big / s);
                assert(bps * m <= 10_000 * diff) by (nonlinear_arith)
                    requires
                        s * bps <= big,
                        big == ratio * 10_000,
                        m * ratio <= diff * s,
                        m > 0,
                        s > 0,
                        bps >= 0,
                {
                    assert(s * (bps * m) <= big * m);
                    assert(big * m == 10_000 * (ratio * m));
                    assert(s * (bps * m) <= s * (10_000 * diff));
                }
                assert(10_000 * diff < (bps + 2) * m) by (nonlinear_arith)
                    requires
                        big < s * bps + s,
                        big == ratio * 10_000,
                        diff * s < m * ratio + m,
                        m > 0,
                        s == 0x1_0000_0000_0000_0000,
                        bps >= 0,
                {
                    assert(10_000 * (diff * s) < 10_000 * (m * ratio) + 10_000 * m);
                    assert(10_000 * (m * ratio) == m * big);
                    assert(m * big < m * (s * bps + s));
                    assert(s * (10_000 * diff) < s * (m * bps) + s * m + 10_000 * m);
                    assert(10_000 * m < s * m);
                    assert(s * (10_000 * diff) < s * ((bps + 2) * m));
                }
            }
        }
    }
}

} // verus!
