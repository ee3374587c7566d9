use orbital::domain::amm::pool::initialize_pool_reserves;
use orbital::domain::amm::swap::{compute_fee, compute_slippage_bps, execute_swap};
use orbital::math::fixed_point::FixedPoint;
use orbital::math::sphere::{Sphere, MAX_ASSETS};
use orbital::state::address::Address;
use orbital::state::pool::PoolState;

// ── Test helpers ──

fn unique_addresses(n: usize, salt: u8) -> Vec<Address> {
    (0..n)
        .map(|i| {
            let mut bytes = [0u8; 32];
            bytes[0] = salt;
            bytes[1] = i as u8 + 1;
            Address::new_from_array(bytes)
        })
        .collect()
}

fn make_pool(n: u8) -> PoolState {
    PoolState {
        bump: 0,
        authority: Address::new_from_array([9u8; 32]),
        sphere: Sphere { radius: FixedPoint::zero(), n },
        reserves: [FixedPoint::zero(); MAX_ASSETS],
        n_assets: n,
        token_mints: [Address::zeroed(); MAX_ASSETS],
        token_vaults: [Address::zeroed(); MAX_ASSETS],
        vault_bumps: [0u8; MAX_ASSETS],
        fee_rate_bps: 30,
        total_interior_liquidity: FixedPoint::zero(),
        total_boundary_liquidity: FixedPoint::zero(),
        alpha_cache: FixedPoint::zero(),
        w_norm_sq_cache: FixedPoint::zero(),
        tick_count: 0,
        is_active: true,
        total_volume: FixedPoint::zero(),
        total_fees: FixedPoint::zero(),
        created_at: 0,
        position_count: 0,
        _reserved: [0u8; 112],
    }
}

fn init_pool(n: u8, deposit: i64) -> PoolState {
    let mut pool = make_pool(n);
    let mints = unique_addresses(n as usize, 1);
    let vaults = unique_addresses(n as usize, 2);
    let deposit_fp = FixedPoint::from_int(deposit);
    initialize_pool_reserves(&mut pool, deposit_fp, &mints, &vaults).unwrap();
    pool
}

/// Valid amount_out for n=3 equal reserves using the analytical formula.
///
/// At equal price point q = r(1 - 1/√n), c = r - q = r/√n.
/// After adding d to token_in (net, after fee):
///   d_out = -c + √(c² + 2cd - d²)
fn compute_valid_amount_out_n3(pool: &PoolState, net_amount_in: FixedPoint) -> FixedPoint {
    let r = pool.sphere.radius;
    let n_fp = FixedPoint::from_int(pool.n_assets as i64);
    let sqrt_n = n_fp.sqrt().unwrap();
    let c = r.checked_div(sqrt_n).unwrap(); // c = r/√n

    let d = net_amount_in;
    let c_sq = c.squared().unwrap();
    let two_cd = c.checked_mul(d).unwrap().checked_mul(FixedPoint::from_int(2)).unwrap();
    let d_sq = d.squared().unwrap();

    // radicand = c² + 2cd - d²
    let radicand = c_sq.checked_add(two_cd).unwrap().checked_sub(d_sq).unwrap();
    let sqrt_val = radicand.sqrt().unwrap();

    // d_out = -c + √(radicand)
    sqrt_val.checked_sub(c).unwrap()
}

// ── Fee tests ──

#[test]
fn test_compute_fee_30bps() {
    let amount = FixedPoint::from_int(10_000);
    let fee = compute_fee(amount, 30).unwrap();
    // 10000 * 30 / 10000 = 30
    assert!(fee.approx_eq(FixedPoint::from_int(30), FixedPoint::from_int(1)));
}

#[test]
fn test_compute_fee_zero_bps() {
    let amount = FixedPoint::from_int(10_000);
    let fee = compute_fee(amount, 0).unwrap();
    assert!(fee.is_zero());
}

#[test]
fn test_compute_fee_max_bps() {
    let amount = FixedPoint::from_int(10_000);
    let fee = compute_fee(amount, 10_000).unwrap();
    // 10000 * 10000 / 10000 = 10000
    assert!(fee.approx_eq(amount, FixedPoint::from_int(1)));
}

// ── Slippage tests ──

#[test]
fn test_slippage_zero_when_same_price() {
    let price = FixedPoint::from_int(1);
    assert_eq!(compute_slippage_bps(price, price).unwrap(), 0);
}

#[test]
fn test_slippage_positive_when_worse() {
    let mid = FixedPoint::from_int(100);
    let exec = FixedPoint::from_int(101); // 1% worse
    let bps = compute_slippage_bps(mid, exec).unwrap();
    assert!(bps > 0 && bps <= 200); // ~100 bps ± rounding
}

#[test]
fn test_slippage_zero_when_better() {
    let mid = FixedPoint::from_int(100);
    let exec = FixedPoint::from_int(99); // Better price
    assert_eq!(compute_slippage_bps(mid, exec).unwrap(), 0);
}

// ── execute_swap integration tests ──

#[test]
fn test_swap_happy_path() {
    let mut pool = init_pool(3, 1_000);
    pool.fee_rate_bps = 0; // No fee for simpler test

    let amount_in = FixedPoint::from_int(10);
    let amount_out = compute_valid_amount_out_n3(&pool, amount_in);
    let min_out = FixedPoint::from_int(1);

    let result = execute_swap(&mut pool, 0, 1, amount_in, amount_out, min_out).unwrap();

    assert!(result.amount_in.approx_eq(amount_in, FixedPoint::from_int(1)));
    assert!(result.fee.is_zero());
    assert!(result.amount_out.is_positive());
}

#[test]
fn test_swap_updates_reserves() {
    let mut pool = init_pool(3, 1_000);
    pool.fee_rate_bps = 0;

    let old_in = pool.reserves[0];
    let old_out = pool.reserves[1];
    let amount_in = FixedPoint::from_int(10);
    let amount_out = compute_valid_amount_out_n3(&pool, amount_in);

    execute_swap(&mut pool, 0, 1, amount_in, amount_out, FixedPoint::from_int(1)).unwrap();

    // token_in reserve increased
    assert!(pool.reserves[0].raw > old_in.raw);
    // token_out reserve decreased
    assert!(pool.reserves[1].raw < old_out.raw);
    // uninvolved token unchanged
    assert_eq!(pool.reserves[2].raw, FixedPoint::from_int(1_000).raw);
}

#[test]
fn test_swap_updates_statistics() {
    let mut pool = init_pool(3, 1_000);
    pool.fee_rate_bps = 30;

    let amount_in = FixedPoint::from_int(10);
    let fee = compute_fee(amount_in, 30).unwrap();
    let net = amount_in.checked_sub(fee).unwrap();
    let amount_out = compute_valid_amount_out_n3(&pool, net);

    execute_swap(&mut pool, 0, 1, amount_in, amount_out, FixedPoint::from_int(1)).unwrap();

    assert!(pool.total_volume.is_positive());
    assert!(pool.total_fees.is_positive());
}

#[test]
fn test_swap_rejects_invariant_violation() {
    let mut pool = init_pool(3, 1_000);
    pool.fee_rate_bps = 0;

    let amount_in = FixedPoint::from_int(10);
    // Wrong amount_out (too large) → invariant violation
    let bad_out = FixedPoint::from_int(20);

    let result = execute_swap(&mut pool, 0, 1, amount_in, bad_out, FixedPoint::from_int(1));
    assert!(result.is_err());
}

#[test]
fn test_swap_rejects_slippage_exceeded() {
    let mut pool = init_pool(3, 1_000);
    pool.fee_rate_bps = 0;

    let amount_in = FixedPoint::from_int(10);
    let amount_out = compute_valid_amount_out_n3(&pool, amount_in);
    // min_amount_out higher than actual → slippage exceeded
    let high_min = FixedPoint::from_int(999);

    let result = execute_swap(&mut pool, 0, 1, amount_in, amount_out, high_min);
    assert!(result.is_err());
}

#[test]
fn test_swap_rejects_same_token() {
    let mut pool = init_pool(3, 1_000);
    let result = execute_swap(
        &mut pool,
        0,
        0,
        FixedPoint::from_int(10),
        FixedPoint::from_int(9),
        FixedPoint::from_int(1),
    );
    assert!(result.is_err());
}

#[test]
fn test_swap_rejects_inactive_pool() {
    let mut pool = init_pool(3, 1_000);
    pool.is_active = false;
    let result = execute_swap(
        &mut pool,
        0,
        1,
        FixedPoint::from_int(10),
        FixedPoint::from_int(9),
        FixedPoint::from_int(1),
    );
    assert!(result.is_err());
}

#[test]
fn test_swap_rejects_insufficient_liquidity() {
    let mut pool = init_pool(3, 1_000);
    pool.fee_rate_bps = 0;
    // Try to withdraw more than reserve
    let huge_out = FixedPoint::from_int(2_000);
    let result = execute_swap(
        &mut pool,
        0,
        1,
        FixedPoint::from_int(10),
        huge_out,
        FixedPoint::from_int(1),
    );
    assert!(result.is_err());
}
