use anchor_lang::solana_program::pubkey::Pubkey;
use orbital::domain::amm::pool::{derive_vault_pda, vault_addresses};
use orbital::domain::amm::pool::{
    compute_radius_from_deposit, initialize_pool_reserves, recompute_sphere, update_caches,
    verify_invariant,
};
use orbital::domain::amm::swap::{compute_fee, execute_swap};
use orbital::errors::OrbitalError;
use orbital::instructions::initialize_pool::{handler as initialize_pool, InitPoolParams};
use orbital::math::fixed_point::FixedPoint;
use orbital::math::sphere::{Sphere, MAX_ASSETS};
use orbital::state::address::Address;
use orbital::state::pool::PoolState;

fn addr(salt: u8, i: u8) -> Address {
    let mut bytes = [0u8; 32];
    bytes[0] = salt;
    bytes[1] = i;
    Address::new_from_array(bytes)
}

fn blank_pool(n: u8) -> PoolState {
    PoolState {
        bump: 0,
        authority: addr(9, 9),
        sphere: Sphere { radius: FixedPoint::zero(), n },
        reserves: [FixedPoint::zero(); MAX_ASSETS],
        n_assets: n,
        token_mints: [Address::zeroed(); MAX_ASSETS],
        token_vaults: [Address::zeroed(); MAX_ASSETS],
        vault_bumps: [0u8; MAX_ASSETS],
        fee_rate_bps: 0,
        total_interior_liquidity: FixedPoint::zero(),
        total_boundary_liquidity: FixedPoint::zero(),
        alpha_cache: FixedPoint::zero(),
        w_norm_sq_cache: FixedPoint::zero(),
        tick_count: 0,
        is_active: true,
        total_volume: FixedPoint::zero(),
        total_fees: FixedPoint::zero(),
        created_at: 0,
        position_count: 0,
        _reserved: [0u8; 112],
    }
}

fn params(n: u8, fee: u16, deposit: u64) -> InitPoolParams {
    let mut token_mints = [Address::zeroed(); MAX_ASSETS];
    for i in 0..MAX_ASSETS {
        token_mints[i] = addr(1, i as u8 + 1);
    }
    InitPoolParams { n_assets: n, fee_rate_bps: fee, initial_deposit_per_asset: deposit, token_mints }
}

fn vaults(n: u8) -> Vec<Address> {
    (0..n).map(|i| addr(2, i + 1)).collect()
}

#[test]
fn initialize_pool_seeds_equal_reserves() {
    let mut pool = blank_pool(0);
    let p = params(3, 30, 1_000);
    initialize_pool(&mut pool, 7, addr(5, 5), &p, &vaults(3), 1_700_000_000).unwrap();
    assert_eq!(pool.n_assets, 3);
    assert_eq!(pool.bump, 7);
    assert_eq!(pool.authority, addr(5, 5));
    assert_eq!(pool.fee_rate_bps, 30);
    assert!(pool.is_active);
    assert_eq!(pool.created_at, 1_700_000_000);
    for i in 0..3 {
        assert_eq!(pool.reserves[i], FixedPoint::from_int(1_000));
        assert_eq!(pool.token_mints[i], addr(1, i as u8 + 1));
        assert_eq!(pool.token_vaults[i], addr(2, i as u8 + 1));
    }
    for i in 3..MAX_ASSETS {
        assert_eq!(pool.reserves[i], FixedPoint::zero());
        assert_eq!(pool.token_mints[i], Address::zeroed());
    }
    assert_eq!(pool.total_interior_liquidity, FixedPoint::from_int(3_000));
    // r = q√n/(√n - 1) ≈ 2366.025
    let expected = FixedPoint::from_fraction(2_366_025_403, 1_000_000).unwrap();
    assert!(pool.sphere.radius.approx_eq(expected, FixedPoint::from_fraction(1, 1_000).unwrap()));
    assert_eq!(pool.sphere.n, 3);
    // alpha = 3000/√3 ≈ 1732.05; ||w||² ≈ 0 for equal reserves
    let alpha = FixedPoint::from_fraction(1_732_050_808, 1_000_000).unwrap();
    assert!(pool.alpha_cache.approx_eq(alpha, FixedPoint::from_fraction(1, 1_000).unwrap()));
    assert!(pool.w_norm_sq_cache.approx_eq(FixedPoint::zero(), FixedPoint::from_fraction(1, 1_000).unwrap()));
    assert_eq!(verify_invariant(&pool), Ok(()));
}

#[test]
fn initialize_pool_rejects_bad_parameters() {
    let mut pool = blank_pool(0);
    let before = pool;
    assert_eq!(
        initialize_pool(&mut pool, 0, addr(5, 5), &params(1, 30, 1_000), &vaults(1), 0),
        Err(OrbitalError::InvalidAssetCount)
    );
    assert_eq!(
        initialize_pool(&mut pool, 0, addr(5, 5), &params(9, 30, 1_000), &vaults(8), 0),
        Err(OrbitalError::InvalidAssetCount)
    );
    assert_eq!(
        initialize_pool(&mut pool, 0, addr(5, 5), &params(3, 10_001, 1_000), &vaults(3), 0),
        Err(OrbitalError::InvalidFeeRate)
    );
    // rejected settings leave the account untouched
    assert_eq!(pool.authority, before.authority);
    assert_eq!(pool.n_assets, before.n_assets);
    assert_eq!(
        initialize_pool(&mut pool, 0, addr(5, 5), &params(3, 30, 1u64 << 63), &vaults(3), 0),
        Err(OrbitalError::MathOverflow)
    );
    assert_eq!(
        initialize_pool(&mut pool, 0, addr(5, 5), &params(3, 30, 0), &vaults(3), 0),
        Err(OrbitalError::InvalidLiquidityAmount)
    );
    let mut dup = params(3, 30, 1_000);
    dup.token_mints[2] = dup.token_mints[0];
    assert_eq!(
        initialize_pool(&mut pool, 0, addr(5, 5), &dup, &vaults(3), 0),
        Err(OrbitalError::DuplicateTokenMint)
    );
    // later failures leave the settings written but no reserves seeded
    assert_eq!(pool.authority, addr(5, 5));
    assert_eq!(pool.n_assets, 3);
    assert!(pool.is_active);
    assert_eq!(pool.reserves, before.reserves);
}

#[test]
fn seed_rejects_duplicate_mints_directly() {
    let mut pool = blank_pool(2);
    let mints = vec![addr(1, 1), addr(1, 1)];
    assert_eq!(
        initialize_pool_reserves(&mut pool, FixedPoint::from_int(10), &mints, &vaults(2)),
        Err(OrbitalError::DuplicateTokenMint)
    );
}

#[test]
fn radius_from_deposit_matches_refit() {
    let mut pool = blank_pool(4);
    let mints: Vec<Address> = (0..4).map(|i| addr(1, i + 1)).collect();
    initialize_pool_reserves(&mut pool, FixedPoint::from_int(500), &mints, &vaults(4)).unwrap();
    let seeded = pool.sphere.radius;
    assert_eq!(compute_radius_from_deposit(FixedPoint::from_int(500), 4), Ok(seeded));
    // r = 500·2/(2-1) = 1000 exactly for n = 4
    assert_eq!(seeded, FixedPoint::from_int(1_000));
    recompute_sphere(&mut pool).unwrap();
    assert_eq!(pool.sphere.radius, FixedPoint::from_int(1_000));
}

#[test]
fn update_caches_on_unequal_reserves() {
    let mut pool = blank_pool(2);
    pool.reserves[0] = FixedPoint::from_int(3);
    pool.reserves[1] = FixedPoint::from_int(5);
    update_caches(&mut pool).unwrap();
    // alpha = 8/√2 ≈ 5.65685, ||w||² = 9 + 25 - 32 = 2
    let alpha = FixedPoint::from_fraction(5_656_854_249, 1_000_000_000).unwrap();
    assert!(pool.alpha_cache.approx_eq(alpha, FixedPoint::from_fraction(1, 1_000_000).unwrap()));
    assert!(pool.w_norm_sq_cache.approx_eq(FixedPoint::from_int(2), FixedPoint::from_fraction(1, 1_000_000).unwrap()));
}

fn seeded_pool() -> PoolState {
    let mut pool = blank_pool(0);
    initialize_pool(&mut pool, 1, addr(5, 5), &params(3, 30, 1_000), &vaults(3), 0).unwrap();
    pool
}

#[test]
fn rejected_swap_keeps_the_writes_before_the_failing_step() {
    // Rejected by the slippage floor, before the trade: nothing is written.
    let mut pool = seeded_pool();
    let before = pool;
    let r = execute_swap(
        &mut pool,
        0,
        1,
        FixedPoint::from_int(10),
        FixedPoint::from_int(9),
        FixedPoint::from_int(10),
    );
    assert_eq!(r.err(), Some(OrbitalError::SlippageExceeded));
    assert_eq!(pool.reserves, before.reserves);
    // Rejected by the invariant check: both reserves were already written,
    // the caches and totals were not.
    let r = execute_swap(
        &mut pool,
        0,
        1,
        FixedPoint::from_int(10),
        FixedPoint::from_int(20),
        FixedPoint::from_int(1),
    );
    assert_eq!(r.err(), Some(OrbitalError::InvariantViolation));
    let fee = compute_fee(FixedPoint::from_int(10), before.fee_rate_bps).unwrap();
    let net = FixedPoint::from_int(10).checked_sub(fee).unwrap();
    assert_eq!(pool.reserves[0], before.reserves[0].checked_add(net).unwrap());
    assert_eq!(pool.reserves[1], before.reserves[1].checked_sub(FixedPoint::from_int(20)).unwrap());
    assert_eq!(pool.reserves[2], before.reserves[2]);
    assert_eq!(pool.total_volume, before.total_volume);
    assert_eq!(pool.alpha_cache, before.alpha_cache);
    // Rejected for want of liquidity: only the input reserve was written.
    let mut pool = seeded_pool();
    let r = execute_swap(
        &mut pool,
        0,
        1,
        FixedPoint::from_int(10),
        FixedPoint::from_int(5_000),
        FixedPoint::from_int(1),
    );
    assert_eq!(r.err(), Some(OrbitalError::InsufficientLiquidity));
    assert_eq!(pool.reserves[0], before.reserves[0].checked_add(net).unwrap());
    assert_eq!(pool.reserves[1], before.reserves[1]);
}

#[test]
fn swap_errors_name_the_failed_check() {
    let mut pool = seeded_pool();
    let ten = FixedPoint::from_int(10);
    let one = FixedPoint::from_int(1);
    assert_eq!(execute_swap(&mut pool, 0, 0, ten, ten, one).err(), Some(OrbitalError::SameTokenSwap));
    assert_eq!(execute_swap(&mut pool, 0, 3, ten, ten, one).err(), Some(OrbitalError::InvalidTokenIndex));
    assert_eq!(
        execute_swap(&mut pool, 0, 1, FixedPoint::zero(), ten, one).err(),
        Some(OrbitalError::NegativeTradeAmount)
    );
    assert_eq!(
        execute_swap(&mut pool, 0, 1, ten, ten, FixedPoint::from_int(11)).err(),
        Some(OrbitalError::SlippageExceeded)
    );
    assert_eq!(
        execute_swap(&mut pool, 0, 1, ten, FixedPoint::from_int(5_000), one).err(),
        Some(OrbitalError::InsufficientLiquidity)
    );
    pool.is_active = false;
    assert_eq!(execute_swap(&mut pool, 0, 1, ten, ten, one).err(), Some(OrbitalError::PoolNotActive));
}

#[test]
fn accepted_swap_conserves_and_keeps_invariant() {
    let mut pool = seeded_pool();
    let before = pool;
    let amount_in = FixedPoint::from_int(10);
    let fee = compute_fee(amount_in, 30).unwrap();
    let net = amount_in.checked_sub(fee).unwrap();
    let out = orbital::math::newton::compute_amount_out_analytical(
        &pool.sphere,
        pool.active_reserves(),
        0,
        1,
        net,
    )
    .unwrap();
    let res = execute_swap(&mut pool, 0, 1, amount_in, out, FixedPoint::from_int(1)).unwrap();
    assert_eq!(res.fee.raw + res.net_amount_in.raw, amount_in.raw);
    assert_eq!(res.fee, FixedPoint::from_fraction(3, 100).unwrap());
    assert_eq!(pool.reserves[0].raw, before.reserves[0].raw + net.raw);
    assert_eq!(pool.reserves[1].raw, before.reserves[1].raw - out.raw);
    assert_eq!(pool.reserves[2], before.reserves[2]);
    assert_eq!(pool.total_volume, amount_in);
    assert_eq!(pool.total_fees, fee);
    assert_eq!(verify_invariant(&pool), Ok(()));
    // execution price = 10 / out > 1: the fee (30 bps) plus price impact against the mid price of 1
    assert!(res.execution_price.raw > FixedPoint::one().raw);
    assert!(res.slippage_bps > 30 && res.slippage_bps < 200);
}

#[test]
fn fee_is_exact_and_bounded() {
    assert_eq!(compute_fee(FixedPoint::from_int(10_000), 30), Ok(FixedPoint::from_int(30)));
    assert_eq!(
        compute_fee(FixedPoint::from_int(1_000), 10_000),
        Ok(FixedPoint::from_int(1_000))
    );
    assert_eq!(compute_fee(FixedPoint::from_int(1), 1), Ok(FixedPoint::from_fraction(1, 10_000).unwrap()));
    assert_eq!(
        compute_fee(FixedPoint::from_raw(i128::MAX), 2),
        Err(OrbitalError::MathOverflow)
    );
}

#[test]
fn slippage_saturates() {
    let mid = FixedPoint::from_int(1);
    let exec = FixedPoint::from_int(100);
    // (100 - 1) / 1 * 10000 = 990000 bps > u16::MAX
    assert_eq!(orbital::domain::amm::swap::compute_slippage_bps(mid, exec), Ok(u16::MAX));
    assert_eq!(
        orbital::domain::amm::swap::compute_slippage_bps(FixedPoint::zero(), exec),
        Err(OrbitalError::DivisionByZero)
    );
}

fn seed_raw(n: u8, deposit_raw: i128) -> Result<PoolState, OrbitalError> {
    let mut pool = blank_pool(n);
    let mints: Vec<Address> = (0..n).map(|i| addr(1, i + 1)).collect();
    initialize_pool_reserves(&mut pool, FixedPoint::from_raw(deposit_raw), &mints, &vaults(n))?;
    Ok(pool)
}

#[test]
fn seeded_pools_pass_the_invariant_check_across_the_deposit_range() {
    let low: i128 = 1 << 50;
    let high: i128 = 1 << 92;
    for n in 2..=8u8 {
        for deposit in [low, low + 12_345, 1 << 64, 1_000 << 64, high - 1, high] {
            let pool = seed_raw(n, deposit).unwrap();
            assert_eq!(verify_invariant(&pool), Ok(()), "n = {}, deposit = {}", n, deposit);
        }
    }
}

#[test]
fn a_tiny_seed_falls_outside_the_invariant_tolerance() {
    // Far below 2^-14 per asset the rounding of the radius outgrows r²/2^24.
    let pool = seed_raw(2, 370_098_831_695).unwrap();
    assert_eq!(verify_invariant(&pool), Err(OrbitalError::InvariantViolation));
}

#[test]
fn refitted_pools_pass_the_invariant_check() {
    let shapes: [&[i64]; 5] = [
        &[3, 5],
        &[10, 1],
        &[1_000, 900, 950],
        &[700, 710, 720, 730, 800],
        &[100, 101, 102, 103, 104, 105, 106, 120],
    ];
    for shape in shapes {
        let n = shape.len() as u8;
        let mut pool = blank_pool(n);
        for (i, v) in shape.iter().enumerate() {
            pool.reserves[i] = FixedPoint::from_int(*v);
        }
        recompute_sphere(&mut pool).unwrap();
        assert_eq!(verify_invariant(&pool), Ok(()), "reserves {:?}", shape);
    }
}

#[test]
fn a_tiny_refit_falls_outside_the_invariant_tolerance() {
    // Radii far below 2^-14 leave a rounding error larger than r²/2^24.
    let mut pool = blank_pool(2);
    pool.reserves[0] = FixedPoint::from_raw(0x2_43f3_eb3c);
    pool.reserves[1] = FixedPoint::from_raw(0x5_2078_95fc);
    recompute_sphere(&mut pool).unwrap();
    assert_eq!(pool.sphere.radius, FixedPoint::from_raw(52_347_543_189));
    assert_eq!(verify_invariant(&pool), Err(OrbitalError::InvariantViolation));
}

#[test]
fn vault_addresses_are_the_program_addresses_of_pool_and_mint() {
    let program = Pubkey::new_from_array([3u8; 32]);
    let pool = addr(5, 5);
    let mints: Vec<Address> = (0..3).map(|i| addr(1, i + 1)).collect();
    let vaults = vault_addresses(&pool, &mints, &Address::new_from_array(program.to_bytes())).unwrap();
    assert_eq!(vaults.len(), 3);
    for i in 0..3 {
        let (expected, bump) = Pubkey::find_program_address(
            &[b"vault", pool.bytes.as_ref(), mints[i].bytes.as_ref()],
            &program,
        );
        assert_eq!(vaults[i].bytes, expected.to_bytes());
        assert_ne!(vaults[i], mints[i]);
        let (one, one_bump) =
            derive_vault_pda(&pool, &mints[i], &Address::new_from_array(program.to_bytes())).unwrap();
        assert_eq!(one, vaults[i]);
        assert_eq!(one_bump, bump);
    }
}
