use orbital::domain::amm::pool::verify_invariant;
use orbital::domain::settlement::{action_preimage_bytes, check_policy, compute_action_hash};
use orbital::errors::OrbitalError;
use orbital::instructions::accounts::{check_token_account_owner, token_account_amount};
use orbital::instructions::add_liquidity::{
    advance_position_count, deposit_into_tick, validate as validate_add, AddLiquidityParams,
};
use orbital::instructions::close_pool::{check_vault_to_drain, validate as validate_close_pool};
use orbital::instructions::close_tick::handler as close_tick;
use orbital::instructions::execute_settlement::{
    handler as settle, validate as validate_settlement, ExecuteSettlementParams,
};
use orbital::instructions::execute_swap::{handler as swap, validate as validate_swap, SwapParams};
use orbital::instructions::initialize_pool::{handler as initialize_pool, InitPoolParams};
use orbital::instructions::remove_liquidity::{
    validate as validate_remove, withdraw_from_tick, PositionView, RemoveLiquidityParams,
};
use orbital::instructions::update_policy::{handler as update_policy, UpdatePolicyParams};
use orbital::math::fixed_point::FixedPoint;
use orbital::math::sphere::{Sphere, MAX_ASSETS};
use orbital::state::address::Address;
use orbital::state::policy::PolicyState;
use orbital::state::pool::PoolState;
use orbital::state::tick::{TickState, TickStatus};

const S: i128 = 1i128 << 64;

fn addr(salt: u8, i: u8) -> Address {
    let mut bytes = [0u8; 32];
    bytes[0] = salt;
    bytes[1] = i;
    Address::new_from_array(bytes)
}

fn authority() -> Address {
    addr(5, 5)
}

fn pool_key() -> Address {
    addr(6, 6)
}

fn pool3() -> PoolState {
    let mut pool = PoolState {
        bump: 0,
        authority: Address::zeroed(),
        sphere: Sphere { radius: FixedPoint::zero(), n: 0 },
        reserves: [FixedPoint::zero(); MAX_ASSETS],
        n_assets: 0,
        token_mints: [Address::zeroed(); MAX_ASSETS],
        token_vaults: [Address::zeroed(); MAX_ASSETS],
        vault_bumps: [0u8; MAX_ASSETS],
        fee_rate_bps: 0,
        total_interior_liquidity: FixedPoint::zero(),
        total_boundary_liquidity: FixedPoint::zero(),
        alpha_cache: FixedPoint::zero(),
        w_norm_sq_cache: FixedPoint::zero(),
        tick_count: 0,
        is_active: false,
        total_volume: FixedPoint::zero(),
        total_fees: FixedPoint::zero(),
        created_at: 0,
        position_count: 0,
        _reserved: [0u8; 112],
    };
    let mut token_mints = [Address::zeroed(); MAX_ASSETS];
    for i in 0..3 {
        token_mints[i] = addr(1, i as u8 + 1);
    }
    let params = InitPoolParams {
        n_assets: 3,
        fee_rate_bps: 30,
        initial_deposit_per_asset: 1_000_000,
        token_mints,
    };
    let vaults: Vec<Address> = (0..3).map(|i| addr(2, i + 1)).collect();
    initialize_pool(&mut pool, 1, authority(), &params, &vaults, 0).unwrap();
    pool
}

fn swap_accounts(token_in: u8, token_out: u8) -> Vec<Address> {
    vec![addr(2, token_in + 1), addr(2, token_out + 1), addr(7, 1), addr(7, 2)]
}

// ── execute_swap ──

#[test]
fn swap_request_checks() {
    let pool = pool3();
    let ok = SwapParams {
        token_in_index: 0,
        token_out_index: 1,
        amount_in: 1_000,
        expected_amount_out: 990,
        min_amount_out: 1,
    };
    assert_eq!(validate_swap(&pool, &ok, &swap_accounts(0, 1)), Ok(()));
    let mut p = ok;
    p.token_out_index = 3;
    assert_eq!(validate_swap(&pool, &p, &swap_accounts(0, 1)), Err(OrbitalError::InvalidTokenIndex));
    p = ok;
    p.token_out_index = 0;
    assert_eq!(validate_swap(&pool, &p, &swap_accounts(0, 0)), Err(OrbitalError::SameTokenSwap));
    p = ok;
    p.amount_in = 0;
    assert_eq!(validate_swap(&pool, &p, &swap_accounts(0, 1)), Err(OrbitalError::NegativeTradeAmount));
    assert_eq!(
        validate_swap(&pool, &ok, &swap_accounts(0, 1)[..3]),
        Err(OrbitalError::InvalidRemainingAccounts)
    );
    assert_eq!(
        validate_swap(&pool, &ok, &swap_accounts(0, 2)),
        Err(OrbitalError::InvalidVaultAddress)
    );
    let mut inactive = pool;
    inactive.is_active = false;
    assert_eq!(validate_swap(&inactive, &ok, &swap_accounts(0, 1)), Err(OrbitalError::PoolNotActive));
}

#[test]
fn swap_pays_whole_units_and_keeps_the_rest_in_reserve() {
    let mut pool = pool3();
    let before = pool;
    let params = SwapParams {
        token_in_index: 0,
        token_out_index: 2,
        amount_in: 10_000,
        expected_amount_out: 0,
        min_amount_out: 9_000,
    };
    let fill = swap(&mut pool, &params).unwrap();
    assert!(fill.amount_out_u64 > 9_000 && fill.amount_out_u64 < 10_000);
    assert_eq!(fill.amount_out_u64 as i128 * S <= fill.result.amount_out.raw, true);
    // the output reserve drops by exactly what is paid out
    assert_eq!(pool.reserves[2].raw, before.reserves[2].raw - fill.amount_out_u64 as i128 * S);
    assert_eq!(pool.reserves[0].raw, before.reserves[0].raw + fill.result.net_amount_in.raw);
    assert_eq!(pool.reserves[1], before.reserves[1]);
    assert_eq!(verify_invariant(&pool), Ok(()));
}

#[test]
fn swap_handler_rejects_slippage_and_keeps_pool() {
    let mut pool = pool3();
    let before = pool;
    let params = SwapParams {
        token_in_index: 0,
        token_out_index: 1,
        amount_in: 10_000,
        expected_amount_out: 0,
        min_amount_out: 10_000,
    };
    assert_eq!(swap(&mut pool, &params).err(), Some(OrbitalError::SlippageExceeded));
    assert_eq!(pool.reserves, before.reserves);
    assert_eq!(pool.sphere, before.sphere);
}

// ── execute_settlement ──

fn policy() -> PolicyState {
    PolicyState {
        bump: 0,
        authority: authority(),
        pool: pool_key(),
        max_trade_amount: FixedPoint::from_int(50_000),
        max_daily_volume: FixedPoint::from_int(80_000),
        current_daily_volume: FixedPoint::zero(),
        last_reset_timestamp: 0,
        is_active: true,
        created_at: 0,
        updated_at: 0,
        _reserved: [0u8; 64],
    }
}

fn ata_owned_by(owner: &Address) -> Vec<u8> {
    let mut data = vec![0u8; 165];
    data[32..64].copy_from_slice(&owner.bytes);
    data
}

fn settlement_params(amount: u64) -> ExecuteSettlementParams {
    ExecuteSettlementParams {
        token_in_index: 0,
        token_out_index: 1,
        amount,
        min_amount_out: 1,
        nonce: 1,
    }
}

#[test]
fn settlement_checks_policy_and_accounts() {
    let pool = pool3();
    let executor = addr(8, 8);
    let ata = ata_owned_by(&executor);
    let acc = swap_accounts(0, 1);
    let mut pol = policy();
    // not on the allowlist
    assert_eq!(
        validate_settlement(&pool, &pool_key(), &mut pol, &settlement_params(100), false, 10, &acc, &ata, &executor),
        Err(OrbitalError::Unauthorized)
    );
    // over the per-trade limit
    assert_eq!(
        validate_settlement(&pool, &pool_key(), &mut pol, &settlement_params(60_000), true, 10, &acc, &ata, &executor),
        Err(OrbitalError::PolicyLimitExceeded)
    );
    // policy of another pool
    assert_eq!(
        validate_settlement(&pool, &addr(6, 7), &mut pol, &settlement_params(100), true, 10, &acc, &ata, &executor),
        Err(OrbitalError::PolicyNotFound)
    );
    // output account of someone else
    let other = ata_owned_by(&addr(8, 9));
    assert_eq!(
        validate_settlement(&pool, &pool_key(), &mut pol, &settlement_params(100), true, 10, &acc, &other, &executor),
        Err(OrbitalError::Unauthorized)
    );
    // the policy records the trade before the accounts are checked
    assert_eq!(pol.current_daily_volume, FixedPoint::from_int(100));
    // accepted trades accumulate within a day
    validate_settlement(&pool, &pool_key(), &mut pol, &settlement_params(40_000), true, 10, &acc, &ata, &executor).unwrap();
    validate_settlement(&pool, &pool_key(), &mut pol, &settlement_params(30_000), true, 20, &acc, &ata, &executor).unwrap();
    assert_eq!(pol.current_daily_volume, FixedPoint::from_int(70_100));
    assert_eq!(
        validate_settlement(&pool, &pool_key(), &mut pol, &settlement_params(20_000), true, 30, &acc, &ata, &executor),
        Err(OrbitalError::DailyVolumeLimitExceeded)
    );
    // a day later the window starts over
    validate_settlement(&pool, &pool_key(), &mut pol, &settlement_params(20_000), true, 86_400, &acc, &ata, &executor).unwrap();
    assert_eq!(pol.current_daily_volume, FixedPoint::from_int(20_000));
    assert_eq!(pol.last_reset_timestamp, 86_400);
    let mut inactive = policy();
    inactive.is_active = false;
    assert_eq!(
        validate_settlement(&pool, &pool_key(), &mut inactive, &settlement_params(100), true, 10, &acc, &ata, &executor),
        Err(OrbitalError::SettlementPolicyViolation)
    );
}

#[test]
fn policy_check_directly() {
    let mut pol = policy();
    assert_eq!(check_policy(&mut pol, FixedPoint::from_int(50_001), 5), Err(OrbitalError::PolicyLimitExceeded));
    assert_eq!(check_policy(&mut pol, FixedPoint::from_int(50_000), 5), Ok(()));
    assert_eq!(pol.current_daily_volume, FixedPoint::from_int(50_000));
    assert_eq!(pol.last_reset_timestamp, 0);
}

#[test]
fn settlement_hash_binds_its_inputs() {
    let mut pool = pool3();
    let fill = settle(&mut pool, &settlement_params(5_000), &addr(3, 1), &pool_key(), &addr(4, 1), &addr(8, 8), 1_234).unwrap();
    let amount_in = fill.result.amount_in.raw.to_le_bytes();
    let amount_out = fill.result.amount_out.raw.to_le_bytes();
    let ts = 1_234i64.to_le_bytes();
    let expected = anchor_lang::solana_program::hash::hashv(&[
        &addr(3, 1).bytes,
        &pool_key().bytes,
        &addr(4, 1).bytes,
        &addr(8, 8).bytes,
        &[0u8],
        &[1u8],
        &amount_in,
        &amount_out,
        &ts,
    ])
    .to_bytes();
    assert_eq!(fill.action_hash, expected);
    assert!(fill.amount_out_u64 > 4_900 && fill.amount_out_u64 < 5_000);
}

#[test]
fn action_preimage_layout() {
    let bytes = action_preimage_bytes(
        &addr(3, 1),
        &addr(3, 2),
        &addr(3, 3),
        &addr(3, 4),
        2,
        5,
        FixedPoint::from_raw(-2),
        FixedPoint::from_int(1),
        -1,
    );
    assert_eq!(bytes.len(), 170);
    assert_eq!(&bytes[0..32], &addr(3, 1).bytes);
    assert_eq!(&bytes[96..128], &addr(3, 4).bytes);
    assert_eq!(bytes[128], 2);
    assert_eq!(bytes[129], 5);
    assert_eq!(&bytes[130..146], &(-2i128).to_le_bytes());
    assert_eq!(&bytes[146..162], &(S).to_le_bytes());
    assert_eq!(&bytes[162..170], &(-1i64).to_le_bytes());
    let h = compute_action_hash(
        &addr(3, 1),
        &addr(3, 2),
        &addr(3, 3),
        &addr(3, 4),
        2,
        5,
        FixedPoint::from_raw(-2),
        FixedPoint::from_int(1),
        -1,
    );
    assert_eq!(h, anchor_lang::solana_program::hash::hashv(&[&bytes]).to_bytes());
}

// ── close_tick ──

fn tick(status: TickStatus, liquidity: i64, reserves: [i64; 3]) -> TickState {
    let mut r = [FixedPoint::zero(); MAX_ASSETS];
    for i in 0..3 {
        r[i] = FixedPoint::from_int(reserves[i]);
    }
    TickState {
        bump: 0,
        pool: pool_key(),
        k: FixedPoint::from_int(1_500),
        status,
        liquidity: FixedPoint::from_int(liquidity),
        sphere_radius: FixedPoint::zero(),
        depeg_price: FixedPoint::zero(),
        x_min: FixedPoint::zero(),
        x_max: FixedPoint::zero(),
        capital_efficiency: FixedPoint::zero(),
        owner: authority(),
        created_at: 0,
        reserves: r,
        _reserved: [0u8; 32],
    }
}

#[test]
fn close_tick_checks() {
    let mut pool = pool3();
    pool.tick_count = 1;
    let t = tick(TickStatus::Interior, 0, [0, 0, 0]);
    assert_eq!(close_tick(&mut pool, &t, &addr(5, 6), &pool_key()), Err(OrbitalError::Unauthorized));
    assert_eq!(close_tick(&mut pool, &t, &authority(), &addr(6, 7)), Err(OrbitalError::TickPoolMismatch));
    let full = tick(TickStatus::Interior, 10, [0, 0, 0]);
    assert_eq!(close_tick(&mut pool, &full, &authority(), &pool_key()), Err(OrbitalError::TickHasLiquidity));
    let mut none = pool;
    none.tick_count = 0;
    assert_eq!(close_tick(&mut none, &t, &authority(), &pool_key()), Err(OrbitalError::MathOverflow));
}

#[test]
fn closing_interior_tick_keeps_reserves() {
    let mut pool = pool3();
    pool.tick_count = 2;
    let before = pool;
    let t = tick(TickStatus::Interior, 0, [5, 6, 7]);
    close_tick(&mut pool, &t, &authority(), &pool_key()).unwrap();
    assert_eq!(pool.tick_count, 1);
    assert_eq!(pool.reserves, before.reserves);
    assert_eq!(pool.sphere, before.sphere);
}

#[test]
fn closing_boundary_tick_returns_its_reserves() {
    let mut pool = pool3();
    pool.tick_count = 1;
    let before = pool;
    let t = tick(TickStatus::Boundary, 0, [100, 0, 100]);
    close_tick(&mut pool, &t, &authority(), &pool_key()).unwrap();
    assert_eq!(pool.tick_count, 0);
    assert_eq!(pool.reserves[0].raw, before.reserves[0].raw + 100 * S);
    assert_eq!(pool.reserves[1], before.reserves[1]);
    assert_eq!(pool.reserves[2].raw, before.reserves[2].raw + 100 * S);
    assert!(pool.sphere.radius.raw != before.sphere.radius.raw);
    assert_eq!(verify_invariant(&pool), Ok(()));
}

// ── update_policy ──

#[test]
fn update_policy_fields() {
    let mut pol = policy();
    let none = UpdatePolicyParams { max_trade_amount: None, max_daily_volume: None, is_active: None };
    assert_eq!(update_policy(&mut pol, &authority(), &pool_key(), &none, 9), Err(OrbitalError::NoFieldsToUpdate));
    let some = UpdatePolicyParams { max_trade_amount: Some(7), max_daily_volume: None, is_active: Some(false) };
    assert_eq!(update_policy(&mut pol, &addr(5, 6), &pool_key(), &some, 9), Err(OrbitalError::Unauthorized));
    assert_eq!(update_policy(&mut pol, &authority(), &addr(6, 7), &some, 9), Err(OrbitalError::PolicyNotFound));
    update_policy(&mut pol, &authority(), &pool_key(), &some, 9).unwrap();
    assert_eq!(pol.max_trade_amount, FixedPoint::from_int(7));
    assert_eq!(pol.max_daily_volume, FixedPoint::from_int(80_000));
    assert!(!pol.is_active);
    assert_eq!(pol.updated_at, 9);
    let too_big = UpdatePolicyParams { max_trade_amount: Some(1), max_daily_volume: Some(u64::MAX), is_active: None };
    assert_eq!(update_policy(&mut pol, &authority(), &pool_key(), &too_big, 10), Err(OrbitalError::MathOverflow));
    // the trade limit is written before the daily limit fails to convert
    assert_eq!(pol.max_trade_amount, FixedPoint::from_int(1));
    assert_eq!(pol.max_daily_volume, FixedPoint::from_int(80_000));
    assert_eq!(pol.updated_at, 9);
}

// ── close_pool and token accounts ──

#[test]
fn close_pool_checks() {
    let mut pool = pool3();
    assert_eq!(validate_close_pool(&pool, 6), Err(OrbitalError::PoolNotEmpty));
    pool.total_interior_liquidity = FixedPoint::zero();
    assert_eq!(validate_close_pool(&pool, 5), Err(OrbitalError::InvalidRemainingAccounts));
    assert_eq!(validate_close_pool(&pool, 6), Ok(()));
    let dest = ata_owned_by(&authority());
    assert_eq!(check_vault_to_drain(&pool, 1, &addr(2, 2), &dest, &authority()), Ok(()));
    assert_eq!(check_vault_to_drain(&pool, 1, &addr(2, 3), &dest, &authority()), Err(OrbitalError::InvalidVaultAddress));
    assert_eq!(check_vault_to_drain(&pool, 1, &addr(2, 2), &dest[..40], &authority()), Err(OrbitalError::InvalidRemainingAccounts));
    assert_eq!(check_vault_to_drain(&pool, 1, &addr(2, 2), &dest, &addr(5, 6)), Err(OrbitalError::Unauthorized));
}

#[test]
fn token_account_fields() {
    let mut data = ata_owned_by(&authority());
    data[64..72].copy_from_slice(&0x0102_0304_0506_0708u64.to_le_bytes());
    assert_eq!(token_account_amount(&data), 0x0102_0304_0506_0708);
    assert_eq!(check_token_account_owner(&data, &authority()), Ok(()));
    assert_eq!(check_token_account_owner(&data[..63], &authority()), Err(OrbitalError::InvalidRemainingAccounts));
}

// ── add_liquidity / remove_liquidity ──

fn liquidity_accounts(n: u8, with_tick: bool) -> Vec<Address> {
    let mut v: Vec<Address> = (0..n).map(|i| addr(2, i + 1)).collect();
    v.extend((0..n).map(|i| addr(7, i + 1)));
    if with_tick {
        v.push(addr(9, 1));
    }
    v
}

#[test]
fn add_liquidity_checks() {
    let pool = pool3();
    let mut amounts = [0u64; MAX_ASSETS];
    amounts[0] = 1;
    amounts[1] = 2;
    amounts[2] = 3;
    let p = AddLiquidityParams { amounts };
    assert_eq!(validate_add(&pool, &p, &liquidity_accounts(3, false)), Ok(false));
    assert_eq!(validate_add(&pool, &p, &liquidity_accounts(3, true)), Ok(true));
    assert_eq!(validate_add(&pool, &p, &liquidity_accounts(3, true)[..5]), Err(OrbitalError::InvalidRemainingAccounts));
    let mut zero = p;
    zero.amounts[1] = 0;
    assert_eq!(validate_add(&pool, &zero, &liquidity_accounts(3, false)), Err(OrbitalError::InvalidLiquidityAmount));
    let mut wrong = liquidity_accounts(3, false);
    wrong[2] = addr(2, 9);
    assert_eq!(validate_add(&pool, &p, &wrong), Err(OrbitalError::InvalidVaultAddress));
    let mut inactive = pool;
    inactive.is_active = false;
    assert_eq!(validate_add(&inactive, &p, &liquidity_accounts(3, false)), Err(OrbitalError::PoolNotActive));
}

#[test]
fn tick_deposits_and_withdrawals() {
    let mut t = tick(TickStatus::Interior, 10, [1, 2, 3]);
    let deposits = [FixedPoint::from_int(10), FixedPoint::from_int(20), FixedPoint::from_int(30)];
    deposit_into_tick(&mut t, &pool_key(), &deposits, FixedPoint::from_int(5)).unwrap();
    assert_eq!(t.reserves[0], FixedPoint::from_int(11));
    assert_eq!(t.reserves[2], FixedPoint::from_int(33));
    assert_eq!(t.liquidity, FixedPoint::from_int(15));
    let mut boundary = tick(TickStatus::Boundary, 10, [1, 2, 3]);
    assert_eq!(
        deposit_into_tick(&mut boundary, &pool_key(), &deposits, FixedPoint::from_int(5)),
        Err(OrbitalError::InvalidTickBound)
    );
    assert_eq!(
        deposit_into_tick(&mut t, &addr(6, 7), &deposits, FixedPoint::from_int(5)),
        Err(OrbitalError::InvalidVaultAddress)
    );
    withdraw_from_tick(&mut t, &addr(9, 1), &addr(9, 1), &pool_key(), &deposits, FixedPoint::from_int(5)).unwrap();
    assert_eq!(t.reserves[0], FixedPoint::from_int(1));
    assert_eq!(t.reserves[2], FixedPoint::from_int(3));
    assert_eq!(t.liquidity, FixedPoint::from_int(10));
    assert_eq!(
        withdraw_from_tick(&mut t, &addr(9, 1), &addr(9, 2), &pool_key(), &deposits, FixedPoint::from_int(5)),
        Err(OrbitalError::InvalidVaultAddress)
    );
    let huge = [FixedPoint::from_raw(i128::MIN)];
    let before = t;
    assert_eq!(
        withdraw_from_tick(&mut t, &addr(9, 1), &addr(9, 1), &pool_key(), &huge, FixedPoint::zero()),
        Err(OrbitalError::MathOverflow)
    );
    assert_eq!(t.reserves, before.reserves);
}

#[test]
fn position_counter_advances() {
    let mut pool = pool3();
    advance_position_count(&mut pool).unwrap();
    assert_eq!(pool.position_count, 1);
    pool.position_count = u64::MAX;
    assert_eq!(advance_position_count(&mut pool), Err(OrbitalError::MathOverflow));
    assert_eq!(pool.position_count, u64::MAX);
}

#[test]
fn remove_liquidity_checks() {
    let pool = pool3();
    let provider = addr(7, 7);
    let full_range = PositionView {
        owner: provider,
        pool: pool_key(),
        tick: Address::zeroed(),
        liquidity: FixedPoint::from_int(100),
    };
    let p = RemoveLiquidityParams { liquidity_raw: 50 * S };
    assert_eq!(
        validate_remove(&pool, &pool_key(), &provider, &full_range, &p, &liquidity_accounts(3, false)),
        Ok(FixedPoint::from_int(50))
    );
    assert_eq!(
        validate_remove(&pool, &pool_key(), &addr(7, 8), &full_range, &p, &liquidity_accounts(3, false)),
        Err(OrbitalError::Unauthorized)
    );
    assert_eq!(
        validate_remove(&pool, &addr(6, 7), &provider, &full_range, &p, &liquidity_accounts(3, false)),
        Err(OrbitalError::PositionNotFound)
    );
    assert_eq!(
        validate_remove(&pool, &pool_key(), &provider, &full_range, &p, &liquidity_accounts(3, true)),
        Err(OrbitalError::InvalidRemainingAccounts)
    );
    let mut ticked = full_range;
    ticked.tick = addr(9, 1);
    assert_eq!(
        validate_remove(&pool, &pool_key(), &provider, &ticked, &p, &liquidity_accounts(3, true)),
        Ok(FixedPoint::from_int(50))
    );
    let zero = RemoveLiquidityParams { liquidity_raw: 0 };
    assert_eq!(
        validate_remove(&pool, &pool_key(), &provider, &full_range, &zero, &liquidity_accounts(3, false)),
        Err(OrbitalError::InvalidLiquidityAmount)
    );
    let too_much = RemoveLiquidityParams { liquidity_raw: 101 * S };
    assert_eq!(
        validate_remove(&pool, &pool_key(), &provider, &full_range, &too_much, &liquidity_accounts(3, false)),
        Err(OrbitalError::InsufficientPositionBalance)
    );
    let mut wrong = liquidity_accounts(3, false);
    wrong[0] = addr(2, 9);
    assert_eq!(
        validate_remove(&pool, &pool_key(), &provider, &full_range, &p, &wrong),
        Err(OrbitalError::InvalidVaultAddress)
    );
}
