//! Settlement context: policy limits on institutional trades and the audit
//! hash that binds a settlement to what it did.
use crate::errors::OrbitalError;
use crate::math::fixed_point::FixedPoint;
use crate::state::address::Address;
use crate::state::policy::PolicyState;
use vstd::prelude::*;

verus! {

/// Length of the daily volume window.
pub const SECONDS_PER_DAY: i64 = 86_400;

// ══════════════════════════════════════════════════════════════
// Policy limits
// ══════════════════════════════════════════════════════════════

/// Result of `check_policy`: the policy after recording a trade of `amount`
/// at time `now`, or the limit that the trade breaks. The daily volume starts
/// over once a full day has passed since the last reset.
pub open spec fn policy_check_result(policy: PolicyState, amount: FixedPoint, now: i64) -> Result<
    PolicyState,
    OrbitalError,
> {
    if amount.raw > policy.max_trade_amount.raw {
        Err(OrbitalError::PolicyLimitExceeded)
    } else {
        let new_day = now - policy.last_reset_timestamp >= SECONDS_PER_DAY;
        let base = if new_day {
            FixedPoint { raw: 0 }
        } else {
            policy.current_daily_volume
        };
        match base.add_result(amount) {
            Err(e) => Err(e),
            Ok(volume) => if volume.raw > policy.max_daily_volume.raw {
                Err(OrbitalError::DailyVolumeLimitExceeded)
            } else {
                Ok(
                    PolicyState {
                        current_daily_volume: volume,
                        last_reset_timestamp: if new_day {
                            now
                        } else {
                            policy.last_reset_timestamp
                        },
                        ..policy
                    },
                )
            },
        }
    }
}

/// The policy `check_policy` leaves behind, whether it admits the trade or
/// not: once the per-trade limit passes, a new day's reset of the daily
/// window is written before the daily limit is checked.
pub open spec fn policy_check_after(policy: PolicyState, amount: FixedPoint, now: i64) -> PolicyState {
    match policy_check_result(policy, amount, now) {
        Ok(p) => p,
        Err(_) => if amount.raw <= policy.max_trade_amount.raw && now - policy.last_reset_timestamp
            >= SECONDS_PER_DAY {
            PolicyState {
                current_daily_volume: FixedPoint { raw: 0 },
                last_reset_timestamp: now,
                ..policy
            }
        } else {
            policy
        },
    }
}

/// Enforce the policy's per-trade and daily limits for a trade of `amount`
/// at time `now`, and record the trade in the daily volume. The policy is
/// written in place: what is left on error is `policy_check_after`.
pub fn check_policy(policy: &mut PolicyState, amount: FixedPoint, now: i64) -> (r: Result<
    (),
    OrbitalError,
>)
    requires
        i64::MIN <= now - old(policy).last_reset_timestamp <= i64::MAX,
    ensures
        *final(policy) == policy_check_after(*old(policy), amount, now),
        match policy_check_result(*old(policy), amount, now) {
            Err(e) => r == Err::<(), OrbitalError>(e),
            Ok(p) => r is Ok && *final(policy) == p,
        },
{
    if amount.raw > policy.max_trade_amount.raw {
        return Err(OrbitalError::PolicyLimitExceeded);
    }
    if now - policy.last_reset_timestamp >= SECONDS_PER_DAY {
        policy.current_daily_volume = FixedPoint::zero();
        policy.last_reset_timestamp = now;
    }
    let volume = match policy.current_daily_volume.checked_add(amount) {
        Err(e) => return Err(e),
        Ok(v) => v,
    };
    if volume.raw > policy.max_daily_volume.raw {
        return Err(OrbitalError::DailyVolumeLimitExceeded);
    }
    policy.current_daily_volume = volume;
    Ok(())
}

/// A trade that the policy admits respects both limits: it is no larger than
/// the per-trade maximum, and the recorded daily volume stays within the
/// daily maximum.
pub proof fn lemma_policy_limits_hold(policy: PolicyState, amount: FixedPoint, now: i64)
    ensures
        policy_check_result(policy, amount, now) matches Ok(p) ==> {
            &&& amount.raw <= p.max_trade_amount.raw
            &&& p.current_daily_volume.raw <= p.max_daily_volume.raw
            &&& p.max_trade_amount == policy.max_trade_amount
            &&& p.max_daily_volume == policy.max_daily_volume
        },
{
}

/// Within one day the daily volume accumulates: a second admitted trade adds
/// its amount to what the first recorded.
pub proof fn lemma_policy_volume_accumulates(
    policy: PolicyState,
    first: FixedPoint,
    second: FixedPoint,
    now: i64,
)
    requires
        now - policy.last_reset_timestamp < SECONDS_PER_DAY,
    ensures
        policy_check_result(policy, first, now) matches Ok(p1) ==> (policy_check_result(
            p1,
            second,
            now,
        ) matches Ok(p2) ==> p2.current_daily_volume.raw == policy.current_daily_volume.raw
            + first.raw + second.raw),
{
}

/// Once a full day has passed since the last reset, the daily window starts
/// over: an admitted trade's amount is the whole recorded volume, and the
/// window restarts now.
pub proof fn lemma_policy_window_resets(policy: PolicyState, amount: FixedPoint, now: i64)
    requires
        now - policy.last_reset_timestamp >= SECONDS_PER_DAY,
    ensures
        policy_check_result(policy, amount, now) matches Ok(p) ==> {
            &&& p.current_daily_volume == amount
            &&& p.last_reset_timestamp == now
        },
{
}

// ══════════════════════════════════════════════════════════════
// Audit hash
// ══════════════════════════════════════════════════════════════

/// The `n` low bytes of `x`, least significant first.
pub open spec fn le_bytes(x: nat, n: nat) -> Seq<u8>
    decreases n,
{
    if n == 0 {
        Seq::empty()
    } else {
        seq![(x % 256) as u8] + le_bytes(x / 256, (n - 1) as nat)
    }
}

/// Two's complement of `x` in `bits` bits, as an unsigned number.
pub open spec fn twos(x: int, bits: nat) -> nat {
    if x >= 0 {
        x as nat
    } else {
        (x + vstd::arithmetic::power2::pow2(bits)) as nat
    }
}

/// The bytes that the action hash of a settlement covers: the settlement,
/// pool, policy and executor accounts, the token indices, the raw amounts in
/// and out and the timestamp, each in little-endian order.
pub open spec fn action_preimage(
    settlement: Address,
    pool: Address,
    policy: Address,
    executor: Address,
    token_in_index: u8,
    token_out_index: u8,
    amount_in: FixedPoint,
    amount_out: FixedPoint,
    timestamp: i64,
) -> Seq<u8> {
    settlement.bytes@ + pool.bytes@ + policy.bytes@ + executor.bytes@ + seq![token_in_index]
        + seq![token_out_index] + le_bytes(twos(amount_in.raw as int, 128), 16) + le_bytes(
        twos(amount_out.raw as int, 128),
        16,
    ) + le_bytes(twos(timestamp as int, 64), 8)
}

/// Name for the SHA-256 digest of a byte string.
pub uninterp spec fn sha256(data: Seq<u8>) -> Seq<u8>;

/// SHA-256 of `data`, by `solana_program::hash::hashv` over the single part
/// `data` (hashv hashes the concatenation of its parts). The contract claims
/// only that the result is the SHA-256 digest of exactly these bytes.
#[verifier::external_body]
fn sha256_hashv(data: &[u8]) -> (r: [u8; 32])
    ensures
        r@ == sha256(data@),
{
    anchor_lang::solana_program::hash::hashv(&[data]).to_bytes()
}

/// Append the `n` low bytes of `v`, least significant first.
fn push_le(buf: &mut Vec<u8>, v: u128, n: usize)
    requires
        n <= 16,
    ensures
        final(buf)@ == old(buf)@ + le_bytes(v as nat, n as nat),
{
    let mut x = v;
    let mut i: usize = 0;
    while i < n
        invariant
            0 <= i <= n,
            old(buf)@ + le_bytes(v as nat, n as nat) == buf@ + le_bytes(x as nat, (n - i) as nat),
        decreases n - i,
    {
        let ghost before = buf@;
        let ghost x0 = x;
        buf.push((x % 256) as u8);
        x = x / 256;
        proof {
            assert(le_bytes(x0 as nat, (n - i) as nat) == seq![(x0 % 256) as u8] + le_bytes(
                x as nat,
                (n - i - 1) as nat,
            ));
            assert(before + le_bytes(x0 as nat, (n - i) as nat) =~= buf@ + le_bytes(
                x as nat,
                (n - i - 1) as nat,
            ));
        }
        i = i + 1;
    }
    proof {
        assert(le_bytes(x as nat, 0) =~= Seq::<u8>::empty());
        assert(buf@ + le_bytes(x as nat, 0) =~= buf@);
    }
}

/// Append the 32 bytes of an address.
fn push_address(buf: &mut Vec<u8>, a: &Address)
    ensures
        final(buf)@ == old(buf)@ + a.bytes@,
{
    let mut i: usize = 0;
    while i < 32
        invariant
            0 <= i <= 32,
            buf@ == old(buf)@ + a.bytes@.take(i as int),
        decreases 32 - i,
    {
        buf.push(a.bytes[i]);
        proof {
            assert(a.bytes@.take(i + 1) =~= a.bytes@.take(i as int).push(a.bytes@[i as int]));
        }
        i = i + 1;
    }
    proof {
        assert(a.bytes@.take(32) =~= a.bytes@);
    }
}

/// Two's complement bit pattern of an i128.
fn i128_bits(x: i128) -> (r: u128)
    ensures
        r == twos(x as int, 128),
{
    proof {
        vstd::arithmetic::power2::lemma2_to64();
        vstd::arithmetic::power2::lemma_pow2_adds(64, 64);
    }
    if x >= 0 {
        x as u128
    } else {
        (((x + 0x7fff_ffff_ffff_ffff_ffff_ffff_ffff_ffffi128) + 1) as u128)
            + 0x8000_0000_0000_0000_0000_0000_0000_0000u128
    }
}

/// Two's complement bit pattern of an i64.
fn i64_bits(x: i64) -> (r: u128)
    ensures
        r == twos(x as int, 64),
{
    proof {
        vstd::arithmetic::power2::lemma2_to64();
    }
    if x >= 0 {
        x as u128
    } else {
        ((x as i128) + 0x1_0000_0000_0000_0000i128) as u128
    }
}

/// The preimage of a settlement's action hash, laid out byte for byte.
pub fn action_preimage_bytes(
    settlement: &Address,
    pool: &Address,
    policy: &Address,
    executor: &Address,
    token_in_index: u8,
    token_out_index: u8,
    amount_in: FixedPoint,
    amount_out: FixedPoint,
    timestamp: i64,
) -> (r: Vec<u8>)
    ensures
        r@ == action_preimage(
            *settlement,
            *pool,
            *policy,
            *executor,
            token_in_index,
            token_out_index,
            amount_in,
            amount_out,
            timestamp,
        ),
{
    let mut buf: Vec<u8> = Vec::new();
    push_address(&mut buf, settlement);
    push_address(&mut buf, pool);
    push_address(&mut buf, policy);
    push_address(&mut buf, executor);
    buf.push(token_in_index);
    buf.push(token_out_index);
    push_le(&mut buf, i128_bits(amount_in.raw), 16);
    push_le(&mut buf, i128_bits(amount_out.raw), 16);
    push_le(&mut buf, i64_bits(timestamp), 8);
    proof {
        assert(buf@ =~= action_preimage(
            *settlement,
            *pool,
            *policy,
            *executor,
            token_in_index,
            token_out_index,
            amount_in,
            amount_out,
            timestamp,
        ));
    }
    buf
}

/// The action hash recorded in a settlement's audit entry: SHA-256 over
/// `action_preimage`.
pub fn compute_action_hash(
    settlement: &Address,
    pool: &Address,
    policy: &Address,
    executor: &Address,
    token_in_index: u8,
    token_out_index: u8,
    amount_in: FixedPoint,
    amount_out: FixedPoint,
    timestamp: i64,
) -> (r: [u8; 32])
    ensures
        r@ == sha256(
            action_preimage(
                *settlement,
                *pool,
                *policy,
                *executor,
                token_in_index,
                token_out_index,
                amount_in,
                amount_out,
                timestamp,
            ),
        ),
{
    let buf = action_preimage_bytes(
        settlement,
        pool,
        policy,
        executor,
        token_in_index,
        token_out_index,
        amount_in,
        amount_out,
        timestamp,
    );
    sha256_hashv(buf.as_slice())
}

} // verus!
