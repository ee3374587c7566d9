//! Pool aggregate: invariant check, cached geometry, seeding and re-fitting the sphere.
use crate::errors::OrbitalError;
use crate::math::fixed_point::FixedPoint;
use crate::math::sphere::{fp_int, Sphere, MAX_ASSETS};
use crate::state::address::{program_address, try_find_program_address, Address};
use crate::state::pool::PoolState;
use vstd::prelude::*;

verus! {

/// The invariant tolerance is r² scaled down by 2^24.
pub const INVARIANT_TOLERANCE_DIVISOR: i128 = 0x100_0000;

/// (Σxᵢ, Σxᵢ²) over `xs`, each step checked, left to right.
pub open spec fn sums_result(xs: Seq<FixedPoint>) -> Result<(FixedPoint, FixedPoint), OrbitalError>
    decreases xs.len(),
{
    if xs.len() == 0 {
        Ok((FixedPoint { raw: 0 }, FixedPoint { raw: 0 }))
    } else {
        match sums_result(xs.drop_last()) {
            Err(e) => Err(e),
            Ok((s, q)) => match s.add_result(xs.last()) {
                Err(e) => Err(e),
                Ok(s2) => match xs.last().mul_result(xs.last()) {
                    Err(e) => Err(e),
                    Ok(sq) => match q.add_result(sq) {
                        Err(e) => Err(e),
                        Ok(q2) => Ok((s2, q2)),
                    },
                },
            },
        }
    }
}

/// Once a prefix of the sums fails, every longer prefix fails the same way.
pub proof fn lemma_sums_err_persists(xs: Seq<FixedPoint>, i: int, j: int)
    requires
        0 <= i <= j <= xs.len(),
        sums_result(xs.take(i)) is Err,
    ensures
        sums_result(xs.take(j)) == sums_result(xs.take(i)),
    decreases j - i,
{
    if j > i {
        lemma_sums_err_persists(xs, i, j - 1);
        assert(xs.take(j).drop_last() =~= xs.take(j - 1));
    }
}

/// Cached torus coordinates of a reserve vector: alpha = Σxᵢ/√n (the projection
/// on the diagonal) and ||w||² = Σxᵢ² - alpha² (the squared orthogonal part).
pub open spec fn caches_result(xs: Seq<FixedPoint>, n: u8) -> Result<
    (FixedPoint, FixedPoint),
    OrbitalError,
> {
    match sums_result(xs) {
        Err(e) => Err(e),
        Ok((s, q)) => match fp_int(n as int).sqrt_result() {
            Err(e) => Err(e),
            Ok(sqrt_n) => match s.div_result(sqrt_n) {
                Err(e) => Err(e),
                Ok(alpha) => match alpha.mul_result(alpha) {
                    Err(e) => Err(e),
                    Ok(alpha_sq) => match q.sub_result(alpha_sq) {
                        Err(e) => Err(e),
                        Ok(w) => Ok((alpha, w)),
                    },
                },
            },
        },
    }
}

/// Result of `verify_invariant`: Σ(r - xᵢ)² must equal r² to within r²/2^24.
pub open spec fn invariant_result(pool: PoolState) -> Result<(), OrbitalError> {
    let r = pool.sphere.radius;
    match r.mul_result(r) {
        Err(e) => Err(e),
        Ok(r_sq) => match pool.sphere.verify_result(
            pool.active_reserves_view(),
            FixedPoint { raw: (r_sq.raw as int / INVARIANT_TOLERANCE_DIVISOR as int) as i128 },
        ) {
            Err(e) => Err(e),
            Ok(true) => Ok(()),
            Ok(false) => Err(OrbitalError::InvariantViolation),
        },
    }
}

/// Radius of the sphere on which n reserves all equal to `deposit` sit at the
/// equal price point: r = deposit·√n / (√n - 1).
pub open spec fn radius_from_deposit_result(deposit: FixedPoint, n: u8) -> Result<
    FixedPoint,
    OrbitalError,
> {
    match fp_int(n as int).sqrt_result() {
        Err(e) => Err(e),
        Ok(sqrt_n) => match deposit.mul_result(sqrt_n) {
            Err(e) => Err(e),
            Ok(num) => match sqrt_n.sub_result(fp_int(1)) {
                Err(e) => Err(e),
                Ok(den) => num.div_result(den),
            },
        },
    }
}

/// Radius of the sphere through a reserve vector: the larger root of
/// Σ(r - xᵢ)² = r², r = (S + √(S² - (n-1)·Q)) / (n-1) with S = Σxᵢ, Q = Σxᵢ².
pub open spec fn refit_radius_result(xs: Seq<FixedPoint>, n: u8) -> Result<
    FixedPoint,
    OrbitalError,
> {
    match sums_result(xs) {
        Err(e) => Err(e),
        Ok((s, q)) => match s.mul_result(s) {
            Err(e) => Err(e),
            Ok(s_sq) => match fp_int(n as int - 1).mul_result(q) {
                Err(e) => Err(e),
                Ok(nq) => match s_sq.sub_result(nq) {
                    Err(e) => Err(e),
                    Ok(disc) => match disc.sqrt_result() {
                        Err(e) => Err(e),
                        Ok(root) => match s.add_result(root) {
                            Err(e) => Err(e),
                            Ok(top) => top.div_result(fp_int(n as int - 1)),
                        },
                    },
                },
            },
        },
    }
}

/// Whether two token mint lists name some mint twice.
pub open spec fn has_duplicate(mints: Seq<Address>) -> bool {
    exists|i: int, j: int| 0 <= i < j < mints.len() && mints[i].bytes@ == mints[j].bytes@
}

/// Result of `initialize_pool_reserves`: (radius, liquidity, alpha, ||w||²) of the seeded pool.
pub open spec fn seed_result(deposit: FixedPoint, n: u8, mints: Seq<Address>) -> Result<
    (FixedPoint, FixedPoint, FixedPoint, FixedPoint),
    OrbitalError,
> {
    if deposit.raw <= 0 {
        Err(OrbitalError::InvalidLiquidityAmount)
    } else if has_duplicate(mints) {
        Err(OrbitalError::DuplicateTokenMint)
    } else {
        match radius_from_deposit_result(deposit, n) {
            Err(e) => Err(e),
            Ok(radius) => match deposit.mul_result(fp_int(n as int)) {
                Err(e) => Err(e),
                Ok(liquidity) => match caches_result(Seq::new(n as nat, |i: int| deposit), n) {
                    Err(e) => Err(e),
                    Ok((alpha, w)) => Ok((radius, liquidity, alpha, w)),
                },
            },
        }
    }
}

/// The pool's settings that seeding does not touch.
pub open spec fn same_settings(a: PoolState, b: PoolState) -> bool {
    &&& a.bump == b.bump
    &&& a.authority == b.authority
    &&& a.n_assets == b.n_assets
    &&& a.vault_bumps == b.vault_bumps
    &&& a.fee_rate_bps == b.fee_rate_bps
    &&& a.total_boundary_liquidity == b.total_boundary_liquidity
    &&& a.tick_count == b.tick_count
    &&& a.is_active == b.is_active
    &&& a.total_volume == b.total_volume
    &&& a.total_fees == b.total_fees
    &&& a.created_at == b.created_at
    &&& a.position_count == b.position_count
    &&& a._reserved == b._reserved
}

/// `new` is `old` seeded with `deposit` per asset: reserves, mints and vaults
/// of the active assets set, the sphere, liquidity and caches as given, and
/// every setting kept.
pub open spec fn is_seeded(
    new: PoolState,
    old: PoolState,
    deposit: FixedPoint,
    mints: Seq<Address>,
    vaults: Seq<Address>,
    radius: FixedPoint,
    liquidity: FixedPoint,
    alpha: FixedPoint,
    w: FixedPoint,
) -> bool {
    let n = old.n_assets as int;
    &&& same_settings(new, old)
    &&& new.sphere == Sphere { radius, n: old.n_assets }
    &&& new.total_interior_liquidity == liquidity
    &&& new.alpha_cache == alpha
    &&& new.w_norm_sq_cache == w
    &&& forall|i: int|
        0 <= i < MAX_ASSETS ==> #[trigger] new.reserves@[i] == if i < n {
            deposit
        } else {
            old.reserves@[i]
        }
    &&& forall|i: int|
        0 <= i < MAX_ASSETS ==> #[trigger] new.token_mints@[i] == if i < n {
            mints[i]
        } else {
            old.token_mints@[i]
        }
    &&& forall|i: int|
        0 <= i < MAX_ASSETS ==> #[trigger] new.token_vaults@[i] == if i < n {
            vaults[i]
        } else {
            old.token_vaults@[i]
        }
}

/// (Σxᵢ, Σxᵢ²) of a reserve slice.
pub fn reserve_sums(xs: &[FixedPoint]) -> (r: Result<(FixedPoint, FixedPoint), OrbitalError>)
    ensures
        r == sums_result(xs@),
{
    let mut s = FixedPoint::zero();
    let mut q = FixedPoint::zero();
    let mut i: usize = 0;
    proof {
        assert(xs@.take(0) =~= Seq::<FixedPoint>::empty());
    }
    while i < xs.len()
        invariant
            0 <= i <= xs.len(),
            sums_result(xs@.take(i as int)) == Ok::<(FixedPoint, FixedPoint), OrbitalError>(
                (s, q),
            ),
        decreases xs.len() - i,
    {
        proof {
            assert(xs@.take(i + 1).drop_last() =~= xs@.take(i as int));
            assert(xs@.take(i + 1).last() == xs@[i as int]);
        }
        let x = xs[i];
        let step = match s.checked_add(x) {
            Err(e) => Err(e),
            Ok(s2) => match x.squared() {
                Err(e) => Err(e),
                Ok(sq) => match q.checked_add(sq) {
                    Err(e) => Err(e),
                    Ok(q2) => Ok((s2, q2)),
                },
            },
        };
        match step {
            Err(e) => {
                proof {
                    assert(sums_result(xs@.take(i + 1)) == Err::<(FixedPoint, FixedPoint), OrbitalError>(e));
                    lemma_sums_err_persists(xs@, i + 1, xs.len() as int);
                    assert(xs@.take(xs.len() as int) =~= xs@);
                }
                return Err(e);
            },
            Ok((s2, q2)) => {
                s = s2;
                q = q2;
            },
        }
        i = i + 1;
    }
    proof {
        assert(xs@.take(xs.len() as int) =~= xs@);
    }
    Ok((s, q))
}

/// Verify the sphere invariant of the pool's active reserves:
/// |Σ(r - xᵢ)² - r²| <= r² / 2^24, else `InvariantViolation`.
pub fn verify_invariant(pool: &PoolState) -> (r: Result<(), OrbitalError>)
    requires
        pool.n_assets as usize <= MAX_ASSETS,
    ensures
        r == invariant_result(*pool),
{
    let r_sq = match pool.sphere.radius_squared() {
        Err(e) => return Err(e),
        Ok(v) => v,
    };
    let epsilon = FixedPoint::from_raw(
        ((r_sq.raw as u128) / (INVARIANT_TOLERANCE_DIVISOR as u128)) as i128,
    );
    match pool.sphere.verify_invariant(pool.active_reserves(), epsilon) {
        Err(e) => Err(e),
        Ok(true) => Ok(()),
        Ok(false) => Err(OrbitalError::InvariantViolation),
    }
}

/// Recompute the cached torus coordinates (alpha, ||w||²) from the active reserves.
/// On error the pool is left as it was.
pub fn update_caches(pool: &mut PoolState) -> (r: Result<(), OrbitalError>)
    requires
        old(pool).n_assets as usize <= MAX_ASSETS,
    ensures
        match caches_result(old(pool).active_reserves_view(), old(pool).n_assets) {
            Err(e) => r == Err::<(), OrbitalError>(e) && *final(pool) == *old(pool),
            Ok((alpha, w)) => r is Ok && *final(pool) == (PoolState {
                alpha_cache: alpha,
                w_norm_sq_cache: w,
                ..*old(pool)
            }),
        },
{
    let (s, q) = match reserve_sums(pool.active_reserves()) {
        Err(e) => return Err(e),
        Ok(v) => v,
    };
    let n_fp = FixedPoint::from_int(pool.n_assets as i64);
    let sqrt_n = match n_fp.sqrt() {
        Err(e) => return Err(e),
        Ok(v) => v,
    };
    let alpha = match s.checked_div(sqrt_n) {
        Err(e) => return Err(e),
        Ok(v) => v,
    };
    let alpha_sq = match alpha.squared() {
        Err(e) => return Err(e),
        Ok(v) => v,
    };
    let w = match q.checked_sub(alpha_sq) {
        Err(e) => return Err(e),
        Ok(v) => v,
    };
    pool.alpha_cache = alpha;
    pool.w_norm_sq_cache = w;
    Ok(())
}

/// Radius that puts n reserves equal to `deposit` at the equal price point.
pub fn compute_radius_from_deposit(deposit: FixedPoint, n: u8) -> (r: Result<
    FixedPoint,
    OrbitalError,
>)
    ensures
        r == radius_from_deposit_result(deposit, n),
{
    let n_fp = FixedPoint::from_int(n as i64);
    let sqrt_n = match n_fp.sqrt() {
        Err(e) => return Err(e),
        Ok(v) => v,
    };
    let num = match deposit.checked_mul(sqrt_n) {
        Err(e) => return Err(e),
        Ok(v) => v,
    };
    let den = match sqrt_n.checked_sub(FixedPoint::one()) {
        Err(e) => return Err(e),
        Ok(v) => v,
    };
    num.checked_div(den)
}

/// Re-fit the sphere radius to the current active reserves, so that the
/// invariant holds again after reserves moved outside a swap.
/// On error the pool is left as it was.
pub fn recompute_sphere(pool: &mut PoolState) -> (r: Result<(), OrbitalError>)
    requires
        old(pool).n_assets as usize <= MAX_ASSETS,
    ensures
        match refit_radius_result(old(pool).active_reserves_view(), old(pool).n_assets) {
            Err(e) => r == Err::<(), OrbitalError>(e) && *final(pool) == *old(pool),
            Ok(radius) => r is Ok && *final(pool) == (PoolState {
                sphere: Sphere { radius, n: old(pool).sphere.n },
                ..*old(pool)
            }),
        },
{
    let (s, q) = match reserve_sums(pool.active_reserves()) {
        Err(e) => return Err(e),
        Ok(v) => v,
    };
    let n_minus_one = FixedPoint::from_int((pool.n_assets as i64) - 1);
    let s_sq = match s.squared() {
        Err(e) => return Err(e),
        Ok(v) => v,
    };
    let nq = match n_minus_one.checked_mul(q) {
        Err(e) => return Err(e),
        Ok(v) => v,
    };
    let disc = match s_sq.checked_sub(nq) {
        Err(e) => return Err(e),
        Ok(v) => v,
    };
    let root = match disc.sqrt() {
        Err(e) => return Err(e),
        Ok(v) => v,
    };
    let top = match s.checked_add(root) {
        Err(e) => return Err(e),
        Ok(v) => v,
    };
    let radius = match top.checked_div(n_minus_one) {
        Err(e) => return Err(e),
        Ok(v) => v,
    };
    pool.sphere.radius = radius;
    Ok(())
}

/// The seeds of a vault's program address: "vault", the pool, the mint.
pub open spec fn vault_seeds(pool: Address, mint: Address) -> Seq<Seq<u8>> {
    seq![seq![118u8, 97u8, 117u8, 108u8, 116u8], pool.bytes@, mint.bytes@]
}

/// Program address (and bump) of the vault that holds `mint` for `pool`;
/// `InvalidVaultAddress` when no address can be derived.
pub fn derive_vault_pda(pool: &Address, mint: &Address, program_id: &Address) -> (r: Result<
    (Address, u8),
    OrbitalError,
>)
    ensures
        match program_address(vault_seeds(*pool, *mint), program_id.bytes@) {
            None => r == Err::<(Address, u8), OrbitalError>(OrbitalError::InvalidVaultAddress),
            Some((key, bump)) => r matches Ok((a, b)) && a.bytes@ == key && b == bump,
        },
{
    let seed: [u8; 5] = [118, 97, 117, 108, 116];
    proof {
        assert(seed@ =~= seq![118u8, 97u8, 117u8, 108u8, 116u8]);
    }
    match try_find_program_address(seed.as_slice(), pool.bytes.as_slice(), mint.bytes.as_slice(), program_id) {
        None => Err(OrbitalError::InvalidVaultAddress),
        Some(found) => Ok(found),
    }
}

/// The vault addresses of a new pool, one per mint, in order.
pub fn vault_addresses(pool: &Address, mints: &[Address], program_id: &Address) -> (r: Result<
    Vec<Address>,
    OrbitalError,
>)
    ensures
        match r {
            Ok(v) => v.len() == mints.len() && forall|i: int|
                0 <= i < mints.len() ==> (#[trigger] program_address(
                    vault_seeds(*pool, mints@[i]),
                    program_id.bytes@,
                ) matches Some((key, _)) && v@[i].bytes@ == key),
            Err(e) => e == OrbitalError::InvalidVaultAddress && exists|i: int|
                0 <= i < mints.len() && #[trigger] program_address(
                    vault_seeds(*pool, mints@[i]),
                    program_id.bytes@,
                ) is None,
        },
{
    let mut vaults: Vec<Address> = Vec::new();
    let mut i: usize = 0;
    while i < mints.len()
        invariant
            0 <= i <= mints.len(),
            vaults.len() == i,
            forall|j: int|
                0 <= j < i ==> (#[trigger] program_address(
                    vault_seeds(*pool, mints@[j]),
                    program_id.bytes@,
                ) matches Some((key, _)) && vaults@[j].bytes@ == key),
        decreases mints.len() - i,
    {
        match derive_vault_pda(pool, &mints[i], program_id) {
            Err(e) => {
                assert(program_address(vault_seeds(*pool, mints@[i as int]), program_id.bytes@) is None);
                return Err(e);
            },
            Ok((vault, _bump)) => {
                vaults.push(vault);
            },
        }
        i = i + 1;
    }
    Ok(vaults)
}

/// Whether some mint occurs twice in `mints`.
fn find_duplicate(mints: &[Address]) -> (r: bool)
    ensures
        r == has_duplicate(mints@),
{
    let mut i: usize = 0;
    while i < mints.len()
        invariant
            0 <= i <= mints.len(),
            forall|a: int, b: int|
                0 <= a < i && a < b < mints@.len() ==> mints@[a].bytes@ != mints@[b].bytes@,
        decreases mints.len() - i,
    {
        let mut j: usize = i + 1;
        while j < mints.len()
            invariant
                0 <= i < j <= mints.len(),
                forall|a: int, b: int|
                    0 <= a < i && a < b < mints@.len() ==> mints@[a].bytes@ != mints@[b].bytes@,
                forall|b: int| i < b < j ==> mints@[i as int].bytes@ != mints@[b].bytes@,
            decreases mints.len() - j,
        {
            if mints[i].same_as(&mints[j]) {
                return true;
            }
            j = j + 1;
        }
        i = i + 1;
    }
    false
}

/// Seed a freshly created pool: every active reserve starts at `deposit`,
/// the sphere is sized so that this is its equal price point, the seed counts
/// as `deposit * n` interior liquidity, and the caches are filled in.
/// Mints and vaults are recorded per asset. On error the pool is left as it was.
pub fn initialize_pool_reserves(
    pool: &mut PoolState,
    deposit: FixedPoint,
    mints: &[Address],
    vaults: &[Address],
) -> (r: Result<(), OrbitalError>)
    requires
        old(pool).n_assets as usize <= MAX_ASSETS,
        mints.len() == old(pool).n_assets,
        vaults.len() == old(pool).n_assets,
    ensures
        match seed_result(deposit, old(pool).n_assets, mints@) {
            Err(e) => r == Err::<(), OrbitalError>(e) && *final(pool) == *old(pool),
            Ok((radius, liquidity, alpha, w)) => r is Ok && is_seeded(
                *final(pool),
                *old(pool),
                deposit,
                mints@,
                vaults@,
                radius,
                liquidity,
                alpha,
                w,
            ),
        },
{
    let n = pool.n_assets;
    if !deposit.is_positive() {
        return Err(OrbitalError::InvalidLiquidityAmount);
    }
    if find_duplicate(mints) {
        return Err(OrbitalError::DuplicateTokenMint);
    }
    let radius = match compute_radius_from_deposit(deposit, n) {
        Err(e) => return Err(e),
        Ok(v) => v,
    };
    let liquidity = match deposit.checked_mul(FixedPoint::from_int(n as i64)) {
        Err(e) => return Err(e),
        Ok(v) => v,
    };
    let mut next = *pool;
    let mut i: usize = 0;
    while i < n as usize
        invariant
            0 <= i <= n,
            n == old(pool).n_assets,
            n as usize <= MAX_ASSETS,
            mints.len() == n,
            vaults.len() == n,
            same_settings(next, *old(pool)),
            next.sphere == old(pool).sphere,
            next.total_interior_liquidity == old(pool).total_interior_liquidity,
            next.alpha_cache == old(pool).alpha_cache,
            next.w_norm_sq_cache == old(pool).w_norm_sq_cache,
            forall|j: int|
                0 <= j < MAX_ASSETS ==> #[trigger] next.reserves@[j] == if j < i {
                    deposit
                } else {
                    old(pool).reserves@[j]
                },
            forall|j: int|
                0 <= j < MAX_ASSETS ==> #[trigger] next.token_mints@[j] == if j < i {
                    mints@[j]
                } else {
                    old(pool).token_mints@[j]
                },
            forall|j: int|
                0 <= j < MAX_ASSETS ==> #[trigger] next.token_vaults@[j] == if j < i {
                    vaults@[j]
                } else {
                    old(pool).token_vaults@[j]
                },
        decreases n - i,
    {
        next.reserves[i] = deposit;
        next.token_mints[i] = mints[i];
        next.token_vaults[i] = vaults[i];
        i = i + 1;
    }
    next.sphere = Sphere { radius, n };
    next.total_interior_liquidity = liquidity;
    proof {
        assert(next.active_reserves_view() =~= Seq::new(n as nat, |k: int| deposit));
    }
    match update_caches(&mut next) {
        Err(e) => return Err(e),
        Ok(()) => {},
    }
    *pool = next;
    Ok(())
}

} // verus!
