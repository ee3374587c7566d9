//! Rounding laws of the pool: how far the Q64.64 rounding of seeding and
//! re-fitting the sphere can move the invariant, and that it stays inside the
//! tolerance of the invariant check.
use crate::domain::amm::pool::{
    caches_result, invariant_result, is_seeded, refit_radius_result, seed_result, sums_result,
    INVARIANT_TOLERANCE_DIVISOR,
};
use crate::errors::OrbitalError;
use crate::math::fixed_point::{fits_i128, mul_floor, trunc_div, FixedPoint, SCALE};
use crate::math::sphere::{fp_int, sum_sq_dist, Sphere, MAX_ASSETS};
use crate::math::wide::{int_abs, is_floor_sqrt, isqrt, lemma_isqrt_floor};
use crate::state::address::Address;
use crate::state::pool::PoolState;
use vstd::arithmetic::div_mod::{
    lemma_div_multiples_vanish, lemma_div_pos_is_pos, lemma_fundamental_div_mod, lemma_mod_pos_bound,
};
use vstd::prelude::*;

verus! {

/// `a / m` brackets `a` from below within one step of `m`.
proof fn lemma_floor_div(a: int, m: int)
    requires
        a >= 0,
        m > 0,
    ensures
        a / m >= 0,
        m * (a / m) <= a < m * (a / m) + m,
{
    lemma_fundamental_div_mod(a, m);
    lemma_mod_pos_bound(a, m);
    lemma_div_pos_is_pos(a, m);
}

/// `a·2^24 <= b` bounds `a` by the floored tolerance `b / 2^24`.
proof fn lemma_within_tolerance(a: int, b: int)
    requires
        0 <= a,
        0 <= b,
        a * (INVARIANT_TOLERANCE_DIVISOR as int) <= b,
    ensures
        a <= b / (INVARIANT_TOLERANCE_DIVISOR as int),
{
    let tol: int = INVARIANT_TOLERANCE_DIVISOR as int;
    lemma_floor_div(b, tol);
    assert(a <= b / tol) by (nonlinear_arith)
        requires
            a * tol <= b,
            tol * (b / tol) <= b < tol * (b / tol) + tol,
            tol > 0,
    {
        if a > b / tol {
            assert(a * tol >= (b / tol + 1) * tol);
        }
    }
}

/// Rounding analysis of seeding, on raw values. With t = ⌊√n·2^64⌋, the radius
/// r = ⌊⌊x·t/2^64⌋·2^64 / (t - 2^64)⌋ lies past the deposit x, and the n equal
/// squared distances ⌊(r - x)²/2^64⌋ add up to ⌊r²/2^64⌋ to within 2^-24 of it.
proof fn lemma_seed_rounding(x: int, n: int, t: int, num: int, r: int)
    requires
        2 <= n <= 8,
        0x4_0000_0000_0000 <= x <= 0x1000_0000_0000_0000_0000_0000,
        is_floor_sqrt(n * (SCALE as int) * (SCALE as int), t),
        num == (x * t) / (SCALE as int),
        r == (num * (SCALE as int)) / (t - SCALE as int),
    ensures
        SCALE < t < 3 * SCALE,
        num >= 0,
        0 < r - x,
        r <= 4 * x,
        int_abs(n * (((r - x) * (r - x)) / (SCALE as int)) - (r * r) / (SCALE as int)) * (
        INVARIANT_TOLERANCE_DIVISOR as int) <= (r * r) / (SCALE as int),
{
    let s: int = SCALE as int;
    assert(s == 0x1_0000_0000_0000_0000);
    let ss: int = s * s;
    assert(ss == 0x1_0000_0000_0000_0000_0000_0000_0000_0000) by (nonlinear_arith)
        requires
            s == 0x1_0000_0000_0000_0000,
            ss == s * s,
    ;
    assert(n * s * s == n * ss) by (nonlinear_arith)
        requires
            ss == s * s,
    ;
    // t lies in [4s/3, 3s).
    assert(t < 3 * s) by (nonlinear_arith)
        requires
            t * t <= n * ss,
            n <= 8,
            ss == 0x1_0000_0000_0000_0000_0000_0000_0000_0000,
            s == 0x1_0000_0000_0000_0000,
            t >= 0,
    {
        if t >= 3 * s {
            assert(t * t >= (3 * s) * (3 * s));
        }
    }
    assert(4 * s <= 3 * t) by (nonlinear_arith)
        requires
            n * ss < (t + 1) * (t + 1),
            2 <= n,
            ss == 0x1_0000_0000_0000_0000_0000_0000_0000_0000,
            s == 0x1_0000_0000_0000_0000,
            t >= 0,
    {
        if 3 * t < 4 * s {
            assert((3 * t + 3) * (3 * t + 3) <= (4 * s + 2) * (4 * s + 2));
        }
    }
    let den: int = t - s;
    assert(den > 0);
    // The two divisions.
    let xt: int = x * t;
    assert(xt > 0) by (nonlinear_arith)
        requires
            xt == x * t,
            x > 0,
            t > 0,
    ;
    lemma_floor_div(xt, s);
    assert(num == xt / s);
    let ns: int = num * s;
    assert(ns == s * num) by (nonlinear_arith)
        requires
            ns == num * s,
    ;
    lemma_floor_div(ns, den);
    assert(r == ns / den);
    assert(r >= 0);
    let dr: int = den * r;
    let delta: int = xt - dr;
    assert(0 <= delta < t);
    // Distance to the radius: d·(t - s) = x·s - δ and r·s = d·t + δ.
    let d: int = r - x;
    assert(d * den == x * s - delta) by (nonlinear_arith)
        requires
            d == r - x,
            den == t - s,
            delta == xt - dr,
            dr == den * r,
            xt == x * t,
    ;
    assert(r * s == d * t + delta) by (nonlinear_arith)
        requires
            d == r - x,
            den == t - s,
            delta == xt - dr,
            dr == den * r,
            xt == x * t,
    ;
    assert(d >= 0x1_0000_0000_0000) by (nonlinear_arith)
        requires
            d * den == x * s - delta,
            delta < t,
            t < 3 * s,
            den == t - s,
            den > 0,
            x >= 0x4_0000_0000_0000,
            s == 0x1_0000_0000_0000_0000,
    {
        assert(d * den > (x - 3) * s);
        if d < 0x1_0000_0000_0000 {
            if d <= 0 {
                assert(d * den <= 0);
            } else {
                assert(d * den < 0x1_0000_0000_0000 * (2 * s));
            }
        }
    }
    assert(r <= 4 * x) by (nonlinear_arith)
        requires
            dr == den * r,
            dr <= xt,
            xt == x * t,
            4 * den >= t,
            t > 0,
            r >= 0,
    {
        assert(t * r <= 4 * dr);
        if r > 4 * x {
            assert(t * r > t * (4 * x));
        }
    }
    // The exact gap: n·d²·s² - r²·s² = d²·γ - 2·d·t·δ - δ², γ = n·s² - t² ∈ [0, 2t].
    let gamma: int = n * ss - t * t;
    assert(0 <= gamma <= 2 * t) by (nonlinear_arith)
        requires
            gamma == n * ss - t * t,
            t * t <= n * ss,
            n * ss < (t + 1) * (t + 1),
    ;
    let dd: int = d * d;
    let rr: int = r * r;
    let big_r: int = r * s;
    assert(rr * ss == big_r * big_r) by (nonlinear_arith)
        requires
            big_r == r * s,
            ss == s * s,
            rr == r * r,
    ;
    assert(big_r * big_r == dd * (t * t) + 2 * d * t * delta + delta * delta) by (nonlinear_arith)
        requires
            big_r == d * t + delta,
            dd == d * d,
    ;
    assert(n * dd * ss == dd * gamma + dd * (t * t)) by (nonlinear_arith)
        requires
            gamma == n * ss - t * t,
    ;
    assert(n * dd * ss - rr * ss == dd * gamma - 2 * d * t * delta - delta * delta);
    let gap: int = n * dd - rr;
    assert(gap * ss == n * dd * ss - rr * ss) by (nonlinear_arith)
        requires
            gap == n * dd - rr,
    ;
    assert(gap * s <= 6 * dd) by (nonlinear_arith)
        requires
            gap * ss == dd * gamma - 2 * d * t * delta - delta * delta,
            gamma <= 2 * t,
            t < 3 * s,
            d > 0,
            t > 0,
            delta >= 0,
            dd == d * d,
            ss == s * s,
            s > 0,
    {
        assert(dd * gamma <= dd * (2 * t));
        assert(d * t * delta >= 0);
        assert(gap * ss <= dd * (6 * s));
    }
    assert(-gap <= 18 * d + 9) by (nonlinear_arith)
        requires
            gap * ss == dd * gamma - 2 * d * t * delta - delta * delta,
            gamma >= 0,
            t < 3 * s,
            d > 0,
            t > 0,
            0 <= delta < t,
            dd == d * d,
            ss == s * s,
            s > 0,
    {
        assert(dd * gamma >= 0);
        assert(d * t * delta <= d * t * t);
        assert(delta * delta <= t * t);
        assert(t * t <= 9 * ss);
        assert(d * t * t <= d * (9 * ss));
        assert(-gap * ss <= (18 * d + 9) * ss);
    }
    // The floors of the two squares.
    assert(dd >= 0 && rr >= 0) by (nonlinear_arith)
        requires
            dd == d * d,
            rr == r * r,
    ;
    lemma_floor_div(dd, s);
    lemma_floor_div(rr, s);
    let sq: int = dd / s;
    let rsq: int = rr / s;
    assert(rr > dd) by (nonlinear_arith)
        requires
            dd == d * d,
            rr == r * r,
            r > d,
            d > 0,
    ;
    let k: int = n * sq - rsq;
    assert(k * s == n * (s * sq) - s * rsq) by (nonlinear_arith)
        requires
            k == n * sq - rsq,
    ;
    assert(n * (s * sq) <= n * dd && n * dd < n * (s * sq) + n * s) by (nonlinear_arith)
        requires
            s * sq <= dd,
            dd < s * sq + s,
            n > 0,
    ;
    assert(k * s < gap + s);
    assert(k * s > gap - n * s);
    let tol: int = INVARIANT_TOLERANCE_DIVISOR as int;
    assert(tol == 0x100_0000);
    if k >= 0 {
        assert(k * tol <= rsq) by (nonlinear_arith)
            requires
                k * s < gap + s,
                gap * s <= 6 * dd,
                s * rsq > rr - s,
                rr > dd,
                dd == d * d,
                d >= 0x1_0000_0000_0000,
                tol == 0x100_0000,
                s == 0x1_0000_0000_0000_0000,
                k >= 0,
        {
            if k * tol > rsq {
                assert(k * s * s < (gap + s) * s);
                assert(k * s * s < 6 * dd + s * s);
                assert((rsq + 1) * s > dd);
                assert(k * tol * s * s >= (rsq + 1) * s * s);
                assert(dd * s < tol * (6 * dd + s * s));
                assert(dd >= 0x1_0000_0000_0000_0000_0000_0000);
            }
        }
    } else {
        assert((-k) * tol <= rsq) by (nonlinear_arith)
            requires
                k * s > gap - n * s,
                -gap <= 18 * d + 9,
                n <= 8,
                s * rsq > rr - s,
                rr > dd,
                dd == d * d,
                d >= 0x1_0000_0000_0000,
                tol == 0x100_0000,
                s == 0x1_0000_0000_0000_0000,
                k < 0,
        {
            if (-k) * tol > rsq {
                assert((-k) * s < 18 * d + 9 + 8 * s);
                assert((rsq + 1) * s > dd);
                assert((-k) * tol * s >= (rsq + 1) * s);
                assert(dd < tol * (18 * d + 9 + 8 * s));
                assert(dd >= 0x1_0000_0000_0000 * d);
            }
        }
    }
}

/// The sum of squared distances over copies of one reserve is their count times its square.
proof fn lemma_sum_sq_dist_constant(radius: FixedPoint, x: FixedPoint, xs: Seq<FixedPoint>)
    requires
        forall|i: int| 0 <= i < xs.len() ==> xs[i] == x,
        fits_i128(radius.raw - x.raw),
        xs.len() * mul_floor(radius.raw - x.raw, radius.raw - x.raw) <= i128::MAX,
    ensures
        sum_sq_dist(radius, xs) == Ok::<FixedPoint, OrbitalError>(
            FixedPoint { raw: (xs.len() * mul_floor(radius.raw - x.raw, radius.raw - x.raw)) as i128 },
        ),
    decreases xs.len(),
{
    let d: int = radius.raw - x.raw;
    let sq = mul_floor(d, d);
    let k: int = xs.len() as int;
    assert(sq >= 0) by {
        assert(d * d >= 0) by (nonlinear_arith);
        lemma_div_pos_is_pos(d * d, SCALE as int);
    }
    if k > 0 {
        assert((k - 1) * sq <= k * sq && sq <= k * sq && (k - 1) * sq + sq == k * sq)
            by (nonlinear_arith)
            requires
                sq >= 0,
                k >= 1,
        ;
        lemma_sum_sq_dist_constant(radius, x, xs.drop_last());
        let acc = FixedPoint { raw: ((k - 1) * sq) as i128 };
        let dfp = FixedPoint { raw: d as i128 };
        assert(radius.sub_result(xs.last()) == Ok::<FixedPoint, OrbitalError>(dfp));
        assert(dfp.mul_result(dfp) == Ok::<FixedPoint, OrbitalError>(FixedPoint { raw: sq as i128 }));
        assert(acc.add_result(FixedPoint { raw: sq as i128 }) == Ok::<FixedPoint, OrbitalError>(
            FixedPoint { raw: (k * sq) as i128 },
        ));
    }
}

/// A seeded pool passes its own invariant check. Seeding puts every active
/// reserve at the equal price point of the sphere it sizes; for a deposit of
/// 2^-14 to 2^28 per asset the rounding of the square root, the products and
/// the division stays inside the check's tolerance of r²/2^24.
pub proof fn lemma_seeded_pool_passes_invariant(
    new: PoolState,
    old: PoolState,
    deposit: FixedPoint,
    mints: Seq<Address>,
    vaults: Seq<Address>,
    radius: FixedPoint,
    liquidity: FixedPoint,
    alpha: FixedPoint,
    w: FixedPoint,
)
    requires
        2 <= old.n_assets <= MAX_ASSETS,
        0x4_0000_0000_0000 <= deposit.raw <= 0x1000_0000_0000_0000_0000_0000,
        seed_result(deposit, old.n_assets, mints) == Ok::<
            (FixedPoint, FixedPoint, FixedPoint, FixedPoint),
            OrbitalError,
        >((radius, liquidity, alpha, w)),
        is_seeded(new, old, deposit, mints, vaults, radius, liquidity, alpha, w),
    ensures
        invariant_result(new) == Ok::<(), OrbitalError>(()),
{
    let n: int = old.n_assets as int;
    let s: int = SCALE as int;
    let x: int = deposit.raw as int;
    // √n, as the seeding computed it.
    let n_raw: int = n * s;
    assert(fp_int(n).raw == n_raw);
    let m: int = n_raw * s;
    assert(m >= 0) by (nonlinear_arith)
        requires
            m == n_raw * s,
            n_raw == n * s,
            n >= 0,
            s > 0,
    ;
    lemma_isqrt_floor(m);
    let t: int = isqrt(m);
    assert(fp_int(n).sqrt_result() == Ok::<FixedPoint, OrbitalError>(FixedPoint { raw: t as i128 }));
    assert(is_floor_sqrt(n * s * s, t));
    let num: int = (x * t) / s;
    let r: int = (num * s) / (t - s);
    lemma_seed_rounding(x, n, t, num, r);
    // The radius seeding produced is r.
    let sqrt_n = FixedPoint { raw: t as i128 };
    assert(sqrt_n.raw == t);
    assert(deposit.mul_result(sqrt_n) == Ok::<FixedPoint, OrbitalError>(FixedPoint { raw: num as i128 })) by {
        assert(num <= x * 3) by (nonlinear_arith)
            requires
                num == (x * t) / s,
                t < 3 * s,
                x > 0,
                s > 0,
        {
            assert(x * t < (3 * x) * s);
            vstd::arithmetic::div_mod::lemma_div_is_ordered(x * t, (3 * x) * s, s);
            vstd::arithmetic::div_mod::lemma_div_multiples_vanish(3 * x, s);
        }
    }
    assert(sqrt_n.sub_result(fp_int(1)) == Ok::<FixedPoint, OrbitalError>(FixedPoint { raw: (t - s) as i128 }));
    let num_fp = FixedPoint { raw: num as i128 };
    let den_fp = FixedPoint { raw: (t - s) as i128 };
    assert(num_fp.raw == num && den_fp.raw == t - s);
    assert(num * s >= 0) by (nonlinear_arith)
        requires
            num >= 0,
            s > 0,
    ;
    assert(num_fp.div_result(den_fp) == Ok::<FixedPoint, OrbitalError>(FixedPoint { raw: r as i128 }));
    assert(radius.raw == r);
    // The invariant check of the seeded pool, term by term.
    let d: int = r - x;
    let sq: int = mul_floor(d, d);
    let rsq: int = mul_floor(r, r);
    let tol: int = INVARIANT_TOLERANCE_DIVISOR as int;
    assert(rsq <= 0x1000_0000_0000_0000_0000_0000_0000_0000) by (nonlinear_arith)
        requires
            rsq == (r * r) / s,
            0 <= r <= 4 * x,
            x <= 0x1000_0000_0000_0000_0000_0000,
            s == 0x1_0000_0000_0000_0000,
    {
        assert(r * r <= 0x4000_0000_0000_0000_0000_0000 * 0x4000_0000_0000_0000_0000_0000);
        vstd::arithmetic::div_mod::lemma_div_is_ordered(
            r * r,
            0x4000_0000_0000_0000_0000_0000int * 0x4000_0000_0000_0000_0000_0000int,
            s,
        );
    }
    assert(rsq >= 0) by {
        assert(r * r >= 0) by (nonlinear_arith);
        lemma_div_pos_is_pos(r * r, s);
    }
    assert(int_abs(n * sq - rsq) * tol <= rsq);
    lemma_within_tolerance(int_abs(n * sq - rsq), rsq);
    assert(n * sq <= i128::MAX);
    // The active reserves are n copies of the deposit.
    let view = new.active_reserves_view();
    assert(view.len() == n);
    assert(forall|i: int| 0 <= i < view.len() ==> view[i] == deposit);
    assert(new.sphere.active(view) =~= view);
    lemma_sum_sq_dist_constant(radius, deposit, view);
    assert(radius.mul_result(radius) == Ok::<FixedPoint, OrbitalError>(FixedPoint { raw: rsq as i128 }));
}


/// Σ xᵢ over raw values.
pub open spec fn raw_sum(xs: Seq<FixedPoint>) -> int
    decreases xs.len(),
{
    if xs.len() == 0 {
        0
    } else {
        raw_sum(xs.drop_last()) + xs.last().raw
    }
}

/// Σ xᵢ² over raw values, exactly.
pub open spec fn raw_sq_sum(xs: Seq<FixedPoint>) -> int
    decreases xs.len(),
{
    if xs.len() == 0 {
        0
    } else {
        raw_sq_sum(xs.drop_last()) + xs.last().raw * xs.last().raw
    }
}

/// Σ ⌊xᵢ²/2^64⌋: the raw sum of the Q64.64 squares.
pub open spec fn floor_sq_sum(xs: Seq<FixedPoint>) -> int
    decreases xs.len(),
{
    if xs.len() == 0 {
        0
    } else {
        floor_sq_sum(xs.drop_last()) + mul_floor(xs.last().raw as int, xs.last().raw as int)
    }
}

/// Σ (r - xᵢ)² over raw values, exactly.
pub open spec fn dist_sq_sum(r: int, xs: Seq<FixedPoint>) -> int
    decreases xs.len(),
{
    if xs.len() == 0 {
        0
    } else {
        dist_sq_sum(r, xs.drop_last()) + (r - xs.last().raw) * (r - xs.last().raw)
    }
}

/// Σ ⌊(r - xᵢ)²/2^64⌋: the raw sum of the Q64.64 squared distances.
spec fn floor_dist_sq_sum(r: int, xs: Seq<FixedPoint>) -> int
    decreases xs.len(),
{
    if xs.len() == 0 {
        0
    } else {
        floor_dist_sq_sum(r, xs.drop_last()) + mul_floor(
            r - xs.last().raw,
            r - xs.last().raw,
        )
    }
}

/// A successful (Σxᵢ, Σxᵢ²) is the exact sum and the sum of the floored squares.
proof fn lemma_sums_exact(xs: Seq<FixedPoint>)
    ensures
        sums_result(xs) matches Ok((s, q)) ==> s.raw == raw_sum(xs) && q.raw == floor_sq_sum(xs),
    decreases xs.len(),
{
    if xs.len() > 0 {
        lemma_sums_exact(xs.drop_last());
    }
}

/// Flooring each square loses less than one unit of 2^64 per term.
pub proof fn lemma_floor_sq_sum_bounds(xs: Seq<FixedPoint>)
    ensures
        floor_sq_sum(xs) >= 0,
        0 <= raw_sq_sum(xs) - (SCALE as int) * floor_sq_sum(xs) <= xs.len() * (SCALE as int),
    decreases xs.len(),
{
    if xs.len() > 0 {
        lemma_floor_sq_sum_bounds(xs.drop_last());
        let x: int = xs.last().raw as int;
        assert(x * x >= 0) by (nonlinear_arith);
        lemma_floor_div(x * x, SCALE as int);
        assert((SCALE as int) * floor_sq_sum(xs) == (SCALE as int) * floor_sq_sum(xs.drop_last())
            + (SCALE as int) * mul_floor(x, x)) by (nonlinear_arith)
            requires
                floor_sq_sum(xs) == floor_sq_sum(xs.drop_last()) + mul_floor(x, x),
        ;
        assert(xs.len() * (SCALE as int) == (xs.len() - 1) * (SCALE as int) + (SCALE as int))
            by (nonlinear_arith);
    }
}

/// Σ(r - xᵢ)² = n·r² - 2·r·Σxᵢ + Σxᵢ².
proof fn lemma_dist_sq_sum_expand(r: int, xs: Seq<FixedPoint>)
    ensures
        dist_sq_sum(r, xs) == xs.len() * (r * r) - 2 * r * raw_sum(xs) + raw_sq_sum(xs),
        dist_sq_sum(r, xs) >= 0,
        forall|i: int|
            0 <= i < xs.len() ==> (r - xs[i].raw) * (r - xs[i].raw) <= dist_sq_sum(r, xs),
    decreases xs.len(),
{
    if xs.len() > 0 {
        let init = xs.drop_last();
        lemma_dist_sq_sum_expand(r, init);
        let x: int = xs.last().raw as int;
        assert((r - x) * (r - x) == r * r - 2 * r * x + x * x) by (nonlinear_arith);
        assert(xs.len() * (r * r) == init.len() * (r * r) + r * r) by (nonlinear_arith)
            requires
                xs.len() == init.len() + 1,
        ;
        assert(2 * r * raw_sum(xs) == 2 * r * raw_sum(init) + 2 * r * x) by (nonlinear_arith)
            requires
                raw_sum(xs) == raw_sum(init) + x,
        ;
        assert((r - x) * (r - x) >= 0) by (nonlinear_arith);
        assert forall|i: int| 0 <= i < xs.len() implies (r - xs[i].raw) * (r - xs[i].raw)
            <= dist_sq_sum(r, xs) by {
            if i < init.len() {
                assert(init[i] == xs[i]);
            }
        }
    }
}

/// Flooring each squared distance loses less than one unit of 2^64 per term.
proof fn lemma_floor_dist_sq_sum_bounds(r: int, xs: Seq<FixedPoint>)
    ensures
        floor_dist_sq_sum(r, xs) >= 0,
        0 <= dist_sq_sum(r, xs) - (SCALE as int) * floor_dist_sq_sum(r, xs) <= xs.len() * (
        SCALE as int),
    decreases xs.len(),
{
    if xs.len() > 0 {
        lemma_floor_dist_sq_sum_bounds(r, xs.drop_last());
        let d: int = r - xs.last().raw;
        assert(d * d >= 0) by (nonlinear_arith);
        lemma_floor_div(d * d, SCALE as int);
        assert((SCALE as int) * floor_dist_sq_sum(r, xs) == (SCALE as int) * floor_dist_sq_sum(
            r,
            xs.drop_last(),
        ) + (SCALE as int) * mul_floor(d, d)) by (nonlinear_arith)
            requires
                floor_dist_sq_sum(r, xs) == floor_dist_sq_sum(r, xs.drop_last()) + mul_floor(d, d),
        ;
        assert(xs.len() * (SCALE as int) == (xs.len() - 1) * (SCALE as int) + (SCALE as int))
            by (nonlinear_arith);
    }
}

/// When every difference and the total fit, the checked sum of squared
/// distances is the sum of the floored squares.
proof fn lemma_sum_sq_dist_exact(radius: FixedPoint, xs: Seq<FixedPoint>)
    requires
        forall|i: int| 0 <= i < xs.len() ==> fits_i128(radius.raw - xs[i].raw),
        floor_dist_sq_sum(radius.raw as int, xs) <= i128::MAX,
    ensures
        sum_sq_dist(radius, xs) == Ok::<FixedPoint, OrbitalError>(
            FixedPoint { raw: floor_dist_sq_sum(radius.raw as int, xs) as i128 },
        ),
    decreases xs.len(),
{
    let r: int = radius.raw as int;
    lemma_floor_dist_sq_sum_bounds(r, xs);
    if xs.len() > 0 {
        let init = xs.drop_last();
        lemma_floor_dist_sq_sum_bounds(r, init);
        let d: int = r - xs.last().raw;
        assert(d * d >= 0) by (nonlinear_arith);
        lemma_div_pos_is_pos(d * d, SCALE as int);
        assert forall|i: int| 0 <= i < init.len() implies fits_i128(radius.raw - init[i].raw) by {
            assert(init[i] == xs[i]);
        }
        lemma_sum_sq_dist_exact(radius, init);
        let dfp = FixedPoint { raw: d as i128 };
        assert(radius.sub_result(xs.last()) == Ok::<FixedPoint, OrbitalError>(dfp));
        assert(dfp.mul_result(dfp) == Ok::<FixedPoint, OrbitalError>(
            FixedPoint { raw: mul_floor(d, d) as i128 },
        ));
    }
}

/// Rounding analysis of re-fitting, on raw values. The refit radius r solves
/// (n-1)·r² - 2·r·Σx + Σx² = 0 up to the floors of Σx², (Σx)², the square root
/// and the division; the error that leaves in Σ(r - xᵢ)² - r² is linear in r,
/// so for r >= 2^50 it stays inside r²/2^24.
proof fn lemma_refit_rounding(
    n: int,
    ssum: int,
    sq2: int,
    qf: int,
    a: int,
    disc: int,
    root: int,
    top: int,
    r: int,
    dist: int,
    fdist: int,
)
    requires
        2 <= n <= 8,
        qf >= 0,
        0 <= sq2 - (SCALE as int) * qf <= n * (SCALE as int),
        (SCALE as int) * a <= ssum * ssum < (SCALE as int) * a + (SCALE as int),
        disc == a - (n - 1) * qf,
        disc >= 0,
        root >= 0,
        root * root <= disc * (SCALE as int) < (root + 1) * (root + 1),
        top == ssum + root,
        (n - 1) * r <= top < (n - 1) * r + (n - 1),
        0x4_0000_0000_0000 <= r <= 0x4000_0000_0000_0000_0000_0000,
        dist == n * (r * r) - 2 * r * ssum + sq2,
        fdist >= 0,
        0 <= dist - (SCALE as int) * fdist <= n * (SCALE as int),
    ensures
        (r * r) / (SCALE as int) <= 0x1000_0000_0000_0000_0000_0000_0000_0000,
        fdist <= 0x2000_0000_0000_0000_0000_0000_0000_0000,
        dist <= 0x4000_0000_0000_0000_0000_0000_0000_0000_0000_0000_0000_0000,
        int_abs(fdist - (r * r) / (SCALE as int)) * (INVARIANT_TOLERANCE_DIVISOR as int) <= (r
            * r) / (SCALE as int),
{
    let s: int = SCALE as int;
    assert(s == 0x1_0000_0000_0000_0000);
    let m: int = n - 1;
    // eta: the error the floors put into the discriminant.
    let dstar: int = ssum * ssum - m * sq2;
    let eta: int = disc * s - dstar;
    assert(disc * s == a * s - m * (qf * s)) by (nonlinear_arith)
        requires
            disc == a - m * qf,
    ;
    assert(m * (qf * s) <= m * sq2 && m * sq2 <= m * (qf * s) + m * (n * s)) by (nonlinear_arith)
        requires
            0 <= sq2 - s * qf <= n * s,
            m >= 1,
    ;
    assert(-s < eta <= m * (n * s)) by (nonlinear_arith)
        requires
            eta == disc * s - dstar,
            dstar == ssum * ssum - m * sq2,
            disc * s == a * s - m * (qf * s),
            m * (qf * s) <= m * sq2,
            m * sq2 <= m * (qf * s) + m * (n * s),
            s * a <= ssum * ssum,
            ssum * ssum < s * a + s,
    ;
    assert(m * (n * s) <= 56 * s) by (nonlinear_arith)
        requires
            m == n - 1,
            2 <= n <= 8,
            s > 0,
    ;
    // rho: what the square root drops; phi: what the division drops.
    let rho: int = disc * s - root * root;
    assert(0 <= rho <= 2 * root) by (nonlinear_arith)
        requires
            rho == disc * s - root * root,
            root * root <= disc * s,
            disc * s < (root + 1) * (root + 1),
    ;
    let u: int = m * r;
    let phi: int = top - u;
    assert(0 <= phi <= 6);
    // The residual g = Σ(r - xᵢ)² - r² of the refit radius.
    let g: int = dist - r * r;
    let rr0: int = r * r;
    assert(m * g == m * m * rr0 - 2 * ssum * u + m * sq2) by (nonlinear_arith)
        requires
            g == dist - rr0,
            rr0 == r * r,
            dist == n * rr0 - 2 * r * ssum + sq2,
            m == n - 1,
            u == m * r,
    ;
    assert(u * u == m * m * rr0) by (nonlinear_arith)
        requires
            u == m * r,
            rr0 == r * r,
    ;
    let w: int = root - phi;
    assert(u == ssum + w);
    assert(u * u - 2 * ssum * u == w * w - ssum * ssum) by (nonlinear_arith)
        requires
            u == ssum + w,
    ;
    assert(w * w == root * root - 2 * root * phi + phi * phi) by (nonlinear_arith)
        requires
            w == root - phi,
    ;
    assert(m * g == eta - rho + phi * phi - 2 * root * phi);
    // root <= Σx <= top, since the floored squares are never negative.
    assert(m * (qf * s) >= 0) by (nonlinear_arith)
        requires
            qf >= 0,
            m >= 1,
            s > 0,
    ;
    assert(root * root <= ssum * ssum);
    assert(root <= int_abs(ssum)) by (nonlinear_arith)
        requires
            root * root <= ssum * ssum,
            root >= 0,
    {
        if root > int_abs(ssum) {
            assert(root * root > int_abs(ssum) * int_abs(ssum));
        }
    }
    assert(u >= 0) by (nonlinear_arith)
        requires
            u == m * r,
            m >= 1,
            r >= 0,
    ;
    assert(u >= r) by (nonlinear_arith)
        requires
            u == m * r,
            m >= 1,
            r >= 0,
    ;
    assert(ssum >= 0);
    assert(u <= 7 * r) by (nonlinear_arith)
        requires
            u == m * r,
            m <= 7,
            r >= 0,
    ;
    assert(root <= 7 * r + 6);
    assert(-(s + 98 * r + 84) <= g <= 56 * s + 36) by (nonlinear_arith)
        requires
            m * g == eta - rho + phi * phi - 2 * root * phi,
            -s < eta <= 56 * s,
            0 <= rho <= 2 * root,
            0 <= phi <= 6,
            0 <= root <= 7 * r + 6,
            1 <= m,
            r >= 0,
    {
        assert(root * phi <= 6 * root);
        assert(phi * phi <= 36);
        if g > 0 {
            assert(g <= m * g);
        } else {
            assert(m * g <= g);
        }
    }
    // Compare the floored sum with the floored r².
    let rr: int = r * r;
    assert(rr >= 0) by (nonlinear_arith)
        requires
            rr == r * r,
    ;
    lemma_floor_div(rr, s);
    let rsq: int = rr / s;
    let k: int = fdist - rsq;
    assert(k * s == s * fdist - s * rsq) by (nonlinear_arith)
        requires
            k == fdist - rsq,
    ;
    assert(-(9 * s + 98 * r + 84) <= k * s <= 57 * s + 36);
    let tol: int = INVARIANT_TOLERANCE_DIVISOR as int;
    assert(tol == 0x100_0000);
    assert(rr >= 0x4_0000_0000_0000 * r) by (nonlinear_arith)
        requires
            rr == r * r,
            r >= 0x4_0000_0000_0000,
    ;
    assert(int_abs(k) * tol <= rsq) by (nonlinear_arith)
        requires
            -(9 * s + 98 * r + 84) <= k * s <= 57 * s + 36,
            s * rsq > rr - s,
            rr >= 0x4_0000_0000_0000 * r,
            r >= 0x4_0000_0000_0000,
            tol == 0x100_0000,
            s == 0x1_0000_0000_0000_0000,
    {
        let ak: int = int_abs(k);
        assert(ak * s <= 57 * s + 98 * r + 84);
        if ak * tol > rsq {
            assert(ak * tol * s >= (rsq + 1) * s);
            assert(rr < tol * (57 * s + 98 * r + 84));
        }
    }
    assert(rr <= 0x4000_0000_0000_0000_0000_0000 * 0x4000_0000_0000_0000_0000_0000int)
        by (nonlinear_arith)
        requires
            rr == r * r,
            0 <= r <= 0x4000_0000_0000_0000_0000_0000,
    ;
    assert(rsq <= 0x1000_0000_0000_0000_0000_0000_0000_0000) by (nonlinear_arith)
        requires
            s * rsq <= rr,
            rr <= 0x4000_0000_0000_0000_0000_0000 * 0x4000_0000_0000_0000_0000_0000int,
            s == 0x1_0000_0000_0000_0000,
    ;
    assert(fdist <= 0x2000_0000_0000_0000_0000_0000_0000_0000) by (nonlinear_arith)
        requires
            int_abs(fdist - rsq) * tol <= rsq,
            rsq <= 0x1000_0000_0000_0000_0000_0000_0000_0000,
            tol == 0x100_0000,
    ;
    vstd::arithmetic::mul::lemma_mul_inequality(fdist, 0x2000_0000_0000_0000_0000_0000_0000_0000, s);
    assert(fdist * s == s * fdist) by (nonlinear_arith);
    assert(0x2000_0000_0000_0000_0000_0000_0000_0000 * s
        == 0x2000_0000_0000_0000_0000_0000_0000_0000_0000_0000_0000_0000);
    assert(n * s <= 0x8_0000_0000_0000_0000);
    assert(dist <= 0x4000_0000_0000_0000_0000_0000_0000_0000_0000_0000_0000_0000);
}


/// Re-fitting the sphere restores the invariant: whatever the reserves, once
/// `recompute_sphere` has re-fitted the radius (to between 2^-14 and 2^30), the
/// pool passes its invariant check. The rounding of the sums, the square root
/// and the division moves Σ(r - xᵢ)² - r² by an amount linear in r, which the
/// tolerance r²/2^24 absorbs.
pub proof fn lemma_refit_pool_passes_invariant(old: PoolState, new: PoolState, radius: FixedPoint)
    requires
        2 <= old.n_assets <= MAX_ASSETS,
        old.sphere.n == old.n_assets,
        refit_radius_result(old.active_reserves_view(), old.n_assets) == Ok::<
            FixedPoint,
            OrbitalError,
        >(radius),
        0x4_0000_0000_0000 <= radius.raw <= 0x4000_0000_0000_0000_0000_0000,
        new == (PoolState { sphere: Sphere { radius, n: old.sphere.n }, ..old }),
    ensures
        invariant_result(new) == Ok::<(), OrbitalError>(()),
{
    let xs = old.active_reserves_view();
    let n: int = old.n_assets as int;
    let s: int = SCALE as int;
    let r: int = radius.raw as int;
    assert(xs.len() == n);
    // The sums.
    lemma_sums_exact(xs);
    let (s_fp, q_fp) = sums_result(xs)->Ok_0;
    let ssum: int = s_fp.raw as int;
    let qf: int = q_fp.raw as int;
    assert(ssum == raw_sum(xs) && qf == floor_sq_sum(xs));
    lemma_floor_sq_sum_bounds(xs);
    let sq2: int = raw_sq_sum(xs);
    // (Σx)², (n-1)·Σ⌊x²⌋ and the discriminant.
    assert(ssum * ssum >= 0) by (nonlinear_arith);
    lemma_floor_div(ssum * ssum, s);
    let a: int = (ssum * ssum) / s;
    assert(s_fp.mul_result(s_fp) == Ok::<FixedPoint, OrbitalError>(FixedPoint { raw: a as i128 }));
    let m_fp = fp_int(n - 1);
    assert(m_fp.raw == (n - 1) * s);
    assert((n - 1) * s * qf == s * ((n - 1) * qf)) by (nonlinear_arith);
    lemma_div_multiples_vanish((n - 1) * qf, s);
    assert(mul_floor(m_fp.raw as int, qf) == (n - 1) * qf);
    let disc: int = a - (n - 1) * qf;
    let disc_fp = FixedPoint { raw: disc as i128 };
    assert(disc_fp.raw == disc);
    assert(disc >= 0);
    assert(disc * s >= 0) by (nonlinear_arith)
        requires
            disc >= 0,
            s > 0,
    ;
    lemma_isqrt_floor(disc * s);
    let root: int = isqrt(disc * s);
    let top: int = ssum + root;
    // The division by n - 1.
    let den: int = (n - 1) * s;
    assert(den > 0) by (nonlinear_arith)
        requires
            den == (n - 1) * s,
            n >= 2,
            s > 0,
    ;
    let nq_fp = FixedPoint { raw: ((n - 1) * qf) as i128 };
    assert(m_fp.mul_result(q_fp) == Ok::<FixedPoint, OrbitalError>(nq_fp));
    let a_fp = FixedPoint { raw: a as i128 };
    assert(a_fp.sub_result(nq_fp) == Ok::<FixedPoint, OrbitalError>(disc_fp));
    assert(disc <= i128::MAX);
    assert(0 <= root <= 0x1_0000_0000_0000_0000_0000_0000) by (nonlinear_arith)
        requires
            root * root <= disc * s,
            0 <= root,
            0 <= disc <= 0x7fff_ffff_ffff_ffff_ffff_ffff_ffff_ffff,
            s == 0x1_0000_0000_0000_0000,
    {
        assert(disc * s <= 0x7fff_ffff_ffff_ffff_ffff_ffff_ffff_ffff * 0x1_0000_0000_0000_0000int);
        if root > 0x1_0000_0000_0000_0000_0000_0000 {
            assert(root * root > 0x1_0000_0000_0000_0000_0000_0000
                * 0x1_0000_0000_0000_0000_0000_0000int);
        }
    }
    let root_fp = FixedPoint { raw: root as i128 };
    assert(root_fp.raw == root);
    assert(disc_fp.sqrt_result() == Ok::<FixedPoint, OrbitalError>(root_fp));
    let top_fp = FixedPoint { raw: top as i128 };
    assert(s_fp.add_result(root_fp) == Ok::<FixedPoint, OrbitalError>(top_fp));
    assert(top_fp.div_result(m_fp) == Ok::<FixedPoint, OrbitalError>(radius));
    assert(r == crate::math::fixed_point::trunc_div(top * s, den));
    assert(top * s >= 0) by {
        if top * s < 0 {
            assert(crate::math::fixed_point::trunc_div(top * s, den) <= 0);
        }
    }
    assert(top >= 0) by (nonlinear_arith)
        requires
            top * s >= 0,
            s > 0,
    ;
    assert(r == (top * s) / den);
    lemma_floor_div(top * s, den);
    assert((n - 1) * r <= top < (n - 1) * r + (n - 1)) by (nonlinear_arith)
        requires
            den * r <= top * s < den * r + den,
            den == (n - 1) * s,
            s > 0,
    {
        assert(den * r == ((n - 1) * r) * s);
        assert(den == (n - 1) * s);
        if (n - 1) * r > top {
            assert(((n - 1) * r) * s > top * s);
        }
        if top >= (n - 1) * r + (n - 1) {
            assert(top * s >= ((n - 1) * r + (n - 1)) * s);
        }
    }
    // The invariant check of the re-fitted pool.
    lemma_dist_sq_sum_expand(r, xs);
    lemma_floor_dist_sq_sum_bounds(r, xs);
    let dist: int = dist_sq_sum(r, xs);
    let fdist: int = floor_dist_sq_sum(r, xs);
    lemma_refit_rounding(n, ssum, sq2, qf, a, disc, root, top, r, dist, fdist);
    assert forall|i: int| 0 <= i < xs.len() implies fits_i128(radius.raw - xs[i].raw) by {
        let y: int = r - xs[i].raw;
        assert(y * y <= 0x4000_0000_0000_0000_0000_0000_0000_0000_0000_0000_0000_0000);
        assert(-0x8000_0000_0000_0000_0000_0000 <= y <= 0x8000_0000_0000_0000_0000_0000)
            by (nonlinear_arith)
            requires
                y * y <= 0x4000_0000_0000_0000_0000_0000_0000_0000_0000_0000_0000_0000,
        {
            if y > 0x8000_0000_0000_0000_0000_0000 || y < -0x8000_0000_0000_0000_0000_0000 {
                assert(y * y > 0x8000_0000_0000_0000_0000_0000 * 0x8000_0000_0000_0000_0000_0000int);
            }
        }
    }
    let view = new.active_reserves_view();
    assert(view =~= xs);
    assert(new.sphere.active(view) =~= xs);
    lemma_sum_sq_dist_exact(radius, xs);
    let rsq: int = (r * r) / s;
    assert(r * r >= 0) by (nonlinear_arith);
    lemma_div_pos_is_pos(r * r, s);
    assert(radius.mul_result(radius) == Ok::<FixedPoint, OrbitalError>(FixedPoint { raw: rsq as i128 }));
    lemma_within_tolerance(int_abs(fdist - rsq), rsq);
}

/// The checked sum of squared distances takes every reserve it is given, in
/// full: a successful sum times 2^64 falls short of the exact Σ(r - xᵢ)² by
/// at least 0 and at most 2^64 per reserve (one floor per term).
pub proof fn lemma_distance_squared_counts_every_reserve(radius: FixedPoint, xs: Seq<FixedPoint>)
    ensures
        sum_sq_dist(radius, xs) matches Ok(total) ==> 0 <= dist_sq_sum(radius.raw as int, xs) - (
        SCALE as int) * total.raw <= xs.len() * (SCALE as int),
    decreases xs.len(),
{
    if xs.len() > 0 {
        lemma_distance_squared_counts_every_reserve(radius, xs.drop_last());
        if let Ok(total) = sum_sq_dist(radius, xs) {
            let s: int = SCALE as int;
            let prev = sum_sq_dist(radius, xs.drop_last())->Ok_0;
            let d: int = radius.raw - xs.last().raw;
            assert(d * d >= 0) by (nonlinear_arith);
            lemma_floor_div(d * d, s);
            assert(total.raw == prev.raw + mul_floor(d, d));
            assert(s * total.raw == s * prev.raw + s * mul_floor(d, d)) by (nonlinear_arith)
                requires
                    total.raw == prev.raw + mul_floor(d, d),
            ;
            assert(xs.len() * s == (xs.len() - 1) * s + s) by (nonlinear_arith);
        }
    }
}

/// The cached torus coordinates are those of the reserves: alpha is Σxᵢ over
/// √n (Σxᵢ·2^64 divided, toward zero, by ⌊√n·2^64⌋), and ||w||² is Σxᵢ² less
/// alpha², each square floored to Q64.64; the floored Σxᵢ² falls short of the
/// exact one by less than one unit of 2^64 per reserve.
pub proof fn lemma_caches_are_torus_coordinates(xs: Seq<FixedPoint>, n: u8)
    ensures
        caches_result(xs, n) matches Ok((alpha, w)) ==> {
            &&& alpha.raw == trunc_div(
                raw_sum(xs) * (SCALE as int),
                isqrt(n * (SCALE as int) * (SCALE as int)),
            )
            &&& w.raw == floor_sq_sum(xs) - (alpha.raw * alpha.raw) / (SCALE as int)
            &&& 0 <= raw_sq_sum(xs) - (SCALE as int) * floor_sq_sum(xs) <= xs.len() * (
            SCALE as int)
        },
{
    lemma_sums_exact(xs);
    lemma_floor_sq_sum_bounds(xs);
    if let Ok((alpha, w)) = caches_result(xs, n) {
        let s: int = SCALE as int;
        let m: int = n * s * s;
        assert(fp_int(n as int).raw == n * s);
        assert(m >= 0) by (nonlinear_arith)
            requires
                m == n * s * s,
                n >= 0,
                s > 0,
        ;
        lemma_isqrt_floor(m);
        let t = isqrt(m);
        assert(s == 0x1_0000_0000_0000_0000);
        assert(t <= 16 * s) by (nonlinear_arith)
            requires
                is_floor_sqrt(m, t),
                m == n * s * s,
                n <= 255,
                s > 0,
        {
            if t > 16 * s {
                assert(t * t > (16 * s) * (16 * s));
            }
        }
        assert((n * s) * s == m);
    }
}

} // verus!
