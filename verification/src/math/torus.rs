//! Torus Geometry Value Object
//!
//! The torus invariant arises from consolidating all interior ticks into
//! one n-dimensional sphere and all boundary ticks into one (n-1)-dimensional
//! sphere, then rotating the interior sphere around the boundary circle.
//!
//! This module provides the on-chain helpers for:
//!   - Torus consolidation parameters
//!   - Tick crossing detection via alpha comparison
//!   - Orthogonal subspace radius computation
use crate::errors::OrbitalError;
use crate::math::fixed_point::{fits_i128, trunc_div, FixedPoint, SCALE};
use crate::math::wide::{is_floor_sqrt, isqrt, lemma_isqrt_floor};
use crate::math::sphere::{fp_int, Sphere};
use vstd::prelude::*;

verus! {

/// Tolerance for a negative radicand from fixed-point rounding: -2^-24 in raw
/// units (raw -2^40), below which the geometry is genuinely violated.
pub const RADICAND_EPSILON_RAW: i128 = -0x100_0000_0000;

// ══════════════════════════════════════════════════════════════
// TorusParams — consolidated torus parameters
// ══════════════════════════════════════════════════════════════

/// Consolidated torus parameters derived from pool state.
///
/// Interior ticks consolidate: r_interior = Σ liquidity (interior ticks)
/// Boundary ticks consolidate: s_boundary = Σ s (boundary ticks)
///
/// With no ticks both are zero and the pool operates as a single-sphere AMM.
#[derive(Clone, Copy, Debug)]
pub struct TorusParams {
    pub r_interior: FixedPoint,
    pub s_boundary: FixedPoint,
}

impl TorusParams {
    /// Construct from pool's cached liquidity totals.
    pub fn from_pool_liquidity(total_interior: FixedPoint, total_boundary: FixedPoint) -> (r:
        Self)
        ensures
            r.r_interior == total_interior,
            r.s_boundary == total_boundary,
    {
        Self { r_interior: total_interior, s_boundary: total_boundary }
    }

    /// Whether any boundary liquidity exists (torus vs pure sphere).
    pub fn has_boundary_liquidity(&self) -> (r: bool)
        ensures
            r == (self.s_boundary.raw > 0),
    {
        self.s_boundary.raw > 0
    }

    /// Whether no ticks exist (pure sphere mode).
    pub fn is_single_sphere(&self) -> (r: bool)
        ensures
            r == (self.r_interior.raw == 0 && self.s_boundary.raw == 0),
    {
        self.r_interior.is_zero() && self.s_boundary.is_zero()
    }
}

/// A pool with boundary liquidity is never in single-sphere mode.
pub proof fn lemma_boundary_liquidity_is_not_single_sphere(tp: TorusParams)
    ensures
        tp.s_boundary.raw > 0 ==> !(tp.r_interior.raw == 0 && tp.s_boundary.raw == 0),
{
}

// ══════════════════════════════════════════════════════════════
// Tick crossing detection
// ══════════════════════════════════════════════════════════════

/// Direction of a tick boundary crossing during a swap.
#[derive(Clone, Copy, Debug, PartialEq, Eq, Structural)]
pub enum CrossingDirection {
    /// Alpha decreased past tick k: tick transitions Interior → Boundary
    InteriorToBoundary,
    /// Alpha increased past tick k: tick transitions Boundary → Interior
    BoundaryToInterior,
}

/// Which side of the tick plane k, if any, alpha crossed to.
pub open spec fn crossing(old_alpha: int, new_alpha: int, k: int) -> Option<CrossingDirection> {
    if old_alpha > k && new_alpha <= k {
        Some(CrossingDirection::InteriorToBoundary)
    } else if old_alpha <= k && new_alpha > k {
        Some(CrossingDirection::BoundaryToInterior)
    } else {
        None
    }
}

/// Detect whether alpha crossed a tick boundary k during a swap.
///
/// Alpha = Σxᵢ / √n is the parallel projection of the reserve vector
/// onto the (1,...,1)/√n diagonal. Each tick's plane constant k defines
/// a hyperplane x·v = k. A crossing occurs when alpha moves from one
/// side of k to the other.
///
/// Returns `None` if no crossing occurred.
pub fn detect_tick_crossing(old_alpha: FixedPoint, new_alpha: FixedPoint, tick_k: FixedPoint) -> (r:
    Option<CrossingDirection>)
    ensures
        r == crossing(old_alpha.raw as int, new_alpha.raw as int, tick_k.raw as int),
{
    if old_alpha.raw > tick_k.raw && new_alpha.raw <= tick_k.raw {
        Some(CrossingDirection::InteriorToBoundary)
    } else if old_alpha.raw <= tick_k.raw && new_alpha.raw > tick_k.raw {
        Some(CrossingDirection::BoundaryToInterior)
    } else {
        None
    }
}

/// Crossing a tick one way and moving back crosses it the other way: a move
/// from `a` to `b` goes Interior → Boundary exactly when the move from `b` to
/// `a` goes Boundary → Interior, and a move that crosses nothing does not
/// cross when reversed.
pub proof fn lemma_crossing_reverses(a: FixedPoint, b: FixedPoint, k: FixedPoint)
    ensures
        (crossing(a.raw as int, b.raw as int, k.raw as int) == Some(
            CrossingDirection::InteriorToBoundary,
        )) <==> (crossing(b.raw as int, a.raw as int, k.raw as int) == Some(
            CrossingDirection::BoundaryToInterior,
        )),
        (crossing(a.raw as int, b.raw as int, k.raw as int) is None) <==> (crossing(
            b.raw as int,
            a.raw as int,
            k.raw as int,
        ) is None),
{
}

// ══════════════════════════════════════════════════════════════
// Orthogonal subspace radius
// ══════════════════════════════════════════════════════════════

/// Result of `orthogonal_radius`: s(α) = √(r² - (α - r·√n)²), with tiny
/// negative radicands (no lower than `RADICAND_EPSILON_RAW`) clamped to zero.
pub open spec fn orthogonal_radius_result(sphere: Sphere, alpha: FixedPoint) -> Result<
    FixedPoint,
    OrbitalError,
> {
    let r = sphere.radius;
    match fp_int(sphere.n as int).sqrt_result() {
        Err(e) => Err(e),
        Ok(sqrt_n) => match r.mul_result(r) {
            Err(e) => Err(e),
            Ok(r_sq) => match r.mul_result(sqrt_n) {
                Err(e) => Err(e),
                Ok(center) => match alpha.sub_result(center) {
                    Err(e) => Err(e),
                    Ok(offset) => match offset.mul_result(offset) {
                        Err(e) => Err(e),
                        Ok(offset_sq) => match r_sq.sub_result(offset_sq) {
                            Err(e) => Err(e),
                            Ok(radicand) => if radicand.raw < 0 {
                                if radicand.raw >= RADICAND_EPSILON_RAW {
                                    Ok(FixedPoint { raw: 0 })
                                } else {
                                    Err(OrbitalError::TorusInvariantError)
                                }
                            } else {
                                radicand.sqrt_result()
                            },
                        },
                    },
                },
            },
        },
    }
}

/// Compute the orthogonal subspace radius s at a given alpha.
///
/// s(α) = √(r² - (α - r·√n)²)
///
/// Measures the "room" available in the orthogonal direction at the
/// current parallel projection alpha.
pub fn orthogonal_radius(sphere: &Sphere, alpha: FixedPoint) -> (r: Result<
    FixedPoint,
    OrbitalError,
>)
    ensures
        r == orthogonal_radius_result(*sphere, alpha),
        r matches Ok(s) ==> s.raw >= 0,
{
    let n_fp = FixedPoint::from_int(sphere.n as i64);
    let sqrt_n = match n_fp.sqrt() {
        Err(e) => return Err(e),
        Ok(v) => v,
    };
    let r = sphere.radius;
    let r_sq = match r.squared() {
        Err(e) => return Err(e),
        Ok(v) => v,
    };
    let center = match r.checked_mul(sqrt_n) {
        Err(e) => return Err(e),
        Ok(v) => v,
    };
    let offset = match alpha.checked_sub(center) {
        Err(e) => return Err(e),
        Ok(v) => v,
    };
    let offset_sq = match offset.squared() {
        Err(e) => return Err(e),
        Ok(v) => v,
    };
    let radicand = match r_sq.checked_sub(offset_sq) {
        Err(e) => return Err(e),
        Ok(v) => v,
    };
    // Clamp tiny negatives from fixed-point rounding while rejecting
    // genuine geometric constraint violations.
    if radicand.raw < 0 {
        if radicand.raw >= RADICAND_EPSILON_RAW {
            return Ok(FixedPoint::zero());
        } else {
            return Err(OrbitalError::TorusInvariantError);
        }
    }
    radicand.sqrt()
}

// ══════════════════════════════════════════════════════════════
// Post-trade alpha prediction
// ══════════════════════════════════════════════════════════════

/// Result of `compute_new_alpha`: (sum + amount_in - amount_out) / √n.
pub open spec fn new_alpha_result(
    sum: FixedPoint,
    amount_in: FixedPoint,
    amount_out: FixedPoint,
    n: u8,
) -> Result<FixedPoint, OrbitalError> {
    match sum.add_result(amount_in) {
        Err(e) => Err(e),
        Ok(s1) => match s1.sub_result(amount_out) {
            Err(e) => Err(e),
            Ok(new_sum) => match fp_int(n as int).sqrt_result() {
                Err(e) => Err(e),
                Ok(sqrt_n) => new_sum.div_result(sqrt_n),
            },
        },
    }
}

/// Compute the post-trade alpha without modifying reserves.
///
/// new_sum = old_sum + amount_in - amount_out
/// new_alpha = new_sum / √n
pub fn compute_new_alpha(
    current_running_sum: FixedPoint,
    amount_in: FixedPoint,
    amount_out: FixedPoint,
    n: u8,
) -> (r: Result<FixedPoint, OrbitalError>)
    ensures
        r == new_alpha_result(current_running_sum, amount_in, amount_out, n),
{
    let s1 = match current_running_sum.checked_add(amount_in) {
        Err(e) => return Err(e),
        Ok(v) => v,
    };
    let new_sum = match s1.checked_sub(amount_out) {
        Err(e) => return Err(e),
        Ok(v) => v,
    };
    let n_fp = FixedPoint::from_int(n as i64);
    let sqrt_n = match n_fp.sqrt() {
        Err(e) => return Err(e),
        Ok(v) => v,
    };
    new_sum.checked_div(sqrt_n)
}

/// A trade that takes out exactly what it puts in leaves alpha where the
/// running sum puts it: new alpha == sum / √n.
pub proof fn lemma_balanced_trade_keeps_alpha(sum: FixedPoint, amount: FixedPoint, n: u8)
    requires
        sum.add_result(amount) is Ok,
    ensures
        new_alpha_result(sum, amount, amount, n) == match fp_int(n as int).sqrt_result() {
            Err(e) => Err(e),
            Ok(sqrt_n) => sum.div_result(sqrt_n),
        },
{
}

/// The post-trade alpha is the new running sum over √n: a successful result
/// is (sum + amount_in - amount_out)·2^64 divided, rounding toward zero, by
/// ⌊√n·2^64⌋, the Q64.64 square root of n. It succeeds whenever the new sum,
/// the square root and the quotient are all representable and n > 0.
pub proof fn lemma_new_alpha_is_new_sum_over_sqrt_n(
    sum: FixedPoint,
    amount_in: FixedPoint,
    amount_out: FixedPoint,
    n: u8,
)
    ensures
        new_alpha_result(sum, amount_in, amount_out, n) matches Ok(r) ==> r.raw == trunc_div(
            (sum.raw + amount_in.raw - amount_out.raw) * (SCALE as int),
            isqrt(n * (SCALE as int) * (SCALE as int)),
        ),
        fits_i128(sum.raw + amount_in.raw) && fits_i128(sum.raw + amount_in.raw - amount_out.raw)
            && n > 0 && fits_i128(
            trunc_div(
                (sum.raw + amount_in.raw - amount_out.raw) * (SCALE as int),
                isqrt(n * (SCALE as int) * (SCALE as int)),
            ),
        ) ==> new_alpha_result(sum, amount_in, amount_out, n) is Ok,
{
    let s: int = SCALE as int;
    let m: int = n * s * s;
    assert(fp_int(n as int).raw == n * s);
    assert(m >= 0) by (nonlinear_arith)
        requires
            m == n * s * s,
            n >= 0,
            s > 0,
    ;
    lemma_isqrt_floor(m);
    let t = isqrt(m);
    assert(t <= 16 * s) by (nonlinear_arith)
        requires
            is_floor_sqrt(m, t),
            m == n * s * s,
            n <= 255,
            s > 0,
    {
        if t > 16 * s {
            assert(t * t > (16 * s) * (16 * s));
        }
    }
    assert(s == 0x1_0000_0000_0000_0000);
    assert((n as int) * s * s == (n * s) * s);
    assert(fp_int(n as int).sqrt_result() == Ok::<FixedPoint, OrbitalError>(FixedPoint { raw: t as i128 }));
    if n > 0 {
        assert(t > 0) by (nonlinear_arith)
            requires
                is_floor_sqrt(m, t),
                m == n * s * s,
                n >= 1,
                s > 0,
        {
            if t == 0 {
                assert(m >= 1 * s * s);
            }
        }
    }
}

/// A crossing is a move of alpha from one side of the tick plane to the other,
/// named by the way alpha went: it falls to the plane or below when the tick
/// becomes a boundary tick, and rises above it when the tick becomes interior
/// again; alpha staying on its side crosses nothing.
pub proof fn lemma_crossing_follows_alpha(old_alpha: FixedPoint, new_alpha: FixedPoint, k: FixedPoint)
    ensures
        crossing(old_alpha.raw as int, new_alpha.raw as int, k.raw as int) == Some(
            CrossingDirection::InteriorToBoundary,
        ) ==> new_alpha.raw <= k.raw < old_alpha.raw,
        crossing(old_alpha.raw as int, new_alpha.raw as int, k.raw as int) == Some(
            CrossingDirection::BoundaryToInterior,
        ) ==> old_alpha.raw <= k.raw < new_alpha.raw,
        crossing(old_alpha.raw as int, new_alpha.raw as int, k.raw as int) is None <==> ((
        old_alpha.raw > k.raw) == (new_alpha.raw > k.raw)),
{
}

/// The orthogonal radius is the radius of the circle cut from the sphere at
/// alpha: with c = ⌊r·⌊√n·2^64⌋ / 2^64⌋ the Q64.64 centre r·√n and the offset
/// o = alpha - c (raw), a positive result s satisfies s² + o² = r² up to the
/// rounding of the fixed-point steps: the difference lies strictly between
/// -(2^64 + 2·s) and 2^64 (raw² units). A zero result comes only from a radicand
/// at or within the clamp below zero, where r² - o² is below 2^64 + 2^64·2^40.
pub proof fn lemma_orthogonal_radius_on_sphere(sphere: Sphere, alpha: FixedPoint)
    ensures
        orthogonal_radius_result(sphere, alpha) matches Ok(sr) ==> {
            let s_ = SCALE as int;
            let r = sphere.radius.raw as int;
            let c = (r * isqrt(sphere.n * s_ * s_)) / s_;
            let o = alpha.raw - c;
            let gap = sr.raw * sr.raw + o * o - r * r;
            &&& sr.raw >= 0
            &&& -(s_ + 2 * sr.raw) < gap < s_ || (sr.raw == 0 && r * r - o * o < s_ + s_
                * 0x100_0000_0000)
        },
{
    if let Ok(sr) = orthogonal_radius_result(sphere, alpha) {
        let s_: int = SCALE as int;
        let n: int = sphere.n as int;
        let r: int = sphere.radius.raw as int;
        let m: int = n * s_ * s_;
        assert(fp_int(n).raw == n * s_);
        assert(m >= 0) by (nonlinear_arith)
            requires
                m == n * s_ * s_,
                n >= 0,
                s_ > 0,
        ;
        lemma_isqrt_floor(m);
        let t = isqrt(m);
        assert(s_ == 0x1_0000_0000_0000_0000);
        assert(t <= 16 * s_) by (nonlinear_arith)
            requires
                is_floor_sqrt(m, t),
                m == n * s_ * s_,
                n <= 255,
                s_ > 0,
        {
            if t > 16 * s_ {
                assert(t * t > (16 * s_) * (16 * s_));
            }
        }
        assert((n * s_) * s_ == m);
        let c: int = (r * t) / s_;
        let o: int = alpha.raw - c;
        let r_sq: int = (r * r) / s_;
        let o_sq: int = (o * o) / s_;
        crate::math::newton::lemma_floor_bracket(r * r, s_);
        crate::math::newton::lemma_floor_bracket(o * o, s_);
        let rad: int = r_sq - o_sq;
        assert(rad * s_ == s_ * r_sq - s_ * o_sq) by (nonlinear_arith)
            requires
                rad == r_sq - o_sq,
        ;
        if rad < 0 {
            assert(sr.raw == 0);
            assert(rad >= -0x100_0000_0000);
            assert(rad * s_ >= -0x100_0000_0000 * s_) by (nonlinear_arith)
                requires
                    rad >= -0x100_0000_0000,
                    s_ > 0,
            ;
        } else {
            assert(rad <= i128::MAX);
            assert(rad * s_ >= 0) by (nonlinear_arith)
                requires
                    rad >= 0,
                    s_ > 0,
            ;
            lemma_isqrt_floor(rad * s_);
            let root = isqrt(rad * s_);
            assert(root <= 0x1_0000_0000_0000_0000_0000_0000) by (nonlinear_arith)
                requires
                    root * root <= rad * s_,
                    0 <= root,
                    0 <= rad <= 0x7fff_ffff_ffff_ffff_ffff_ffff_ffff_ffff,
                    s_ == 0x1_0000_0000_0000_0000,
            {
                assert(rad * s_ <= 0x7fff_ffff_ffff_ffff_ffff_ffff_ffff_ffff
                    * 0x1_0000_0000_0000_0000int);
                if root > 0x1_0000_0000_0000_0000_0000_0000 {
                    assert(root * root > 0x1_0000_0000_0000_0000_0000_0000
                        * 0x1_0000_0000_0000_0000_0000_0000int);
                }
            }
            assert(sr.raw == root);
            assert(root * root <= rad * s_ < (root + 1) * (root + 1));
            assert(rad * s_ - root * root <= 2 * root) by (nonlinear_arith)
                requires
                    rad * s_ < (root + 1) * (root + 1),
            ;
        }
    }
}

} // verus!
