//! Analytical swap solver.
//!
//! A swap that moves only the input and the output coordinate keeps the sphere
//! invariant exactly when the pair's squared distance from the centre is
//! unchanged. With a = r - x_in, b = r - x_out and a net input d:
//!
//!   (a - d)² + (b + d_out)² = a² + b²   ⇔   d_out = -b + √(b² + 2ad - d²)
//!
//! so the output has a closed form and no iterative solver is needed.
use crate::errors::OrbitalError;
use crate::math::fixed_point::{FixedPoint, SCALE};
use crate::math::wide::{isqrt, lemma_isqrt_floor};
use vstd::arithmetic::div_mod::lemma_fundamental_div_mod;
use crate::math::sphere::Sphere;
use vstd::prelude::*;

verus! {

/// Result of `compute_amount_out_analytical` for the reserves of the two
/// tokens: d_out = √(b² + 2ad - d²) - b, each step checked.
pub open spec fn amount_out_result(
    radius: FixedPoint,
    x_in: FixedPoint,
    x_out: FixedPoint,
    d: FixedPoint,
) -> Result<FixedPoint, OrbitalError> {
    match radius.sub_result(x_in) {
        Err(e) => Err(e),
        Ok(a) => match radius.sub_result(x_out) {
            Err(e) => Err(e),
            Ok(b) => match b.mul_result(b) {
                Err(e) => Err(e),
                Ok(b_sq) => match a.mul_result(d) {
                    Err(e) => Err(e),
                    Ok(ad) => match ad.add_result(ad) {
                        Err(e) => Err(e),
                        Ok(two_ad) => match b_sq.add_result(two_ad) {
                            Err(e) => Err(e),
                            Ok(t) => match d.mul_result(d) {
                                Err(e) => Err(e),
                                Ok(d_sq) => match t.sub_result(d_sq) {
                                    Err(e) => Err(e),
                                    Ok(radicand) => match radicand.sqrt_result() {
                                        Err(e) => Err(e),
                                        Ok(root) => root.sub_result(b),
                                    },
                                },
                            },
                        },
                    },
                },
            },
        },
    }
}

/// Amount of `token_out` that a net deposit of `net_amount_in` of `token_in`
/// buys on the sphere: d_out = -b + √(b² + 2ad - d²).
pub fn compute_amount_out_analytical(
    sphere: &Sphere,
    reserves: &[FixedPoint],
    token_in: usize,
    token_out: usize,
    net_amount_in: FixedPoint,
) -> (r: Result<FixedPoint, OrbitalError>)
    ensures
        r == if token_in < reserves@.len() && token_out < reserves@.len() {
            amount_out_result(
                sphere.radius,
                reserves@[token_in as int],
                reserves@[token_out as int],
                net_amount_in,
            )
        } else {
            Err(OrbitalError::InvalidTokenIndex)
        },
{
    if !(token_in < reserves.len() && token_out < reserves.len()) {
        return Err(OrbitalError::InvalidTokenIndex);
    }
    let r = sphere.radius;
    let d = net_amount_in;
    let a = match r.checked_sub(reserves[token_in]) {
        Err(e) => return Err(e),
        Ok(v) => v,
    };
    let b = match r.checked_sub(reserves[token_out]) {
        Err(e) => return Err(e),
        Ok(v) => v,
    };
    let b_sq = match b.squared() {
        Err(e) => return Err(e),
        Ok(v) => v,
    };
    let ad = match a.checked_mul(d) {
        Err(e) => return Err(e),
        Ok(v) => v,
    };
    let two_ad = match ad.checked_add(ad) {
        Err(e) => return Err(e),
        Ok(v) => v,
    };
    let t = match b_sq.checked_add(two_ad) {
        Err(e) => return Err(e),
        Ok(v) => v,
    };
    let d_sq = match d.squared() {
        Err(e) => return Err(e),
        Ok(v) => v,
    };
    let radicand = match t.checked_sub(d_sq) {
        Err(e) => return Err(e),
        Ok(v) => v,
    };
    let root = match radicand.sqrt() {
        Err(e) => return Err(e),
        Ok(v) => v,
    };
    root.checked_sub(b)
}

/// `p / m` brackets `p` from below within one step of `m`, for any sign of `p`.
pub proof fn lemma_floor_bracket(p: int, m: int)
    requires
        m > 0,
    ensures
        m * (p / m) <= p < m * (p / m) + m,
{
    lemma_fundamental_div_mod(p, m);
    vstd::arithmetic::div_mod::lemma_mod_bound(p, m);
}

/// The quoted output keeps the traded pair on the sphere. With a = r - x_in,
/// b = r - x_out, the net input d and the output d_out (all raw Q64.64), a
/// successful quote satisfies (a - d)² + (b + d_out)² = a² + b² up to the
/// rounding of the fixed-point steps: the difference lies strictly between
/// -(3·2^64 + 2·(b + d_out)) and 2^64 (in raw² units), whichever of the two
/// reserves is the larger.
pub proof fn lemma_amount_out_stays_on_sphere(
    radius: FixedPoint,
    x_in: FixedPoint,
    x_out: FixedPoint,
    d: FixedPoint,
)
    ensures
        amount_out_result(radius, x_in, x_out, d) matches Ok(out) ==> {
            let a = radius.raw - x_in.raw;
            let b = radius.raw - x_out.raw;
            let gap = (a - d.raw) * (a - d.raw) + (b + out.raw) * (b + out.raw) - (a * a + b * b);
            &&& b + out.raw >= 0
            &&& -(3 * (SCALE as int) + 2 * (b + out.raw)) < gap < SCALE as int
        },
{
    if let Ok(out) = amount_out_result(radius, x_in, x_out, d) {
        let s: int = SCALE as int;
        let a: int = radius.raw - x_in.raw;
        let b: int = radius.raw - x_out.raw;
        let dd: int = d.raw as int;
        let b_sq: int = (b * b) / s;
        let ad: int = (a * dd) / s;
        let d_sq: int = (dd * dd) / s;
        lemma_floor_bracket(b * b, s);
        lemma_floor_bracket(a * dd, s);
        lemma_floor_bracket(dd * dd, s);
        let rad: int = b_sq + 2 * ad - d_sq;
        assert(0 <= rad <= i128::MAX);
        assert(rad * s >= 0) by (nonlinear_arith)
            requires
                rad >= 0,
                s > 0,
        ;
        lemma_isqrt_floor(rad * s);
        let root: int = isqrt(rad * s);
        assert(s == 0x1_0000_0000_0000_0000);
        assert(root <= 0x1_0000_0000_0000_0000_0000_0000) by (nonlinear_arith)
            requires
                root * root <= rad * s,
                0 <= root,
                0 <= rad <= 0x7fff_ffff_ffff_ffff_ffff_ffff_ffff_ffff,
                s == 0x1_0000_0000_0000_0000,
        {
            assert(rad * s <= 0x7fff_ffff_ffff_ffff_ffff_ffff_ffff_ffff * 0x1_0000_0000_0000_0000int);
            if root > 0x1_0000_0000_0000_0000_0000_0000 {
                assert(root * root > 0x1_0000_0000_0000_0000_0000_0000
                    * 0x1_0000_0000_0000_0000_0000_0000int);
            }
        }
        assert(out.raw == root - b);
        let o: int = out.raw as int;
        let rho: int = rad * s - root * root;
        assert(0 <= rho <= 2 * root) by (nonlinear_arith)
            requires
                rho == rad * s - root * root,
                root * root <= rad * s,
                rad * s < (root + 1) * (root + 1),
        ;
        assert(rad * s == s * b_sq + 2 * (s * ad) - s * d_sq) by (nonlinear_arith)
            requires
                rad == b_sq + 2 * ad - d_sq,
        ;
        assert((a - dd) * (a - dd) + (b + o) * (b + o) - (a * a + b * b) == rad * s - rho - (b
            * b + 2 * (a * dd) - dd * dd)) by (nonlinear_arith)
            requires
                b + o == root,
                rho == rad * s - root * root,
        ;
    }
}

} // verus!
