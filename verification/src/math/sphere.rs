//! Sphere Value Object
//!
//! The Sphere defines the n-dimensional geometric space for the Orbital AMM.
//! Invariant: ||r⃗ - x⃗||² = r²
//!
//! Immutable after creation.
use crate::errors::OrbitalError;
use crate::math::fixed_point::{FixedPoint, SCALE};
use crate::math::wide::{int_abs, is_floor_sqrt, isqrt, lemma_isqrt_floor};
use vstd::prelude::*;

verus! {

/// Maximum number of assets in a pool
pub const MAX_ASSETS: usize = 8;

/// Sphere: defines the geometric space for the AMM invariant
#[derive(Clone, Copy, Debug, PartialEq, Eq, Structural)]
pub struct Sphere {
    /// Radius of the sphere
    pub radius: FixedPoint,
    /// Number of assets (dimensions)
    pub n: u8,
}

/// The Q64.64 value of a small integer.
pub open spec fn fp_int(n: int) -> FixedPoint {
    FixedPoint { raw: (n * (SCALE as int)) as i128 }
}

/// Σ(r - xᵢ)² over `xs`, each step checked, left to right.
pub open spec fn sum_sq_dist(radius: FixedPoint, xs: Seq<FixedPoint>) -> Result<
    FixedPoint,
    OrbitalError,
>
    decreases xs.len(),
{
    if xs.len() == 0 {
        Ok(FixedPoint { raw: 0 })
    } else {
        match sum_sq_dist(radius, xs.drop_last()) {
            Err(e) => Err(e),
            Ok(acc) => match radius.sub_result(xs.last()) {
                Err(e) => Err(e),
                Ok(d) => match d.mul_result(d) {
                    Err(e) => Err(e),
                    Ok(sq) => acc.add_result(sq),
                },
            },
        }
    }
}

/// A successful sum of squared distances is never negative.
pub proof fn lemma_sum_sq_dist_nonneg(radius: FixedPoint, xs: Seq<FixedPoint>)
    ensures
        sum_sq_dist(radius, xs) matches Ok(s) ==> s.raw >= 0,
    decreases xs.len(),
{
    if xs.len() > 0 {
        lemma_sum_sq_dist_nonneg(radius, xs.drop_last());
        if let Ok(d) = radius.sub_result(xs.last()) {
            assert(d.raw * d.raw >= 0) by (nonlinear_arith);
            vstd::arithmetic::div_mod::lemma_div_pos_is_pos(d.raw * d.raw, SCALE as int);
        }
    }
}

/// Once a prefix of the sum fails, every longer prefix fails the same way.
pub proof fn lemma_sum_sq_dist_err_persists(
    radius: FixedPoint,
    xs: Seq<FixedPoint>,
    i: int,
    j: int,
)
    requires
        0 <= i <= j <= xs.len(),
        sum_sq_dist(radius, xs.take(i)) is Err,
    ensures
        sum_sq_dist(radius, xs.take(j)) == sum_sq_dist(radius, xs.take(i)),
    decreases j - i,
{
    if j > i {
        lemma_sum_sq_dist_err_persists(radius, xs, i, j - 1);
        assert(xs.take(j).drop_last() =~= xs.take(j - 1));
    }
}

/// Result of `equal_price_point`: r(1 - 1/√n), each step checked.
pub open spec fn equal_price_point_result(radius: FixedPoint, n: u8) -> Result<
    FixedPoint,
    OrbitalError,
> {
    match fp_int(n as int).sqrt_result() {
        Err(e) => Err(e),
        Ok(sqrt_n) => match fp_int(1).div_result(sqrt_n) {
            Err(e) => Err(e),
            Ok(ratio) => match fp_int(1).sub_result(ratio) {
                Err(e) => Err(e),
                Ok(factor) => radius.mul_result(factor),
            },
        },
    }
}

impl Sphere {
    /// Result of `new`: radius = total liquidity / n, for 2 <= n <= MAX_ASSETS.
    pub open spec fn new_result(total_liquidity: FixedPoint, n: u8) -> Result<
        Sphere,
        OrbitalError,
    > {
        if !(2 <= n && n <= MAX_ASSETS) {
            Err(OrbitalError::InvalidAssetCount)
        } else {
            match total_liquidity.div_result(fp_int(n as int)) {
                Err(e) => Err(e),
                Ok(radius) => Ok(Sphere { radius, n }),
            }
        }
    }

    /// The reserves that take part in the invariant: the first `n` of them.
    pub open spec fn active(self, reserves: Seq<FixedPoint>) -> Seq<FixedPoint> {
        reserves.take(
            if (self.n as int) < reserves.len() {
                self.n as int
            } else {
                reserves.len() as int
            },
        )
    }

    /// Result of `verify_invariant`: whether |Σ(r - xᵢ)² - r²| <= epsilon.
    pub open spec fn verify_result(
        self,
        reserves: Seq<FixedPoint>,
        epsilon: FixedPoint,
    ) -> Result<bool, OrbitalError> {
        match sum_sq_dist(self.radius, self.active(reserves)) {
            Err(e) => Err(e),
            Ok(lhs) => match self.radius.mul_result(self.radius) {
                Err(e) => Err(e),
                Ok(rhs) => Ok(int_abs(lhs.raw - rhs.raw) <= epsilon.raw),
            },
        }
    }

    /// Create a new Sphere from total liquidity and asset count
    pub fn new(total_liquidity: FixedPoint, n: u8) -> (r: Result<Self, OrbitalError>)
        ensures
            r == Self::new_result(total_liquidity, n),
    {
        if !(n >= 2 && (n as usize) <= MAX_ASSETS) {
            return Err(OrbitalError::InvalidAssetCount);
        }
        // r = Total Liquidity / n
        // Each asset contributes equally at the equal price point
        let n_fp = FixedPoint::from_int(n as i64);
        match total_liquidity.checked_div(n_fp) {
            Err(e) => Err(e),
            Ok(radius) => Ok(Self { radius, n }),
        }
    }

    /// r² — radius squared
    pub fn radius_squared(&self) -> (r: Result<FixedPoint, OrbitalError>)
        ensures
            r == self.radius.mul_result(self.radius),
            r matches Ok(s) ==> s.raw >= 0,
    {
        self.radius.squared()
    }

    /// Equal price point: q = r(1 - 1/√n) for each dimension
    pub fn equal_price_point(&self) -> (r: Result<FixedPoint, OrbitalError>)
        ensures
            r == equal_price_point_result(self.radius, self.n),
    {
        let n_fp = FixedPoint::from_int(self.n as i64);
        let sqrt_n = match n_fp.sqrt() {
            Err(e) => return Err(e),
            Ok(s) => s,
        };
        let one = FixedPoint::one();
        let ratio = match one.checked_div(sqrt_n) {
            Err(e) => return Err(e),
            Ok(v) => v,
        };
        let factor = match one.checked_sub(ratio) {
            Err(e) => return Err(e),
            Ok(v) => v,
        };
        self.radius.checked_mul(factor)
    }

    /// Compute Σ(r - xᵢ)² from reserve vector
    /// This is ||r⃗ - x⃗||² where r⃗ = (r, r, ..., r)
    pub fn distance_squared(&self, reserves: &[FixedPoint]) -> (r: Result<
        FixedPoint,
        OrbitalError,
    >)
        ensures
            r == sum_sq_dist(self.radius, self.active(reserves@)),
            r matches Ok(s) ==> s.raw >= 0,
    {
        let count: usize = if (self.n as usize) < reserves.len() {
            self.n as usize
        } else {
            reserves.len()
        };
        let ghost xs = self.active(reserves@);
        let mut sum = FixedPoint::zero();
        let mut i: usize = 0;
        proof {
            assert(xs.take(0) =~= Seq::<FixedPoint>::empty());
        }
        while i < count
            invariant
                count <= reserves.len(),
                xs == reserves@.take(count as int),
                xs == self.active(reserves@),
                0 <= i <= count,
                sum_sq_dist(self.radius, xs.take(i as int)) == Ok::<FixedPoint, OrbitalError>(
                    sum,
                ),
            decreases count - i,
        {
            let ghost prev = xs.take(i as int);
            proof {
                assert(xs.take(i + 1).drop_last() =~= prev);
                assert(xs.take(i + 1).last() == reserves@[i as int]);
            }
            let diff = match self.radius.checked_sub(reserves[i]) {
                Err(e) => {
                    proof {
                        assert(sum_sq_dist(self.radius, xs.take(i + 1)) == Err::<
                            FixedPoint,
                            OrbitalError,
                        >(e));
                        lemma_sum_sq_dist_err_persists(self.radius, xs, i + 1, count as int);
                        assert(xs.take(count as int) =~= xs);
                    }
                    return Err(e);
                },
                Ok(d) => d,
            };
            let sq = match diff.squared() {
                Err(e) => {
                    proof {
                        assert(sum_sq_dist(self.radius, xs.take(i + 1)) == Err::<
                            FixedPoint,
                            OrbitalError,
                        >(e));
                        lemma_sum_sq_dist_err_persists(self.radius, xs, i + 1, count as int);
                        assert(xs.take(count as int) =~= xs);
                    }
                    return Err(e);
                },
                Ok(s) => s,
            };
            sum = match sum.checked_add(sq) {
                Err(e) => {
                    proof {
                        assert(sum_sq_dist(self.radius, xs.take(i + 1)) == Err::<
                            FixedPoint,
                            OrbitalError,
                        >(e));
                        lemma_sum_sq_dist_err_persists(self.radius, xs, i + 1, count as int);
                        assert(xs.take(count as int) =~= xs);
                    }
                    return Err(e);
                },
                Ok(s) => s,
            };
            i = i + 1;
        }
        proof {
            assert(xs.take(count as int) =~= xs);
            lemma_sum_sq_dist_nonneg(self.radius, xs);
        }
        Ok(sum)
    }

    /// Verify the sphere invariant: ||r⃗ - x⃗||² = r² (within epsilon)
    pub fn verify_invariant(&self, reserves: &[FixedPoint], epsilon: FixedPoint) -> (r: Result<
        bool,
        OrbitalError,
    >)
        ensures
            r == self.verify_result(reserves@, epsilon),
    {
        let lhs = match self.distance_squared(reserves) {
            Err(e) => return Err(e),
            Ok(v) => v,
        };
        let rhs = match self.radius_squared() {
            Err(e) => return Err(e),
            Ok(v) => v,
        };
        Ok(lhs.approx_eq(rhs, epsilon))
    }
}

/// The equal price point q is where every coordinate sits at distance r/√n
/// from the centre: (r - q)·√n = r, up to rounding. With t = ⌊√n·2^64⌋ (raw
/// √n) and a non-negative radius, a successful q satisfies
/// -r·t <= 2^64·((r - q)·t - r·2^64) < 2^64·t on raw values.
pub proof fn lemma_equal_price_point_distance(radius: FixedPoint, n: u8)
    ensures
        equal_price_point_result(radius, n) matches Ok(q) ==> (radius.raw >= 0 ==> {
            let s = SCALE as int;
            let r = radius.raw as int;
            let t = isqrt(n * s * s);
            &&& -(r * t) <= s * ((r - q.raw) * t - r * s)
            &&& s * ((r - q.raw) * t - r * s) < s * t
        }),
{
    if let Ok(q) = equal_price_point_result(radius, n) {
        if radius.raw >= 0 {
            let s: int = SCALE as int;
            let r: int = radius.raw as int;
            let m: int = n * s * s;
            assert(fp_int(n as int).raw == n * s);
            assert(m >= 0) by (nonlinear_arith)
                requires
                    m == n * s * s,
                    n >= 0,
                    s > 0,
            ;
            lemma_isqrt_floor(m);
            let t = isqrt(m);
            assert(s == 0x1_0000_0000_0000_0000);
            assert(t <= 16 * s) by (nonlinear_arith)
                requires
                    is_floor_sqrt(m, t),
                    m == n * s * s,
                    n <= 255,
                    s > 0,
            {
                if t > 16 * s {
                    assert(t * t > (16 * s) * (16 * s));
                }
            }
            assert((n * s) * s == m);
            assert(t != 0);
            assert(t > 0);
            // ratio = ⌊s·s / t⌋, factor = s - ratio, q = ⌊r·factor / s⌋
            let ratio: int = (s * s) / t;
            crate::math::newton::lemma_floor_bracket(s * s, t);
            assert(fp_int(1).raw == s);
            let factor: int = s - ratio;
            assert(q.raw == (r * factor) / s);
            crate::math::newton::lemma_floor_bracket(r * factor, s);
            // s·(r - q) lies in [r·ratio, r·ratio + s)
            assert(s * (r - q.raw) >= r * ratio && s * (r - q.raw) < r * ratio + s) by (nonlinear_arith)
                requires
                    s * q.raw <= r * factor < s * q.raw + s,
                    factor == s - ratio,
            ;
            assert(r * (t * ratio) <= r * (s * s) && r * (s * s) - r * t <= r * (t * ratio)) by (nonlinear_arith)
                requires
                    t * ratio <= s * s < t * ratio + t,
                    r >= 0,
            ;
            assert(-(r * t) <= s * ((r - q.raw) * t - r * s) < s * t) by (nonlinear_arith)
                requires
                    s * (r - q.raw) >= r * ratio,
                    s * (r - q.raw) < r * ratio + s,
                    r * (t * ratio) <= r * (s * s),
                    r * (s * s) - r * t <= r * (t * ratio),
                    t > 0,
            {
                assert((s * (r - q.raw)) * t >= (r * ratio) * t);
                assert((s * (r - q.raw)) * t < (r * ratio + s) * t);
            }
        }
    }
}

} // verus!
