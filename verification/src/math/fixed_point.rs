//! Q64.64 Fixed-Point Arithmetic
//!
//! i128-backed fixed-point number with 64 integer bits and 64 fractional bits:
//! a value `v` is stored as `raw = v * 2^64`. Every arithmetic operation is
//! checked: a result that does not fit is an error, never a silent wrap.
use crate::errors::OrbitalError;
use crate::math::wide::{int_abs, is_floor_sqrt, isqrt, lemma_isqrt_is, lemma_neg_floor_div, magnitude, mul_shr64, shl64_div, isqrt_shl64, TWO_POW_127};
use vstd::arithmetic::div_mod::*;
use vstd::arithmetic::mul::*;
use vstd::prelude::*;

verus! {

/// Number of fractional bits in Q64.64 representation
pub const FRAC_BITS: u32 = 64;

/// The scaling factor: 2^64
pub const SCALE: i128 = 0x1_0000_0000_0000_0000;

/// Whether an integer fits in `i128`.
pub open spec fn fits_i128(x: int) -> bool {
    i128::MIN <= x <= i128::MAX
}

/// The raw Q64.64 product of two raw values: `floor(a * b / 2^64)`.
pub open spec fn mul_floor(a: int, b: int) -> int {
    (a * b) / (SCALE as int)
}

/// Division rounding toward zero, as Rust's integer `/` does.
pub open spec fn trunc_div(x: int, y: int) -> int {
    let q = int_abs(x) / int_abs(y);
    if (x < 0) != (y < 0) {
        -q
    } else {
        q
    }
}

/// The fixed-point number with raw value `x` (taken modulo 2^128 when it does not fit).
pub open spec fn fp_raw(x: int) -> FixedPoint {
    FixedPoint { raw: x as i128 }
}

/// A raw result that must fit in `i128`, else `MathOverflow`.
pub open spec fn checked_raw(x: int) -> Result<FixedPoint, OrbitalError> {
    if fits_i128(x) {
        Ok(FixedPoint { raw: x as i128 })
    } else {
        Err(OrbitalError::MathOverflow)
    }
}

/// Q64.64 fixed-point number backed by i128
#[derive(Clone, Copy, PartialEq, Eq, PartialOrd, Ord, Debug, Structural)]
pub struct FixedPoint {
    /// Raw i128 value in Q64.64 format. Actual value = raw / 2^64
    pub raw: i128,
}

impl FixedPoint {
    /// Result of `checked_add`: the exact sum, if it fits.
    pub open spec fn add_result(self, rhs: FixedPoint) -> Result<FixedPoint, OrbitalError> {
        checked_raw(self.raw + rhs.raw)
    }

    /// Result of `checked_sub`: the exact difference, if it fits.
    pub open spec fn sub_result(self, rhs: FixedPoint) -> Result<FixedPoint, OrbitalError> {
        checked_raw(self.raw - rhs.raw)
    }

    /// Result of `checked_mul`: `(a * b) >> 64`, if it fits.
    pub open spec fn mul_result(self, rhs: FixedPoint) -> Result<FixedPoint, OrbitalError> {
        checked_raw(mul_floor(self.raw as int, rhs.raw as int))
    }

    /// Result of `checked_div`: `(a << 64) / b` rounded toward zero, if `b != 0`
    /// and the quotient fits.
    pub open spec fn div_result(self, rhs: FixedPoint) -> Result<FixedPoint, OrbitalError> {
        if rhs.raw == 0 {
            Err(OrbitalError::DivisionByZero)
        } else {
            checked_raw(trunc_div(self.raw * (SCALE as int), rhs.raw as int))
        }
    }

    /// Result of `sqrt`: the largest Q64.64 value whose square does not exceed `self`.
    pub open spec fn sqrt_result(self) -> Result<FixedPoint, OrbitalError> {
        if self.raw < 0 {
            Err(OrbitalError::SqrtNegative)
        } else {
            Ok(FixedPoint { raw: isqrt(self.raw * (SCALE as int)) as i128 })
        }
    }

    /// Result of `to_u64`: the integer part of a non-negative value.
    pub open spec fn to_u64_result(self) -> Result<u64, OrbitalError> {
        if self.raw < 0 {
            Err(OrbitalError::MathOverflow)
        } else {
            Ok(((self.raw as int) / (SCALE as int)) as u64)
        }
    }

    /// The raw value of an integer `n`.
    pub open spec fn int_raw(n: int) -> int {
        n * (SCALE as int)
    }

    // ── Constructors ──

    /// Create from raw i128 value (already in Q64.64 format)
    pub fn from_raw(raw: i128) -> (r: Self)
        ensures
            r.raw == raw,
    {
        Self { raw }
    }

    /// Zero
    pub fn zero() -> (r: Self)
        ensures
            r.raw == 0,
    {
        Self { raw: 0 }
    }

    /// One (1.0 in Q64.64)
    pub fn one() -> (r: Self)
        ensures
            r.raw == SCALE,
    {
        Self { raw: SCALE }
    }

    /// Create from integer
    pub fn from_int(n: i64) -> (r: Self)
        ensures
            r.raw == Self::int_raw(n as int),
    {
        Self { raw: (n as i128) * SCALE }
    }

    /// Create from u64 (common for Solana token amounts).
    ///
    /// Like a shift by 64 bits, amounts of 2^63 and above wrap around into
    /// the negative range; `checked_from_u64` rejects them instead.
    pub fn from_u64(n: u64) -> (r: Self)
        ensures
            r.raw == if n < 0x8000_0000_0000_0000u64 {
                Self::int_raw(n as int)
            } else {
                Self::int_raw(n as int) - 0x1_0000_0000_0000_0000_0000_0000_0000_0000
            },
    {
        if n < 0x8000_0000_0000_0000u64 {
            Self { raw: (n as i128) * SCALE }
        } else {
            Self { raw: ((n as i128) - SCALE) * SCALE }
        }
    }

    /// Create from u64, rejecting amounts whose Q64.64 value does not fit.
    pub fn checked_from_u64(n: u64) -> (r: Result<Self, OrbitalError>)
        ensures
            r == checked_raw(Self::int_raw(n as int)),
    {
        if n < 0x8000_0000_0000_0000u64 {
            Ok(Self { raw: (n as i128) * SCALE })
        } else {
            Err(OrbitalError::MathOverflow)
        }
    }

    /// Create from a fraction (numerator / denominator)
    pub fn from_fraction(num: i64, den: i64) -> (r: Result<Self, OrbitalError>)
        requires
            !(num == i64::MIN && den == -1),
        ensures
            r == (if den == 0 {
                Err(OrbitalError::DivisionByZero)
            } else {
                Ok(FixedPoint { raw: trunc_div(num * (SCALE as int), den as int) as i128 })
            }),
    {
        let q = Self::from_raw(num as i128).checked_div(Self::from_raw(den as i128));
        proof {
            if den != 0 {
                let x = num * (SCALE as int);
                let d = den as int;
                assert(int_abs(x) == int_abs(num as int) * (SCALE as int)) by (nonlinear_arith)
                    requires
                        x == num * (SCALE as int),
                ;
                assert(int_abs(num as int) <= 0x8000_0000_0000_0000);
                assert(int_abs(d) >= 1);
                lemma_div_is_ordered_by_denominator(int_abs(x), 1, int_abs(d));
                lemma_div_basics(int_abs(x));
                assert(int_abs(x) <= 0x8000_0000_0000_0000 * (SCALE as int)) by (nonlinear_arith)
                    requires
                        int_abs(x) == int_abs(num as int) * (SCALE as int),
                        int_abs(num as int) <= 0x8000_0000_0000_0000,
                ;
                if int_abs(x) / int_abs(d) == 0x8000_0000_0000_0000 * (SCALE as int) {
                    // only -2^127 / -1 reaches the bound, and it is excluded
                    assert(int_abs(num as int) == 0x8000_0000_0000_0000) by (nonlinear_arith)
                        requires
                            int_abs(x) == int_abs(num as int) * (SCALE as int),
                            int_abs(x) <= 0x8000_0000_0000_0000 * (SCALE as int),
                            int_abs(x) / int_abs(d) == int_abs(x),
                            int_abs(x) / int_abs(d) == 0x8000_0000_0000_0000 * (SCALE as int),
                            SCALE as int > 0,
                    ;
                    assert(int_abs(d) == 1) by {
                        if int_abs(d) >= 2 {
                            lemma_div_is_ordered_by_denominator(int_abs(x), 2, int_abs(d));
                            lemma_fundamental_div_mod(int_abs(x), 2);
                            lemma_mod_bound(int_abs(x), 2);
                        }
                    }
                    assert(num < 0);
                }
            }
        }
        q
    }

    // ── Arithmetic Operations ──

    /// Checked addition
    pub fn checked_add(self, rhs: Self) -> (r: Result<Self, OrbitalError>)
        ensures
            r == self.add_result(rhs),
    {
        match self.raw.checked_add(rhs.raw) {
            Some(v) => Ok(Self::from_raw(v)),
            None => Err(OrbitalError::MathOverflow),
        }
    }

    /// Checked subtraction
    pub fn checked_sub(self, rhs: Self) -> (r: Result<Self, OrbitalError>)
        ensures
            r == self.sub_result(rhs),
    {
        match self.raw.checked_sub(rhs.raw) {
            Some(v) => Ok(Self::from_raw(v)),
            None => Err(OrbitalError::MathOverflow),
        }
    }

    /// Checked multiplication: (a * b) >> 64
    pub fn checked_mul(self, rhs: Self) -> (r: Result<Self, OrbitalError>)
        ensures
            r == self.mul_result(rhs),
    {
        let negative = (self.raw < 0) != (rhs.raw < 0);
        let ua = magnitude(self.raw);
        let ub = magnitude(rhs.raw);
        let ghost m = SCALE as int;
        let ghost p = ua * ub;
        proof {
            assert(self.raw * rhs.raw == if negative { -p } else { p }) by (nonlinear_arith)
                requires
                    ua == int_abs(self.raw as int),
                    ub == int_abs(rhs.raw as int),
                    p == ua * ub,
                    negative == ((self.raw < 0) != (rhs.raw < 0)),
            ;
            assert(p >= 0) by (nonlinear_arith)
                requires
                    p == ua * ub,
                    ua >= 0,
                    ub >= 0,
            ;
            lemma_neg_floor_div(p, m);
            lemma_div_pos_is_pos(p, m);
        }
        match mul_shr64(ua, ub) {
            None => Err(OrbitalError::MathOverflow),
            Some((q, inexact)) => {
                if !negative {
                    if q <= 0x7fff_ffff_ffff_ffff_ffff_ffff_ffff_ffffu128 {
                        Ok(Self::from_raw(q as i128))
                    } else {
                        Err(OrbitalError::MathOverflow)
                    }
                } else if q > TWO_POW_127 {
                    Err(OrbitalError::MathOverflow)
                } else {
                    let mq: u128 = if inexact {
                        q + 1
                    } else {
                        q
                    };
                    if mq == TWO_POW_127 {
                        Ok(Self::from_raw(i128::MIN))
                    } else if mq < TWO_POW_127 {
                        Ok(Self::from_raw(-(mq as i128)))
                    } else {
                        Err(OrbitalError::MathOverflow)
                    }
                }
            },
        }
    }

    /// Checked division: (a << 64) / b
    pub fn checked_div(self, rhs: Self) -> (r: Result<Self, OrbitalError>)
        ensures
            r == self.div_result(rhs),
    {
        if rhs.raw == 0 {
            return Err(OrbitalError::DivisionByZero);
        }
        let negative = (self.raw < 0) != (rhs.raw < 0);
        let ua = magnitude(self.raw);
        let ub = magnitude(rhs.raw);
        let ghost m = SCALE as int;
        proof {
            let x = self.raw * m;
            assert(int_abs(x) == ua * m && ((x < 0) == (self.raw < 0))) by (nonlinear_arith)
                requires
                    x == self.raw * m,
                    ua == int_abs(self.raw as int),
                    m > 0,
            ;
        }
        match shl64_div(ua, ub) {
            None => Err(OrbitalError::MathOverflow),
            Some(q) => {
                if !negative {
                    if q <= 0x7fff_ffff_ffff_ffff_ffff_ffff_ffff_ffffu128 {
                        Ok(Self::from_raw(q as i128))
                    } else {
                        Err(OrbitalError::MathOverflow)
                    }
                } else if q == TWO_POW_127 {
                    Ok(Self::from_raw(i128::MIN))
                } else if q < TWO_POW_127 {
                    Ok(Self::from_raw(-(q as i128)))
                } else {
                    Err(OrbitalError::MathOverflow)
                }
            },
        }
    }

    // ── Math Functions ──

    /// Absolute value
    pub fn abs(self) -> (r: Self)
        requires
            self.raw != i128::MIN,
        ensures
            r.raw == int_abs(self.raw as int),
    {
        if self.raw < 0 {
            Self::from_raw(-self.raw)
        } else {
            self
        }
    }

    /// Check if approximately equal within epsilon
    pub fn approx_eq(self, other: Self, epsilon: Self) -> (r: bool)
        requires
            int_abs(self.raw - other.raw) <= i128::MAX,
        ensures
            r == (int_abs(self.raw - other.raw) <= epsilon.raw),
    {
        let diff = if self.raw > other.raw {
            self.raw - other.raw
        } else {
            other.raw - self.raw
        };
        diff <= epsilon.raw
    }

    /// Square: x * x
    pub fn squared(self) -> (r: Result<Self, OrbitalError>)
        ensures
            r == self.mul_result(self),
            r matches Ok(s) ==> s.raw >= 0,
    {
        proof {
            assert(self.raw * self.raw >= 0) by (nonlinear_arith);
            lemma_div_pos_is_pos(self.raw * self.raw, SCALE as int);
        }
        self.checked_mul(self)
    }

    /// Square root: the largest Q64.64 value whose square does not exceed `self`,
    /// i.e. the integer square root of `raw << 64`.
    pub fn sqrt(self) -> (r: Result<Self, OrbitalError>)
        ensures
            r == self.sqrt_result(),
            r matches Ok(s) ==> is_floor_sqrt(self.raw * (SCALE as int), s.raw as int),
    {
        if self.raw < 0 {
            return Err(OrbitalError::SqrtNegative);
        }
        if self.raw == 0 {
            proof {
                assert(is_floor_sqrt(0, 0));
                lemma_isqrt_is(0, 0);
            }
            return Ok(Self::zero());
        }
        let root = isqrt_shl64(self.raw as u128);
        proof {
            let n = self.raw * (SCALE as int);
            lemma_isqrt_is(n, root as int);
            assert(root <= i128::MAX) by (nonlinear_arith)
                requires
                    root * root <= n,
                    n == self.raw * (SCALE as int),
                    self.raw <= i128::MAX,
                    SCALE as int == 0x1_0000_0000_0000_0000,
                    root >= 0,
            ;
        }
        Ok(Self::from_raw(root as i128))
    }

    /// Clamp value between min and max
    pub fn clamp(self, min: Self, max: Self) -> (r: Self)
        ensures
            r == (if self.raw < min.raw {
                min
            } else if self.raw > max.raw {
                max
            } else {
                self
            }),
    {
        if self.raw < min.raw {
            min
        } else if self.raw > max.raw {
            max
        } else {
            self
        }
    }

    /// Convert back to u64 (truncates fractional part)
    pub fn to_u64(self) -> (r: Result<u64, OrbitalError>)
        ensures
            r == self.to_u64_result(),
    {
        if self.raw < 0 {
            return Err(OrbitalError::MathOverflow);
        }
        let q = (self.raw as u128) / (SCALE as u128);
        proof {
            assert(q < 0x8000_0000_0000_0000) by (nonlinear_arith)
                requires
                    q == (self.raw as int) / 0x1_0000_0000_0000_0000int,
                    0 <= self.raw <= i128::MAX,
            ;
        }
        Ok(q as u64)
    }

    /// Check if value is positive
    pub fn is_positive(self) -> (r: bool)
        ensures
            r == (self.raw > 0),
    {
        self.raw > 0
    }

    /// Check if value is negative
    pub fn is_negative(self) -> (r: bool)
        ensures
            r == (self.raw < 0),
    {
        self.raw < 0
    }

    /// Check if value is zero
    pub fn is_zero(self) -> (r: bool)
        ensures
            r == (self.raw == 0),
    {
        self.raw == 0
    }

    /// Negate
    pub fn neg(self) -> (r: Self)
        requires
            self.raw != i128::MIN,
        ensures
            r.raw == -self.raw,
    {
        Self::from_raw(-self.raw)
    }

    /// Min of two values
    pub fn min(self, other: Self) -> (r: Self)
        ensures
            r == (if self.raw <= other.raw {
                self
            } else {
                other
            }),
    {
        if self.raw <= other.raw {
            self
        } else {
            other
        }
    }

    /// Max of two values
    pub fn max(self, other: Self) -> (r: Self)
        ensures
            r == (if self.raw >= other.raw {
                self
            } else {
                other
            }),
    {
        if self.raw >= other.raw {
            self
        } else {
            other
        }
    }
}

impl Default for FixedPoint {
    fn default() -> (r: Self)
        ensures
            r.raw == 0,
    {
        FixedPoint { raw: 0 }
    }
}

// ── Laws ──

/// Adding then subtracting the same amount gives back the starting value.
pub proof fn lemma_add_then_sub(a: FixedPoint, b: FixedPoint)
    ensures
        a.add_result(b) matches Ok(c) ==> c.sub_result(b) == Ok::<FixedPoint, OrbitalError>(a),
{
}

/// One is the identity of multiplication: x * 1 == x exactly.
pub proof fn lemma_mul_by_one(a: FixedPoint)
    ensures
        a.mul_result(fp_raw(SCALE as int)) == Ok::<FixedPoint, OrbitalError>(a),
{
    let s = SCALE as int;
    lemma_div_multiples_vanish(a.raw as int, s);
}

/// One is the identity of division: x / 1 == x exactly.
pub proof fn lemma_div_by_one(a: FixedPoint)
    ensures
        a.div_result(fp_raw(SCALE as int)) == Ok::<FixedPoint, OrbitalError>(a),
{
    let s = SCALE as int;
    let x = a.raw * s;
    assert(int_abs(x) == int_abs(a.raw as int) * s) by (nonlinear_arith)
        requires
            x == a.raw * s,
            s > 0,
    ;
    lemma_div_by_multiple(int_abs(a.raw as int), s);
}

/// Integers multiply exactly: from_int(x) * from_int(y) == from_int(x * y)
/// whenever the product fits.
pub proof fn lemma_int_mul_exact(x: int, y: int)
    requires
        fits_i128(x * (SCALE as int)),
        fits_i128(y * (SCALE as int)),
    ensures
        fp_raw(x * (SCALE as int)).mul_result(fp_raw(y * (SCALE as int))) == checked_raw(FixedPoint::int_raw(x * y)),
{
    let s = SCALE as int;
    assert((x * s) * (y * s) == (x * y * s) * s) by (nonlinear_arith);
    lemma_div_multiples_vanish(x * y * s, s);
}

/// Integers divide exactly when the divisor divides the dividend:
/// from_int(q * y) / from_int(y) == from_int(q).
pub proof fn lemma_int_div_exact(q: int, y: int)
    requires
        y != 0,
        fits_i128(q * y * (SCALE as int)),
        fits_i128(y * (SCALE as int)),
    ensures
        fp_raw(q * y * (SCALE as int)).div_result(fp_raw(y * (SCALE as int))) == checked_raw(FixedPoint::int_raw(q)),
{
    let s = SCALE as int;
    let x = q * y * s * s;
    let d = y * s;
    assert(int_abs(x) == (int_abs(q) * s) * int_abs(d)) by (nonlinear_arith)
        requires
            x == q * y * s * s,
            d == y * s,
            s > 0,
    ;
    assert(int_abs(d) > 0) by (nonlinear_arith)
        requires
            d == y * s,
            y != 0,
            s > 0,
    ;
    lemma_div_by_multiple(int_abs(q) * s, int_abs(d));
    if q != 0 {
        assert(((x < 0) != (d < 0)) == (q < 0)) by (nonlinear_arith)
            requires
                x == q * y * s * s,
                d == y * s,
                y != 0,
                q != 0,
                s > 0,
        ;
    }
    assert(q * y * s * s == (q * y * s) * s) by (nonlinear_arith);
}

/// The square root of a perfect square is exact: sqrt(from_int(k²)) == from_int(k).
pub proof fn lemma_sqrt_of_square(k: int)
    requires
        k >= 0,
        fits_i128(k * k * (SCALE as int)),
    ensures
        fp_raw(k * k * (SCALE as int)).sqrt_result() == checked_raw(
            FixedPoint::int_raw(k),
        ),
{
    let s = SCALE as int;
    let n = (k * k * s) * s;
    let r = k * s;
    assert(r * r == n) by (nonlinear_arith)
        requires
            n == (k * k * s) * s,
            r == k * s,
    ;
    assert(n < (r + 1) * (r + 1)) by (nonlinear_arith)
        requires
            r * r == n,
            r >= 0,
    ;
    assert(r >= 0) by (nonlinear_arith)
        requires
            r == k * s,
            k >= 0,
            s > 0,
    ;
    lemma_isqrt_is(n, r);
    assert(r <= k * k * s) by (nonlinear_arith)
        requires
            r == k * s,
            k >= 0,
            s > 0,
    ;
}

} // verus!
