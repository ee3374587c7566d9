use orbital::errors::OrbitalError;
use orbital::math::fixed_point::FixedPoint;

const S: i128 = 1i128 << 64;

#[test]
fn mul_by_one_is_identity() {
    for raw in [0i128, 1, -1, 12345 * S + 77, -(999 * S) - 3, i128::MAX, i128::MIN] {
        let x = FixedPoint::from_raw(raw);
        assert_eq!(x.checked_mul(FixedPoint::one()), Ok(x));
    }
}

#[test]
fn div_by_one_is_identity() {
    for raw in [0i128, 1, -1, 12345 * S + 77, -(999 * S) - 3, i128::MAX, i128::MIN] {
        let x = FixedPoint::from_raw(raw);
        assert_eq!(x.checked_div(FixedPoint::one()), Ok(x));
    }
}

#[test]
fn add_then_sub_round_trips() {
    let a = FixedPoint::from_raw(123_456_789_012_345);
    let b = FixedPoint::from_raw(-987_654_321);
    let c = a.checked_add(b).unwrap();
    assert_eq!(c.checked_sub(b), Ok(a));
}

#[test]
fn integers_multiply_and_divide_exactly() {
    assert_eq!(
        FixedPoint::from_int(-6).checked_mul(FixedPoint::from_int(7)),
        Ok(FixedPoint::from_int(-42))
    );
    assert_eq!(
        FixedPoint::from_int(-42).checked_div(FixedPoint::from_int(7)),
        Ok(FixedPoint::from_int(-6))
    );
    assert_eq!(
        FixedPoint::from_int(1_000_000).checked_mul(FixedPoint::from_int(1_000_000)),
        Ok(FixedPoint::from_int(1_000_000_000_000))
    );
}

#[test]
fn sqrt_of_square_is_exact() {
    assert_eq!(FixedPoint::from_int(16).sqrt(), Ok(FixedPoint::from_int(4)));
    assert_eq!(FixedPoint::from_int(9).sqrt(), Ok(FixedPoint::from_int(3)));
    assert_eq!(FixedPoint::from_int(0).sqrt(), Ok(FixedPoint::zero()));
    assert_eq!(
        FixedPoint::from_int(1_000_000_000_000).sqrt(),
        Ok(FixedPoint::from_int(1_000_000))
    );
}

#[test]
fn sqrt_is_floor_of_root() {
    // sqrt(2) in Q64.64: the largest r with r^2 <= 2 * 2^128
    let r = FixedPoint::from_int(2).sqrt().unwrap().raw as u128;
    assert_eq!(r, 26087635650665564424);
    // sqrt of the largest value stays in range
    let big = FixedPoint::from_raw(i128::MAX).sqrt().unwrap();
    assert!(big.raw > 0);
}

#[test]
fn sqrt_rejects_negative() {
    assert_eq!(FixedPoint::from_int(-1).sqrt(), Err(OrbitalError::SqrtNegative));
}

#[test]
fn mul_rounds_toward_negative_infinity() {
    // (-1 ulp) * 1 ulp = -2^-128, floored to -1 ulp
    assert_eq!(
        FixedPoint::from_raw(-1).checked_mul(FixedPoint::from_raw(1)),
        Ok(FixedPoint::from_raw(-1))
    );
    assert_eq!(
        FixedPoint::from_raw(1).checked_mul(FixedPoint::from_raw(1)),
        Ok(FixedPoint::from_raw(0))
    );
}

#[test]
fn div_rounds_toward_zero() {
    // -1 ulp / 2 = -0.5 ulp, truncated to 0
    assert_eq!(
        FixedPoint::from_raw(-1).checked_div(FixedPoint::from_int(2)),
        Ok(FixedPoint::from_raw(0))
    );
    // 1 / 3 truncates
    assert_eq!(
        FixedPoint::from_int(1).checked_div(FixedPoint::from_int(3)),
        Ok(FixedPoint::from_raw(6148914691236517205))
    );
    assert_eq!(
        FixedPoint::from_int(-1).checked_div(FixedPoint::from_int(3)),
        Ok(FixedPoint::from_raw(-6148914691236517205))
    );
}

#[test]
fn overflow_is_an_error() {
    let big = FixedPoint::from_raw(i128::MAX);
    assert_eq!(big.checked_add(FixedPoint::from_raw(1)), Err(OrbitalError::MathOverflow));
    assert_eq!(
        FixedPoint::from_raw(i128::MIN).checked_sub(FixedPoint::from_raw(1)),
        Err(OrbitalError::MathOverflow)
    );
    let two_pow_40 = FixedPoint::from_int(1i64 << 40);
    assert_eq!(two_pow_40.checked_mul(two_pow_40), Err(OrbitalError::MathOverflow));
    assert_eq!(
        FixedPoint::from_int(1i64 << 62).checked_div(FixedPoint::from_raw(1)),
        Err(OrbitalError::MathOverflow)
    );
    // exactly i128::MIN is reachable by a negative product
    assert_eq!(
        FixedPoint::from_int(-(1i64 << 62)).checked_mul(FixedPoint::from_int(2)),
        Ok(FixedPoint::from_raw(i128::MIN))
    );
}

#[test]
fn division_by_zero_is_an_error() {
    assert_eq!(
        FixedPoint::from_int(1).checked_div(FixedPoint::zero()),
        Err(OrbitalError::DivisionByZero)
    );
    assert_eq!(FixedPoint::from_fraction(1, 0), Err(OrbitalError::DivisionByZero));
}

#[test]
fn from_fraction_values() {
    assert_eq!(FixedPoint::from_fraction(1, 4), Ok(FixedPoint::from_raw(1i128 << 62)));
    assert_eq!(FixedPoint::from_fraction(-3, 2), Ok(FixedPoint::from_raw(-(3i128 << 63))));
    assert_eq!(FixedPoint::from_fraction(i64::MIN, 1), Ok(FixedPoint::from_int(i64::MIN)));
}

#[test]
fn from_u64_and_checked_from_u64() {
    assert_eq!(FixedPoint::from_u64(5), FixedPoint::from_int(5));
    assert_eq!(FixedPoint::from_u64(1u64 << 63).raw, i128::MIN);
    assert_eq!(FixedPoint::checked_from_u64(5), Ok(FixedPoint::from_int(5)));
    assert_eq!(FixedPoint::checked_from_u64(1u64 << 63), Err(OrbitalError::MathOverflow));
    assert_eq!(
        FixedPoint::checked_from_u64((1u64 << 63) - 1),
        Ok(FixedPoint::from_int(i64::MAX))
    );
}

#[test]
fn to_u64_truncates() {
    let x = FixedPoint::from_raw(7 * S + S / 2);
    assert_eq!(x.to_u64(), Ok(7));
    assert_eq!(FixedPoint::from_raw(S - 1).to_u64(), Ok(0));
    assert_eq!(FixedPoint::from_raw(-1).to_u64(), Err(OrbitalError::MathOverflow));
}

#[test]
fn ordering_helpers() {
    let a = FixedPoint::from_int(2);
    let b = FixedPoint::from_int(5);
    assert_eq!(a.min(b), a);
    assert_eq!(a.max(b), b);
    assert_eq!(FixedPoint::from_int(9).clamp(a, b), b);
    assert_eq!(FixedPoint::from_int(-9).clamp(a, b), a);
    assert_eq!(FixedPoint::from_int(3).clamp(a, b), FixedPoint::from_int(3));
    assert_eq!(a.neg(), FixedPoint::from_int(-2));
    assert_eq!(a.neg().neg(), a);
    assert!(a.is_positive() && !a.is_negative() && !a.is_zero());
    assert!(FixedPoint::zero().is_zero());
    assert!(a.neg().is_negative());
    assert_eq!(FixedPoint::default(), FixedPoint::zero());
}

#[test]
fn approx_eq_is_inclusive() {
    let a = FixedPoint::from_raw(100);
    let b = FixedPoint::from_raw(103);
    assert!(a.approx_eq(b, FixedPoint::from_raw(3)));
    assert!(b.approx_eq(a, FixedPoint::from_raw(3)));
    assert!(!a.approx_eq(b, FixedPoint::from_raw(2)));
}

#[test]
fn squared_values() {
    assert_eq!(FixedPoint::from_int(-3).squared(), Ok(FixedPoint::from_int(9)));
    assert_eq!(
        FixedPoint::from_int(1i64 << 32).squared(),
        Err(OrbitalError::MathOverflow)
    );
}
