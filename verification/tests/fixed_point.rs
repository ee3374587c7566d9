use orbital::math::fixed_point::FixedPoint;

#[test]
fn test_from_int() {
    let a = FixedPoint::from_int(5);
    assert_eq!(a.raw, 5i128 << 64);
}

#[test]
fn test_one() {
    let one = FixedPoint::one();
    assert_eq!(one.raw, 1i128 << 64);
}

#[test]
fn test_add() {
    let a = FixedPoint::from_int(3);
    let b = FixedPoint::from_int(4);
    let c = a.checked_add(b).unwrap();
    assert_eq!(c, FixedPoint::from_int(7));
}

#[test]
fn test_sub() {
    let a = FixedPoint::from_int(10);
    let b = FixedPoint::from_int(3);
    let c = a.checked_sub(b).unwrap();
    assert_eq!(c, FixedPoint::from_int(7));
}

#[test]
fn test_mul() {
    let a = FixedPoint::from_int(3);
    let b = FixedPoint::from_int(4);
    let c = a.checked_mul(b).unwrap();
    assert_eq!(c, FixedPoint::from_int(12));
}

#[test]
fn test_div() {
    let a = FixedPoint::from_int(12);
    let b = FixedPoint::from_int(4);
    let c = a.checked_div(b).unwrap();
    assert_eq!(c, FixedPoint::from_int(3));
}

#[test]
fn test_sqrt_perfect() {
    let a = FixedPoint::from_int(9);
    let root = a.sqrt().unwrap();
    let three = FixedPoint::from_int(3);
    let epsilon = FixedPoint::from_raw(1 << 32); // ~2^-32 tolerance
    assert!(root.approx_eq(three, epsilon));
}

#[test]
fn test_negative_values() {
    let a = FixedPoint::from_int(-5);
    let b = FixedPoint::from_int(3);
    let c = a.checked_add(b).unwrap();
    assert_eq!(c, FixedPoint::from_int(-2));
}

#[test]
fn test_abs() {
    let a = FixedPoint::from_int(-7);
    assert_eq!(a.abs(), FixedPoint::from_int(7));
}
