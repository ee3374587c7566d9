use orbital::errors::OrbitalError;
use orbital::math::fixed_point::FixedPoint;
use orbital::math::newton::compute_amount_out_analytical;
use orbital::math::sphere::Sphere;
use orbital::math::torus::{detect_tick_crossing, orthogonal_radius, CrossingDirection};

#[test]
fn sphere_new_checks_asset_count() {
    assert_eq!(
        Sphere::new(FixedPoint::from_int(300), 1).err(),
        Some(OrbitalError::InvalidAssetCount)
    );
    assert_eq!(
        Sphere::new(FixedPoint::from_int(300), 9).err(),
        Some(OrbitalError::InvalidAssetCount)
    );
    let s = Sphere::new(FixedPoint::from_int(300), 3).unwrap();
    assert_eq!(s.radius, FixedPoint::from_int(100));
    assert_eq!(s.n, 3);
    assert_eq!(s.radius_squared(), Ok(FixedPoint::from_int(10_000)));
}

#[test]
fn distance_squared_uses_first_n_reserves() {
    let s = Sphere { radius: FixedPoint::from_int(10), n: 2 };
    let reserves = [FixedPoint::from_int(7), FixedPoint::from_int(6), FixedPoint::from_int(-100)];
    // (10-7)^2 + (10-6)^2 = 25; the third reserve is not an active asset
    assert_eq!(s.distance_squared(&reserves), Ok(FixedPoint::from_int(25)));
    // fewer reserves than n: only those given count
    assert_eq!(s.distance_squared(&reserves[..1]), Ok(FixedPoint::from_int(9)));
}

#[test]
fn verify_invariant_on_a_point_of_the_sphere() {
    // r = 5, n = 2: (5-1)^2 + (5-2)^2 = 25 = r^2
    let s = Sphere { radius: FixedPoint::from_int(5), n: 2 };
    let on = [FixedPoint::from_int(1), FixedPoint::from_int(2)];
    let off = [FixedPoint::from_int(1), FixedPoint::from_int(3)];
    assert_eq!(s.verify_invariant(&on, FixedPoint::zero()), Ok(true));
    assert_eq!(s.verify_invariant(&off, FixedPoint::zero()), Ok(false));
    assert_eq!(s.verify_invariant(&off, FixedPoint::from_int(9)), Ok(true));
}

#[test]
fn equal_price_point_of_two_assets() {
    // q = r(1 - 1/√2) ≈ 0.29289 r
    let s = Sphere { radius: FixedPoint::from_int(1_000), n: 2 };
    let q = s.equal_price_point().unwrap();
    let expected = FixedPoint::from_fraction(292_893_218, 1_000_000).unwrap();
    assert!(q.approx_eq(expected, FixedPoint::from_fraction(1, 1_000).unwrap()));
}

#[test]
fn crossing_reverses() {
    let k = FixedPoint::from_int(7);
    let a = FixedPoint::from_int(10);
    let b = FixedPoint::from_int(3);
    assert_eq!(detect_tick_crossing(a, b, k), Some(CrossingDirection::InteriorToBoundary));
    assert_eq!(detect_tick_crossing(b, a, k), Some(CrossingDirection::BoundaryToInterior));
    assert_eq!(detect_tick_crossing(a, a, k), None);
    assert_eq!(detect_tick_crossing(k, k, k), None);
}

#[test]
fn orthogonal_radius_is_never_negative() {
    let sphere = Sphere { radius: FixedPoint::from_int(100), n: 3 };
    for alpha in [80i64, 100, 150, 173, 200, 250, 273] {
        if let Ok(s) = orthogonal_radius(&sphere, FixedPoint::from_int(alpha)) {
            assert!(s.raw >= 0);
        }
    }
    assert_eq!(
        orthogonal_radius(&sphere, FixedPoint::from_int(1_000)),
        Err(OrbitalError::TorusInvariantError)
    );
}

#[test]
fn analytical_output_keeps_the_pair_on_the_sphere() {
    // r = 100, two reserves at 40 and 60: a = 60, b = 40, d = 10
    // d_out = -40 + √(1600 + 1200 - 100) = -40 + √2700 ≈ 11.9615
    let sphere = Sphere { radius: FixedPoint::from_int(100), n: 2 };
    let reserves = [FixedPoint::from_int(40), FixedPoint::from_int(60)];
    let out = compute_amount_out_analytical(&sphere, &reserves, 0, 1, FixedPoint::from_int(10))
        .unwrap();
    let expected = FixedPoint::from_fraction(119_615_242, 10_000_000).unwrap();
    assert!(out.approx_eq(expected, FixedPoint::from_fraction(1, 1_000_000).unwrap()));
    // (a - d)^2 + (b + d_out)^2 stays a^2 + b^2
    let a = FixedPoint::from_int(50);
    let b = FixedPoint::from_int(40).checked_add(out).unwrap();
    let lhs = a.squared().unwrap().checked_add(b.squared().unwrap()).unwrap();
    assert!(lhs.approx_eq(FixedPoint::from_int(5_200), FixedPoint::from_fraction(1, 1_000_000).unwrap()));
    assert_eq!(
        compute_amount_out_analytical(&sphere, &reserves, 0, 2, FixedPoint::from_int(10)),
        Err(OrbitalError::InvalidTokenIndex)
    );
}
