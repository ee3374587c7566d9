use orbital::errors::OrbitalError;
use orbital::math::fixed_point::FixedPoint;
use orbital::state::address::Address;
use orbital::state::position::{open_position, reduce_position, TickPlacement};

fn addr(salt: u8, i: u8) -> Address {
    let mut bytes = [0u8; 32];
    bytes[0] = salt;
    bytes[1] = i;
    Address::new_from_array(bytes)
}

#[test]
fn full_range_position_spans_everything() {
    let p = open_position(2, addr(6, 6), addr(7, 7), FixedPoint::from_int(30), None, 100);
    assert_eq!(p.tick, Address::zeroed());
    assert_eq!(p.tick_lower, FixedPoint::zero());
    assert_eq!(p.tick_upper, FixedPoint::from_raw(i128::MAX));
    assert_eq!(p.liquidity, FixedPoint::from_int(30));
    assert_eq!(p.fees_earned, FixedPoint::zero());
    assert_eq!((p.created_at, p.updated_at, p.bump), (100, 100, 2));
    assert_eq!((p.pool, p.owner), (addr(6, 6), addr(7, 7)));
}

#[test]
fn tick_position_takes_the_tick_bounds() {
    let placement = TickPlacement {
        tick: addr(9, 1),
        x_min: FixedPoint::from_int(400),
        x_max: FixedPoint::from_int(1_200),
    };
    let p = open_position(2, addr(6, 6), addr(7, 7), FixedPoint::from_int(30), Some(placement), 100);
    assert_eq!(p.tick, addr(9, 1));
    assert_eq!(p.tick_lower, FixedPoint::from_int(400));
    assert_eq!(p.tick_upper, FixedPoint::from_int(1_200));
}

#[test]
fn reducing_a_position_subtracts_exactly() {
    let mut p = open_position(2, addr(6, 6), addr(7, 7), FixedPoint::from_int(30), None, 100);
    reduce_position(&mut p, FixedPoint::from_int(12), 150).unwrap();
    assert_eq!(p.liquidity, FixedPoint::from_int(18));
    assert_eq!(p.updated_at, 150);
    assert_eq!(p.created_at, 100);
    let mut q = open_position(2, addr(6, 6), addr(7, 7), FixedPoint::from_raw(i128::MIN + 1), None, 100);
    let before = q.liquidity;
    assert_eq!(reduce_position(&mut q, FixedPoint::from_int(2), 150), Err(OrbitalError::MathOverflow));
    assert_eq!(q.liquidity, before);
    assert_eq!(q.updated_at, 100);
}
