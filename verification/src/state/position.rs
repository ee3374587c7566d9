//! Liquidity positions: what one provider holds in a pool, full-range or in
//! one concentrated tick.
use crate::errors::OrbitalError;
use crate::math::fixed_point::FixedPoint;
use crate::state::address::Address;
use vstd::prelude::*;

verus! {

/// A provider's liquidity position.
#[derive(Clone, Copy, Debug)]
pub struct PositionState {
    pub bump: u8,
    pub pool: Address,
    pub owner: Address,
    /// The tick of a concentrated position; all zero for a full-range one.
    pub tick: Address,
    /// Lower reserve bound of the tick (zero for full range).
    pub tick_lower: FixedPoint,
    /// Upper reserve bound of the tick (the largest value for full range).
    pub tick_upper: FixedPoint,
    pub liquidity: FixedPoint,
    pub fees_earned: FixedPoint,
    pub created_at: i64,
    pub updated_at: i64,
    pub _reserved: [u8; 64],
}

/// The tick a new position goes into: its address and reserve bounds.
#[derive(Clone, Copy, Debug)]
pub struct TickPlacement {
    pub tick: Address,
    pub x_min: FixedPoint,
    pub x_max: FixedPoint,
}

/// The position `open_position` records.
pub open spec fn opened(
    bump: u8,
    pool: Address,
    owner: Address,
    liquidity: FixedPoint,
    placement: Option<TickPlacement>,
    now: i64,
) -> PositionState {
    PositionState {
        bump,
        pool,
        owner,
        tick: match placement {
            Some(p) => p.tick,
            None => Address { bytes: [0u8;32usize] },
        },
        tick_lower: match placement {
            Some(p) => p.x_min,
            None => FixedPoint { raw: 0 },
        },
        tick_upper: match placement {
            Some(p) => p.x_max,
            None => FixedPoint { raw: i128::MAX },
        },
        liquidity,
        fees_earned: FixedPoint { raw: 0 },
        created_at: now,
        updated_at: now,
        _reserved: [0u8;64usize],
    }
}

/// Record a new position of `liquidity` for `owner` in `pool` at time `now`:
/// in the given tick, with that tick's bounds, or full range (no tick, bounds
/// zero and the largest value) when there is none.
pub fn open_position(
    bump: u8,
    pool: Address,
    owner: Address,
    liquidity: FixedPoint,
    placement: Option<TickPlacement>,
    now: i64,
) -> (r: PositionState)
    ensures
        r == opened(bump, pool, owner, liquidity, placement, now),
{
    let (tick, tick_lower, tick_upper) = match placement {
        Some(p) => (p.tick, p.x_min, p.x_max),
        None => (Address { bytes: [0u8; 32] }, FixedPoint::zero(), FixedPoint::from_raw(i128::MAX)),
    };
    PositionState {
        bump,
        pool,
        owner,
        tick,
        tick_lower,
        tick_upper,
        liquidity,
        fees_earned: FixedPoint::zero(),
        created_at: now,
        updated_at: now,
        _reserved: [0u8; 64],
    }
}

/// Take `amount` of liquidity out of a position at time `now`: the liquidity
/// drops by exactly that much and the update time is `now`; when the
/// difference does not fit the position is left as it was.
pub fn reduce_position(position: &mut PositionState, amount: FixedPoint, now: i64) -> (r: Result<
    (),
    OrbitalError,
>)
    ensures
        match old(position).liquidity.sub_result(amount) {
            Err(e) => r == Err::<(), OrbitalError>(e) && *final(position) == *old(position),
            Ok(rest) => r is Ok && *final(position) == (PositionState {
                liquidity: rest,
                updated_at: now,
                ..*old(position)
            }),
        },
{
    position.liquidity = match position.liquidity.checked_sub(amount) {
        Err(e) => return Err(e),
        Ok(v) => v,
    };
    position.updated_at = now;
    Ok(())
}

} // verus!
