use orbital::errors::OrbitalError;
use orbital::instructions::manage_allowlist::{handler, AllowlistAction, ManageAllowlistParams};
use orbital::math::fixed_point::FixedPoint;
use orbital::state::address::Address;
use orbital::state::allowlist::{AllowlistState, MAX_ALLOWLIST_SIZE};
use orbital::state::policy::PolicyState;

fn addr(salt: u8, i: u8) -> Address {
    let mut bytes = [0u8; 32];
    bytes[0] = salt;
    bytes[1] = i;
    Address::new_from_array(bytes)
}

fn policy_of(authority: Address) -> PolicyState {
    PolicyState {
        bump: 0,
        authority,
        pool: addr(6, 6),
        max_trade_amount: FixedPoint::from_int(1),
        max_daily_volume: FixedPoint::from_int(1),
        current_daily_volume: FixedPoint::zero(),
        last_reset_timestamp: 0,
        is_active: true,
        created_at: 0,
        updated_at: 0,
        _reserved: [0u8; 64],
    }
}

fn fresh_account() -> AllowlistState {
    AllowlistState {
        bump: 0,
        policy: Address::zeroed(),
        authority: Address::zeroed(),
        count: 0,
        addresses: [Address::zeroed(); MAX_ALLOWLIST_SIZE],
        _reserved: [0u8; 64],
    }
}

fn act(action: AllowlistAction, address: Address) -> ManageAllowlistParams {
    ManageAllowlistParams { action, address }
}

#[test]
fn allowlist_is_set_up_on_first_use_and_admits() {
    let owner = addr(5, 5);
    let policy = policy_of(owner);
    let mut list = fresh_account();
    handler(&mut list, &policy, &addr(7, 7), &owner, 3, &act(AllowlistAction::Add, addr(8, 1))).unwrap();
    assert_eq!(list.policy, addr(7, 7));
    assert_eq!(list.authority, owner);
    assert_eq!(list.bump, 3);
    assert_eq!(list.count, 1);
    assert!(list.contains(&addr(8, 1)));
    assert!(!list.contains(&addr(8, 2)));
}

#[test]
fn allowlist_refuses_duplicates_strangers_and_overflow() {
    let owner = addr(5, 5);
    let policy = policy_of(owner);
    let mut list = fresh_account();
    handler(&mut list, &policy, &addr(7, 7), &owner, 3, &act(AllowlistAction::Add, addr(8, 1))).unwrap();
    let before = list;
    assert_eq!(
        handler(&mut list, &policy, &addr(7, 7), &owner, 3, &act(AllowlistAction::Add, addr(8, 1))),
        Err(OrbitalError::AlreadyInAllowlist)
    );
    assert_eq!(
        handler(&mut list, &policy, &addr(7, 7), &addr(5, 6), 3, &act(AllowlistAction::Add, addr(8, 2))),
        Err(OrbitalError::Unauthorized)
    );
    assert_eq!(
        handler(&mut list, &policy, &addr(7, 7), &owner, 3, &act(AllowlistAction::Remove, addr(8, 9))),
        Err(OrbitalError::NotInAllowlist)
    );
    assert_eq!(list.count, before.count);
    assert_eq!(list.addresses, before.addresses);
    for i in 2..=MAX_ALLOWLIST_SIZE as u8 {
        handler(&mut list, &policy, &addr(7, 7), &owner, 3, &act(AllowlistAction::Add, addr(8, i))).unwrap();
    }
    assert_eq!(list.count as usize, MAX_ALLOWLIST_SIZE);
    assert_eq!(
        handler(&mut list, &policy, &addr(7, 7), &owner, 3, &act(AllowlistAction::Add, addr(9, 1))),
        Err(OrbitalError::AllowlistFull)
    );
}

#[test]
fn allowlist_removal_moves_the_last_member_into_the_gap() {
    let owner = addr(5, 5);
    let policy = policy_of(owner);
    let mut list = fresh_account();
    for i in 1..=3u8 {
        handler(&mut list, &policy, &addr(7, 7), &owner, 3, &act(AllowlistAction::Add, addr(8, i))).unwrap();
    }
    handler(&mut list, &policy, &addr(7, 7), &owner, 3, &act(AllowlistAction::Remove, addr(8, 1))).unwrap();
    assert_eq!(list.count, 2);
    assert_eq!(list.addresses[0], addr(8, 3));
    assert_eq!(list.addresses[1], addr(8, 2));
    assert_eq!(list.addresses[2], Address::zeroed());
    assert!(!list.contains(&addr(8, 1)));
    assert!(list.contains(&addr(8, 2)) && list.contains(&addr(8, 3)));
}

#[test]
fn refused_action_keeps_the_first_use_setup() {
    let owner = addr(5, 5);
    let policy = policy_of(owner);
    let mut list = fresh_account();
    assert_eq!(
        handler(&mut list, &policy, &addr(7, 7), &owner, 4, &act(AllowlistAction::Remove, addr(8, 1))),
        Err(OrbitalError::NotInAllowlist)
    );
    assert_eq!(list.policy, addr(7, 7));
    assert_eq!(list.bump, 4);
    assert_eq!(list.count, 0);
}
