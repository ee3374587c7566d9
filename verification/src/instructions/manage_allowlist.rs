//! `manage_allowlist`: add institutional participants to a policy's
//! allowlist or remove them.
use crate::errors::OrbitalError;
use crate::state::address::Address;
use crate::state::allowlist::{unset_address, AllowlistState, MAX_ALLOWLIST_SIZE};
use crate::state::policy::PolicyState;
use vstd::prelude::*;

verus! {

/// What to do with an address.
#[derive(Clone, Copy, Debug, PartialEq, Eq, Structural)]
pub enum AllowlistAction {
    Add,
    Remove,
}

/// Parameters of `manage_allowlist`.
#[derive(Clone, Copy, Debug)]
pub struct ManageAllowlistParams {
    pub action: AllowlistAction,
    pub address: Address,
}

/// The allowlist as `handler` finds it: one whose policy is still unset is
/// a fresh account, which is first set up, empty, for `policy_key`.
pub open spec fn prepared(
    allowlist: AllowlistState,
    policy_key: Address,
    authority: Address,
    bump: u8,
) -> AllowlistState {
    if allowlist.policy.bytes@ == unset_address().bytes@ {
        AllowlistState {
            bump,
            policy: policy_key,
            authority,
            count: 0,
            addresses: [unset_address();MAX_ALLOWLIST_SIZE],
            _reserved: [0u8;64usize],
        }
    } else {
        allowlist
    }
}

/// Outcome of `handler`: the allowlist after the action, or the first check
/// that fails.
pub open spec fn manage_allowlist_result(
    allowlist: AllowlistState,
    policy: PolicyState,
    policy_key: Address,
    authority: Address,
    bump: u8,
    params: ManageAllowlistParams,
) -> Result<AllowlistState, OrbitalError> {
    if policy.authority.bytes@ != authority.bytes@ {
        Err(OrbitalError::Unauthorized)
    } else {
        let list = prepared(allowlist, policy_key, authority, bump);
        match params.action {
            AllowlistAction::Add => list.add_result(params.address),
            AllowlistAction::Remove => list.remove_result(params.address),
        }
    }
}

/// Add a participant to a policy's allowlist or remove one, as the policy's
/// authority. A fresh allowlist account (policy still unset) is set up first;
/// that setup stays when the action itself is refused.
pub fn handler(
    allowlist: &mut AllowlistState,
    policy: &PolicyState,
    policy_key: &Address,
    authority: &Address,
    bump: u8,
    params: &ManageAllowlistParams,
) -> (r: Result<(), OrbitalError>)
    requires
        old(allowlist).well_formed(),
    ensures
        final(allowlist).well_formed(),
        match manage_allowlist_result(*old(allowlist), *policy, *policy_key, *authority, bump, *params) {
            Ok(s) => r is Ok && *final(allowlist) == s,
            Err(e) => r == Err::<(), OrbitalError>(e) && *final(allowlist) == if policy.authority.bytes@
                != authority.bytes@ {
                *old(allowlist)
            } else {
                prepared(*old(allowlist), *policy_key, *authority, bump)
            },
        },
{
    if !policy.authority.same_as(authority) {
        return Err(OrbitalError::Unauthorized);
    }
    proof {
        assert(unset_address().bytes@ =~= Seq::new(32, |i: int| 0u8));
    }
    if allowlist.policy.same_as(&Address::zeroed()) {
        allowlist.bump = bump;
        allowlist.policy = *policy_key;
        allowlist.authority = *authority;
        allowlist.count = 0;
        allowlist.addresses = [Address { bytes: [0u8; 32] }; MAX_ALLOWLIST_SIZE];
        allowlist._reserved = [0u8; 64];
        proof {
            assert(allowlist.addresses@ =~= [unset_address();MAX_ALLOWLIST_SIZE]@);
            assert(allowlist._reserved@ =~= [0u8;64usize]@);
            assert(allowlist.addresses == [unset_address();MAX_ALLOWLIST_SIZE]);
            assert(allowlist._reserved == [0u8;64usize]);
        }
    }
    assert(*allowlist == prepared(*old(allowlist), *policy_key, *authority, bump));
    match params.action {
        AllowlistAction::Add => allowlist.add(params.address),
        AllowlistAction::Remove => allowlist.remove(&params.address),
    }
}

} // verus!
