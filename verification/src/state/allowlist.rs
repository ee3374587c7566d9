//! Allowlist of the participants admitted to settle under a policy.
use crate::errors::OrbitalError;
use crate::state::address::Address;
use vstd::prelude::*;

verus! {

/// Most participants one allowlist can hold.
pub const MAX_ALLOWLIST_SIZE: usize = 32;

/// Size in bytes of an allowlist account, discriminator included.
pub const ALLOWLIST_STATE_SIZE: usize = 8 + 1 + 32 + 32 + 1 + (32 * MAX_ALLOWLIST_SIZE) + 64;

/// The participants admitted to settle under one policy: the first `count`
/// entries of `addresses`, in the order they hold them.
#[derive(Clone, Copy, Debug)]
pub struct AllowlistState {
    pub bump: u8,
    pub policy: Address,
    pub authority: Address,
    pub count: u8,
    pub addresses: [Address; MAX_ALLOWLIST_SIZE],
    pub _reserved: [u8; 64],
}

/// The all-zero address, which marks a free slot and an unset account.
pub open spec fn unset_address() -> Address {
    Address { bytes: [0u8;32usize] }
}

impl AllowlistState {
    /// Size in bytes of an allowlist account, discriminator included.
    pub const SIZE: usize = ALLOWLIST_STATE_SIZE;

    /// The count never exceeds the capacity.
    pub open spec fn well_formed(self) -> bool {
        self.count as usize <= MAX_ALLOWLIST_SIZE
    }

    /// The members, in order.
    pub open spec fn members(self) -> Seq<Address> {
        self.addresses@.take(self.count as int)
    }

    /// Whether `a` is the member at position `i`.
    pub open spec fn is_at(self, a: Address, i: int) -> bool {
        0 <= i < self.count && self.addresses@[i].bytes@ == a.bytes@
    }

    /// Whether `a` is a member.
    pub open spec fn holds(self, a: Address) -> bool {
        exists|i: int| self.is_at(a, i)
    }

    /// The first position at which `a` is a member.
    pub open spec fn first_position(self, a: Address) -> int {
        choose|i: int| self.is_at(a, i) && forall|j: int| 0 <= j < i ==> !self.is_at(a, j)
    }

    /// Result of `add`: `a` appended after the members, unless it is one
    /// already or the list is full.
    pub open spec fn add_result(self, a: Address) -> Result<AllowlistState, OrbitalError> {
        if self.holds(a) {
            Err(OrbitalError::AlreadyInAllowlist)
        } else if self.count as usize >= MAX_ALLOWLIST_SIZE {
            Err(OrbitalError::AllowlistFull)
        } else {
            Ok(
                AllowlistState {
                    addresses: vstd::array::spec_array_update(self.addresses, self.count as int, a),
                    count: (self.count + 1) as u8,
                    ..self
                },
            )
        }
    }

    /// Result of `remove`: the last member moved into the first slot that
    /// holds `a`, its old slot cleared and the count lowered, unless `a` is
    /// no member.
    pub open spec fn remove_result(self, a: Address) -> Result<AllowlistState, OrbitalError> {
        if !self.holds(a) {
            Err(OrbitalError::NotInAllowlist)
        } else {
            let last = self.count - 1;
            Ok(
                AllowlistState {
                    addresses: vstd::array::spec_array_update(
                        vstd::array::spec_array_update(
                            self.addresses,
                            self.first_position(a),
                            self.addresses@[last],
                        ),
                        last,
                        unset_address(),
                    ),
                    count: last as u8,
                    ..self
                },
            )
        }
    }

    /// Whether `address` is a member.
    pub fn contains(&self, address: &Address) -> (r: bool)
        requires
            self.well_formed(),
        ensures
            r == self.holds(*address),
    {
        let mut i: usize = 0;
        while i < self.count as usize
            invariant
                0 <= i <= self.count,
                self.well_formed(),
                forall|j: int| 0 <= j < i ==> !self.is_at(*address, j),
            decreases self.count - i,
        {
            if self.addresses[i].same_as(address) {
                assert(self.is_at(*address, i as int));
                return true;
            }
            i = i + 1;
        }
        false
    }

    /// Admit `address`.
    pub fn add(&mut self, address: Address) -> (r: Result<(), OrbitalError>)
        requires
            old(self).well_formed(),
        ensures
            final(self).well_formed(),
            match old(self).add_result(address) {
                Err(e) => r == Err::<(), OrbitalError>(e) && *final(self) == *old(self),
                Ok(s) => r is Ok && *final(self) == s,
            },
    {
        if self.contains(&address) {
            return Err(OrbitalError::AlreadyInAllowlist);
        }
        if self.count as usize >= MAX_ALLOWLIST_SIZE {
            return Err(OrbitalError::AllowlistFull);
        }
        self.addresses[self.count as usize] = address;
        self.count = self.count + 1;
        Ok(())
    }

    /// Withdraw `address`'s admission.
    pub fn remove(&mut self, address: &Address) -> (r: Result<(), OrbitalError>)
        requires
            old(self).well_formed(),
        ensures
            final(self).well_formed(),
            match old(self).remove_result(*address) {
                Err(e) => r == Err::<(), OrbitalError>(e) && *final(self) == *old(self),
                Ok(s) => r is Ok && *final(self) == s,
            },
    {
        let mut i: usize = 0;
        while i < self.count as usize
            invariant
                0 <= i <= self.count,
                self.well_formed(),
                *self == *old(self),
                forall|j: int| 0 <= j < i ==> !self.is_at(*address, j),
            decreases self.count - i,
        {
            if self.addresses[i].same_as(address) {
                proof {
                    let p = self.first_position(*address);
                    assert(self.is_at(*address, i as int));
                    assert(self.is_at(*address, p) && forall|j: int|
                        0 <= j < p ==> !self.is_at(*address, j));
                    if p < i {
                        assert(!self.is_at(*address, p));
                    }
                    if i < p {
                        assert(!self.is_at(*address, i as int));
                    }
                    assert(p == i);
                }
                let last = (self.count - 1) as usize;
                let moved = self.addresses[last];
                self.addresses[i] = moved;
                self.addresses[last] = Address { bytes: [0u8; 32] };
                self.count = self.count - 1;
                return Ok(());
            }
            i = i + 1;
        }
        Err(OrbitalError::NotInAllowlist)
    }
}

/// No participant is listed twice.
pub open spec fn distinct_members(al: AllowlistState) -> bool {
    forall|i: int, j: int|
        0 <= i < j < al.count ==> al.addresses@[i].bytes@ != al.addresses@[j].bytes@
}

/// Adding admits exactly the new participant: afterwards it is a member,
/// every earlier member still is, nobody else became one, and nobody is
/// listed twice.
pub proof fn lemma_add_admits(al: AllowlistState, a: Address)
    requires
        al.well_formed(),
        distinct_members(al),
    ensures
        al.add_result(a) matches Ok(s) ==> {
            &&& s.holds(a)
            &&& distinct_members(s)
            &&& forall|b: Address| b.bytes@ != a.bytes@ ==> (s.holds(b) <==> al.holds(b))
        },
{
    if let Ok(s) = al.add_result(a) {
        let n = al.count as int;
        assert(s.is_at(a, n));
        assert forall|b: Address| b.bytes@ != a.bytes@ implies (s.holds(b) <==> al.holds(b)) by {
            if s.holds(b) {
                let i = choose|i: int| s.is_at(b, i);
                assert(al.is_at(b, i));
            }
            if al.holds(b) {
                let i = choose|i: int| al.is_at(b, i);
                assert(s.is_at(b, i));
            }
        }
        assert forall|i: int, j: int| 0 <= i < j < s.count implies s.addresses@[i].bytes@
            != s.addresses@[j].bytes@ by {
            if j == n {
                assert(!al.is_at(a, i));
            }
        }
    }
}

/// Removing withdraws exactly that participant from a list that names nobody
/// twice: afterwards it is no member, every other member still is, nobody
/// else became one, and nobody is listed twice.
pub proof fn lemma_remove_withdraws(al: AllowlistState, a: Address)
    requires
        al.well_formed(),
        distinct_members(al),
    ensures
        al.remove_result(a) matches Ok(s) ==> {
            &&& !s.holds(a)
            &&& distinct_members(s)
            &&& forall|b: Address| b.bytes@ != a.bytes@ ==> (s.holds(b) <==> al.holds(b))
        },
{
    if let Ok(s) = al.remove_result(a) {
        let p = al.first_position(a);
        let last = al.count - 1;
        assert(al.is_at(a, p));
        // s's slot k < last holds al's slot k, except slot p, which holds al's last.
        assert forall|k: int| 0 <= k < s.count implies #[trigger] s.addresses@[k] == if k == p {
            al.addresses@[last]
        } else {
            al.addresses@[k]
        } by {}
        if s.holds(a) {
            let k = choose|k: int| s.is_at(a, k);
            if k == p {
                assert(al.is_at(a, last));
                assert(last != p);
            } else {
                assert(al.is_at(a, k));
            }
        }
        assert forall|b: Address| b.bytes@ != a.bytes@ implies (s.holds(b) <==> al.holds(b)) by {
            if s.holds(b) {
                let k = choose|k: int| s.is_at(b, k);
                if k == p {
                    assert(al.is_at(b, last));
                } else {
                    assert(al.is_at(b, k));
                }
            }
            if al.holds(b) {
                let k = choose|k: int| al.is_at(b, k);
                assert(k != p);
                if k == last {
                    assert(s.is_at(b, p));
                } else {
                    assert(s.is_at(b, k));
                }
            }
        }
        assert forall|i: int, j: int| 0 <= i < j < s.count implies s.addresses@[i].bytes@
            != s.addresses@[j].bytes@ by {
            let ai = if i == p { last } else { i };
            let aj = if j == p { last } else { j };
            assert(s.addresses@[i] == al.addresses@[ai]);
            assert(s.addresses@[j] == al.addresses@[aj]);
            assert(ai != aj);
            if ai < aj {
                assert(al.addresses@[ai].bytes@ != al.addresses@[aj].bytes@);
            } else {
                assert(al.addresses@[aj].bytes@ != al.addresses@[ai].bytes@);
            }
        }
    }
}

} // verus!
