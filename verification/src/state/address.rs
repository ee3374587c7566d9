//! Account addresses as plain 32-byte values, and program-derived addresses.
use anchor_lang::solana_program::pubkey::Pubkey;
use vstd::prelude::*;

verus! {

/// A 32-byte account address (the bytes of a public key).
#[derive(Clone, Copy, Debug, PartialEq, Eq)]
pub struct Address {
    pub bytes: [u8; 32],
}

impl Address {
    /// Wrap raw key bytes.
    pub fn new_from_array(bytes: [u8; 32]) -> (r: Address)
        ensures
            r.bytes == bytes,
    {
        Address { bytes }
    }

    /// The all-zero address, used for "no account".
    pub fn zeroed() -> (r: Address)
        ensures
            r.bytes@ == Seq::new(32, |i: int| 0u8),
    {
        let r = Address { bytes: [0u8; 32] };
        assert(r.bytes@ =~= Seq::new(32, |i: int| 0u8));
        r
    }

    /// Whether two addresses are the same account.
    pub fn same_as(&self, other: &Address) -> (r: bool)
        ensures
            r == (self.bytes@ == other.bytes@),
    {
        let mut i: usize = 0;
        while i < 32
            invariant
                0 <= i <= 32,
                forall|j: int| 0 <= j < i ==> self.bytes@[j] == other.bytes@[j],
            decreases 32 - i,
        {
            if self.bytes[i] != other.bytes[i] {
                return false;
            }
            i = i + 1;
        }
        assert(self.bytes@ =~= other.bytes@);
        true
    }
}

/// The program-derived address that `Pubkey::try_find_program_address` finds
/// for byte-string seeds and a program id, with its bump seed, or none.
pub uninterp spec fn program_address(seeds: Seq<Seq<u8>>, program_id: Seq<u8>) -> Option<(Seq<u8>, u8)>;

/// `Pubkey::try_find_program_address` (solana-pubkey) on three seeds. Its
/// result depends on the seeds and the program id alone (on-chain it is the
/// same computation behind a system call); the contract claims only that it
/// is the named program address of those arguments, converted to an `Address`.
#[verifier::external_body]
pub(crate) fn try_find_program_address(
    s0: &[u8],
    s1: &[u8],
    s2: &[u8],
    program_id: &Address,
) -> (r: Option<(Address, u8)>)
    ensures
        match program_address(seq![s0@, s1@, s2@], program_id.bytes@) {
            None => r is None,
            Some((key, bump)) => r matches Some((a, b)) && a.bytes@ == key && b == bump,
        },
{
    match Pubkey::try_find_program_address(&[s0, s1, s2], &Pubkey::new_from_array(program_id.bytes)) {
        None => None,
        Some((key, bump)) => Some((Address { bytes: key.to_bytes() }, bump)),
    }
}

} // verus!
