//! Checks on the accounts an instruction is handed, and reading SPL token
//! account data (layout: mint 32 bytes, owner 32 bytes, amount 8 bytes LE, ...).
use crate::errors::OrbitalError;
use crate::math::sphere::MAX_ASSETS;
use crate::state::address::Address;
use crate::state::pool::PoolState;
use vstd::arithmetic::power2::{lemma2_to64, lemma2_to64_rest, lemma_pow2_adds, lemma_pow2_strictly_increases, pow2};
use vstd::prelude::*;

verus! {

/// Little-endian value of a byte string.
pub open spec fn le_value(bytes: Seq<u8>) -> nat
    decreases bytes.len(),
{
    if bytes.len() == 0 {
        0
    } else {
        bytes[0] as nat + 256 * le_value(bytes.drop_first())
    }
}

/// The owner field of token account data.
pub open spec fn token_owner_bytes(data: Seq<u8>) -> Seq<u8> {
    data.subrange(32, 64)
}

/// Result of `check_vault`: the account must be the pool's vault for the asset.
pub open spec fn vault_check_result(pool: PoolState, index: int, key: Address) -> Result<
    (),
    OrbitalError,
> {
    if key.bytes@ == pool.token_vaults@[index].bytes@ {
        Ok(())
    } else {
        Err(OrbitalError::InvalidVaultAddress)
    }
}

/// Result of `check_token_account_owner`.
pub open spec fn owner_check_result(data: Seq<u8>, owner: Address) -> Result<(), OrbitalError> {
    if data.len() < 64 {
        Err(OrbitalError::InvalidRemainingAccounts)
    } else if token_owner_bytes(data) != owner.bytes@ {
        Err(OrbitalError::Unauthorized)
    } else {
        Ok(())
    }
}

/// The account passed for asset `index` must be the pool's vault for it.
pub fn check_vault(pool: &PoolState, index: usize, key: &Address) -> (r: Result<(), OrbitalError>)
    requires
        index < MAX_ASSETS,
    ensures
        r == vault_check_result(*pool, index as int, *key),
{
    if key.same_as(&pool.token_vaults[index]) {
        Ok(())
    } else {
        Err(OrbitalError::InvalidVaultAddress)
    }
}

/// A token account's data must be long enough to hold an owner, and that
/// owner must be `owner`.
pub fn check_token_account_owner(data: &[u8], owner: &Address) -> (r: Result<(), OrbitalError>)
    ensures
        r == owner_check_result(data@, *owner),
{
    if data.len() < 64 {
        return Err(OrbitalError::InvalidRemainingAccounts);
    }
    let mut i: usize = 0;
    while i < 32
        invariant
            0 <= i <= 32,
            data@.len() >= 64,
            forall|j: int| 0 <= j < i ==> data@[32 + j] == owner.bytes@[j],
        decreases 32 - i,
    {
        if data[32 + i] != owner.bytes[i] {
            proof {
                assert(token_owner_bytes(data@)[i as int] != owner.bytes@[i as int]);
            }
            return Err(OrbitalError::Unauthorized);
        }
        i = i + 1;
    }
    proof {
        assert(token_owner_bytes(data@) =~= owner.bytes@);
    }
    Ok(())
}

/// The token amount held by a token account (bytes 64..72, little-endian).
pub fn token_account_amount(data: &[u8]) -> (r: u64)
    requires
        data@.len() >= 72,
    ensures
        r == le_value(data@.subrange(64, 72)),
{
    let mut acc: u64 = 0;
    let mut i: usize = 8;
    proof {
        assert(data@.subrange(72, 72) =~= Seq::<u8>::empty());
        lemma2_to64();
    }
    while i > 0
        invariant
            0 <= i <= 8,
            data@.len() >= 72,
            acc == le_value(data@.subrange(64 + i, 72)),
            acc < pow2((8 * (8 - i)) as nat),
        decreases i,
    {
        let ghost old_acc = acc;
        proof {
            lemma2_to64();
            lemma2_to64_rest();
            lemma_pow2_adds((8 * (8 - i)) as nat, 8);
            if 8 * (8 - i) < 56 {
                lemma_pow2_strictly_increases((8 * (8 - i)) as nat, 56);
            }
            assert(acc * 256 + 255 < 0x1_0000_0000_0000_0000) by (nonlinear_arith)
                requires
                    acc < pow2((8 * (8 - i)) as nat),
                    pow2((8 * (8 - i)) as nat) <= 0x100_0000_0000_0000,
            ;
        }
        acc = acc * 256 + data[63 + i] as u64;
        i = i - 1;
        proof {
            let s = data@.subrange(64 + i, 72);
            assert(s.drop_first() =~= data@.subrange(64 + i + 1, 72));
            assert(s[0] == data@[64 + i]);
            assert(acc < pow2((8 * (8 - i)) as nat)) by (nonlinear_arith)
                requires
                    acc == old_acc * 256 + data@[64 + i],
                    old_acc < pow2((8 * (8 - i - 1)) as nat),
                    pow2((8 * (8 - i)) as nat) == pow2((8 * (8 - i - 1)) as nat) * 256,
                    data@[64 + i] < 256,
            ;
        }
    }
    acc
}

} // verus!
