//! Accounts as the matcher sees them.
use vstd::prelude::*;

use solana_program::pubkey::Pubkey;

verus! {

/// `solana_program`'s 32-byte account address, carried without looking inside.
#[verifier::external_type_specification]
#[verifier::external_body]
pub struct ExPubkey(solana_program::pubkey::Pubkey);

/// The address that `Pubkey::new_from_array` makes of 32 bytes.
pub uninterp spec fn pubkey_of(bytes: Seq<u8>) -> Pubkey;

/// Calls `Pubkey::new_from_array`. Trusted: the address depends on the 32 bytes
/// alone.
#[verifier::external_body]
pub(crate) fn pubkey_from_bytes(bytes: [u8; 32]) -> (r: Pubkey)
    ensures
        r == pubkey_of(bytes@),
{
    Pubkey::new_from_array(bytes)
}

/// Calls `Pubkey::to_bytes`. Trusted: it gives back the 32 bytes that make the
/// address, and no other 32 bytes make it.
#[verifier::external_body]
fn pubkey_to_bytes(key: &Pubkey) -> (r: [u8; 32])
    ensures
        pubkey_of(r@) == *key,
        forall|b: Seq<u8>| b.len() == 32 && #[trigger] pubkey_of(b) == *key ==> b == r@,
{
    key.to_bytes()
}

/// An account that an instruction names: its address, the program that owns it,
/// what the transaction grants it, and its data.
#[derive(Debug)]
pub struct Account {
    pub key: [u8; 32],
    pub owner: [u8; 32],
    pub is_signer: bool,
    pub is_writable: bool,
    pub data: Vec<u8>,
}

impl Account {
    /// An account with the given address and owner.
    pub fn new(key: &Pubkey, is_signer: bool, is_writable: bool, data: Vec<u8>, owner: &Pubkey) -> (r:
        Self)
        ensures
            pubkey_of(r.key@) == *key,
            forall|b: Seq<u8>| b.len() == 32 && #[trigger] pubkey_of(b) == *key ==> b == r.key@,
            pubkey_of(r.owner@) == *owner,
            forall|b: Seq<u8>| b.len() == 32 && #[trigger] pubkey_of(b) == *owner ==> b == r.owner@,
            r.is_signer == is_signer,
            r.is_writable == is_writable,
            r.data == data,
    {
        Account {
            key: pubkey_to_bytes(key),
            owner: pubkey_to_bytes(owner),
            is_signer,
            is_writable,
            data,
        }
    }
}

/// Compares two addresses byte by byte.
pub(crate) fn same_bytes(a: &[u8; 32], b: &[u8; 32]) -> (r: bool)
    ensures
        r == (a@ == b@),
{
    let mut i: usize = 0;
    while i < 32
        invariant
            i <= 32,
            forall|j: int| 0 <= j < i ==> a@[j] == b@[j],
        decreases 32 - i,
    {
        if a[i] != b[i] {
            return false;
        }
        i = i + 1;
    }
    assert(a@ =~= b@);
    true
}

} // verus!
