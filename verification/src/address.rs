//! Identities: accounts and contracts, named by their Stellar address.

use vstd::prelude::*;

verus! {

/// The number of characters in the text form of a Stellar address.
pub const STRKEY_LEN: usize = 56;

/// An account or a contract, named by the 56 characters of its Stellar
/// address. The ledger never looks inside an address: it only asks whether two
/// of them are the same.
#[derive(Clone, Copy, Debug, PartialEq, Eq, Hash)]
pub struct Address {
    pub strkey: [u8; STRKEY_LEN],
}

impl Address {
    /// The address with the given text form.
    pub fn new(strkey: [u8; STRKEY_LEN]) -> (address: Address)
        ensures
            address.strkey == strkey,
    {
        Address { strkey }
    }

    /// Whether `self` and `other` name the same identity.
    pub fn same_as(&self, other: &Address) -> (same: bool)
        ensures
            same == (*self == *other),
    {
        let mut i: usize = 0;
        while i < STRKEY_LEN
            invariant
                i <= STRKEY_LEN,
                forall|k: int| 0 <= k < i ==> self.strkey[k] == other.strkey[k],
            decreases STRKEY_LEN - i,
        {
            if self.strkey[i] != other.strkey[i] {
                return false;
            }
            i += 1;
        }
        assert(self.strkey =~= other.strkey);
        true
    }
}

} // verus!
