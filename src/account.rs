//! Account identifiers and the key comparison the ledger's tables rely on.
use vstd::prelude::*;

verus! {

/// Number of bytes in an account identifier.
pub const ACCOUNT_ID_LEN: usize = 32;

/// An opaque account identifier: 32 bytes, compared for equality only.
#[derive(Clone, Copy, Debug, PartialEq, Eq, Hash)]
pub struct AccountId(pub [u8; 32]);

/// Keys that can be compared at run time with the same meaning as
/// mathematical equality.
pub trait KeyEq: Sized {
    fn same_key(&self, other: &Self) -> (r: bool)
        ensures
            r == (*self == *other),
    ;
}

impl AccountId {
    /// The identifier made of the given bytes.
    pub fn from_bytes(bytes: [u8; 32]) -> (r: AccountId)
        ensures
            r == AccountId(bytes),
    {
        AccountId(bytes)
    }

    /// The bytes of the identifier.
    pub fn to_bytes(&self) -> (r: [u8; 32])
        ensures
            r == self.0,
    {
        self.0
    }
}

impl KeyEq for AccountId {
    fn same_key(&self, other: &Self) -> (r: bool) {
        let mut i: usize = 0;
        while i < ACCOUNT_ID_LEN
            invariant
                i <= ACCOUNT_ID_LEN,
                forall|j: int| 0 <= j < i ==> self.0@[j] == other.0@[j],
            decreases ACCOUNT_ID_LEN - i,
        {
            if self.0[i] != other.0[i] {
                return false;
            }
            i = i + 1;
        }
        assert(self.0 =~= other.0);
        true
    }
}

impl KeyEq for (AccountId, AccountId) {
    fn same_key(&self, other: &Self) -> (r: bool) {
        self.0.same_key(&other.0) && self.1.same_key(&other.1)
    }
}

} // verus!
