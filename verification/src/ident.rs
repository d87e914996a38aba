//! Fixed-size identifiers: the address of a unit and the selector of the
//! code a unit runs.

use vstd::prelude::*;

verus! {

/// The address of a unit: 32 opaque bytes.
#[derive(Clone, Copy, Debug)]
pub struct AccountId {
    pub bytes: [u8; 32],
}

/// Names the code a newly provisioned unit runs: 32 opaque bytes.
#[derive(Clone, Copy, Debug)]
pub struct CodeHash {
    pub bytes: [u8; 32],
}

/// Whether two 32-byte arrays hold the same bytes.
fn same_bytes(a: &[u8; 32], b: &[u8; 32]) -> (same: bool)
    ensures
        same == (a@ == b@),
{
    let mut i: usize = 0;
    while i < 32
        invariant
            i <= 32,
            forall|k: int| 0 <= k < i ==> a@[k] == b@[k],
        decreases 32 - i,
    {
        if a[i] != b[i] {
            return false;
        }
        i += 1;
    }
    assert(a@ =~= b@);
    true
}

impl AccountId {
    /// The bytes of the address.
    pub open spec fn view(&self) -> Seq<u8> {
        self.bytes@
    }

    /// The address with the given bytes.
    pub fn from_bytes(bytes: [u8; 32]) -> (id: Self)
        ensures
            id@ == bytes@,
    {
        AccountId { bytes }
    }

    /// The all-zero address, which marks an unset handle slot.
    pub fn unset() -> (id: Self)
        ensures
            id@ == Seq::new(32, |i: int| 0u8),
    {
        let id = AccountId { bytes: [0u8; 32] };
        assert(id@ =~= Seq::new(32, |i: int| 0u8));
        id
    }

    /// Whether `self` and `other` are the same address.
    pub fn same(&self, other: &AccountId) -> (same: bool)
        ensures
            same == (self@ == other@),
    {
        same_bytes(&self.bytes, &other.bytes)
    }
}

impl CodeHash {
    /// The bytes of the selector.
    pub open spec fn view(&self) -> Seq<u8> {
        self.bytes@
    }

    /// The selector with the given bytes.
    pub fn from_bytes(bytes: [u8; 32]) -> (code: Self)
        ensures
            code@ == bytes@,
    {
        CodeHash { bytes }
    }

    /// Whether `self` and `other` name the same code.
    pub fn same(&self, other: &CodeHash) -> (same: bool)
        ensures
            same == (self@ == other@),
    {
        same_bytes(&self.bytes, &other.bytes)
    }
}

} // verus!
