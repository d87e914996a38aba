//! The hash that addresses are derived with.

use vstd::prelude::*;

verus! {

/// The BLAKE2b digest of `input`, 256 bits wide, as `ink_env` computes it.
pub uninterp spec fn blake2_256(input: Seq<u8>) -> Seq<u8>;

/// Calls `ink_env::hash_bytes` with the hasher `ink_env::hash::Blake2x256`.
///
/// Trusted: the 32 bytes written to the output buffer are a function of the
/// input bytes alone, named `blake2_256`. Nothing is claimed of their value.
#[verifier::external_body]
pub(crate) fn hash_blake2_256(input: &Vec<u8>) -> (digest: [u8; 32])
    ensures
        digest@ == blake2_256(input@),
{
    let mut digest = [0u8; 32];
    ink_env::hash_bytes::<ink_env::hash::Blake2x256>(input.as_slice(), &mut digest);
    digest
}

} // verus!
