use sha3::Digest;
use vstd::prelude::*;

verus! {

/// The Keccak-256 digest of a byte sequence: the canonical 256-bit hash the
/// engine depends on.  The digest is a function of the input bytes alone.
pub uninterp spec fn keccak256_of(data: Seq<u8>) -> Seq<u8>;

/// Relies on sha3::Keccak256 (through the Digest trait): a 32-byte digest
/// computed from the input bytes alone.
#[verifier::external_body]
pub(crate) fn keccak256(data: &Vec<u8>) -> (r: Vec<u8>)
    ensures
        r@ == keccak256_of(data@),
        r@.len() == 32,
{
    sha3::Keccak256::digest(data.as_slice()).to_vec()
}

} // verus!
