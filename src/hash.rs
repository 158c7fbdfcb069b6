//! The hash that binds a revealed secret to its earlier commitment.

use vstd::prelude::*;
use sha3::{Digest, Keccak256};
use crate::user::HASH_LEN;

verus! {

/// The Keccak-256 digest of a byte string.
pub uninterp spec fn keccak256_of(data: Seq<u8>) -> Seq<u8>;

/// Relies on `sha3::Keccak256::digest`: the 32-byte Keccak-256 digest of the
/// input, which depends on the input bytes alone.
#[verifier::external_body]
pub(crate) fn keccak256(data: &[u8]) -> (r: Vec<u8>)
    ensures
        r@ == keccak256_of(data@),
        r@.len() == HASH_LEN,
{
    Keccak256::digest(data).to_vec()
}

} // verus!
