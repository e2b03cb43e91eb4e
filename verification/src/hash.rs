//! The 256-bit hash function shared by the Merkle tree and the block seal.

use vstd::prelude::*;

verus! {

/// The SHA3-256 digest of `data`, as the `sha3` crate computes it.
pub uninterp spec fn sha3_256(data: Seq<u8>) -> [u8; 32];

/// Hashes `data` with `sha3::Sha3_256` through `Digest::digest`, which feeds
/// the whole input to a fresh hasher and finalizes it. The digest depends on
/// the input bytes alone; the contract gives it the name [`sha3_256`] and
/// claims nothing else about it.
#[verifier::external_body]
pub(crate) fn sha3_256_digest(data: &[u8]) -> (digest: [u8; 32])
    ensures
        digest == sha3_256(data@),
{
    <sha3::Sha3_256 as sha3::Digest>::digest(data).into()
}

} // verus!
