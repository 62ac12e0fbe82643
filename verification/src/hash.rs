//! SHA-256 digests, named for use in contracts and computed by the
//! `sha2` crate.

use vstd::prelude::*;

verus! {

/// The SHA-256 digest (FIPS 180-4) of a byte sequence. The digest is a
/// function of the input bytes alone; the algorithm itself is not
/// restated here, only named.
pub uninterp spec fn sha256_of(bytes: Seq<u8>) -> Seq<u8>;

/// Relies on `sha2::Sha256::digest` (the `digest::Digest` trait): the
/// SHA-256 digest of the input, 32 bytes, depending on the input bytes
/// alone.
#[verifier::external_body]
pub(crate) fn sha256(bytes: &[u8]) -> (digest: Vec<u8>)
    ensures
        digest@ == sha256_of(bytes@),
        digest@.len() == 32,
{
    <sha2::Sha256 as sha2::Digest>::digest(bytes).to_vec()
}

} // verus!
