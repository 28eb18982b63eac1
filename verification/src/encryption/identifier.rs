//! Deterministic key identifiers: a 16-byte value derived from an algorithm
//! tag and the key material, so that the same algorithm and key always name
//! the same identifier.

use sha2::Digest;
use vstd::prelude::*;

verus! {

/// What `sha2::Sha256::digest` returns for the input bytes: the SHA-256
/// digest is a function of the input alone, so it can be given a name;
/// nothing is assumed about its values.
pub uninterp spec fn sha256_of(data: Seq<u8>) -> Seq<u8>;

/// Relies on `sha2::Sha256::digest` (FIPS 180-4): the 32-byte SHA-256 digest
/// of the input, depending on the input bytes alone.
#[verifier::external_body]
fn sha256_digest(data: &[u8]) -> (r: Vec<u8>)
    ensures
        r@ == sha256_of(data@),
        r@.len() == 32,
{
    sha2::Sha256::digest(data).to_vec()
}

/// The identifier of a key: the 2-byte big-endian algorithm tag followed by
/// the first 14 bytes of the key's SHA-256 digest.
pub open spec fn spec_identifier(algorithm_id: u16, key: Seq<u8>) -> Seq<u8> {
    seq![(algorithm_id >> 8) as u8, algorithm_id as u8] + sha256_of(key).take(14)
}

/// Derive the 16-byte identifier of a key from its algorithm tag and its
/// material.
pub fn compute_identifier(algorithm_id: u16, key: &[u8]) -> (r: Vec<u8>)
    ensures
        r@ == spec_identifier(algorithm_id, key@),
        r@.len() == 16,
{
    let digest = sha256_digest(key);
    let mut out: Vec<u8> = Vec::new();
    out.push((algorithm_id >> 8) as u8);
    out.push(#[verifier::truncate] (algorithm_id as u8));
    let head = crate::copy_range(digest.as_slice(), 0, 14);
    crate::append_bytes(&mut out, head.as_slice());
    proof {
        assert(head@ =~= sha256_of(key@).take(14));
        assert(out@ =~= spec_identifier(algorithm_id, key@));
    }
    out
}

} // verus!
