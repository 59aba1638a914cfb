//! The two places the library meets the outside world's entropy and
//! hashing: challenge generation and the response signature.

use vstd::prelude::*;
use sha2::Digest;
use rand::Rng;
use crate::codec::{spec_write_comps, write_comps};

verus! {

/// The SHA-256 digest of a byte string. The digest depends on the bytes
/// alone; nothing here states what its value is.
pub uninterp spec fn sha256_of(bytes: Seq<u8>) -> Seq<u8>;

/// Relies on sha2's Sha256: the digest is 32 bytes and is a function of the
/// input bytes alone.
#[verifier::external_body]
pub fn sha256_digest(bytes: &Vec<u8>) -> (r: Vec<u8>)
    ensures
        r@ == sha256_of(bytes@),
        r@.len() == 32,
{
    let mut hasher = sha2::Sha256::new();
    hasher.update(bytes.as_slice());
    hasher.finalize().to_vec()
}

/// Relies on rand's thread_rng and fill: the buffer is filled with the
/// requested number of bytes; nothing is assumed about their values.
#[verifier::external_body]
pub fn random_bytes(n: usize) -> (r: Vec<u8>)
    ensures
        r@.len() == n,
{
    let mut buf = vec![0u8; n];
    rand::thread_rng().fill(&mut buf[..]);
    buf
}

/// A fresh 32-byte challenge for one authentication request.
pub fn generate_challenge() -> (r: Vec<u8>)
    ensures
        r@.len() == 32,
{
    random_bytes(32)
}

/// What a successful authentication signs: each embedding component as
/// little-endian bytes, then the challenge bytes.
pub open spec fn spec_signature_input(embedding: Seq<u32>, challenge: Seq<u8>) -> Seq<u8> {
    spec_write_comps(embedding) + challenge
}

/// The freshness signature: SHA-256 over the embedding bytes and the
/// challenge.
pub fn generate_signature(embedding: &Vec<u32>, challenge: &Vec<u8>) -> (r: Vec<u8>)
    ensures
        r@ == sha256_of(spec_signature_input(embedding@, challenge@)),
        r@.len() == 32,
{
    let mut buf: Vec<u8> = Vec::new();
    write_comps(&mut buf, embedding);
    buf.extend_from_slice(challenge.as_slice());
    proof {
        assert(buf@ =~= spec_signature_input(embedding@, challenge@));
    }
    sha256_digest(&buf)
}

} // verus!
