//! Content hashes of the files that the graph index records.
use vstd::prelude::*;
use sha2::Digest;
use crate::token::{hex_lower, lemma_hex_lower_shape, to_hex_lower};

verus! {

/// The SHA-256 digest of `bytes`, as sha2's `Sha256::digest` computes it.
pub uninterp spec fn sha256(bytes: Seq<u8>) -> Seq<u8>;

/// sha2's `Sha256::digest`. The contract claims that the result is the
/// digest named `sha256` and that it is 32 bytes long (the hash's fixed
/// output size); the hash itself is not restated.
#[verifier::external_body]
fn sha256_digest(bytes: &[u8]) -> (r: Vec<u8>)
    ensures
        r@ == sha256(bytes@),
        r@.len() == 32,
{
    sha2::Sha256::digest(bytes).to_vec()
}

/// The content hash of a file: the SHA-256 digest of its bytes, as 64
/// lower-case hexadecimal characters.
pub fn content_hash(bytes: &[u8]) -> (h: String)
    ensures
        h@ == hex_lower(sha256(bytes@)),
        h@.len() == 64,
{
    let d = sha256_digest(bytes);
    proof {
        lemma_hex_lower_shape(d@);
    }
    to_hex_lower(d.as_slice())
}

} // verus!
