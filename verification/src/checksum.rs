use vstd::prelude::*;

use sha2::Digest;

verus! {

/// The 32-byte SHA-256 digest of a byte sequence. The digest is a function
/// of the input bytes alone; its value is pinned only by the hash itself.
pub uninterp spec fn sha256_of(data: Seq<u8>) -> Seq<u8>;

/// Relies on sha2's `Sha256` through `Digest::digest`: returns the SHA-256
/// digest of `data`, always 32 bytes, determined by the input bytes alone.
#[verifier::external_body]
fn sha256(data: &[u8]) -> (r: Vec<u8>)
    ensures
        r@ == sha256_of(data@),
        r@.len() == 32,
{
    sha2::Sha256::digest(data).to_vec()
}

/// SHA-256 applied twice in succession: the checksum function of base58check.
pub fn double_sha256(chunk: &[u8]) -> (r: Vec<u8>)
    ensures
        r@ == sha256_of(sha256_of(chunk@)),
        r@.len() == 32,
{
    let first = sha256(chunk);
    sha256(first.as_slice())
}

/// Whether the trailing four bytes of `p` equal the first four bytes of the
/// double-SHA-256 digest of everything before them.
pub open spec fn checksum_ok(p: Seq<u8>) -> bool
    recommends
        p.len() >= 4,
{
    sha256_of(sha256_of(p.take(p.len() - 4))).take(4) == p.skip(p.len() - 4)
}

} // verus!
