use vstd::prelude::*;

use crate::base58::{all_b58, b58_value, decode_base58, is_b58_char};
use crate::bignum::{be_bytes_of, lemma_be_bytes_of_value, pad_left, pad_to};
use crate::checksum::{checksum_ok, double_sha256};
use vstd::slice::slice_subrange;

verus! {

#[derive(Clone, Copy, Debug, PartialEq, Eq, Structural)]
pub enum ValidationError {
    /// Given address is too short to be valid
    TooShort,
    /// Encoding is not a valid base58
    InvalidEncoding,
    /// Computed hash does not match the embedded one
    HashMismatch,
    /// The checksum is valid but the version byte is not a bitcoin one.
    /// May happen when attempting to validate a btc address
    NotBitcoin,
    /// The checksum is valid but the version byte is not a litecoin one.
    /// May happen when attempting to validate an ltc address
    NotLitecoin,
}

/// The byte buffer a base58 string decodes to: the canonical bytes of its
/// numeric value, left-padded with zero bytes to at least 25 bytes.
pub open spec fn padded_of(s: Seq<char>) -> Seq<u8> {
    pad_left(be_bytes_of(b58_value(s)), 25)
}

/// What validating a base58check string returns, gate by gate: an empty
/// input is too short, a character outside the alphabet is an encoding
/// error, a failed checksum is a hash mismatch, and otherwise the leading
/// version byte of the padded buffer comes back.
pub open spec fn spec_validate_base58_hash(s: Seq<char>) -> Result<usize, ValidationError> {
    if s.len() == 0 {
        Err(ValidationError::TooShort)
    } else if !all_b58(s) {
        Err(ValidationError::InvalidEncoding)
    } else if !checksum_ok(padded_of(s)) {
        Err(ValidationError::HashMismatch)
    } else {
        Ok(padded_of(s)[0] as usize)
    }
}

/// Validate the provided generic base58 hash.
/// Returns the hash version/type if correct and an error otherwise.
pub fn validate_base58_hash(addr: &str) -> (r: Result<usize, ValidationError>)
    ensures
        r == spec_validate_base58_hash(addr@),
{
    if addr.unicode_len() == 0 {
        return Err(ValidationError::TooShort);
    }
    let big = match decode_base58(addr) {
        None => {
            return Err(ValidationError::InvalidEncoding);
        },
        Some(x) => x,
    };
    let bytes = big.to_bytes();
    proof {
        lemma_be_bytes_of_value(b58_value(addr@));
    }
    let padded = pad_to(bytes, 25);
    let n = padded.len();
    assert(padded@ == padded_of(addr@));
    assert(n >= 25);

    let payload = slice_subrange(padded.as_slice(), 0, n - 4);
    let hash = double_sha256(payload);
    let ok = hash[0] == padded[n - 4] && hash[1] == padded[n - 3] && hash[2] == padded[n - 2]
        && hash[3] == padded[n - 1];
    if ok {
        proof {
            assert(hash@.take(4) =~= padded@.skip(n - 4));
        }
        Ok(padded[0] as usize)
    } else {
        proof {
            if checksum_ok(padded@) {
                let short = hash@.take(4);
                let known = padded@.skip(n - 4);
                assert(short == known);
                assert(short[0] == known[0] && short[1] == known[1] && short[2] == known[2]
                    && short[3] == known[3]);
            }
        }
        Err(ValidationError::HashMismatch)
    }
}

/// What validating a bitcoin address returns: the generic result, with a
/// successful version byte accepted only out of {0, 5, 111}.
pub open spec fn spec_validate_btc_address(s: Seq<char>) -> Result<usize, ValidationError> {
    match spec_validate_base58_hash(s) {
        Ok(v) => if v == 0 || v == 5 || v == 111 {
            Ok(v)
        } else {
            Err(ValidationError::NotBitcoin)
        },
        Err(e) => Err(e),
    }
}

/// Validate a bitcoin address checksum.
/// Returns the hash version/type if correct and an error otherwise.
pub fn validate_btc_address(addr: &str) -> (r: Result<usize, ValidationError>)
    ensures
        r == spec_validate_btc_address(addr@),
{
    match validate_base58_hash(addr) {
        Ok(v) => {
            if v == 0 || v == 5 || v == 111 {
                Ok(v)
            } else {
                Err(ValidationError::NotBitcoin)
            }
        },
        Err(x) => Err(x),
    }
}

/// What validating a litecoin address returns: the generic result, with a
/// successful version byte accepted only out of {48, 111}.
pub open spec fn spec_validate_ltc_address(s: Seq<char>) -> Result<usize, ValidationError> {
    match spec_validate_base58_hash(s) {
        Ok(v) => if v == 48 || v == 111 {
            Ok(v)
        } else {
            Err(ValidationError::NotLitecoin)
        },
        Err(e) => Err(e),
    }
}

/// Validate a litecoin address checksum.
/// Returns the hash version/type if correct and an error otherwise.
pub fn validate_ltc_address(addr: &str) -> (r: Result<usize, ValidationError>)
    ensures
        r == spec_validate_ltc_address(addr@),
{
    match validate_base58_hash(addr) {
        Ok(v) => {
            if v == 48 || v == 111 {
                Ok(v)
            } else {
                Err(ValidationError::NotLitecoin)
            }
        },
        Err(x) => Err(x),
    }
}

/// A string holding any character outside the base58 alphabet, wherever it
/// stands, validates to `InvalidEncoding`.
pub proof fn lemma_invalid_char_forces_invalid_encoding(s: Seq<char>, i: int)
    requires
        0 <= i < s.len(),
        !is_b58_char(s[i]),
    ensures
        spec_validate_base58_hash(s) == Err::<usize, ValidationError>(
            ValidationError::InvalidEncoding,
        ),
{
}

/// Generic validation has no hidden state: any two results for the same
/// input string are identical.
pub proof fn lemma_validate_base58_hash_deterministic(
    s: Seq<char>,
    r1: Result<usize, ValidationError>,
    r2: Result<usize, ValidationError>,
)
    requires
        r1 == spec_validate_base58_hash(s),
        r2 == spec_validate_base58_hash(s),
    ensures
        r1 == r2,
{
}

/// Bitcoin validation has no hidden state: any two results for the same
/// input string are identical.
pub proof fn lemma_validate_btc_address_deterministic(
    s: Seq<char>,
    r1: Result<usize, ValidationError>,
    r2: Result<usize, ValidationError>,
)
    requires
        r1 == spec_validate_btc_address(s),
        r2 == spec_validate_btc_address(s),
    ensures
        r1 == r2,
{
}

/// Litecoin validation has no hidden state: any two results for the same
/// input string are identical.
pub proof fn lemma_validate_ltc_address_deterministic(
    s: Seq<char>,
    r1: Result<usize, ValidationError>,
    r2: Result<usize, ValidationError>,
)
    requires
        r1 == spec_validate_ltc_address(s),
        r2 == spec_validate_ltc_address(s),
    ensures
        r1 == r2,
{
}

} // verus!
