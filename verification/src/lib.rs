//! Validation of base58check checksums, the address format shared by
//! Bitcoin-family cryptocurrencies: base58 decoding, conversion to a padded
//! byte buffer, a double-SHA-256 checksum, and version-byte classification.

pub mod base58;
pub mod bignum;
pub mod checksum;
pub mod validate;

pub use base58::decode_base58;
pub use bignum::pad_to;
pub use bignum::BigNum;
pub use checksum::double_sha256;
pub use validate::validate_base58_hash;
pub use validate::validate_btc_address;
pub use validate::validate_ltc_address;
pub use validate::ValidationError;
