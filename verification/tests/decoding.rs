use coinaddress::{decode_base58, pad_to, BigNum};

#[test]
fn test_decoding() {
    assert_eq!(decode_base58("1").unwrap().to_bytes(), vec![0]);
    assert_eq!(decode_base58("1AaZz").unwrap().to_bytes(), vec![0x1C, 0x84, 0x85]);
    assert!(decode_base58("AO").is_none());
    assert_eq!(
        decode_base58("1AGNa15ZQXAZUgFiqJ2i7Z2DPU2J6hW62i").unwrap().to_bytes(),
        vec![
            0x65, 0xA1, 0x60, 0x59, 0x86, 0x4A, 0x2F, 0xDB, 0xC7, 0xC9, 0x9A, 0x47, 0x23, 0xA8,
            0x39, 0x5B, 0xC6, 0xF1, 0x88, 0xEB, 0xC0, 0x46, 0xB2, 0xFF,
        ]
    );
}

#[test]
fn test_to_bytes() {
    assert_eq!(BigNum::from_u64(0).to_bytes(), vec![0]);
    assert_eq!(BigNum::from_u64(1).to_bytes(), vec![1]);
    assert_eq!(BigNum::from_u64(256).to_bytes(), vec![1, 0]);
}

#[test]
fn test_decoding_empty_is_zero() {
    assert_eq!(decode_base58("").unwrap().to_bytes(), vec![0]);
    assert_eq!(decode_base58("1111").unwrap().to_bytes(), vec![0]);
}

#[test]
fn test_decoding_matches_from_u64() {
    // "2" is digit 1 and "z" is digit 57, so "2z" decodes to 1 * 58 + 57.
    assert_eq!(
        decode_base58("2z").unwrap().to_bytes(),
        BigNum::from_u64(1 * 58 + 57).to_bytes()
    );
    assert_eq!(
        decode_base58("zzz").unwrap().to_bytes(),
        BigNum::from_u64((57 * 58 + 57) * 58 + 57).to_bytes()
    );
}

#[test]
fn test_pad_to() {
    assert_eq!(pad_to(vec![7, 8], 4), vec![0, 0, 7, 8]);
    assert_eq!(pad_to(vec![7, 8], 2), vec![7, 8]);
    assert_eq!(pad_to(vec![7, 8, 9], 2), vec![7, 8, 9]);
    assert_eq!(pad_to(vec![], 3), vec![0, 0, 0]);
}
