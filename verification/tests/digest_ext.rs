//! The digest truncation helpers, and the digest's little-endian layout.

use tenthash::{hash, DigestExt};

#[test]
fn to_16_bytes_is_prefix() {
    let digest = hash(b"digest helper check");
    let short = digest.to_16_bytes();
    assert_eq!(&short[..], &digest[..16]);
}

#[test]
fn to_u128_is_little_endian_prefix() {
    let digest = hash(b"digest helper check");
    let mut expected: u128 = 0;
    for i in (0..16).rev() {
        expected = (expected << 8) | digest[i] as u128;
    }
    assert_eq!(digest.to_u128(), expected);
}

#[test]
fn known_digest_to_u128() {
    // The empty-input digest starts 68 c8 21 3b ..., so the little-endian
    // 128-bit truncation ends ...3b21c868.
    let digest = hash(b"");
    assert_eq!(digest.to_u128() & 0xffff_ffff, 0x3b21_c868);
}
