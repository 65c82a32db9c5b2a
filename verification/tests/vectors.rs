//! The canonical TentHash test vectors, checked through the one-shot entry
//! point and through the streaming hasher.

use tenthash::{hash, TentHash};

/// Returns the printable hex string version of a digest.
fn digest_to_string(digest: &[u8]) -> String {
    let mut s = String::new();
    for byte in digest.iter() {
        s.push_str(&format!("{:02x}", byte));
    }
    s
}

/// Hashes via the streaming interface, as a cross-check of the one-shot
/// entry point.
fn stream_hash(data: &[u8]) -> [u8; 20] {
    let mut h = TentHash::new();
    h.update(data);
    h.finalize()
}

fn vectors() -> Vec<(Vec<u8>, &'static str)> {
    vec![
        (b"".to_vec(), "68c8213b7a76b8ed267dddb3d8717bb3b6e7cc0a"),
        (b"\x00".to_vec(), "3cf6833cca9c4d5e211318577bab74bf12a4f090"),
        (b"0123456789".to_vec(), "a7d324bde0bf6ce3427701628f0f8fc329c2a116"),
        (
            b"abcdefghijklmnopqrstuvwxyz".to_vec(),
            "f1be4be1a0f9eae6500fb2f6b64f3daa3990ac1a",
        ),
        (
            b"This string is exactly 32 bytes.".to_vec(),
            "f7c5e4763d89bddce33e97712b712d869aabcfe9",
        ),
        (
            b"The quick brown fox jumps over the lazy dog.".to_vec(),
            "de77f1c134228be1b5b25c941d5102f87f3e6d39",
        ),
        (lorem(), "53da1e3920a9e5743065f28acaa2a93c51389b3d"),
    ]
}

fn lorem() -> Vec<u8> {
    b"Lorem ipsum dolor sit amet, consectetur adipisicing elit, sed do eiusmod tempor incididunt ut labore et dolore magna aliqua. Ut enim ad minim veniam, quis nostrud exercitation ullamco laboris nisi ut aliquip ex ea commodo consequat. Duis aute irure dolor in reprehenderit in voluptate velit esse cillum dolore eu fugiat nulla pariatur. Excepteur sint occaecat cupidatat non proident, sunt in culpa qui officia deserunt mollit anim id est laborum.".to_vec()
}

#[test]
fn test_vectors() {
    for (data, digest) in vectors().iter() {
        assert_eq!(digest_to_string(&hash(data)), *digest);
    }
}

#[test]
fn single_call() {
    for (data, digest) in vectors().iter() {
        assert_eq!(digest_to_string(&hash(data)), *digest);
    }
}

#[test]
fn hash_empty() {
    let correct_digest = "68c8213b7a76b8ed267dddb3d8717bb3b6e7cc0a";
    assert_eq!(digest_to_string(&stream_hash(&[])), correct_digest);
}

#[test]
fn hash_zero() {
    let correct_digest = "3cf6833cca9c4d5e211318577bab74bf12a4f090";
    assert_eq!(digest_to_string(&stream_hash(&[0u8])), correct_digest);
}

#[test]
fn hash_string_01() {
    let s = "0123456789";
    let correct_digest = "a7d324bde0bf6ce3427701628f0f8fc329c2a116";
    assert_eq!(digest_to_string(&stream_hash(s.as_bytes())), correct_digest);
}

#[test]
fn hash_string_02() {
    let s = "abcdefghijklmnopqrstuvwxyz";
    let correct_digest = "f1be4be1a0f9eae6500fb2f6b64f3daa3990ac1a";
    assert_eq!(digest_to_string(&stream_hash(s.as_bytes())), correct_digest);
}

#[test]
fn hash_string_03() {
    let s = "The quick brown fox jumps over the lazy dog.";
    let correct_digest = "de77f1c134228be1b5b25c941d5102f87f3e6d39";
    assert_eq!(digest_to_string(&stream_hash(s.as_bytes())), correct_digest);
}

#[test]
fn hash_string_04() {
    let correct_digest = "53da1e3920a9e5743065f28acaa2a93c51389b3d";
    assert_eq!(digest_to_string(&stream_hash(&lorem())), correct_digest);
}

#[test]
fn hash_length() {
    // The last block of data is padded with zeros internally, so forcing the
    // last block to be all zeros and changing only the input length must
    // still change the digest.
    let len_0: &[u8] = &[];
    let len_1: &[u8] = &[0u8];
    let len_2: &[u8] = &[0u8, 0];

    assert_eq!(
        digest_to_string(&hash(len_0)),
        "68c8213b7a76b8ed267dddb3d8717bb3b6e7cc0a",
    );
    assert_eq!(
        digest_to_string(&hash(len_1)),
        "3cf6833cca9c4d5e211318577bab74bf12a4f090",
    );
    assert_eq!(
        digest_to_string(&hash(len_2)),
        "55c41cce87831d7c1b2628ec92d28c4274275899",
    );
}

#[test]
fn trailing_zeros_differ() {
    // Messages that differ only by zero padding within the final block get
    // distinct digests.
    for len in [1usize, 5, 31, 40] {
        let m = vec![7u8; len];
        let room = 32 - (len % 32);
        for extra in 1..=room {
            let mut m2 = m.clone();
            m2.extend(std::iter::repeat(0u8).take(extra));
            assert_ne!(hash(&m), hash(&m2), "len {} extra {}", len, extra);
        }
    }
}
