//! Chunk independence of the streaming hasher: however the input stream is
//! split, the digest equals the one-shot digest of the concatenation.

use tenthash::{hash, TentHash};

fn digest_to_string(digest: &[u8]) -> String {
    let mut s = String::new();
    for byte in digest.iter() {
        s.push_str(&format!("{:02x}", byte));
    }
    s
}

fn vectors() -> Vec<(Vec<u8>, &'static str)> {
    vec![
        (b"".to_vec(), "68c8213b7a76b8ed267dddb3d8717bb3b6e7cc0a"),
        (b"\x00".to_vec(), "3cf6833cca9c4d5e211318577bab74bf12a4f090"),
        (b"0123456789".to_vec(), "a7d324bde0bf6ce3427701628f0f8fc329c2a116"),
        (
            b"abcdefghijklmnopqrstuvwxyz".to_vec(),
            "f1be4be1a0f9eae6500fb2f6b64f3daa3990ac1a",
        ),
        (
            b"This string is exactly 32 bytes.".to_vec(),
            "f7c5e4763d89bddce33e97712b712d869aabcfe9",
        ),
        (
            b"The quick brown fox jumps over the lazy dog.".to_vec(),
            "de77f1c134228be1b5b25c941d5102f87f3e6d39",
        ),
        (
            b"Lorem ipsum dolor sit amet, consectetur adipisicing elit, sed do eiusmod tempor incididunt ut labore et dolore magna aliqua. Ut enim ad minim veniam, quis nostrud exercitation ullamco laboris nisi ut aliquip ex ea commodo consequat. Duis aute irure dolor in reprehenderit in voluptate velit esse cillum dolore eu fugiat nulla pariatur. Excepteur sint occaecat cupidatat non proident, sunt in culpa qui officia deserunt mollit anim id est laborum.".to_vec(),
            "53da1e3920a9e5743065f28acaa2a93c51389b3d",
        ),
    ]
}

#[test]
fn streaming_one_chunk() {
    for (data, digest) in vectors().iter() {
        let mut hasher = TentHash::new();
        hasher.update(data);
        assert_eq!(digest_to_string(&hasher.finalize()), *digest);
    }
}

#[test]
fn streaming_multi_chunk() {
    for chunk_size in 1..1024 {
        for (data, digest) in vectors().iter() {
            if data.len() >= chunk_size {
                let mut hasher = TentHash::new();
                for chunk in data.chunks(chunk_size) {
                    hasher.update(chunk);
                }
                assert_eq!(digest_to_string(&hasher.finalize()), *digest);
            }
        }
    }
}

#[test]
fn hash_multi_part_processing() {
    let test_string1 =
        "Lorem ipsum dolor sit amet, consectetur adipisicing elit, sed do eiusmod tempor";
    let test_string2 = " incididunt ut l";
    let test_string3 = "abore et dolore magna aliqua. Ut enim ad minim veniam, quis nostrud exercitation ullamco laboris nisi ut aliquip ex ea commodo consequat. Duis aute irure dolor in reprehenderit in voluptate velit esse cillum dolore eu fugiat nulla pariatur. Excepteur sint occaecat ";
    let test_string4 = "cup";
    let test_string5 =
        "idatat non proident, sunt in culpa qui officia deserunt mollit anim id est laborum.";
    let correct_digest = "53da1e3920a9e5743065f28acaa2a93c51389b3d";

    let mut hasher = TentHash::new();
    hasher.update(test_string1.as_bytes());
    hasher.update(test_string2.as_bytes());
    hasher.update(test_string3.as_bytes());
    hasher.update(test_string4.as_bytes());
    hasher.update(test_string5.as_bytes());
    let digest = hasher.finalize();

    assert_eq!(digest_to_string(&digest), correct_digest);
}

#[test]
fn repeated_calls_are_deterministic() {
    let data = b"determinism check";
    let first = hash(data);
    for _ in 0..8 {
        assert_eq!(hash(data), first);
    }
    let mut h1 = TentHash::new();
    h1.update(data);
    let mut h2 = TentHash::new();
    h2.update(data);
    assert_eq!(h1.finalize(), h2.finalize());
}

#[test]
fn cloned_hasher_matches() {
    let mut h = TentHash::new();
    h.update(b"shared prefix that is longer than one block to fill the buffer.");
    let mut h2 = h.clone();
    h.update(b"tail");
    h2.update(b"tail");
    assert_eq!(h.finalize(), h2.finalize());
}
