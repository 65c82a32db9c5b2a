//! Convenience methods on TentHash's 20-byte digest.

use vstd::prelude::*;
use vstd::bytes::*;

verus! {

/// Helper methods for truncating a TentHash digest to 128 bits, for callers
/// that want a shorter fingerprint or an integer key.
pub trait DigestExt: View<V = Seq<u8>> {
    /// Truncates the digest to 128 bits, returned as an array of 16 bytes.
    fn to_16_bytes(self) -> (r: [u8; 16])
        requires
            self@.len() == 20,
        ensures
            r@ == self@.take(16),
    ;

    /// Truncates the digest to 128 bits, returned as a `u128`.
    ///
    /// The digest bytes are interpreted as little endian.
    fn to_u128(self) -> (r: u128)
        requires
            self@.len() == 20,
        ensures
            r == spec_u128_from_le_bytes(self@.take(16)),
    ;
}

impl DigestExt for [u8; 20] {
    fn to_16_bytes(self) -> (r: [u8; 16]) {
        let r = [
            self[0],
            self[1],
            self[2],
            self[3],
            self[4],
            self[5],
            self[6],
            self[7],
            self[8],
            self[9],
            self[10],
            self[11],
            self[12],
            self[13],
            self[14],
            self[15],
        ];
        proof {
            assert(r@ =~= self@.take(16));
        }
        r
    }

    fn to_u128(self) -> (r: u128) {
        let first = self.to_16_bytes();
        u128_from_le_bytes(first.as_slice())
    }
}

} // verus!
