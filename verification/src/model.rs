//! The mathematical model of TentHash: what digest a given byte sequence
//! maps to.  Every executable entry point of the crate is specified against
//! [`tent_digest`], so the one-shot and streaming interfaces provably agree.

use vstd::prelude::*;
use vstd::bytes::*;

use crate::mixer::mix;

verus! {

/// Initial value of lane 0 of the hash state.
pub const IV_0: u64 = 0x5d6daffc4411a967;

/// Initial value of lane 1 of the hash state.
pub const IV_1: u64 = 0xe22d4dea68577f34;

/// Initial value of lane 2 of the hash state.
pub const IV_2: u64 = 0xca50864d814cbc2e;

/// Initial value of lane 3 of the hash state.
pub const IV_3: u64 = 0x894e29b9611eb173;

/// The four-lane initialization vector.
pub open spec fn iv() -> Seq<u64> {
    seq![IV_0, IV_1, IV_2, IV_3]
}

/// Interprets a 32-byte block as four little-endian 64-bit words and xors
/// them into the corresponding lanes of the state.
pub open spec fn xor_block(s: Seq<u64>, block: Seq<u8>) -> Seq<u64>
    recommends
        s.len() == 4,
        block.len() == 32,
{
    seq![
        s[0] ^ spec_u64_from_le_bytes(block.subrange(0, 8)),
        s[1] ^ spec_u64_from_le_bytes(block.subrange(8, 16)),
        s[2] ^ spec_u64_from_le_bytes(block.subrange(16, 24)),
        s[3] ^ spec_u64_from_le_bytes(block.subrange(24, 32)),
    ]
}

/// One absorption step: xor a full 32-byte block into the state, then mix.
pub open spec fn absorb_block(s: Seq<u64>, block: Seq<u8>) -> Seq<u64>
    recommends
        s.len() == 4,
        block.len() == 32,
{
    mix(xor_block(s, block))
}

/// Extends a trailing partial block to 32 bytes with zeros.
pub open spec fn zero_pad(block: Seq<u8>) -> Seq<u8>
    recommends
        block.len() <= 32,
{
    block + Seq::new((32 - block.len()) as nat, |i: int| 0u8)
}

/// Absorbs an entire byte sequence: full 32-byte blocks in order, then the
/// zero-padded remainder if one is left.  A message whose length is an exact
/// multiple of 32 has no trailing partial block and absorbs no zero pad.
pub open spec fn absorb_all(s: Seq<u64>, data: Seq<u8>) -> Seq<u64>
    recommends
        s.len() == 4,
    decreases data.len(),
{
    if data.len() == 0 {
        s
    } else if data.len() >= 32 {
        absorb_all(absorb_block(s, data.take(32)), data.skip(32))
    } else {
        absorb_block(s, zero_pad(data))
    }
}

/// A run of zero bytes, as appended by trailing-zero padding.
pub open spec fn zeros(n: nat) -> Seq<u8> {
    Seq::new(n, |i: int| 0u8)
}

/// The message length in bits, reduced modulo 2^64 as it is injected into
/// lane 0 of the state.
pub open spec fn bit_length(len: nat) -> u64 {
    ((len * 8) % 0x1_0000_0000_0000_0000) as u64
}

/// Xors the message bit length into lane 0.
pub open spec fn inject_length(s: Seq<u64>, len: nat) -> Seq<u64>
    recommends
        s.len() == 4,
{
    seq![s[0] ^ bit_length(len), s[1], s[2], s[3]]
}

/// The four-lane state at the end of finalization: absorb everything,
/// inject the bit length, then mix twice for full 256-bit diffusion.
pub open spec fn final_state(data: Seq<u8>) -> Seq<u64> {
    mix(mix(inject_length(absorb_all(iv(), data), data.len())))
}

/// The 20-byte digest of a byte sequence: lanes 0 and 1 of the final state
/// serialized little-endian, followed by the low four bytes of lane 2.
pub open spec fn tent_digest(data: Seq<u8>) -> Seq<u8> {
    let f = final_state(data);
    spec_u64_to_le_bytes(f[0]) + spec_u64_to_le_bytes(f[1]) + spec_u64_to_le_bytes(f[2]).take(4)
}

/// Absorbing a sequence that begins with some whole number of full blocks
/// is the same as absorbing those blocks first and the rest afterwards.
pub proof fn lemma_absorb_all_append(s: Seq<u64>, d1: Seq<u8>, d2: Seq<u8>)
    requires
        s.len() == 4,
        d1.len() % 32 == 0,
    ensures
        absorb_all(s, d1 + d2) == absorb_all(absorb_all(s, d1), d2),
    decreases d1.len(),
{
    if d1.len() == 0 {
        assert(d1 + d2 =~= d2);
    } else {
        assert(d1.len() >= 32);
        assert((d1 + d2).take(32) =~= d1.take(32));
        assert((d1 + d2).skip(32) =~= d1.skip(32) + d2);
        assert(d1.skip(32).len() % 32 == 0);
        lemma_absorb_all_append(absorb_block(s, d1.take(32)), d1.skip(32), d2);
    }
}

/// Adding a chunk length to the wrapped byte counter keeps it equal to the
/// total stream length modulo 2^64.
pub proof fn lemma_counter_add(plen: nat, dl: u64)
    ensures
        ((plen % 0x1_0000_0000_0000_0000) as u64).wrapping_add(dl) == ((plen + dl)
            % 0x1_0000_0000_0000_0000) as u64,
{
    let m: int = 0x1_0000_0000_0000_0000;
    let a: int = plen as int % m;
    vstd::arithmetic::div_mod::lemma_add_mod_noop(plen as int, dl as int, m);
    vstd::arithmetic::div_mod::lemma_small_mod(dl as nat, m as nat);
    if a + dl <= u64::MAX {
        vstd::arithmetic::div_mod::lemma_small_mod((a + dl) as nat, m as nat);
    } else {
        vstd::arithmetic::div_mod::lemma_mod_sub_multiples_vanish(a + dl, m);
        vstd::arithmetic::div_mod::lemma_small_mod((a + dl - m) as nat, m as nat);
    }
}

/// Multiplying the wrapped byte counter by eight yields exactly the wrapped
/// bit length of the stream.
pub proof fn lemma_counter_mul8(plen: nat)
    ensures
        ((plen % 0x1_0000_0000_0000_0000) as u64).wrapping_mul(8) == bit_length(plen),
{
    let m: int = 0x1_0000_0000_0000_0000;
    vstd::arithmetic::div_mod::lemma_mul_mod_noop_left(plen as int, 8, m);
}

} // verus!
