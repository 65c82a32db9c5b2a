//! Structural laws of the digest, stated over the mathematical model and
//! proved once and for all.

use vstd::prelude::*;
use vstd::bytes::*;

use crate::mixer::{lemma_mix_injective, mix};
use crate::model::{
    absorb_all, absorb_block, bit_length, final_state, inject_length, iv, tent_digest, zero_pad,
    zeros,
};

verus! {

/// The state after any amount of absorption still has exactly four lanes.
pub proof fn lemma_absorb_all_len(s: Seq<u64>, data: Seq<u8>)
    requires
        s.len() == 4,
    ensures
        absorb_all(s, data).len() == 4,
    decreases data.len(),
{
    if data.len() == 0 {
    } else if data.len() >= 32 {
        lemma_absorb_all_len(absorb_block(s, data.take(32)), data.skip(32));
    }
}

/// Digest structure: bytes 0..8 of the digest are the little-endian
/// encoding of lane 0 of the state after finalization, bytes 8..16 encode
/// lane 1, and bytes 16..20 are the low four bytes of lane 2.
pub proof fn lemma_digest_structure(data: Seq<u8>)
    ensures
        tent_digest(data).len() == 20,
        tent_digest(data).subrange(0, 8) == spec_u64_to_le_bytes(final_state(data)[0]),
        tent_digest(data).subrange(8, 16) == spec_u64_to_le_bytes(final_state(data)[1]),
        tent_digest(data).subrange(16, 20) == spec_u64_to_le_bytes(final_state(data)[2]).take(4),
{
    lemma_auto_spec_u64_to_from_le_bytes();
    let f = final_state(data);
    let d = tent_digest(data);
    assert(d.subrange(0, 8) =~= spec_u64_to_le_bytes(f[0]));
    assert(d.subrange(8, 16) =~= spec_u64_to_le_bytes(f[1]));
    assert(d.subrange(16, 20) =~= spec_u64_to_le_bytes(f[2]).take(4));
}

proof fn lemma_absorb_all_zero_ext(s: Seq<u64>, m: Seq<u8>, k: nat)
    requires
        s.len() == 4,
        m.len() % 32 != 0,
        0 < k,
        m.len() % 32 + k <= 32,
    ensures
        absorb_all(s, m + zeros(k)) == absorb_all(s, m),
    decreases m.len(),
{
    if m.len() < 32 {
        let b = m + zeros(k);
        if m.len() + k < 32 {
            assert(zero_pad(b) =~= zero_pad(m));
        } else {
            assert(b.take(32) =~= b);
            assert(b.skip(32) =~= Seq::<u8>::empty());
            assert(absorb_all(absorb_block(s, b), Seq::<u8>::empty()) == absorb_block(s, b));
            assert(zero_pad(m) =~= b);
        }
    } else {
        let m2 = m + zeros(k);
        assert(m2.take(32) =~= m.take(32));
        assert(m2.skip(32) =~= m.skip(32) + zeros(k));
        vstd::arithmetic::div_mod::lemma_mod_sub_multiples_vanish(m.len() as int, 32);
        lemma_absorb_all_zero_ext(absorb_block(s, m.take(32)), m.skip(32), k);
    }
}

proof fn lemma_bit_length_distinct(l: nat, k: nat)
    requires
        0 < k < 32,
    ensures
        bit_length(l) != bit_length(l + k),
{
    let m: int = 0x1_0000_0000_0000_0000;
    let r: int = (l * 8) as int % m;
    vstd::arithmetic::div_mod::lemma_add_mod_noop((l * 8) as int, (k * 8) as int, m);
    vstd::arithmetic::div_mod::lemma_small_mod((k * 8) as nat, m as nat);
    if r + k * 8 < m {
        vstd::arithmetic::div_mod::lemma_small_mod((r + k * 8) as nat, m as nat);
    } else {
        vstd::arithmetic::div_mod::lemma_mod_sub_multiples_vanish(r + k * 8, m);
        vstd::arithmetic::div_mod::lemma_small_mod((r + k * 8 - m) as nat, m as nat);
    }
}

proof fn lemma_xor_distinct(x: u64, a: u64, b: u64)
    requires
        a != b,
    ensures
        x ^ a != x ^ b,
{
    assert(a != b ==> x ^ a != x ^ b) by (bit_vector);
}

/// Length sensitivity of the finalization state: appending trailing zero
/// bytes that stay within the final padded block leaves every absorbed
/// block unchanged, so only the injected bit length tells the two messages
/// apart — and it provably does: the two 256-bit states at the end of
/// finalization differ.  The published digest truncates that state to 160
/// bits; the test vectors distinguish the truncated digests of concrete
/// such pairs.
pub proof fn lemma_trailing_zeros_change_state(m: Seq<u8>, k: nat)
    requires
        m.len() % 32 != 0,
        0 < k,
        m.len() % 32 + k <= 32,
    ensures
        final_state(m + zeros(k)) != final_state(m),
{
    let m2 = m + zeros(k);
    lemma_absorb_all_zero_ext(iv(), m, k);
    lemma_absorb_all_len(iv(), m);
    let s = absorb_all(iv(), m);
    lemma_bit_length_distinct(m.len(), k);
    lemma_xor_distinct(s[0], bit_length(m.len()), bit_length(m2.len()));
    let i1 = inject_length(s, m.len());
    let i2 = inject_length(s, m2.len());
    assert(i1[0] != i2[0]);
    if final_state(m2) == final_state(m) {
        lemma_mix_injective(mix(i1), mix(i2));
        lemma_mix_injective(i1, i2);
        assert(i1 == i2);
        assert(false);
    }
}

} // verus!
