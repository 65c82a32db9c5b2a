//! Running TentHash backwards: given any target digest, construct messages
//! that hash to it.  This is the demonstration that TentHash offers no
//! collision resistance against anyone who knows the algorithm — the
//! construction is verified to succeed for every target and every choice of
//! random filler.

use vstd::prelude::*;
use vstd::bytes::*;
use vstd::slice::slice_subrange;

use nanorand::Rng;

use crate::mixer::{lemma_mix_of_unmix, unmix, unmix_state};
use crate::model::{
    absorb_all, absorb_block, bit_length, inject_length, iv, tent_digest, xor_block, IV_0, IV_1,
    IV_2, IV_3,
};

verus! {

#[verifier::external_type_specification]
#[verifier::external_body]
pub struct ExWyRand(nanorand::WyRand);

/// Relies on nanorand's `WyRand::new`: a fresh generator seeded from system
/// entropy.  Nothing is assumed about the stream it will produce.
#[verifier::external_body]
fn new_rng() -> nanorand::WyRand {
    nanorand::WyRand::new()
}

/// Relies on nanorand's `Rng::generate::<u64>`: the generator's next 64-bit
/// output.  Nothing is assumed about its value.
#[verifier::external_body]
fn next_u64(rng: &mut nanorand::WyRand) -> u64 {
    rng.generate::<u64>()
}

proof fn lemma_xor_identities(x: u64, y: u64)
    ensures
        (x ^ y) ^ y == x,
        x ^ (y ^ x) == y,
        (x ^ y) ^ x == y,
{
    assert((x ^ y) ^ y == x && x ^ (y ^ x) == y && (x ^ y) ^ x == y) by (bit_vector);
}

proof fn lemma_low_word_bytes(b0: u64, b1: u64, b2: u64, b3: u64)
    requires
        b0 < 256,
        b1 < 256,
        b2 < 256,
        b3 < 256,
    ensures
        ({
            let x = b0 | (b1 << 8) | (b2 << 16) | (b3 << 24);
            &&& x & 0xff == b0
            &&& (x >> 8) & 0xff == b1
            &&& (x >> 16) & 0xff == b2
            &&& (x >> 24) & 0xff == b3
            &&& (x >> 32) & 0xff == 0
            &&& (x >> 40) & 0xff == 0
            &&& (x >> 48) & 0xff == 0
            &&& (x >> 56) & 0xff == 0
        }),
{
    assert({
        let x = b0 | (b1 << 8) | (b2 << 16) | (b3 << 24);
        &&& x & 0xff == b0
        &&& (x >> 8) & 0xff == b1
        &&& (x >> 16) & 0xff == b2
        &&& (x >> 24) & 0xff == b3
        &&& (x >> 32) & 0xff == 0
        &&& (x >> 40) & 0xff == 0
        &&& (x >> 48) & 0xff == 0
        &&& (x >> 56) & 0xff == 0
    }) by (bit_vector)
        requires
            b0 < 256,
            b1 < 256,
            b2 < 256,
            b3 < 256,
    ;
}

proof fn lemma_xor_block_words(s: Seq<u64>, block: Seq<u8>, w0: u64, w1: u64, w2: u64, w3: u64)
    requires
        s.len() == 4,
        block == spec_u64_to_le_bytes(w0) + spec_u64_to_le_bytes(w1) + spec_u64_to_le_bytes(w2)
            + spec_u64_to_le_bytes(w3),
    ensures
        xor_block(s, block) == seq![s[0] ^ w0, s[1] ^ w1, s[2] ^ w2, s[3] ^ w3],
{
    lemma_auto_spec_u64_to_from_le_bytes();
    assert(block.subrange(0, 8) =~= spec_u64_to_le_bytes(w0));
    assert(block.subrange(8, 16) =~= spec_u64_to_le_bytes(w1));
    assert(block.subrange(16, 24) =~= spec_u64_to_le_bytes(w2));
    assert(block.subrange(24, 32) =~= spec_u64_to_le_bytes(w3));
    assert(xor_block(s, block) =~= seq![s[0] ^ w0, s[1] ^ w1, s[2] ^ w2, s[3] ^ w3]);
}

proof fn lemma_digest_of_widened(f: Seq<u64>, target: Seq<u8>)
    requires
        f.len() == 4,
        target.len() == 20,
        f[0] == spec_u64_from_le_bytes(target.subrange(0, 8)),
        f[1] == spec_u64_from_le_bytes(target.subrange(8, 16)),
        f[2] == (target[16] as u64) | ((target[17] as u64) << 8) | ((target[18] as u64) << 16) | (
        (target[19] as u64) << 24),
    ensures
        spec_u64_to_le_bytes(f[0]) + spec_u64_to_le_bytes(f[1]) + spec_u64_to_le_bytes(
            f[2],
        ).take(4) == target,
{
    lemma_auto_spec_u64_to_from_le_bytes();
    lemma_low_word_bytes(
        target[16] as u64,
        target[17] as u64,
        target[18] as u64,
        target[19] as u64,
    );
    spec_u64_to_le_bytes_to_open(f[2]);
    assert(spec_u64_to_le_bytes(f[0]) + spec_u64_to_le_bytes(f[1]) + spec_u64_to_le_bytes(
        f[2],
    ).take(4) =~= target);
}

/// Appends the little-endian bytes of `w` to `out`.
fn push_word_le(out: &mut Vec<u8>, w: u64)
    ensures
        final(out)@ == old(out)@ + spec_u64_to_le_bytes(w),
{
    let mut bytes = u64_to_le_bytes(w);
    out.append(&mut bytes);
}

/// Builds a 64-byte message whose TentHash digest is exactly `target`.
///
/// The construction starts from the target digest, widens it to a full
/// 256-bit state (`filler` supplies the unconstrained top lane), and runs
/// the finalization and absorption steps backwards.  The second message
/// block carries the four `payload` words, which may hold arbitrary
/// content; the first block is whatever the backward run demands.
#[verifier::rlimit(100)]
#[verifier::spinoff_prover]
pub fn colliding_message(target: [u8; 20], filler: u64, payload: [u64; 4]) -> (msg: Vec<u8>)
    ensures
        msg@.len() == 64,
        tent_digest(msg@) == target@,
{
    let t0 = u64_from_le_bytes(slice_subrange(target.as_slice(), 0, 8));
    let t1 = u64_from_le_bytes(slice_subrange(target.as_slice(), 8, 16));
    let t2 = (target[16] as u64) | ((target[17] as u64) << 8) | ((target[18] as u64) << 16) | (
    (target[19] as u64) << 24);
    let mut state: [u64; 4] = [t0, t1, t2, filler];
    let ghost s_target = state@;
    unmix_state(&mut state);
    unmix_state(&mut state);
    let ghost s_unmixed = state@;
    state[0] = state[0] ^ 512;
    let ghost s_injected = state@;
    unmix_state(&mut state);
    let ghost u = state@;
    state[0] = state[0] ^ payload[0];
    state[1] = state[1] ^ payload[1];
    state[2] = state[2] ^ payload[2];
    state[3] = state[3] ^ payload[3];
    let ghost v = state@;
    unmix_state(&mut state);
    let ghost w = state@;
    state[0] = state[0] ^ IV_0;
    state[1] = state[1] ^ IV_1;
    state[2] = state[2] ^ IV_2;
    state[3] = state[3] ^ IV_3;
    let mut msg: Vec<u8> = Vec::new();
    push_word_le(&mut msg, state[0]);
    push_word_le(&mut msg, state[1]);
    push_word_le(&mut msg, state[2]);
    push_word_le(&mut msg, state[3]);
    push_word_le(&mut msg, payload[0]);
    push_word_le(&mut msg, payload[1]);
    push_word_le(&mut msg, payload[2]);
    push_word_le(&mut msg, payload[3]);
    proof {
        lemma_auto_spec_u64_to_from_le_bytes();
        let a = state@;
        let d = payload@;
        let block_a = spec_u64_to_le_bytes(a[0]) + spec_u64_to_le_bytes(a[1])
            + spec_u64_to_le_bytes(a[2]) + spec_u64_to_le_bytes(a[3]);
        let block_b = spec_u64_to_le_bytes(d[0]) + spec_u64_to_le_bytes(d[1])
            + spec_u64_to_le_bytes(d[2]) + spec_u64_to_le_bytes(d[3]);
        assert(msg@.take(32) =~= block_a);
        assert(msg@.skip(32) =~= block_b);

        // Absorbing the first block turns the initialization vector into the
        // state the backward run left off at.
        lemma_xor_block_words(iv(), block_a, a[0], a[1], a[2], a[3]);
        lemma_xor_identities(IV_0, w[0]);
        lemma_xor_identities(IV_1, w[1]);
        lemma_xor_identities(IV_2, w[2]);
        lemma_xor_identities(IV_3, w[3]);
        assert(xor_block(iv(), block_a) =~= w);
        lemma_mix_of_unmix(v);
        assert(absorb_block(iv(), block_a) == v);

        // Absorbing the payload block cancels the payload xor.
        lemma_xor_block_words(v, block_b, d[0], d[1], d[2], d[3]);
        lemma_xor_identities(u[0], d[0]);
        lemma_xor_identities(u[1], d[1]);
        lemma_xor_identities(u[2], d[2]);
        lemma_xor_identities(u[3], d[3]);
        assert(xor_block(v, block_b) =~= u);
        lemma_mix_of_unmix(s_injected);
        assert(absorb_block(v, block_b) == s_injected);

        assert(absorb_all(iv(), msg@) == s_injected) by {
            assert(block_b.take(32) =~= block_b);
            assert(block_b.skip(32) =~= Seq::<u8>::empty());
            assert(absorb_all(absorb_block(v, block_b), Seq::<u8>::empty()) == s_injected);
            assert(absorb_all(v, block_b) == s_injected);
        }

        // Injecting the 512-bit message length cancels the xor taken on the
        // backward run, and the double mix undoes the double unmix.
        vstd::arithmetic::div_mod::lemma_small_mod(512nat, 0x1_0000_0000_0000_0000nat);
        assert(bit_length(msg@.len()) == 512);
        lemma_xor_identities(s_unmixed[0], 512);
        assert(inject_length(s_injected, msg@.len()) =~= s_unmixed);
        lemma_mix_of_unmix(s_target);
        lemma_mix_of_unmix(unmix(s_target));
        assert(crate::model::final_state(msg@) == s_target);

        // The final state is the widened target, so the digest is the target.
        lemma_digest_of_widened(s_target, target@);
    }
    msg
}

/// Generates `count` messages that all hash to the given target digest.
///
/// The random generator only picks among valid collisions: whatever values
/// it returns, every produced message provably hashes to `target`.
pub fn generate_colliding_messages(target: [u8; 20], count: usize) -> (out: Vec<Vec<u8>>)
    ensures
        out@.len() == count,
        forall|i: int| 0 <= i < count ==> tent_digest(out@[i]@) == target@,
{
    let mut rng = new_rng();
    let mut out: Vec<Vec<u8>> = Vec::new();
    let mut c: usize = 0;
    while c < count
        invariant
            c <= count,
            out@.len() == c,
            forall|i: int| 0 <= i < c ==> tent_digest(out@[i]@) == target@,
        decreases count - c,
    {
        let filler = next_u64(&mut rng);
        let d0 = next_u64(&mut rng);
        let d1 = next_u64(&mut rng);
        let d2 = next_u64(&mut rng);
        let d3 = next_u64(&mut rng);
        let msg = colliding_message(target, filler, [d0, d1, d2, d3]);
        out.push(msg);
        c = c + 1;
    }
    out
}

} // verus!
