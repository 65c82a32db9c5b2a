//! The mixing permutation at the heart of TentHash: seven ARX rounds over a
//! state of four 64-bit lanes, together with its inverse and the proofs that
//! the two compose to the identity.

use vstd::prelude::*;

verus! {

/// Left rotation of a 64-bit word by `n` bits, for `0 < n < 64`.
pub open spec fn rotl64(x: u64, n: u64) -> u64
    recommends
        0 < n < 64,
{
    (x << n) | (x >> ((64 - n) as u64))
}

/// Right rotation of a 64-bit word by `n` bits, for `0 < n < 64`.
pub open spec fn rotr64(x: u64, n: u64) -> u64
    recommends
        0 < n < 64,
{
    (x >> n) | (x << ((64 - n) as u64))
}

/// One mixing round: lanes 0/2 and 1/3 each go through an add/rotate-xor
/// step, then lanes 0 and 1 trade places.  The final swap is what couples
/// the two halves of the state across rounds.
pub open spec fn mix_round(s: Seq<u64>, ra: u64, rb: u64) -> Seq<u64>
    recommends
        s.len() == 4,
        0 < ra < 64,
        0 < rb < 64,
{
    let a = s[0].wrapping_add(s[2]);
    let b = s[1].wrapping_add(s[3]);
    let c = rotl64(s[2], ra) ^ a;
    let d = rotl64(s[3], rb) ^ b;
    seq![b, a, c, d]
}

/// The exact inverse of one mixing round.
pub open spec fn unmix_round(s: Seq<u64>, ra: u64, rb: u64) -> Seq<u64>
    recommends
        s.len() == 4,
        0 < ra < 64,
        0 < rb < 64,
{
    let c = rotr64(s[2] ^ s[1], ra);
    let d = rotr64(s[3] ^ s[0], rb);
    let a = s[1].wrapping_sub(c);
    let b = s[0].wrapping_sub(d);
    seq![a, b, c, d]
}

/// The full mixing permutation: seven rounds with the fixed rotation
/// schedule.  The rotation pairs were chosen offline to maximize worst-case
/// bit diffusion; the digest depends on this exact schedule.
pub open spec fn mix(s: Seq<u64>) -> Seq<u64>
    recommends
        s.len() == 4,
{
    mix_round(
        mix_round(
            mix_round(
                mix_round(
                    mix_round(mix_round(mix_round(s, 16, 28), 14, 57), 11, 22),
                    35,
                    34,
                ),
                57,
                16,
            ),
            59,
            40,
        ),
        44,
        13,
    )
}

/// The inverse permutation: the seven inverse rounds in reverse order.
pub open spec fn unmix(s: Seq<u64>) -> Seq<u64>
    recommends
        s.len() == 4,
{
    unmix_round(
        unmix_round(
            unmix_round(
                unmix_round(
                    unmix_round(unmix_round(unmix_round(s, 44, 13), 59, 40), 57, 16),
                    35,
                    34,
                ),
                11,
                22,
            ),
            14,
            57,
        ),
        16,
        28,
    )
}

#[verifier::rlimit(100)]
proof fn lemma_rot_inverse(x: u64, n: u64)
    requires
        0 < n < 64,
    ensures
        rotr64(rotl64(x, n), n) == x,
        rotl64(rotr64(x, n), n) == x,
{
    assert(rotr64(rotl64(x, n), n) == x) by (bit_vector)
        requires
            0 < n < 64,
    ;
    assert(rotl64(rotr64(x, n), n) == x) by (bit_vector)
        requires
            0 < n < 64,
    ;
}

proof fn lemma_xor_cancel(x: u64, y: u64)
    ensures
        (x ^ y) ^ y == x,
        x ^ (x ^ y) == y,
{
    assert((x ^ y) ^ y == x && x ^ (x ^ y) == y) by (bit_vector);
}

proof fn lemma_wrap_cancel(x: u64, y: u64)
    ensures
        x.wrapping_add(y).wrapping_sub(y) == x,
        x.wrapping_sub(y).wrapping_add(y) == x,
{
}

proof fn lemma_unmix_round_of_mix_round(s: Seq<u64>, ra: u64, rb: u64)
    requires
        s.len() == 4,
        0 < ra < 64,
        0 < rb < 64,
    ensures
        unmix_round(mix_round(s, ra, rb), ra, rb) == s,
{
    let t = mix_round(s, ra, rb);
    lemma_xor_cancel(rotl64(s[2], ra), t[1]);
    lemma_xor_cancel(rotl64(s[3], rb), t[0]);
    lemma_rot_inverse(s[2], ra);
    lemma_rot_inverse(s[3], rb);
    lemma_wrap_cancel(s[0], s[2]);
    lemma_wrap_cancel(s[1], s[3]);
    assert(unmix_round(t, ra, rb) =~= s);
}

proof fn lemma_mix_round_of_unmix_round(s: Seq<u64>, ra: u64, rb: u64)
    requires
        s.len() == 4,
        0 < ra < 64,
        0 < rb < 64,
    ensures
        mix_round(unmix_round(s, ra, rb), ra, rb) == s,
{
    let u = unmix_round(s, ra, rb);
    lemma_wrap_cancel(s[1], u[2]);
    lemma_wrap_cancel(s[0], u[3]);
    lemma_rot_inverse(s[2] ^ s[1], ra);
    lemma_rot_inverse(s[3] ^ s[0], rb);
    lemma_xor_cancel(s[2], s[1]);
    lemma_xor_cancel(s[3], s[0]);
    assert(mix_round(u, ra, rb) =~= s);
}

/// Running the inverse permutation after the mixing permutation returns any
/// four-lane state unchanged.  Together with [`lemma_mix_of_unmix`] this
/// shows the seven-round mixer is a bijection on the 256-bit state space.
pub proof fn lemma_unmix_of_mix(s: Seq<u64>)
    requires
        s.len() == 4,
    ensures
        unmix(mix(s)) == s,
{
    let s1 = mix_round(s, 16, 28);
    let s2 = mix_round(s1, 14, 57);
    let s3 = mix_round(s2, 11, 22);
    let s4 = mix_round(s3, 35, 34);
    let s5 = mix_round(s4, 57, 16);
    let s6 = mix_round(s5, 59, 40);
    lemma_unmix_round_of_mix_round(s6, 44, 13);
    lemma_unmix_round_of_mix_round(s5, 59, 40);
    lemma_unmix_round_of_mix_round(s4, 57, 16);
    lemma_unmix_round_of_mix_round(s3, 35, 34);
    lemma_unmix_round_of_mix_round(s2, 11, 22);
    lemma_unmix_round_of_mix_round(s1, 14, 57);
    lemma_unmix_round_of_mix_round(s, 16, 28);
}

/// Running the mixing permutation after the inverse permutation returns any
/// four-lane state unchanged.
pub proof fn lemma_mix_of_unmix(s: Seq<u64>)
    requires
        s.len() == 4,
    ensures
        mix(unmix(s)) == s,
{
    let s1 = unmix_round(s, 44, 13);
    let s2 = unmix_round(s1, 59, 40);
    let s3 = unmix_round(s2, 57, 16);
    let s4 = unmix_round(s3, 35, 34);
    let s5 = unmix_round(s4, 11, 22);
    let s6 = unmix_round(s5, 14, 57);
    lemma_mix_round_of_unmix_round(s, 44, 13);
    lemma_mix_round_of_unmix_round(s1, 59, 40);
    lemma_mix_round_of_unmix_round(s2, 57, 16);
    lemma_mix_round_of_unmix_round(s3, 35, 34);
    lemma_mix_round_of_unmix_round(s4, 11, 22);
    lemma_mix_round_of_unmix_round(s5, 14, 57);
    lemma_mix_round_of_unmix_round(s6, 16, 28);
}

/// The mixing permutation is injective: distinct states stay distinct.
pub proof fn lemma_mix_injective(a: Seq<u64>, b: Seq<u64>)
    requires
        a.len() == 4,
        b.len() == 4,
        mix(a) == mix(b),
    ensures
        a == b,
{
    lemma_unmix_of_mix(a);
    lemma_unmix_of_mix(b);
}

fn rotl(x: u64, n: u32) -> (r: u64)
    requires
        0 < n < 64,
    ensures
        r == rotl64(x, n as u64),
{
    (x << n) | (x >> (64 - n))
}

fn rotr(x: u64, n: u32) -> (r: u64)
    requires
        0 < n < 64,
    ensures
        r == rotr64(x, n as u64),
{
    (x >> n) | (x << (64 - n))
}

fn mix_round_state(state: &mut [u64; 4], ra: u32, rb: u32)
    requires
        0 < ra < 64,
        0 < rb < 64,
    ensures
        final(state)@ == mix_round(old(state)@, ra as u64, rb as u64),
{
    let a = state[0].wrapping_add(state[2]);
    let b = state[1].wrapping_add(state[3]);
    let c = rotl(state[2], ra) ^ a;
    let d = rotl(state[3], rb) ^ b;
    *state = [b, a, c, d];
    proof {
        assert(state@ =~= mix_round(old(state)@, ra as u64, rb as u64));
    }
}

fn unmix_round_state(state: &mut [u64; 4], ra: u32, rb: u32)
    requires
        0 < ra < 64,
        0 < rb < 64,
    ensures
        final(state)@ == unmix_round(old(state)@, ra as u64, rb as u64),
{
    let c = rotr(state[2] ^ state[1], ra);
    let d = rotr(state[3] ^ state[0], rb);
    let a = state[1].wrapping_sub(c);
    let b = state[0].wrapping_sub(d);
    *state = [a, b, c, d];
    proof {
        assert(state@ =~= unmix_round(old(state)@, ra as u64, rb as u64));
    }
}

/// Applies the seven-round mixing permutation to the hash state in place.
pub fn mix_state(state: &mut [u64; 4])
    ensures
        final(state)@ == mix(old(state)@),
{
    mix_round_state(state, 16, 28);
    mix_round_state(state, 14, 57);
    mix_round_state(state, 11, 22);
    mix_round_state(state, 35, 34);
    mix_round_state(state, 57, 16);
    mix_round_state(state, 59, 40);
    mix_round_state(state, 44, 13);
}

/// A configurable mixing pass: one round for each rotation pair in `rots`,
/// in order.  The fixed permutation [`mix`] is the special case of the
/// shipped seven-pair schedule.
pub open spec fn mix_rounds(s: Seq<u64>, rots: Seq<[u32; 2]>) -> Seq<u64>
    recommends
        s.len() == 4,
    decreases rots.len(),
{
    if rots.len() == 0 {
        s
    } else {
        mix_rounds(mix_round(s, rots[0][0] as u64, rots[0][1] as u64), rots.skip(1))
    }
}

/// Applies one mixing round per rotation pair, in order.  This is the
/// mixer that the offline rotation-constant search explores; the shipped
/// schedule is the fixed pairs of [`mix_state`].
pub fn mix_state_with(state: &mut [u64; 4], rotations: &[[u32; 2]])
    requires
        forall|i: int|
            0 <= i < rotations@.len() ==> 0 < #[trigger] rotations@[i][0] < 64 && 0
                < rotations@[i][1] < 64,
    ensures
        final(state)@ == mix_rounds(old(state)@, rotations@),
{
    proof {
        assert(rotations@.skip(0) =~= rotations@);
    }
    let len = rotations.len();
    let mut r: usize = 0;
    while r < len
        invariant
            r <= len,
            len == rotations@.len(),
            forall|i: int|
                0 <= i < rotations@.len() ==> 0 < #[trigger] rotations@[i][0] < 64 && 0
                    < rotations@[i][1] < 64,
            mix_rounds(state@, rotations@.skip(r as int)) == mix_rounds(
                old(state)@,
                rotations@,
            ),
        decreases len - r,
    {
        let ghost s_pre = state@;
        let rot = *vstd::slice::slice_index_get(rotations, r);
        mix_round_state(state, rot[0], rot[1]);
        proof {
            assert(rotations@.skip(r as int).skip(1) =~= rotations@.skip(r as int + 1));
            assert(rotations@.skip(r as int)[0] == rotations@[r as int]);
        }
        r = r + 1;
    }
    proof {
        assert(rotations@.skip(len as int) =~= Seq::<[u32; 2]>::empty());
    }
}

/// Applies the inverse of the mixing permutation to the state in place.
/// Running it after [`mix_state`] restores the original state exactly.
pub fn unmix_state(state: &mut [u64; 4])
    ensures
        final(state)@ == unmix(old(state)@),
{
    unmix_round_state(state, 44, 13);
    unmix_round_state(state, 59, 40);
    unmix_round_state(state, 57, 16);
    unmix_round_state(state, 35, 34);
    unmix_round_state(state, 11, 22);
    unmix_round_state(state, 14, 57);
    unmix_round_state(state, 16, 28);
}

} // verus!
