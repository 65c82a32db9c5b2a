//! The executable hashing interfaces: the one-shot [`hash`] entry point and
//! the streaming [`TentHash`] hasher.  Both are proved to return exactly
//! [`tent_digest`] of the bytes they were given, which makes the digest
//! independent of how the input was chunked.

use vstd::prelude::*;
use vstd::bytes::*;
use vstd::slice::slice_subrange;

use crate::mixer::mix_state;
use crate::model::{
    absorb_all, absorb_block, inject_length, iv, lemma_absorb_all_append, lemma_counter_add,
    lemma_counter_mul8, tent_digest, xor_block, zero_pad, IV_0, IV_1, IV_2, IV_3,
};

verus! {

proof fn lemma_low_byte_bound(x: u64)
    ensures
        x & 0xff < 256,
{
    assert(x & 0xff < 256) by (bit_vector);
}

proof fn lemma_shift_zero(x: u64)
    ensures
        x >> 0u64 == x,
{
    assert(x >> 0u64 == x) by (bit_vector);
}

/// Byte `k / 8` of the little-endian serialization of `x`.
fn byte_of(x: u64, k: u32) -> (b: u8)
    requires
        k < 64,
    ensures
        b == ((x >> (k as u64)) & 0xff) as u8,
{
    let t = x >> k;
    proof {
        lemma_low_byte_bound(t);
    }
    (t & 0xff) as u8
}

/// Serializes the first two and a half lanes of the state as the digest.
fn state_to_digest(state: &[u64; 4]) -> (digest: [u8; 20])
    ensures
        digest@ == spec_u64_to_le_bytes(state@[0]) + spec_u64_to_le_bytes(state@[1])
            + spec_u64_to_le_bytes(state@[2]).take(4),
{
    let s0 = state[0];
    let s1 = state[1];
    let s2 = state[2];
    let mut digest = [0u8; 20];
    digest[0] = byte_of(s0, 0);
    digest[1] = byte_of(s0, 8);
    digest[2] = byte_of(s0, 16);
    digest[3] = byte_of(s0, 24);
    digest[4] = byte_of(s0, 32);
    digest[5] = byte_of(s0, 40);
    digest[6] = byte_of(s0, 48);
    digest[7] = byte_of(s0, 56);
    digest[8] = byte_of(s1, 0);
    digest[9] = byte_of(s1, 8);
    digest[10] = byte_of(s1, 16);
    digest[11] = byte_of(s1, 24);
    digest[12] = byte_of(s1, 32);
    digest[13] = byte_of(s1, 40);
    digest[14] = byte_of(s1, 48);
    digest[15] = byte_of(s1, 56);
    digest[16] = byte_of(s2, 0);
    digest[17] = byte_of(s2, 8);
    digest[18] = byte_of(s2, 16);
    digest[19] = byte_of(s2, 24);
    proof {
        spec_u64_to_le_bytes_to_open(s0);
        spec_u64_to_le_bytes_to_open(s1);
        spec_u64_to_le_bytes_to_open(s2);
        lemma_shift_zero(s0);
        lemma_shift_zero(s1);
        lemma_shift_zero(s2);
        assert(digest@ =~= spec_u64_to_le_bytes(s0) + spec_u64_to_le_bytes(s1)
            + spec_u64_to_le_bytes(s2).take(4));
    }
    digest
}

/// Reads the eight bytes at `data[i..i + 8]` as one little-endian word.
fn read_word(data: &[u8], i: usize) -> (w: u64)
    requires
        i + 8 <= data@.len(),
    ensures
        w == spec_u64_from_le_bytes(data@.subrange(i as int, i as int + 8)),
{
    // Calling len() teaches the verifier that the slice's length fits in a
    // usize, so the index arithmetic below cannot overflow.
    let _len = data.len();
    u64_from_le_bytes(slice_subrange(data, i, i + 8))
}

/// Xors the first 32 bytes of `data`, read as four little-endian words,
/// into the four lanes of the state.
fn xor_data_into_state(state: &mut [u64; 4], data: &[u8])
    requires
        data@.len() >= 32,
    ensures
        final(state)@ == xor_block(old(state)@, data@.subrange(0, 32)),
{
    let w0 = read_word(data, 0);
    let w1 = read_word(data, 8);
    let w2 = read_word(data, 16);
    let w3 = read_word(data, 24);
    state[0] = state[0] ^ w0;
    state[1] = state[1] ^ w1;
    state[2] = state[2] ^ w2;
    state[3] = state[3] ^ w3;
    proof {
        let block = data@.subrange(0, 32);
        assert(block.subrange(0, 8) =~= data@.subrange(0, 8));
        assert(block.subrange(8, 16) =~= data@.subrange(8, 16));
        assert(block.subrange(16, 24) =~= data@.subrange(16, 24));
        assert(block.subrange(24, 32) =~= data@.subrange(24, 32));
        assert(state@ =~= xor_block(old(state)@, block));
    }
}

/// Computes the TentHash digest of a contiguous slice in one call.
///
/// Equivalent to feeding `data` to a fresh [`TentHash`] and finalizing, but
/// absorbs full blocks straight from the input without buffering.
pub fn hash(data: &[u8]) -> (digest: [u8; 20])
    ensures
        digest@ == tent_digest(data@),
{
    let mut state: [u64; 4] = [IV_0, IV_1, IV_2, IV_3];
    proof {
        assert(state@ =~= iv());
        assert(data@.skip(0) =~= data@);
    }
    let len = data.len();
    let mut i: usize = 0;
    while len - i >= 32
        invariant
            i <= len,
            len == data@.len(),
            absorb_all(state@, data@.skip(i as int)) == absorb_all(iv(), data@),
        decreases len - i,
    {
        let ghost s_pre = state@;
        let ghost rem = data@.skip(i as int);
        xor_data_into_state(&mut state, slice_subrange(data, i, len));
        mix_state(&mut state);
        proof {
            assert(data@.subrange(i as int, len as int).subrange(0, 32) =~= rem.take(32));
            assert(state@ == absorb_block(s_pre, rem.take(32)));
            assert(rem.skip(32) =~= data@.skip(i as int + 32));
        }
        i = i + 32;
    }
    if i < len {
        let ghost s_pre = state@;
        let ghost rem = data@.skip(i as int);
        let n = len - i;
        let mut buffer = [0u8; 32];
        let mut j: usize = 0;
        while j < n
            invariant
                j <= n,
                n == len - i,
                n < 32,
                i < len,
                len == data@.len(),
                forall|k: int| 0 <= k < j ==> buffer@[k] == data@[i + k],
                forall|k: int| j <= k < 32 ==> buffer@[k] == 0u8,
            decreases n - j,
        {
            buffer[j] = data[i + j];
            j = j + 1;
        }
        proof {
            assert(buffer@ =~= zero_pad(rem));
        }
        xor_data_into_state(&mut state, buffer.as_slice());
        mix_state(&mut state);
        proof {
            assert(buffer@.subrange(0, 32) =~= buffer@);
            assert(state@ == absorb_block(s_pre, zero_pad(rem)));
            assert(state@ == absorb_all(iv(), data@));
        }
    } else {
        proof {
            assert(data@.skip(i as int) =~= Seq::<u8>::empty());
            assert(state@ == absorb_all(iv(), data@));
        }
    }
    let bits = (len as u64).wrapping_mul(8);
    let ghost s_absorbed = state@;
    state[0] = state[0] ^ bits;
    proof {
        lemma_counter_mul8(data@.len());
        vstd::arithmetic::div_mod::lemma_small_mod(len as nat, 0x1_0000_0000_0000_0000nat);
        assert(state@ =~= inject_length(s_absorbed, data@.len()));
    }
    mix_state(&mut state);
    mix_state(&mut state);
    state_to_digest(&state)
}

/// A streaming TentHash hasher.
///
/// Input may arrive in chunks of any size; the digest depends only on the
/// concatenation of everything passed to [`TentHash::update`].  The view
/// `h@` of a hasher is exactly that concatenation, and
/// [`TentHash::finalize`] is proved to return `tent_digest(h@)`.
pub struct TentHash {
    state: [u64; 4],
    buf: [u8; 32],
    buf_length: usize,
    message_length: u64,
    processed: Ghost<Seq<u8>>,
}

impl View for TentHash {
    type V = Seq<u8>;

    closed spec fn view(&self) -> Seq<u8> {
        self.processed@
    }
}

impl Clone for TentHash {
    /// Clones the hasher; the copy stands for the same byte stream.
    fn clone(&self) -> (other: Self)
        ensures
            other@ == self@,
            self.wf() ==> other.wf(),
    {
        TentHash {
            state: self.state,
            buf: self.buf,
            buf_length: self.buf_length,
            message_length: self.message_length,
            processed: self.processed,
        }
    }
}

impl TentHash {
    /// Internal consistency of a hasher: the buffer holds the trailing
    /// partial block of the stream, the state has absorbed everything before
    /// it, and the counter equals the stream length modulo 2^64.
    pub closed spec fn wf(self) -> bool {
        &&& self.buf_length <= 32
        &&& self.buf_length <= self.processed@.len()
        &&& (self.processed@.len() - self.buf_length) % 32 == 0
        &&& self.message_length == (self.processed@.len() % 0x1_0000_0000_0000_0000) as u64
        &&& self.state@ == absorb_all(
            iv(),
            self.processed@.take(self.processed@.len() - self.buf_length),
        )
        &&& self.buf@.take(self.buf_length as int) == self.processed@.skip(
            self.processed@.len() - self.buf_length,
        )
    }

    /// Creates a hasher that has absorbed nothing.
    pub fn new() -> (h: TentHash)
        ensures
            h.wf(),
            h@ == Seq::<u8>::empty(),
    {
        let h = TentHash {
            state: [IV_0, IV_1, IV_2, IV_3],
            buf: [0u8; 32],
            buf_length: 0,
            message_length: 0,
            processed: Ghost(Seq::empty()),
        };
        proof {
            assert(h.state@ =~= iv());
            assert(h.processed@.take(0) =~= Seq::<u8>::empty());
            assert(h.buf@.take(0) =~= Seq::<u8>::empty());
            assert(h.processed@.skip(0) =~= Seq::<u8>::empty());
        }
        h
    }

    /// Appends `data` to the stream being hashed.
    ///
    /// Whole 32-byte blocks are absorbed straight from the input whenever
    /// the tail buffer is empty; otherwise bytes accumulate in the buffer,
    /// which is absorbed as soon as it fills.
    #[verifier::rlimit(100)]
    #[verifier::spinoff_prover]
    pub fn update(&mut self, data: &[u8])
        requires
            old(self).wf(),
        ensures
            final(self).wf(),
            final(self)@ == old(self)@ + data@,
    {
        let ghost fed0: Seq<u8> = self.processed@;
        let len = data.len();
        self.message_length = self.message_length.wrapping_add(len as u64);
        self.processed = Ghost(fed0 + data@);
        proof {
            lemma_counter_add(fed0.len(), len as u64);
            assert((fed0 + data@).take(fed0.len() as int) =~= fed0);
            assert((fed0 + data@).take(fed0.len() - old(self).buf_length) =~= fed0.take(
                fed0.len() - old(self).buf_length,
            ));
            assert((fed0 + data@).skip(fed0.len() - old(self).buf_length).take(
                old(self).buf_length as int,
            ) =~= fed0.skip(fed0.len() - old(self).buf_length));
        }
        let mut i: usize = 0;
        while i < len
            invariant
                i <= len,
                len == data@.len(),
                self.processed@ == fed0 + data@,
                self.message_length == ((fed0.len() + data@.len())
                    % 0x1_0000_0000_0000_0000) as u64,
                self.buf_length <= 32,
                self.buf_length <= fed0.len() + i,
                (fed0.len() + i - self.buf_length) % 32 == 0,
                self.state@ == absorb_all(
                    iv(),
                    (fed0 + data@.take(i as int)).take(fed0.len() + i - self.buf_length),
                ),
                self.buf@.take(self.buf_length as int) == (fed0 + data@.take(i as int)).skip(
                    fed0.len() + i - self.buf_length,
                ),
            decreases 2 * (len - i) + self.buf_length,
        {
            let ghost cur = fed0 + data@.take(i as int);
            let ghost s_pre = self.state@;
            if self.buf_length == 0 && len - i >= 32 {
                xor_data_into_state(&mut self.state, slice_subrange(data, i, len));
                mix_state(&mut self.state);
                proof {
                    let block = data@.subrange(i as int, i as int + 32);
                    assert(data@.subrange(i as int, len as int).subrange(0, 32) =~= block);
                    assert(self.state@ == absorb_block(s_pre, block));
                    assert(cur.take(cur.len() as int) =~= cur);
                    lemma_absorb_all_append(iv(), cur, block);
                    assert(absorb_all(s_pre, block) == absorb_block(s_pre, block)) by {
                        assert(block.take(32) =~= block);
                        assert(block.skip(32) =~= Seq::<u8>::empty());
                        assert(absorb_all(absorb_block(s_pre, block), Seq::<u8>::empty())
                            == absorb_block(s_pre, block));
                    }
                    let cur2 = fed0 + data@.take(i + 32);
                    assert(cur2 =~= cur + block);
                    assert(cur2.take(fed0.len() + i + 32) =~= cur2);
                    assert(self.buf@.take(0) =~= Seq::<u8>::empty());
                    assert(cur2.skip(fed0.len() + i + 32) =~= Seq::<u8>::empty());
                }
                i = i + 32;
            } else if self.buf_length == 32 {
                let buf_copy = self.buf;
                xor_data_into_state(&mut self.state, buf_copy.as_slice());
                mix_state(&mut self.state);
                self.buf_length = 0;
                proof {
                    let tail = cur.skip(cur.len() - 32);
                    assert(buf_copy@.take(32) =~= buf_copy@);
                    assert(buf_copy@ == tail);
                    assert(buf_copy@.subrange(0, 32) =~= buf_copy@);
                    assert(self.state@ == absorb_block(s_pre, tail));
                    lemma_absorb_all_append(iv(), cur.take(cur.len() - 32), tail);
                    assert(cur.take(cur.len() - 32) + tail =~= cur);
                    assert(absorb_all(s_pre, tail) == absorb_block(s_pre, tail)) by {
                        assert(tail.take(32) =~= tail);
                        assert(tail.skip(32) =~= Seq::<u8>::empty());
                        assert(absorb_all(absorb_block(s_pre, tail), Seq::<u8>::empty())
                            == absorb_block(s_pre, tail));
                    }
                    assert(cur.take(cur.len() as int) =~= cur);
                    assert(self.buf@.take(0) =~= Seq::<u8>::empty());
                    assert(cur.skip(cur.len() as int) =~= Seq::<u8>::empty());
                }
            } else {
                let mut n = 32 - self.buf_length;
                if len - i < n {
                    n = len - i;
                }
                let ghost bl0 = self.buf_length as int;
                let ghost buf0 = self.buf@;
                let mut j: usize = 0;
                while j < n
                    invariant
                        j <= n,
                        n <= 32 - bl0,
                        1 <= n <= len - i,
                        i < len,
                        len == data@.len(),
                        bl0 == self.buf_length,
                        self.buf_length < 32,
                        self.processed@ == fed0 + data@,
                        self.message_length == ((fed0.len() + data@.len())
                            % 0x1_0000_0000_0000_0000) as u64,
                        self.state@ == s_pre,
                        forall|k: int| 0 <= k < bl0 ==> self.buf@[k] == buf0[k],
                        forall|k: int| 0 <= k < j ==> #[trigger] self.buf@[bl0 + k] == data@[i
                            + k],
                    decreases n - j,
                {
                    let idx = self.buf_length + j;
                    self.buf[idx] = data[i + j];
                    j = j + 1;
                }
                let ghost chunk = data@.subrange(i as int, i as int + n);
                let ghost cur2 = fed0 + data@.take(i + n);
                proof {
                    assert(cur2 =~= cur + chunk);
                    assert(cur2.take(fed0.len() + (i + n) - (bl0 + n)) =~= cur.take(
                        fed0.len() + i - bl0,
                    ));
                    assert(cur2.skip(fed0.len() + (i + n) - (bl0 + n)) =~= cur.skip(
                        cur.len() - bl0,
                    ) + chunk);
                    let tail_new = cur.skip(cur.len() - bl0) + chunk;
                    assert forall|k: int| 0 <= k < bl0 + n implies self.buf@[k]
                        == tail_new[k] by {
                        if bl0 <= k {
                            assert(self.buf@[bl0 + (k - bl0)] == data@[i + (k - bl0)]);
                        }
                    }
                    assert(self.buf@.take(bl0 + n) =~= tail_new);
                }
                i = i + n;
                self.buf_length = self.buf_length + n;
            }
        }
        proof {
            assert(fed0 + data@.take(len as int) =~= fed0 + data@);
        }
    }

    /// Absorbs the zero-padded trailing partial block if one is buffered,
    /// injects the message bit length into lane 0, mixes twice, and emits
    /// the 20-byte digest.  Consumes the hasher; the digest depends only on
    /// the byte stream `self@`.
    pub fn finalize(self) -> (digest: [u8; 20])
        requires
            self.wf(),
        ensures
            digest@ == tent_digest(self@),
    {
        let TentHash { mut state, mut buf, buf_length, message_length, processed } = self;
        let ghost fed = processed@;
        let ghost bl0 = buf_length as int;
        let ghost prefix = fed.take(fed.len() - bl0);
        let ghost tail = fed.skip(fed.len() - bl0);
        if buf_length > 0 {
            let ghost s_pre = state@;
            let mut j: usize = buf_length;
            while j < 32
                invariant
                    bl0 <= j <= 32,
                    0 < bl0 <= 32,
                    bl0 <= fed.len(),
                    tail == fed.skip(fed.len() - bl0),
                    tail.len() == bl0,
                    state@ == s_pre,
                    buf@.take(bl0) == tail,
                    forall|k: int| bl0 <= k < j ==> buf@[k] == 0u8,
                decreases 32 - j,
            {
                let ghost bprev = buf@;
                buf[j] = 0;
                j = j + 1;
                proof {
                    assert forall|k: int| 0 <= k < bl0 implies buf@[k] == tail[k] by {
                        assert(bprev.take(bl0)[k] == tail[k]);
                    }
                    assert(buf@.take(bl0) =~= tail);
                }
            }
            proof {
                assert(buf@ =~= zero_pad(tail)) by {
                    assert forall|k: int| 0 <= k < bl0 implies buf@[k] == tail[k] by {
                        assert(buf@.take(bl0)[k] == tail[k]);
                    }
                }
            }
            xor_data_into_state(&mut state, buf.as_slice());
            mix_state(&mut state);
            proof {
                lemma_absorb_all_append(iv(), prefix, tail);
                assert(prefix + tail =~= fed);
                assert(buf@.subrange(0, 32) =~= buf@);
                assert(state@ == absorb_block(s_pre, zero_pad(tail)));
                if bl0 == 32 {
                    assert(zero_pad(tail) =~= tail);
                    assert(absorb_all(s_pre, tail) == absorb_block(s_pre, tail)) by {
                        assert(tail.take(32) =~= tail);
                        assert(tail.skip(32) =~= Seq::<u8>::empty());
                        assert(absorb_all(absorb_block(s_pre, tail), Seq::<u8>::empty())
                            == absorb_block(s_pre, tail));
                    }
                }
                assert(state@ == absorb_all(iv(), fed));
            }
        } else {
            proof {
                lemma_absorb_all_append(iv(), prefix, tail);
                assert(tail =~= Seq::<u8>::empty());
                assert(prefix + tail =~= fed);
                assert(state@ == absorb_all(iv(), fed));
            }
        }
        let bits = message_length.wrapping_mul(8);
        let ghost s_absorbed = state@;
        state[0] = state[0] ^ bits;
        proof {
            lemma_counter_mul8(fed.len());
            assert(state@ =~= inject_length(s_absorbed, fed.len()));
        }
        mix_state(&mut state);
        mix_state(&mut state);
        state_to_digest(&state)
    }
}

} // verus!

