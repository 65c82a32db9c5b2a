//! Support for the reduced-size mixer study: binomial coefficients, the
//! combinatorial enumeration of bit patterns used as avalanche inputs, and
//! the integer tables that the statistics are accumulated into.  The
//! floating-point summaries live with the offline analysis tooling.

use vstd::prelude::*;

use crate::avalanche::{mix64, mix64_spec, wyrand_block, wyrand_u64_of};

verus! {

/// The binomial coefficient `C(n, k)`, by Pascal's rule.
pub open spec fn binomial_spec(n: nat, k: nat) -> nat
    decreases n, k,
{
    if k == 0 {
        1
    } else if k > n {
        0
    } else {
        binomial_spec((n - 1) as nat, (k - 1) as nat) + binomial_spec((n - 1) as nat, k)
    }
}

/// `C(m, m)` is one: there is exactly one way to pick everything.
pub proof fn lemma_binomial_diag(m: nat)
    ensures
        binomial_spec(m, m) == 1,
    decreases m,
{
    if m > 0 {
        lemma_binomial_diag((m - 1) as nat);
        assert(binomial_spec((m - 1) as nat, m) == 0);
    }
}

/// `C(n, k)` never exceeds `2^n`: every coefficient is a count of subsets.
pub proof fn lemma_binomial_bound(n: nat, k: nat)
    ensures
        binomial_spec(n, k) <= vstd::arithmetic::power2::pow2(n),
    decreases n, k,
{
    vstd::arithmetic::power2::lemma_pow2_pos(n);
    if k == 0 || k > n {
    } else {
        lemma_binomial_bound((n - 1) as nat, (k - 1) as nat);
        lemma_binomial_bound((n - 1) as nat, k);
        vstd::arithmetic::power2::lemma_pow2_unfold(n);
    }
}

/// Builds rows `0..=n` of Pascal's triangle: `tri[r][c] == C(r, c)`.
fn pascal_rows(n: usize) -> (tri: Vec<Vec<u64>>)
    requires
        n <= 62,
    ensures
        tri@.len() == n + 1,
        forall|r: int| 0 <= r <= n ==> #[trigger] tri@[r]@.len() == r + 1,
        forall|r: int, c: int|
            0 <= r <= n && 0 <= c <= r ==> #[trigger] tri@[r]@[c] == binomial_spec(
                r as nat,
                c as nat,
            ),
{
    let mut tri: Vec<Vec<u64>> = Vec::new();
    let mut first: Vec<u64> = Vec::new();
    first.push(1);
    tri.push(first);
    let mut i: usize = 0;
    while i < n
        invariant
            i <= n,
            n <= 62,
            tri@.len() == i + 1,
            forall|r: int| 0 <= r <= i ==> #[trigger] tri@[r]@.len() == r + 1,
            forall|r: int, c: int|
                0 <= r <= i && 0 <= c <= r ==> #[trigger] tri@[r]@[c] == binomial_spec(
                    r as nat,
                    c as nat,
                ),
        decreases n - i,
    {
        let mut next: Vec<u64> = Vec::new();
        next.push(1);
        let mut j: usize = 1;
        while j <= i
            invariant
                1 <= j <= i + 1,
                i < n,
                n <= 62,
                tri@.len() == i + 1,
                forall|r: int| 0 <= r <= i ==> #[trigger] tri@[r]@.len() == r + 1,
                forall|r: int, c: int|
                    0 <= r <= i && 0 <= c <= r ==> #[trigger] tri@[r]@[c] == binomial_spec(
                        r as nat,
                        c as nat,
                    ),
                next@.len() == j,
                forall|t: int|
                    0 <= t < j ==> #[trigger] next@[t] == binomial_spec((i + 1) as nat, t as nat),
            decreases i + 1 - j,
        {
            proof {
                lemma_binomial_bound(i as nat, (j - 1) as nat);
                lemma_binomial_bound(i as nat, j as nat);
                vstd::arithmetic::power2::lemma_pow2_strictly_increases(i as nat, 62);
                vstd::arithmetic::power2::lemma2_to64_rest();
            }
            let v = tri[i][j - 1] + tri[i][j];
            next.push(v);
            j = j + 1;
        }
        proof {
            lemma_binomial_diag((i + 1) as nat);
        }
        next.push(1);
        tri.push(next);
        i = i + 1;
    }
    tri
}

/// Computes `C(n, k)` by building Pascal's triangle row by row.
pub fn binomial(n: usize, k: usize) -> (r: u64)
    requires
        n <= 62,
    ensures
        r == binomial_spec(n as nat, k as nat),
{
    if k > n {
        return 0;
    }
    let tri = pascal_rows(n);
    tri[n][k]
}

/// Phase one of the combinatorial unranking: strips whole popcount classes
/// off the rank, returning the remaining rank and the popcount it landed
/// in.  Ranks below `2^32` always land at a popcount of at most 32.
pub open spec fn split_rank(n: nat, bits: nat) -> (nat, nat)
    decreases 33 - bits,
{
    if bits > 32 {
        (n, bits)
    } else if n >= binomial_spec(32, bits) {
        split_rank((n - binomial_spec(32, bits)) as nat, bits + 1)
    } else {
        (n, bits)
    }
}

/// Phase two of the combinatorial unranking: chooses the set bits from the
/// highest position down.
pub open spec fn unrank_bits(n: nat, bits: nat, t: nat) -> u32
    decreases t,
{
    if t == 0 || bits == 0 {
        0u32
    } else {
        let y = if t > bits {
            binomial_spec((t - 1) as nat, bits)
        } else {
            0
        };
        if n >= y {
            unrank_bits((n - y) as nat, (bits - 1) as nat, (t - 1) as nat) | (1u32 << ((t
                - 1) as u32))
        } else {
            unrank_bits(n, bits, (t - 1) as nat)
        }
    }
}

/// The `index`-th 32-bit value in the enumeration ordered by number of set
/// bits first (no bits set, then every one-bit value, then every two-bit
/// value, and so on), counting within each class from the highest bit
/// positions down.
pub open spec fn bit_combinations_spec(index: nat) -> u32 {
    let nb = split_rank(index % 0x1_0000_0000, 0);
    unrank_bits(nb.0, nb.1, 32)
}

proof fn lemma_or_assoc(a: u32, b: u32, c: u32)
    ensures
        a | (b | c) == (a | b) | c,
        a | 0 == a,
{
    assert(a | (b | c) == (a | b) | c && a | 0 == a) by (bit_vector);
}

proof fn lemma_or_comm(a: u32, b: u32)
    ensures
        a | b == b | a,
{
    assert(a | b == b | a) by (bit_vector);
}

/// Computes the `index`-th bit combination, ordered by first no set bits,
/// then all combinations of one set bit, then two set bits, and so on.
pub fn bit_combinations(index: usize) -> (r: u32)
    ensures
        r == bit_combinations_spec(index as nat),
{
    let tri = pascal_rows(32);
    let mut n: u64 = (index as u64) % 0x1_0000_0000;
    let mut bits: usize = 0;
    let mut combos = tri[32][0];
    while bits <= 32 && n >= combos
        invariant
            bits <= 33,
            combos == binomial_spec(32, bits as nat),
            tri@.len() == 33,
            forall|r: int| 0 <= r <= 32 ==> #[trigger] tri@[r]@.len() == r + 1,
            forall|r: int, c: int|
                0 <= r <= 32 && 0 <= c <= r ==> #[trigger] tri@[r]@[c] == binomial_spec(
                    r as nat,
                    c as nat,
                ),
            split_rank((index as u64 % 0x1_0000_0000) as nat, 0) == split_rank(
                n as nat,
                bits as nat,
            ),
        decreases 33 - bits,
    {
        n = n - combos;
        bits = bits + 1;
        combos = if bits <= 32 {
            tri[32][bits]
        } else {
            proof {
                assert(binomial_spec(32, bits as nat) == 0);
            }
            0
        };
    }
    let mut result: u32 = 0;
    let mut t: usize = 32;
    let ghost n1 = n as nat;
    let ghost bits1 = bits as nat;
    proof {
        let sub = unrank_bits(n1, bits1, 32);
        lemma_or_comm(0, sub);
        lemma_or_assoc(sub, 0, 0);
    }
    while t > 0 && bits > 0
        invariant
            t <= 32,
            bits <= 33,
            tri@.len() == 33,
            forall|r: int| 0 <= r <= 32 ==> #[trigger] tri@[r]@.len() == r + 1,
            forall|r: int, c: int|
                0 <= r <= 32 && 0 <= c <= r ==> #[trigger] tri@[r]@[c] == binomial_spec(
                    r as nat,
                    c as nat,
                ),
            unrank_bits(n1, bits1, 32) == result | unrank_bits(n as nat, bits as nat, t as nat),
        decreases t,
    {
        let y = if t > bits {
            tri[t - 1][bits]
        } else {
            0
        };
        let ghost res0 = result;
        let ghost n0 = n as nat;
        let ghost bits0 = bits as nat;
        if n >= y {
            result = result | (1u32 << ((t - 1) as u32));
            n = n - y;
            bits = bits - 1;
            proof {
                lemma_or_assoc(
                    res0,
                    1u32 << ((t - 1) as u32),
                    unrank_bits(n as nat, bits as nat, (t - 1) as nat),
                );
                lemma_or_assoc(
                    res0,
                    unrank_bits(n as nat, bits as nat, (t - 1) as nat),
                    1u32 << ((t - 1) as u32),
                );
                assert(unrank_bits(n0, bits0, t as nat) == unrank_bits(
                    n as nat,
                    bits as nat,
                    (t - 1) as nat,
                ) | (1u32 << ((t - 1) as u32)));
                lemma_or_comm(
                    1u32 << ((t - 1) as u32),
                    unrank_bits(n as nat, bits as nat, (t - 1) as nat),
                );
            }
        }
        t = t - 1;
    }
    proof {
        assert(unrank_bits(n as nat, bits as nat, t as nat) == 0u32);
        lemma_or_assoc(result, 0, 0);
    }
    result
}

/// The number of distinct bit patterns with between one and four set bits
/// in a 32-bit word: `C(32,1) + C(32,2) + C(32,3) + C(32,4)`.
pub const COMBO_PATTERNS: usize = 41448;

/// Statistics tables for the reduced-size mixer study: a bit-independence
/// chart and a higher-order avalanche chart over a 32-bit state.
pub struct Stats {
    /// The number of samples accumulated.
    pub sample_count: usize,
    /// For every input bit, the four outcome counters (both flip, neither
    /// flips, only one flips) for each ordered pair of distinct output
    /// bits.
    pub bic_chart: [[[u32; 4]; 992]; 32],
    /// One row per input bit pattern of up to four flipped bits; each entry
    /// counts how often the corresponding output bit flipped.
    pub avalanche_chart: Vec<[u32; 32]>,
}

impl Stats {
    /// Every counter is a number of sampled rounds, so none can exceed the
    /// total.
    pub open spec fn wf(self) -> bool {
        &&& self.avalanche_chart@.len() == COMBO_PATTERNS
        &&& forall|i: int, j: int|
            0 <= i < COMBO_PATTERNS && 0 <= j < 32 ==> #[trigger] self.avalanche_chart@[i]@[j]
                <= self.sample_count
        &&& forall|i: int, k: int, c: int|
            0 <= i < 32 && 0 <= k < 992 && 0 <= c < 4 ==> #[trigger] self.bic_chart@[i]@[k]@[c]
                <= self.sample_count
    }

    /// Creates an empty statistics table with no samples.
    pub fn new() -> (r: Self)
        ensures
            r.sample_count == 0,
            r.avalanche_chart@.len() == COMBO_PATTERNS,
            forall|i: int, j: int|
                0 <= i < COMBO_PATTERNS && 0 <= j < 32 ==> #[trigger] r.avalanche_chart@[i]@[j]
                    == 0,
            forall|i: int, k: int, c: int|
                0 <= i < 32 && 0 <= k < 992 && 0 <= c < 4 ==> #[trigger] r.bic_chart@[i]@[k]@[c]
                    == 0,
    {
        let mut av: Vec<[u32; 32]> = Vec::new();
        let mut i: usize = 0;
        while i < COMBO_PATTERNS
            invariant
                i <= COMBO_PATTERNS,
                av@.len() == i,
                forall|p: int, j: int|
                    0 <= p < i && 0 <= j < 32 ==> #[trigger] av@[p]@[j] == 0,
            decreases COMBO_PATTERNS - i,
        {
            av.push([0u32; 32]);
            i = i + 1;
        }
        Stats { sample_count: 0, bic_chart: [[[0u32; 4]; 992]; 32], avalanche_chart: av }
    }
}

/// Computes mixing statistics for a 32-bit mixing function over a
/// generated input pattern.
///
/// * `generate_input` maps a round number to an input word.
/// * `mix` is the function under measurement.
/// * `rounds` is the number of sampled rounds.
///
/// Two tables are filled.  The higher-order avalanche chart has one row
/// per input pattern of up to four flipped bits (in the
/// [`bit_combinations`] order, starting at pattern one): each entry counts
/// the rounds in which the corresponding output bit flipped.  The
/// bit-independence chart counts, for every input bit and every ordered
/// pair of distinct output bits, the four flip outcomes.  Each counter
/// grows by at most one per round.
pub fn compute_stats<F1, F2>(generate_input: F1, mix: F2, rounds: usize) -> (chart: Stats) where
    F1: Fn(usize) -> u32,
    F2: Fn(u32) -> u32,

    requires
        rounds <= 0xffff_ffff,
        forall|s: usize| #[trigger] call_requires(generate_input, (s,)),
        forall|x: u32| #[trigger] call_requires(mix, (x,)),
    ensures
        chart.sample_count == rounds,
        chart.wf(),
{
    let mut chart = Stats::new();
    let mut round: usize = 0;
    while round < rounds
        invariant
            round <= rounds,
            rounds <= 0xffff_ffff,
            chart.sample_count == round,
            chart.wf(),
            forall|s: usize| #[trigger] call_requires(generate_input, (s,)),
            forall|x: u32| #[trigger] call_requires(mix, (x,)),
        decreases rounds - round,
    {
        let input = generate_input(round);
        let output = mix(input);

        // Higher-order avalanche: flip each pattern of up to four bits.
        let mut flip_idx: usize = 0;
        while flip_idx < COMBO_PATTERNS
            invariant
                flip_idx <= COMBO_PATTERNS,
                round < rounds,
                rounds <= 0xffff_ffff,
                chart.sample_count == round,
                chart.avalanche_chart@.len() == COMBO_PATTERNS,
                forall|i: int, j: int|
                    0 <= i < flip_idx && 0 <= j < 32 ==> #[trigger] chart.avalanche_chart@[i]@[j]
                        <= round + 1,
                forall|i: int, j: int|
                    flip_idx <= i < COMBO_PATTERNS && 0 <= j < 32
                        ==> #[trigger] chart.avalanche_chart@[i]@[j] <= round,
                forall|i: int, k: int, c: int|
                    0 <= i < 32 && 0 <= k < 992 && 0 <= c < 4
                        ==> #[trigger] chart.bic_chart@[i]@[k]@[c] <= round,
                forall|s: usize| #[trigger] call_requires(generate_input, (s,)),
                forall|x: u32| #[trigger] call_requires(mix, (x,)),
            decreases COMBO_PATTERNS - flip_idx,
        {
            let input_tweaked = input ^ bit_combinations(flip_idx + 1);
            let output_tweaked = mix(input_tweaked);
            let flips = output ^ output_tweaked;
            let mut row = chart.avalanche_chart[flip_idx];
            let ghost row0 = row@;
            let mut out_bit: usize = 0;
            while out_bit < 32
                invariant
                    out_bit <= 32,
                    flip_idx < COMBO_PATTERNS,
                    round < rounds,
                    rounds <= 0xffff_ffff,
                    chart.avalanche_chart@.len() == COMBO_PATTERNS,
                    row0 == chart.avalanche_chart@[flip_idx as int]@,
                    forall|j: int| 0 <= j < out_bit ==> #[trigger] row@[j] <= row0[j] + 1,
                    forall|j: int| out_bit <= j < 32 ==> #[trigger] row@[j] == row0[j],
                    forall|i: int, j: int|
                        0 <= i < flip_idx && 0 <= j < 32
                            ==> #[trigger] chart.avalanche_chart@[i]@[j] <= round + 1,
                    forall|i: int, j: int|
                        flip_idx <= i < COMBO_PATTERNS && 0 <= j < 32
                            ==> #[trigger] chart.avalanche_chart@[i]@[j] <= round,
                decreases 32 - out_bit,
            {
                let flipped = (flips & (1u32 << (out_bit as u32))) != 0;
                if flipped {
                    row[out_bit] = row[out_bit] + 1;
                }
                out_bit = out_bit + 1;
            }
            chart.avalanche_chart[flip_idx] = row;
            flip_idx = flip_idx + 1;
        }

        // Bit independence criterion: flip each single input bit and
        // compare every pair of output bits.
        let mut in_bit: usize = 0;
        while in_bit < 32
            invariant
                in_bit <= 32,
                round < rounds,
                rounds <= 0xffff_ffff,
                chart.sample_count == round,
                chart.avalanche_chart@.len() == COMBO_PATTERNS,
                forall|i: int, j: int|
                    0 <= i < COMBO_PATTERNS && 0 <= j < 32
                        ==> #[trigger] chart.avalanche_chart@[i]@[j] <= round + 1,
                forall|i: int, k: int, c: int|
                    0 <= i < in_bit && 0 <= k < 992 && 0 <= c < 4
                        ==> #[trigger] chart.bic_chart@[i]@[k]@[c] <= round + 1,
                forall|i: int, k: int, c: int|
                    in_bit <= i < 32 && 0 <= k < 992 && 0 <= c < 4
                        ==> #[trigger] chart.bic_chart@[i]@[k]@[c] <= round,
                forall|x: u32| #[trigger] call_requires(mix, (x,)),
            decreases 32 - in_bit,
        {
            let input_tweaked = input ^ (1u32 << (in_bit as u32));
            let output_tweaked = mix(input_tweaked);
            let flips = output ^ output_tweaked;
            let mut bic_row = chart.bic_chart[in_bit];
            let ghost bic0 = bic_row@;
            let mut i: usize = 0;
            while i < 31
                invariant
                    i <= 31,
                    in_bit < 32,
                    round < rounds,
                    rounds <= 0xffff_ffff,
                    bic0 == chart.bic_chart@[in_bit as int]@,
                    forall|k: int, c: int|
                        0 <= k < 992 && 0 <= c < 4 ==> #[trigger] bic_row@[k]@[c] <= bic0[k]@[c]
                            + if (k % 31) < i {
                            1int
                        } else {
                            0int
                        },
                    forall|k: int, c: int|
                        0 <= k < 992 && 0 <= c < 4 ==> bic0[k]@[c] <= round,
                decreases 31 - i,
            {
                let sh = i as u32 + 1;
                let flips_s = (flips << sh) | (flips >> (32 - sh));
                let both = flips & flips_s;
                let neither = !flips & !flips_s;
                let only_left = flips & !flips_s;
                let only_right = !flips & flips_s;

                let mut j: usize = 0;
                while j < 32
                    invariant
                        j <= 32,
                        i < 31,
                        in_bit < 32,
                        round < rounds,
                        rounds <= 0xffff_ffff,
                        bic0 == chart.bic_chart@[in_bit as int]@,
                        forall|k: int, c: int|
                            0 <= k < 992 && 0 <= c < 4 ==> #[trigger] bic_row@[k]@[c] <= bic0[k]@[c]
                                + if (k % 31) < i || ((k % 31) == i && (k / 31) < j) {
                                1int
                            } else {
                                0int
                            },
                        forall|k: int, c: int|
                            0 <= k < 992 && 0 <= c < 4 ==> bic0[k]@[c] <= round,
                    decreases 32 - j,
                {
                    let mask = 1u32 << (j as u32);
                    let k = j * 31 + i;
                    proof {
                        vstd::arithmetic::div_mod::lemma_mod_multiples_vanish(
                            j as int,
                            i as int,
                            31,
                        );
                        vstd::arithmetic::div_mod::lemma_small_mod(i as nat, 31nat);
                        vstd::arithmetic::div_mod::lemma_div_multiples_vanish_fancy(
                            j as int,
                            i as int,
                            31,
                        );
                        assert((k as int) % 31 == i && (k as int) / 31 == j);
                    }
                    let mut cell = bic_row[k];
                    if (both & mask) != 0 {
                        cell[0] = cell[0] + 1;
                    }
                    if (neither & mask) != 0 {
                        cell[1] = cell[1] + 1;
                    }
                    if (only_left & mask) != 0 {
                        cell[2] = cell[2] + 1;
                    }
                    if (only_right & mask) != 0 {
                        cell[3] = cell[3] + 1;
                    }
                    bic_row[k] = cell;
                    j = j + 1;
                }
                i = i + 1;
            }
            chart.bic_chart[in_bit] = bic_row;
            in_bit = in_bit + 1;
        }

        chart.sample_count = chart.sample_count + 1;
        round = round + 1;
    }
    chart
}

proof fn lemma_low_half_bound(x: u64)
    ensures
        x & 0xffff_ffff < 0x1_0000_0000,
{
    assert(x & 0xffff_ffff < 0x1_0000_0000) by (bit_vector);
}

/// Generates a random-looking but seed-determined 32-bit block: the low
/// half of the first WyRand output for the scrambled seed.
pub fn generate_random(seed: usize) -> (r: u32)
    ensures
        r == (wyrand_u64_of(mix64_spec(seed as u64), 0) & 0xffff_ffff) as u32,
{
    let s = mix64(seed as u64);
    let block = wyrand_block(s);
    let low = block[0] & 0xffff_ffff;
    proof {
        lemma_low_half_bound(block@[0]);
    }
    low as u32
}

} // verus!
