//! Avalanche measurement support: input-block generators and the bit-flip
//! chart that records, for every input/output bit pair of a mixing
//! function, how often flipping the input bit flipped the output bit.
//! The floating-point summary statistics computed from a chart live with
//! the offline analysis tooling; the chart itself is integer data and is
//! built here.

use vstd::prelude::*;

use nanorand::Rng;

verus! {

/// Whether bit `i` of `x` is set, for `i < 64`.
pub open spec fn bit64(x: u64, i: u64) -> bool
    recommends
        i < 64,
{
    (x >> i) & 1 == 1
}

/// Relies on the standard library's `u64::reverse_bits`: the least
/// significant bit becomes the most significant bit, the second least
/// significant becomes the second most significant, and so on.
pub assume_specification[ u64::reverse_bits ](x: u64) -> (r: u64)
    ensures
        forall|i: u64| i < 64 ==> bit64(r, i) == bit64(x, (63 - i) as u64),
;

/// Output `index` of nanorand's WyRand stream for a given seed.  WyRand is
/// a deterministic generator: the stream is a function of the seed alone.
pub uninterp spec fn wyrand_u64_of(seed: u64, index: u64) -> u64;

/// Relies on nanorand's `WyRand::new_seed` and `Rng::generate::<u64>`: the
/// first four 64-bit outputs of the WyRand generator seeded with `seed`.
/// The generator holds nothing but the evolving 64-bit seed, so the
/// outputs depend on `seed` alone.
#[verifier::external_body]
pub(crate) fn wyrand_block(seed: u64) -> (r: [u64; 4])
    ensures
        forall|k: int| 0 <= k < 4 ==> r@[k] == wyrand_u64_of(seed, k as u64),
{
    let mut rng = nanorand::WyRand::new_seed(seed);
    [
        rng.generate::<u64>(),
        rng.generate::<u64>(),
        rng.generate::<u64>(),
        rng.generate::<u64>(),
    ]
}

/// Scrambles a block seed before it is used as a WyRand seed, so that
/// consecutive seeds give unrelated streams.
pub open spec fn mix64_spec(n: u64) -> u64 {
    let a = n ^ 0x7be355f7c2e736d2;
    let b = a ^ (a >> 30);
    let c = b.wrapping_mul(0xbf58476d1ce4e5b9);
    let d = c ^ (c >> 27);
    let e = d.wrapping_mul(0x94d049bb133111eb);
    e ^ (e >> 31)
}

pub(crate) fn mix64(n: u64) -> (r: u64)
    ensures
        r == mix64_spec(n),
{
    let a = n ^ 0x7be355f7c2e736d2;
    let b = a ^ (a >> 30);
    let c = b.wrapping_mul(0xbf58476d1ce4e5b9);
    let d = c ^ (c >> 27);
    let e = d.wrapping_mul(0x94d049bb133111eb);
    e ^ (e >> 31)
}

/// Generates a random-looking data block.  The block is determined by the
/// seed: the seed is scrambled, then the block is drawn from the WyRand
/// stream of the scrambled seed.
pub fn generate_random(seed: usize, out: &mut [u64; 4])
    ensures
        forall|k: int|
            0 <= k < 4 ==> final(out)@[k] == wyrand_u64_of(mix64_spec(seed as u64), k as u64),
{
    let s = mix64(seed as u64);
    *out = wyrand_block(s);
}

/// Generates a data block with all bits zero except bit `seed % 256`.
pub fn generate_single_1_bit(seed: usize, out: &mut [u64; 4])
    ensures
        forall|k: int|
            0 <= k < 4 ==> final(out)@[k] == if k == (seed % 256) / 64 {
                1u64 << (((seed % 256) % 64) as u64)
            } else {
                0u64
            },
{
    let bit_idx = seed % 256;
    let i = bit_idx / 64;
    let item = 1u64 << ((bit_idx % 64) as u32);
    *out = [0, 0, 0, 0];
    out[i] = item;
}

/// Generates a data block whose lowest bits count up with the seed.
pub fn generate_counting(seed: usize, out: &mut [u64; 4])
    ensures
        final(out)@ == seq![seed as u64, 0u64, 0u64, 0u64],
{
    *out = [seed as u64, 0, 0, 0];
    proof {
        assert(out@ =~= seq![seed as u64, 0u64, 0u64, 0u64]);
    }
}

/// Generates a data block whose *highest* bits count up with the seed, by
/// placing the bit-reversed seed in the top lane.
pub fn generate_counting_rev(seed: usize, out: &mut [u64; 4])
    ensures
        final(out)@[0] == 0u64,
        final(out)@[1] == 0u64,
        final(out)@[2] == 0u64,
        forall|i: u64| i < 64 ==> bit64(final(out)@[3], i) == bit64(seed as u64, (63 - i) as u64),
{
    let rev = (seed as u64).reverse_bits();
    *out = [0, 0, 0, rev];
}

/// A bit-flip chart: for every pair of an input bit and an output bit of a
/// 256-bit mixing function, the number of sampled rounds in which flipping
/// the input bit flipped the output bit.
pub struct AvalancheChart {
    /// The number of sampled rounds accumulated in the chart.
    pub sample_count: usize,
    /// `chart[i][j]` counts the rounds in which input bit `i` flipped
    /// output bit `j`.
    pub chart: [[u32; 256]; 256],
}

impl AvalancheChart {
    /// Every count in the chart is a number of sampled rounds, so none can
    /// exceed the total.
    pub open spec fn wf(self) -> bool {
        forall|i: int, j: int|
            0 <= i < 256 && 0 <= j < 256 ==> #[trigger] self.chart@[i]@[j] <= self.sample_count
    }

    /// Creates an empty chart with no samples.
    pub fn new() -> (r: Self)
        ensures
            r.sample_count == 0,
            r.wf(),
            forall|i: int, j: int|
                0 <= i < 256 && 0 <= j < 256 ==> #[trigger] r.chart@[i]@[j] == 0,
    {
        Self { sample_count: 0, chart: [[0u32; 256]; 256] }
    }
}

/// Estimates an avalanche chart for a mixing function.
///
/// * `generate_input` maps a round number to an input block; the chart is
///   deterministic exactly when the generator is.
/// * `mix` is the function under measurement.
/// * `rounds` is the number of sampled rounds.
///
/// For each round the input block and its 256 one-bit tweaks are mixed,
/// and every output bit that differs bumps the count of its in/out pair,
/// so each pair's count grows by at most one per round.
pub fn compute_avalanche_chart<F1, F2>(generate_input: F1, mix: F2, rounds: usize) -> (chart:
    AvalancheChart) where F1: Fn(usize) -> [u64; 4], F2: Fn([u64; 4]) -> [u64; 4]
    requires
        rounds <= 0xffff_ffff,
        forall|s: usize| #[trigger] call_requires(generate_input, (s,)),
        forall|x: [u64; 4]| #[trigger] call_requires(mix, (x,)),
    ensures
        chart.sample_count == rounds,
        chart.wf(),
{
    let mut chart = AvalancheChart::new();
    let mut round: usize = 0;
    while round < rounds
        invariant
            round <= rounds,
            rounds <= 0xffff_ffff,
            chart.sample_count == round,
            chart.wf(),
            forall|s: usize| #[trigger] call_requires(generate_input, (s,)),
            forall|x: [u64; 4]| #[trigger] call_requires(mix, (x,)),
        decreases rounds - round,
    {
        let input = generate_input(round);
        let output = mix(input);
        let mut in_bit: usize = 0;
        while in_bit < 256
            invariant
                in_bit <= 256,
                round < rounds,
                rounds <= 0xffff_ffff,
                chart.sample_count == round,
                forall|i: int, j: int|
                    0 <= i < in_bit && 0 <= j < 256 ==> #[trigger] chart.chart@[i]@[j] <= round
                        + 1,
                forall|i: int, j: int|
                    in_bit <= i < 256 && 0 <= j < 256 ==> #[trigger] chart.chart@[i]@[j]
                        <= round,
                forall|s: usize| #[trigger] call_requires(generate_input, (s,)),
                forall|x: [u64; 4]| #[trigger] call_requires(mix, (x,)),
            decreases 256 - in_bit,
        {
            let mut input_tweaked = input;
            let lane = in_bit / 64;
            input_tweaked[lane] = input_tweaked[lane] ^ (1u64 << ((in_bit % 64) as u32));
            let output_tweaked = mix(input_tweaked);
            let mut row = chart.chart[in_bit];
            let ghost row0 = row@;
            let mut out_bit: usize = 0;
            while out_bit < 256
                invariant
                    out_bit <= 256,
                    in_bit < 256,
                    round < rounds,
                    rounds <= 0xffff_ffff,
                    row0 == chart.chart@[in_bit as int]@,
                    forall|j: int| 0 <= j < out_bit ==> #[trigger] row@[j] <= row0[j] + 1,
                    forall|j: int| out_bit <= j < 256 ==> #[trigger] row@[j] == row0[j],
                    forall|i: int, j: int|
                        0 <= i < in_bit && 0 <= j < 256 ==> #[trigger] chart.chart@[i]@[j]
                            <= round + 1,
                    forall|i: int, j: int|
                        in_bit <= i < 256 && 0 <= j < 256 ==> #[trigger] chart.chart@[i]@[j]
                            <= round,
                decreases 256 - out_bit,
            {
                let word = out_bit / 64;
                let mask = 1u64 << ((out_bit % 64) as u32);
                let flipped = (output[word] & mask) != (output_tweaked[word] & mask);
                if flipped {
                    row[out_bit] = row[out_bit] + 1;
                }
                out_bit = out_bit + 1;
            }
            chart.chart[in_bit] = row;
            in_bit = in_bit + 1;
        }
        chart.sample_count = chart.sample_count + 1;
        round = round + 1;
    }
    chart
}

} // verus!
