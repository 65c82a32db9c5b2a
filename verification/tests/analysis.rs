//! The analysis helpers: binomial coefficients, bit-pattern enumeration,
//! the deterministic input generators, and the avalanche chart.

use tenthash::avalanche::{
    compute_avalanche_chart, generate_counting, generate_counting_rev, generate_random,
    generate_single_1_bit, AvalancheChart,
};
use tenthash::stats::{binomial, bit_combinations, compute_stats, Stats};
use tenthash::mix_state;

#[test]
fn binomial_values() {
    assert_eq!(binomial(0, 0), 1);
    assert_eq!(binomial(5, 2), 10);
    assert_eq!(binomial(3, 5), 0);
    assert_eq!(binomial(32, 16), 601080390);
    assert_eq!(binomial(62, 31), 465428353255261088);
}

#[test]
fn bit_combinations_values() {
    assert_eq!(bit_combinations(0), 0x00000000);
    assert_eq!(bit_combinations(1), 0x00000001);
    assert_eq!(bit_combinations(2), 0x00000002);
    assert_eq!(bit_combinations(3), 0x00000004);
    assert_eq!(bit_combinations(32), 0x80000000);
    assert_eq!(bit_combinations(33), 0x00000003);
    assert_eq!(bit_combinations(34), 0x00000005);
    assert_eq!(bit_combinations(100), 0x00001002);
    assert_eq!(bit_combinations(528), 0xc0000000);
    assert_eq!(bit_combinations(1000), 0x00008042);
    assert_eq!(bit_combinations(41447), 0xe8000000);
}

#[test]
fn generators_produce_expected_blocks() {
    let mut out = [0u64; 4];
    generate_counting(5, &mut out);
    assert_eq!(out, [5, 0, 0, 0]);

    generate_counting_rev(1, &mut out);
    assert_eq!(out, [0, 0, 0, 1u64 << 63]);

    generate_single_1_bit(70, &mut out);
    assert_eq!(out, [0, 1u64 << 6, 0, 0]);

    generate_single_1_bit(256 + 3, &mut out);
    assert_eq!(out, [1u64 << 3, 0, 0, 0]);
}

#[test]
fn generate_random_is_seed_determined() {
    // The WyRand generator is deterministic, so the blocks are pinned by
    // the seed; these values are the generator's own outputs.
    let mut a = [0u64; 4];
    generate_random(0, &mut a);
    assert_eq!(
        a,
        [
            0x4ecf82b42eca6d0c,
            0xe006c7ea23aefdb3,
            0xe75bf05ab06a8acb,
            0x97e942c80a9a9913,
        ],
    );
    let mut b = [0u64; 4];
    generate_random(0, &mut b);
    assert_eq!(a, b);

    generate_random(7, &mut b);
    assert_eq!(
        b,
        [
            0x83f463ac6bc5325a,
            0x33c51fc7cfd79db4,
            0xaa8f775e5fbb1d15,
            0x68d94007e9cd86e4,
        ],
    );

    // The 32-bit variant is the low half of the first word of the block.
    assert_eq!(
        tenthash::stats::generate_random(0),
        (a[0] & 0xffff_ffff) as u32,
    );
    assert_eq!(tenthash::stats::generate_random(0), 0x2eca6d0c);
}

#[test]
fn avalanche_chart_of_identity() {
    // For the identity function, flipping input bit i flips exactly output
    // bit i, so the chart is the scaled identity matrix.
    let rounds = 3;
    let chart = compute_avalanche_chart(
        |s: usize| {
            let mut o = [0u64; 4];
            generate_counting(s, &mut o);
            o
        },
        |x: [u64; 4]| x,
        rounds,
    );
    assert_eq!(chart.sample_count, rounds);
    for i in 0..256 {
        for j in 0..256 {
            let expected = if i == j { rounds as u32 } else { 0 };
            assert_eq!(chart.chart[i][j], expected, "bit pair ({}, {})", i, j);
        }
    }
}

#[test]
fn avalanche_chart_of_mixer_diffuses() {
    let rounds = 2;
    let chart = compute_avalanche_chart(
        |s: usize| {
            let mut o = [0u64; 4];
            generate_single_1_bit(s, &mut o);
            o
        },
        |x: [u64; 4]| {
            let mut s = x;
            mix_state(&mut s);
            s
        },
        rounds,
    );
    assert_eq!(chart.sample_count, rounds);
    let mut total: u64 = 0;
    for i in 0..256 {
        for j in 0..256 {
            assert!(chart.chart[i][j] <= rounds as u32);
            total += chart.chart[i][j] as u64;
        }
    }
    // A single invocation of the mixer diffuses far more than one output
    // bit per input bit.
    assert!(total > 256 * rounds as u64);
}

#[test]
fn stats_of_identity_mix() {
    // For the identity function, the output flips are exactly the flipped
    // input pattern, and no two distinct output bits ever flip together.
    let stats = compute_stats(|s: usize| s as u32, |x: u32| x, 1);
    assert_eq!(stats.sample_count, 1);
    for flip_idx in 0..41448usize {
        let pattern = bit_combinations(flip_idx + 1);
        for j in 0..32 {
            assert_eq!(stats.avalanche_chart[flip_idx][j], (pattern >> j) & 1);
        }
    }
    for i in 0..32 {
        for k in 0..992 {
            assert_eq!(stats.bic_chart[i][k][0], 0, "both-flip count for bit {}", i);
        }
    }
}

#[test]
fn stats_tables_start_empty() {
    let s = Stats::new();
    assert_eq!(s.sample_count, 0);
    assert_eq!(s.avalanche_chart.len(), 41448);
    for row in s.avalanche_chart.iter() {
        for &v in row.iter() {
            assert_eq!(v, 0);
        }
    }
    assert_eq!(s.bic_chart.len(), 32);
    assert_eq!(s.bic_chart[0].len(), 992);
    assert_eq!(s.bic_chart[0][0], [0u32; 4]);
}
