//! The mixing permutation and its inverse compose to the identity in both
//! orders, on a spread of states.

use tenthash::mixer::mix_state_with;
use tenthash::{mix_state, unmix_state};

#[test]
fn parametric_mixer_matches_fixed_schedule() {
    // Running the configurable mixer with the shipped rotation schedule is
    // the same as running the fixed mixing permutation.
    let schedule: [[u32; 2]; 7] = [
        [16, 28],
        [14, 57],
        [11, 22],
        [35, 34],
        [57, 16],
        [59, 40],
        [44, 13],
    ];
    for i in 0..64u64 {
        let mut a = [i, i.wrapping_mul(0x9e3779b97f4a7c15), !i, i << 7];
        let mut b = a;
        mix_state(&mut a);
        mix_state_with(&mut b, &schedule);
        assert_eq!(a, b);
    }
}

#[test]
fn unmix() {
    for i in 0..1024u64 {
        let mut a = [0u64; 4];
        for j in 0..4 {
            a[j] = i + j as u64;
        }
        let mut b = a;

        unmix_state(&mut b);
        assert!(a != b);
        mix_state(&mut b);
        assert_eq!(a, b);

        mix_state(&mut b);
        assert!(a != b);
        unmix_state(&mut b);
        assert_eq!(a, b);
    }
}
