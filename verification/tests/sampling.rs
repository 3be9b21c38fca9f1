//! The seeded stream and the jittered grid sampler.

use mapgen::fixed::SCALE;
use mapgen::sampler::sample_points;

use rand_chacha::rand_core::{Rng, SeedableRng};

/// Recomputes one jitter offset the way the library specifies it: the top 20
/// bits of consecutive stream words, combined as `jitter * (u1 - u2) / SCALE`.
fn expected_offset(jitter: u64, w1: u64, w2: u64) -> i64 {
    let u1 = w1 >> 44;
    let u2 = w2 >> 44;
    if u1 >= u2 {
        ((jitter * (u1 - u2)) / (SCALE as u64)) as i64
    } else {
        -(((jitter * (u2 - u1)) / (SCALE as u64)) as i64)
    }
}

#[test]
fn sampler_matches_raw_chacha_stream() {
    let seed: u64 = 42;
    let jitter: u64 = SCALE as u64;
    let mut rng = rand_chacha::ChaCha8Rng::seed_from_u64(seed);
    let w: Vec<u64> = (0..8).map(|_| rng.next_u64()).collect();

    let sites = sample_points(seed, 2, jitter);
    assert_eq!(sites.len(), 4);
    // Site 0 sits at grid cell (0, 0); site 1 at (0, 1).
    assert_eq!(sites[0].x as i64, expected_offset(jitter, w[0], w[1]));
    assert_eq!(sites[0].y as i64, expected_offset(jitter, w[2], w[3]));
    assert_eq!(sites[1].x as i64, expected_offset(jitter, w[4], w[5]));
    assert_eq!(sites[1].y as i64, SCALE + expected_offset(jitter, w[6], w[7]));
}

#[test]
fn zero_jitter_yields_exact_lattice() {
    let sites = sample_points(0xDEADBEEF, 3, 0);
    assert_eq!(sites.len(), 9);
    for x in 0..3usize {
        for y in 0..3usize {
            let s = sites[x * 3 + y];
            assert_eq!(s.x as i64, x as i64 * SCALE);
            assert_eq!(s.y as i64, y as i64 * SCALE);
        }
    }
}

#[test]
fn sampling_is_deterministic() {
    let a = sample_points(7, 5, SCALE as u64);
    let b = sample_points(7, 5, SCALE as u64);
    assert_eq!(a.len(), b.len());
    for (p, q) in a.iter().zip(b.iter()) {
        assert_eq!(p.x, q.x);
        assert_eq!(p.y, q.y);
    }
}

#[test]
fn different_seeds_differ() {
    let a = sample_points(1, 4, SCALE as u64);
    let b = sample_points(2, 4, SCALE as u64);
    assert!(a.iter().zip(b.iter()).any(|(p, q)| p.x != q.x || p.y != q.y));
}

#[test]
fn empty_grid_yields_no_sites() {
    assert_eq!(sample_points(5, 0, 0).len(), 0);
}
