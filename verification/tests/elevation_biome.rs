//! Elevation synthesis, the shaping term, and biome classification.

use mapgen::biome::{classify, classify_index, Biome};
use mapgen::elevation::{assign_elevation, shaping_elevation, simplex_sample, NOISE_DEN};
use mapgen::fixed::{Site, ELEV_DEN, SCALE};

use noise::NoiseFn;

#[test]
fn simplex_wrapper_matches_noise_crate() {
    let seed: u32 = 9;
    for &(xn, yn) in &[(0i32, 0i32), (NOISE_DEN, -NOISE_DEN), (123456, 7890123)] {
        let got = simplex_sample(seed, xn, yn, NOISE_DEN, SCALE as i32);
        let field = noise::Simplex::new(seed);
        let v = field.get([f64::from(xn) / f64::from(NOISE_DEN), f64::from(yn) / f64::from(
            NOISE_DEN,
        )]);
        let expected = (v * f64::from(SCALE as i32)).round() as i64;
        assert_eq!(got, expected);
    }
}

#[test]
fn simplex_wrapper_is_deterministic_and_seeded() {
    let a = simplex_sample(1, 999, -999, NOISE_DEN, SCALE as i32);
    let b = simplex_sample(1, 999, -999, NOISE_DEN, SCALE as i32);
    assert_eq!(a, b);
    let samples: Vec<i64> = (0u32..8)
        .map(|s| simplex_sample(s, 999, -999, NOISE_DEN, SCALE as i32))
        .collect();
    assert!(samples.iter().any(|&v| v != samples[0]));
}

#[test]
fn shaping_center_is_one() {
    // nx == ny == 0 with the noise stubbed to zero: elevation is exactly 1.
    assert_eq!(shaping_elevation(0, 0, 0), ELEV_DEN);
}

#[test]
fn shaping_corner_is_half() {
    // nx == ny == 1/2 (doubled coordinate 1) with zero noise: exactly 1/2.
    assert_eq!(shaping_elevation(NOISE_DEN, NOISE_DEN, 0), ELEV_DEN / 2);
}

#[test]
fn shaping_clamps_the_noise_term() {
    // A wild sample counts as one full unit: 1 + 1/4 at the centre.
    assert_eq!(shaping_elevation(0, 0, i64::MAX), ELEV_DEN + 25 * SCALE);
    assert_eq!(shaping_elevation(0, 0, i64::MIN), ELEV_DEN - 25 * SCALE);
}

#[test]
fn elevation_field_matches_formula() {
    let seed: u32 = 5;
    let pts = vec![
        Site { x: 13107200, y: 13107200 },
        Site { x: 0, y: 0 },
        Site { x: (3 * SCALE) as i32, y: (20 * SCALE) as i32 },
    ];
    let elev = assign_elevation(&pts, seed);
    assert_eq!(elev.len(), 3);
    for (k, p) in pts.iter().enumerate() {
        let xn = 2 * p.x - NOISE_DEN;
        let yn = 2 * p.y - NOISE_DEN;
        let s = simplex_sample(seed, xn, yn, NOISE_DEN, SCALE as i32);
        assert_eq!(elev[k], shaping_elevation(xn, yn, s));
    }
}

#[test]
fn classify_splits_at_threshold() {
    let threshold: i64 = 68157440;  // 0.65 of a unit
    assert_eq!(classify(threshold - 1, threshold), Biome::Low);
    assert_eq!(classify(threshold, threshold), Biome::High);
    assert_eq!(classify(ELEV_DEN, threshold), Biome::High);
    assert_eq!(classify(-ELEV_DEN, threshold), Biome::Low);
}

#[test]
fn classify_index_generalizes_to_many_thresholds() {
    let thresholds = vec![0i64, 40 * SCALE, 80 * SCALE];
    assert_eq!(classify_index(-1, &thresholds), 0);
    assert_eq!(classify_index(0, &thresholds), 1);
    assert_eq!(classify_index(50 * SCALE, &thresholds), 2);
    assert_eq!(classify_index(95 * SCALE, &thresholds), 3);
    // One threshold reproduces the two-way split.
    let one = vec![68157440i64];
    assert_eq!(classify_index(68157439, &one), 0);
    assert_eq!(classify_index(68157440, &one), 1);
}
