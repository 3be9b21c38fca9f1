//! Noise-driven elevation synthesis with a square-island radial falloff.
//!
//! For a site at real coordinates `(xf, yf)` the normalized position is
//! `nx = xf / 25 - 1/2`, `ny = yf / 25 - 1/2`; a coherent-noise sample `s`
//! is taken at `(nx / 0.5, ny / 0.5)` and halved, and the elevation is
//! `(1 + (1 + s/2) - d) / 2` with the Chebyshev falloff
//! `d = 2 * max(|nx|, |ny|)` — high near the domain's centre, low near its
//! edges, whatever the sign of the noise.
//!
//! In fixed point this is exact: with site numerator `x` over `SCALE`, the
//! doubled normalized coordinate `nx / 0.5` is the fraction
//! `(2x - 25 * SCALE) / (25 * SCALE)`, and the elevation is the numerator
//! `100 * SCALE + 25 * s - 2 * max(|2x - 25 * SCALE|, |2y - 25 * SCALE|)`
//! over [`ELEV_DEN`], where `s` is the noise sample scaled by `SCALE` and
//! clamped to one unit of magnitude.

use vstd::prelude::*;

use noise::NoiseFn;

use crate::fixed::{site_in_range, Site, ELEV_DEN, SCALE};

verus! {

/// The denominator of the doubled normalized coordinate: `25 * SCALE`.
pub const NOISE_DEN: i32 = 26214400;

/// The simplex-noise sample of the `noise` crate at the point
/// `(xn / den, yn / den)`, scaled by `out_scale` and rounded to the nearest
/// integer: a pure function of the seed and the coordinates.
pub uninterp spec fn simplex_fixed(seed: u32, xn: i32, yn: i32, den: i32, out_scale: i32) -> i64;

/// Relies on `noise::Simplex`: its permutation table is generated
/// deterministically from the `u32` seed, and `NoiseFn::get` is pure float
/// arithmetic over the table, so the sample is a function of the seed and
/// the point alone.  The body only converts between this library's exact
/// integer fractions and the noise function's floating-point domain,
/// carrying the floats through a pair type's fields.
#[verifier::external_body]
pub fn simplex_sample(seed: u32, xn: i32, yn: i32, den: i32, out_scale: i32) -> (r: i64)
    requires
        den > 0,
        out_scale > 0,
    ensures
        r == simplex_fixed(seed, xn, yn, den, out_scale),
{
    let field = noise::Simplex::new(seed);
    let a = delaunator::Point { x: xn.into(), y: den.into() };
    let b = delaunator::Point { x: yn.into(), y: den.into() };
    let c = delaunator::Point { x: field.get([a.x / a.y, b.x / b.y]), y: out_scale.into() };
    (c.x * c.y).round() as i64
}

/// The numerator of the doubled normalized coordinate `nx / 0.5` over
/// [`NOISE_DEN`], for a site numerator `x` over `SCALE`.
pub open spec fn noise_coord_of(x: int) -> int {
    2 * x - 25 * (SCALE as int)
}

/// A noise sample clamped to one unit of magnitude (`SCALE` ticks).
pub open spec fn clamped_noise(s: int) -> int {
    if s < -(SCALE as int) {
        -(SCALE as int)
    } else if s > SCALE as int {
        SCALE as int
    } else {
        s
    }
}

/// The Chebyshev falloff numerator: `max(|xn|, |yn|)`, which over
/// [`NOISE_DEN`] is the distance `2 * max(|nx|, |ny|) == d`.
pub open spec fn chebyshev_num(xn: int, yn: int) -> int {
    let ax = if xn < 0 { -xn } else { xn };
    let ay = if yn < 0 { -yn } else { yn };
    if ax >= ay { ax } else { ay }
}

/// The elevation numerator over [`ELEV_DEN`] built from the doubled
/// normalized coordinates and a raw noise sample.
pub open spec fn elevation_num(xn: int, yn: int, s: int) -> int {
    100 * (SCALE as int) + 25 * clamped_noise(s) - 2 * chebyshev_num(xn, yn)
}

/// The elevation of a site: the shaping formula applied to the noise sample
/// that `(seed, site)` determines.
pub open spec fn site_elevation(seed: u32, s: Site) -> int {
    elevation_num(
        noise_coord_of(s.x as int),
        noise_coord_of(s.y as int),
        simplex_fixed(
            seed,
            noise_coord_of(s.x as int) as i32,
            noise_coord_of(s.y as int) as i32,
            NOISE_DEN,
            SCALE as i32,
        ) as int,
    )
}

/// The shaping step alone: combines the doubled normalized coordinates with
/// a given noise sample (which it clamps to one unit), so the island shape
/// can be examined with the noise term fixed.
pub fn shaping_elevation(xn: i32, yn: i32, s: i64) -> (r: i64)
    ensures
        r as int == elevation_num(xn as int, yn as int, s as int),
{
    let sc: i64 = if s < -SCALE {
        -SCALE
    } else if s > SCALE {
        SCALE
    } else {
        s
    };
    let ax: i64 = if xn < 0 {
        -(xn as i64)
    } else {
        xn as i64
    };
    let ay: i64 = if yn < 0 {
        -(yn as i64)
    } else {
        yn as i64
    };
    let m: i64 = if ax >= ay {
        ax
    } else {
        ay
    };
    100 * SCALE + 25 * sc - 2 * m
}

/// The elevation of each site in `points`, as numerators over [`ELEV_DEN`]:
/// `elevation[k]` belongs to `points[k]`.
pub fn assign_elevation(points: &Vec<Site>, seed: u32) -> (r: Vec<i64>)
    requires
        forall|k: int| 0 <= k < points@.len() ==> site_in_range(#[trigger] points@[k]),
    ensures
        r@.len() == points@.len(),
        forall|k: int|
            0 <= k < points@.len() ==> #[trigger] r@[k] as int == site_elevation(
                seed,
                points@[k],
            ),
{
    let num_regions = points.len();
    let mut elevation: Vec<i64> = Vec::new();
    let mut i: usize = 0;
    while i < num_regions
        invariant
            num_regions == points@.len(),
            forall|k: int| 0 <= k < points@.len() ==> site_in_range(#[trigger] points@[k]),
            i <= num_regions,
            elevation@.len() == i,
            forall|k: int|
                0 <= k < i ==> #[trigger] elevation@[k] as int == site_elevation(
                    seed,
                    points@[k],
                ),
        decreases num_regions - i,
    {
        let p = points[i];
        let xn: i32 = 2 * p.x - NOISE_DEN;
        let yn: i32 = 2 * p.y - NOISE_DEN;
        let s = simplex_sample(seed, xn, yn, NOISE_DEN, SCALE as i32);
        elevation.push(shaping_elevation(xn, yn, s));
        i += 1;
    }
    elevation
}

/// With the noise term at zero the shaping term stands alone: the elevation
/// is exactly `1 - d/2`, one full unit at the domain's centre
/// (`nx == ny == 0`) and half a unit at its corner (`nx == ny == 1/2`).
pub proof fn lemma_shaping_isolation(xn: int, yn: int)
    ensures
        elevation_num(xn, yn, 0) == 100 * (SCALE as int) - 2 * chebyshev_num(xn, yn),
        elevation_num(0, 0, 0) == ELEV_DEN as int,
        elevation_num(25 * (SCALE as int), 25 * (SCALE as int), 0) == ELEV_DEN as int / 2,
{
}

} // verus!
