//! Deterministic jittered-grid point sampling.
//!
//! For a grid of `n * n` sites, site `k` sits at grid cell
//! `(k / n, k % n)` (the outer loop runs over the first coordinate) and each
//! axis is perturbed by `jitter * (u1 - u2)`, where `u1` and `u2` are
//! consecutive uniform fractions from the seeded stream: site `k` consumes
//! stream words `4k` to `4k + 3`.  The whole site list is a pure function of
//! `(seed, grid_size, jitter)`.

use vstd::prelude::*;

use crate::config::{MAX_GRID, MAX_JITTER};
use crate::fixed::{site_in_range, Site, MAX_COORD, SCALE};
use crate::rng::{
    chacha_word, sample_rng_from_seed, sample_rng_next, unit_fraction, unit_fraction_of,
};

verus! {

/// The signed perturbation `jitter * (u1 - u2) / SCALE`, in `SCALE`-ths of a
/// map unit; `u1` and `u2` are numerators over `SCALE` in `[0, SCALE)`.
pub open spec fn jitter_offset_of(jitter: int, u1: int, u2: int) -> int {
    if u1 >= u2 {
        jitter * (u1 - u2) / (SCALE as int)
    } else {
        -(jitter * (u2 - u1) / (SCALE as int))
    }
}

/// The x numerator of site `k` of an `n * n` grid sampled from `seed`.
pub open spec fn site_x_of(seed: u64, n: int, jitter: int, k: int) -> int {
    (k / n) * (SCALE as int) + jitter_offset_of(
        jitter,
        unit_fraction_of(chacha_word(seed, (4 * k) as nat)),
        unit_fraction_of(chacha_word(seed, (4 * k + 1) as nat)),
    )
}

/// The y numerator of site `k` of an `n * n` grid sampled from `seed`.
pub open spec fn site_y_of(seed: u64, n: int, jitter: int, k: int) -> int {
    (k % n) * (SCALE as int) + jitter_offset_of(
        jitter,
        unit_fraction_of(chacha_word(seed, (4 * k + 2) as nat)),
        unit_fraction_of(chacha_word(seed, (4 * k + 3) as nat)),
    )
}

/// Whether `s` is site `k` of the grid described by `(seed, n, jitter)`.
pub open spec fn site_matches(seed: u64, n: int, jitter: int, s: Site, k: int) -> bool {
    &&& s.x as int == site_x_of(seed, n, jitter, k)
    &&& s.y as int == site_y_of(seed, n, jitter, k)
    &&& site_in_range(s)
}

/// Exec counterpart of [`jitter_offset_of`], with its magnitude bound.
pub fn jitter_offset(jitter: u64, u1: u64, u2: u64) -> (o: i64)
    requires
        jitter <= MAX_JITTER,
        u1 < SCALE as u64,
        u2 < SCALE as u64,
    ensures
        o as int == jitter_offset_of(jitter as int, u1 as int, u2 as int),
        -(jitter as int) <= o as int <= jitter as int,
{
    proof {
        let j = jitter as int;
        let sc = SCALE as int;
        assert forall|d: int| 0 <= d < sc implies #[trigger] (j * d) <= 0xffff_ffff_ffff_ffff
            && 0 <= (j * d) / sc <= j by {
            assert(j * d <= j * (sc - 1)) by (nonlinear_arith)
                requires
                    0 <= d <= sc - 1,
                    j >= 0,
            ;
            assert(j * (sc - 1) < 0xffff_ffff_ffff_ffff) by (nonlinear_arith)
                requires
                    j <= MAX_JITTER,
                    sc == SCALE as int,
            ;
            assert(0 <= (j * d) / sc <= j) by (nonlinear_arith)
                requires
                    0 <= j * d <= j * (sc - 1),
                    j >= 0,
                    sc == SCALE as int,
            ;
        }
    }
    if u1 >= u2 {
        let m: u64 = jitter * (u1 - u2);
        (m / 1048576) as i64
    } else {
        let m: u64 = jitter * (u2 - u1);
        -((m / 1048576) as i64)
    }
}

/// Samples the `grid_size * grid_size` jittered sites that `(seed,
/// grid_size, jitter)` determines; a `grid_size` of zero yields no sites.
pub fn sample_points(seed: u64, grid_size: usize, jitter: u64) -> (r: Vec<Site>)
    requires
        grid_size <= MAX_GRID,
        jitter <= MAX_JITTER,
    ensures
        r@.len() == grid_size * grid_size,
        forall|k: int| 0 <= k < r@.len()
            ==> #[trigger] site_matches(seed, grid_size as int, jitter as int, r@[k], k),
{
    let n = grid_size;
    let mut rng = sample_rng_from_seed(seed);
    let mut sites: Vec<Site> = Vec::new();
    let mut x: usize = 0;
    proof {
        assert(n * n <= MAX_GRID * MAX_GRID) by (nonlinear_arith)
            requires
                0 <= n <= MAX_GRID,
        ;
    }
    while x < n
        invariant
            n <= MAX_GRID,
            jitter <= MAX_JITTER,
            x <= n,
            n * n <= MAX_GRID * MAX_GRID,
            x * n <= n * n,
            rng.spec_seed() == seed,
            rng.spec_drawn() == 4 * (x * n),
            sites@.len() == x * n,
            forall|k: int| 0 <= k < sites@.len()
                ==> #[trigger] site_matches(seed, n as int, jitter as int, sites@[k], k),
        decreases n - x,
    {
        let mut y: usize = 0;
        while y < n
            invariant
                n <= MAX_GRID,
                jitter <= MAX_JITTER,
                x < n,
                y <= n,
                n * n <= MAX_GRID * MAX_GRID,
                x * n + y <= n * n,
                rng.spec_seed() == seed,
                rng.spec_drawn() == 4 * (x * n + y),
                sites@.len() == x * n + y,
                forall|k: int| 0 <= k < sites@.len()
                    ==> #[trigger] site_matches(seed, n as int, jitter as int, sites@[k], k),
            decreases n - y,
        {
            proof {
                assert(x * n + y < n * n) by (nonlinear_arith)
                    requires
                        0 <= x < n,
                        0 <= y < n,
                ;
            }
            let ghost k: int = (x * n + y) as int;
            let w1 = sample_rng_next(&mut rng);
            let w2 = sample_rng_next(&mut rng);
            let w3 = sample_rng_next(&mut rng);
            let w4 = sample_rng_next(&mut rng);
            let u1 = unit_fraction(w1);
            let u2 = unit_fraction(w2);
            let u3 = unit_fraction(w3);
            let u4 = unit_fraction(w4);
            let ox = jitter_offset(jitter, u1, u2);
            let oy = jitter_offset(jitter, u3, u4);
            let sx: i64 = (x as i64) * SCALE + ox;
            let sy: i64 = (y as i64) * SCALE + oy;
            let s = Site { x: sx as i32, y: sy as i32 };
            proof {
                vstd::arithmetic::div_mod::lemma_fundamental_div_mod_converse(
                    k,
                    n as int,
                    x as int,
                    y as int,
                );
                assert((x as i64) * SCALE <= (MAX_GRID - 1) * (SCALE as int))
                    by (nonlinear_arith)
                    requires
                        0 <= x <= MAX_GRID - 1,
                ;
                assert(site_matches(seed, n as int, jitter as int, s, k));
            }
            sites.push(s);
            y += 1;
        }
        proof {
            assert(x * n + n == (x + 1) * n) by (nonlinear_arith);
            assert((x + 1) * n <= n * n) by (nonlinear_arith)
                requires
                    0 <= x < n,
            ;
        }
        x += 1;
    }
    sites
}

} // verus!
