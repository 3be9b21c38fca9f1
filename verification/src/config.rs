//! The per-run configuration record and its validation.
//!
//! A configuration is validated when it is set, never mid-pipeline: the
//! pipeline itself requires a valid configuration.  The bounds are the
//! machine limits of the fixed-point representation (site numerators must
//! fit an `i32`), not behavioural choices.

use vstd::prelude::*;

use crate::fixed::SCALE;

verus! {

/// Largest accepted `grid_size`: a grid of `MAX_GRID * MAX_GRID` sites.
pub const MAX_GRID: usize = 1000;

/// Largest accepted `jitter`, in `SCALE`-ths of a map unit (ten map units).
pub const MAX_JITTER: u64 = 10485760;

/// The immutable-per-run generation parameters.
///
/// `jitter` is a non-negative fixed-point fraction over [`SCALE`]
/// (`SCALE` itself is a jitter of one map unit).  `elevation_threshold` is a
/// fixed-point value over [`crate::fixed::ELEV_DEN`].
#[derive(Clone, Copy, PartialEq, Eq, Structural, Debug)]
pub struct MapgenSettings {
    pub rng_seed: u64,
    pub grid_size: usize,
    pub jitter: u64,
    pub elevation_threshold: i64,
}

/// A configuration rejected at update time.
#[derive(Clone, Copy, PartialEq, Eq, Structural, Debug)]
pub enum ConfigError {
    /// `grid_size` exceeds [`MAX_GRID`].
    GridTooLarge,
    /// `jitter` exceeds [`MAX_JITTER`].
    JitterTooLarge,
}

/// Whether `s` is within the representable bounds.
pub open spec fn settings_valid(s: MapgenSettings) -> bool {
    s.grid_size <= MAX_GRID && s.jitter <= MAX_JITTER
}

impl MapgenSettings {
    /// Checks the bounds, reporting the first violated one.
    pub fn validate(&self) -> (r: Result<(), ConfigError>)
        ensures
            r is Ok <==> settings_valid(*self),
            r is Err ==> (r == Result::<(), ConfigError>::Err(ConfigError::GridTooLarge)
                <==> self.grid_size > MAX_GRID),
    {
        if self.grid_size > MAX_GRID {
            Err(ConfigError::GridTooLarge)
        } else if self.jitter > MAX_JITTER {
            Err(ConfigError::JitterTooLarge)
        } else {
            Ok(())
        }
    }

    /// The parameters the interactive demo starts from: seed `0xDEADBEEF`,
    /// a 20 by 20 grid, one unit of jitter, and a `0.65` biome threshold.
    pub fn recommended() -> (r: MapgenSettings)
        ensures
            r.rng_seed == 0xDEADBEEFu64,
            r.grid_size == 20usize,
            r.jitter == SCALE as u64,
            r.elevation_threshold == 68157440i64,
            settings_valid(r),
    {
        MapgenSettings {
            rng_seed: 0xDEADBEEF,
            grid_size: 20,
            jitter: 1048576,
            elevation_threshold: 68157440,
        }
    }
}

} // verus!
