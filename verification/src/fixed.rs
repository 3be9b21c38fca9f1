//! Fixed-point representation of the map's geometry.
//!
//! A site coordinate is an `i32` numerator over the denominator [`SCALE`]:
//! the site value `x` stands for the real coordinate `x / SCALE`.  Derived
//! points (triangle centroids, edge endpoints) are `i64` numerators over
//! [`POINT_DEN`] `== 3 * SCALE`, so the mean of three site coordinates needs
//! no division at all.  Elevation values are `i64` numerators over
//! [`ELEV_DEN`] `== 100 * SCALE`.

use vstd::prelude::*;

verus! {

/// Denominator of site coordinates: one map unit is `SCALE` ticks.
pub const SCALE: i64 = 1048576;

/// Denominator of derived points such as centroids: `3 * SCALE`.
pub const POINT_DEN: i64 = 3145728;

/// Denominator of elevation values: `100 * SCALE`.
pub const ELEV_DEN: i64 = 104857600;

/// A sample site: a 2D point with coordinates in `SCALE`-ths of a map unit.
#[derive(Clone, Copy, PartialEq, Eq, Structural, Debug)]
pub struct Site {
    pub x: i32,
    pub y: i32,
}

/// A derived 2D point (a centroid or an edge endpoint) with coordinates in
/// `POINT_DEN`-ths of a map unit.
#[derive(Clone, Copy, PartialEq, Eq, Structural, Debug)]
pub struct PointFx {
    pub x: i64,
    pub y: i64,
}

/// Largest site coordinate magnitude the pipeline produces or accepts:
/// `1009 * SCALE`, room for the largest grid plus the largest jitter.
pub const MAX_COORD: i32 = 1058013184;

/// Whether both coordinates of `s` are within [`MAX_COORD`].
pub open spec fn site_in_range(s: Site) -> bool {
    &&& -(MAX_COORD as int) <= s.x as int <= MAX_COORD as int
    &&& -(MAX_COORD as int) <= s.y as int <= MAX_COORD as int
}

/// The point `s` scaled from denominator `SCALE` to denominator `POINT_DEN`.
pub open spec fn site_as_point(s: Site) -> PointFx {
    PointFx { x: (3 * (s.x as int)) as i64, y: (3 * (s.y as int)) as i64 }
}

/// Exec counterpart of [`site_as_point`].
pub fn site_to_point(s: Site) -> (p: PointFx)
    ensures
        p == site_as_point(s),
{
    PointFx { x: 3 * (s.x as i64), y: 3 * (s.y as i64) }
}

} // verus!
