//! The trusted boundary to the triangulation crate.
//!
//! Site numerators are integers of magnitude below `2^31`, so mapping them
//! into the triangulator's floating-point points through `From<i32>` is
//! exact, and a Delaunay triangulation is invariant under scaling both axes
//! uniformly: the tables computed for the numerators are the tables of the
//! real coordinates they stand for.

use vstd::prelude::*;

use crate::fixed::Site;

verus! {

/// The tables a triangulation consists of, as the triangulator hands them
/// over and before this library has checked anything about them.
pub struct RawTriangulation {
    /// Site indices, one triple per triangle, in a fixed winding order.
    pub triangles: Vec<usize>,
    /// The twin of each directed edge, or the sentinel for hull edges.
    pub halfedges: Vec<usize>,
    /// The convex-hull sites, in order.
    pub hull: Vec<usize>,
}

/// The `(triangles, halfedges, hull)` tables that `delaunator::triangulate`
/// computes for a site list: a pure function of the sites.
pub uninterp spec fn delaunay_of(sites: Seq<Site>) -> (Seq<usize>, Seq<usize>, Seq<usize>);

/// Relies on `delaunator::triangulate`: a deterministic function of its
/// input points (it sorts by distance and uses no ambient state), here
/// applied to the sites' numerators, which convert to floating point
/// exactly.  On fewer than three distinct sites or a collinear input it
/// returns empty `triangles` and `halfedges`, with the distinct sites in
/// `hull`.
#[verifier::external_body]
pub fn triangulate_sites(sites: &Vec<Site>) -> (r: RawTriangulation)
    ensures
        r.triangles@ == delaunay_of(sites@).0,
        r.halfedges@ == delaunay_of(sites@).1,
        r.hull@ == delaunay_of(sites@).2,
{
    let pts: Vec<delaunator::Point> = sites
        .iter()
        .map(|s| delaunator::Point { x: s.x.into(), y: s.y.into() })
        .collect();
    let t = delaunator::triangulate(&pts);
    RawTriangulation { triangles: t.triangles, halfedges: t.halfedges, hull: t.hull }
}

} // verus!
