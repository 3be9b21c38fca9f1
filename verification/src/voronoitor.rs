//! The dual-graph builder: a checked triangulation and the pure functions
//! that reconstruct centroids, raw edges, dual edges and Voronoi-like cells
//! from it.
//!
//! [`Voronoitor::new`] calls the triangulator and then checks every
//! structural invariant the later walks rely on — equal table lengths, a
//! whole number of triangles, in-range site indices and symmetric half-edge
//! pairing — so the invariants hold by proof, not by trust, and a degenerate
//! input surfaces as a recoverable error.

use vstd::prelude::*;

use crate::fixed::{site_as_point, site_in_range, site_to_point, PointFx, Site};
use crate::delaunay::{delaunay_of, triangulate_sites};
use crate::elevation::{assign_elevation, site_elevation};
use crate::walk::{
    is_edge_walk, is_walk_prefix, lemma_distinct_bounded_len, lemma_next_in_range,
    lemma_walk_prefix_extend, lemma_walk_unique, next_he, sym_tables, the_walk, walk_is_closed,
    walk_next, EMPTY,
};

verus! {

/// A directed segment for visualization: a raw triangle edge or a dual edge
/// between two adjacent centroids.
#[derive(Clone, Copy, PartialEq, Eq, Structural, Debug)]
pub struct Triangle {
    pub start: PointFx,
    pub end: PointFx,
}

/// One reconstructed cell: the centroids around a site, in walk order.
/// `edge` is the owning site's index; `closed` says whether the walk
/// returned to its starting edge or fell off the hull.
pub struct VoronoiCell {
    pub vertices: Vec<PointFx>,
    pub edge: usize,
    pub closed: bool,
}

/// Why a triangulation could not be built.
#[derive(Clone, Copy, PartialEq, Eq, Structural, Debug)]
pub enum GeomError {
    /// Fewer than three usable sites, or all sites collinear: the
    /// triangulator returned no triangles.
    DegenerateInput,
    /// The triangulator returned tables that break a structural invariant;
    /// nothing downstream may index with them.
    MalformedTriangulation,
}

/// Whether the tables form a structurally sound triangulation of `nsites`
/// sites: equal lengths, whole triangles, in-range site indices and a
/// symmetric half-edge pairing.
pub open spec fn tables_valid(
    t: Seq<usize>,
    h: Seq<usize>,
    hull: Seq<usize>,
    nsites: int,
) -> bool {
    &&& t.len() == h.len()
    &&& sym_tables(h)
    &&& forall|e: int| 0 <= e < t.len() ==> (#[trigger] t[e] as int) < nsites
    &&& forall|i: int| 0 <= i < hull.len() ==> (#[trigger] hull[i] as int) < nsites
}

/// A checked triangulation over a site list.
pub struct Voronoitor {
    pub points: Vec<Site>,
    pub triangles: Vec<usize>,
    pub halfedges: Vec<usize>,
    pub hull: Vec<usize>,
}

impl Voronoitor {
    /// The structural invariant every method relies on; [`Voronoitor::new`]
    /// establishes it by checking.
    pub open spec fn well_formed(self) -> bool {
        &&& tables_valid(self.triangles@, self.halfedges@, self.hull@, self.points@.len() as int)
        &&& self.triangles@.len() >= 3
        &&& forall|k: int|
            0 <= k < self.points@.len() ==> site_in_range(#[trigger] self.points@[k])
    }

    /// The number of directed edges (and of `triangles` entries).
    pub fn num_edges(&self) -> (n: usize)
        ensures
            n == self.halfedges@.len(),
    {
        self.halfedges.len()
    }

    /// Triangulates `points` and checks the result.  Fails with
    /// [`GeomError::DegenerateInput`] exactly when the triangulator returned
    /// no triangles, and with [`GeomError::MalformedTriangulation`] exactly
    /// when its tables break an invariant.
    #[verifier::loop_isolation(false)]
    pub fn new(points: Vec<Site>) -> (r: Result<Voronoitor, GeomError>)
        requires
            forall|k: int| 0 <= k < points@.len() ==> site_in_range(#[trigger] points@[k]),
        ensures
            match r {
                Ok(v) => {
                    &&& v.points@ == points@
                    &&& v.triangles@ == delaunay_of(points@).0
                    &&& v.halfedges@ == delaunay_of(points@).1
                    &&& v.hull@ == delaunay_of(points@).2
                    &&& v.well_formed()
                },
                Err(e) => {
                    &&& (e == GeomError::DegenerateInput <==> delaunay_of(points@).0.len() == 0)
                    &&& (e == GeomError::MalformedTriangulation ==> !tables_valid(
                        delaunay_of(points@).0,
                        delaunay_of(points@).1,
                        delaunay_of(points@).2,
                        points@.len() as int,
                    ))
                },
            },
            r is Err <==> (delaunay_of(points@).0.len() == 0 || !tables_valid(
                delaunay_of(points@).0,
                delaunay_of(points@).1,
                delaunay_of(points@).2,
                points@.len() as int,
            )),
    {
        let raw = triangulate_sites(&points);
        let len = raw.triangles.len();
        if len == 0 {
            return Err(GeomError::DegenerateInput);
        }
        if raw.halfedges.len() != len || len % 3 != 0 || len == usize::MAX {
            return Err(GeomError::MalformedTriangulation);
        }
        let npts = points.len();
        let mut e: usize = 0;
        while e < len
            invariant
                len == raw.triangles@.len(),
                len == raw.halfedges@.len(),
                npts == points@.len(),
                e <= len,
                forall|j: int| 0 <= j < e ==> (#[trigger] raw.triangles@[j] as int) < npts,
            decreases len - e,
        {
            if raw.triangles[e] >= npts {
                proof {
                    assert(!((raw.triangles@[e as int] as int) < npts));
                }
                return Err(GeomError::MalformedTriangulation);
            }
            e += 1;
        }
        let mut e: usize = 0;
        while e < len
            invariant
                len == raw.triangles@.len(),
                len == raw.halfedges@.len(),
                len < EMPTY,
                e <= len,
                forall|j: int|
                    0 <= j < e ==> (#[trigger] raw.halfedges@[j] == EMPTY || (
                    raw.halfedges@[j] < len && raw.halfedges@[raw.halfedges@[j] as int] == j)),
            decreases len - e,
        {
            let twin = raw.halfedges[e];
            if twin != EMPTY {
                if twin >= len {
                    proof {
                        assert(raw.halfedges@[e as int] != EMPTY && !(raw.halfedges@[e as int]
                            < len));
                    }
                    return Err(GeomError::MalformedTriangulation);
                }
                if raw.halfedges[twin] != e {
                    proof {
                        assert(raw.halfedges@[raw.halfedges@[e as int] as int] != e);
                    }
                    return Err(GeomError::MalformedTriangulation);
                }
            }
            e += 1;
        }
        let mut i: usize = 0;
        while i < raw.hull.len()
            invariant
                npts == points@.len(),
                i <= raw.hull@.len(),
                forall|j: int| 0 <= j < i ==> (#[trigger] raw.hull@[j] as int) < npts,
            decreases raw.hull@.len() - i,
        {
            if raw.hull[i] >= npts {
                proof {
                    assert(!((raw.hull@[i as int] as int) < npts));
                }
                return Err(GeomError::MalformedTriangulation);
            }
            i += 1;
        }
        Ok(Voronoitor {
            points,
            triangles: raw.triangles,
            halfedges: raw.halfedges,
            hull: raw.hull,
        })
    }

    /// The edge after `edge` within its triangle, following winding order.
    pub fn next_halfedge(&self, edge: usize) -> (r: usize)
        requires
            self.well_formed(),
            edge < self.halfedges@.len(),
        ensures
            r as int == next_he(edge as int),
            r < self.halfedges@.len(),
    {
        proof {
            lemma_next_in_range(edge as int, self.halfedges@.len() as int);
        }
        if edge % 3 == 2 {
            edge - 2
        } else {
            edge + 1
        }
    }

    /// The triangle a directed edge belongs to.
    fn triangle_of_edges(&self, edge: usize) -> (t: usize)
        ensures
            t == edge as int / 3,
    {
        edge / 3
    }

    /// Walks the incoming half-edges around the site that `start` points
    /// to: from each incoming edge to the twin of the next edge of its
    /// triangle, until the walk returns to `start` (a closed interior cell)
    /// or steps onto the hull sentinel (an open boundary cell).  One walk
    /// step is injective, so the walk cannot revisit an edge and terminates
    /// within `num_edges` steps; the loop's `decreases` clause is that
    /// argument, checked.
    #[verifier::loop_isolation(false)]
    pub fn edges_around_point(&self, start: usize) -> (r: Vec<usize>)
        requires
            self.well_formed(),
            start < self.halfedges@.len(),
        ensures
            is_edge_walk(self.halfedges@, start, r@),
            r@ == the_walk(self.halfedges@, start),
    {
        let ghost h = self.halfedges@;
        let mut res: Vec<usize> = Vec::new();
        let mut incoming: usize = start;
        loop
            invariant
                incoming < self.halfedges@.len(),
                is_walk_prefix(h, start, res@.push(incoming)),
                res@.push(incoming).no_duplicates(),
                res@.len() < h.len(),
            decreases h.len() - res@.len(),
        {
            res.push(incoming);
            let outgoing = self.next_halfedge(incoming);
            let nxt = self.halfedges[outgoing];
            if nxt == EMPTY || nxt == start {
                break;
            }
            proof {
                lemma_walk_prefix_extend(h, start, res@, nxt);
                lemma_distinct_bounded_len(res@.push(nxt), h.len() as int);
            }
            incoming = nxt;
        }
        proof {
            assert(is_edge_walk(h, start, res@));
            assert(is_edge_walk(h, start, the_walk(h, start)));
            lemma_walk_unique(h, start, res@, the_walk(h, start));
        }
        res
    }
}

/// The centroid of triangle `tr`: the mean of its three distinct vertex
/// positions (table entries `3*tr`, `3*tr + 1` and `3*tr + 2`), expressed
/// exactly as a numerator over [`crate::fixed::POINT_DEN`].
pub open spec fn centroid_of(t: Seq<usize>, pts: Seq<Site>, tr: int) -> PointFx {
    PointFx {
        x: (pts[t[3 * tr] as int].x as int + pts[t[3 * tr + 1] as int].x as int + pts[t[3 * tr
            + 2] as int].x as int) as i64,
        y: (pts[t[3 * tr] as int].y as int + pts[t[3 * tr + 1] as int].y as int + pts[t[3 * tr
            + 2] as int].y as int) as i64,
    }
}

/// An edge index below a whole-triangle table length lands in a triangle.
proof fn lemma_edge_triangle_index(ed: int, len: int)
    requires
        0 <= ed < len,
        len % 3 == 0,
    ensures
        0 <= ed / 3 < len / 3,
{
    let q = len / 3;
    vstd::arithmetic::div_mod::lemma_fundamental_div_mod(len, 3);
    assert(len == 3 * q);
    vstd::arithmetic::div_mod::lemma_fundamental_div_mod(ed, 3);
    let eq = ed / 3;
    let er = ed % 3;
    assert(3 * eq + er <= 3 * q - 1);
    assert(eq < q) by (nonlinear_arith)
        requires
            3 * eq + er <= 3 * q - 1,
            0 <= er < 3,
    ;
}

/// The ghost shape of one reconstructed cell.
pub struct CellModel {
    pub vertices: Seq<PointFx>,
    pub site: int,
    pub closed: bool,
}

/// The model a concrete [`VoronoiCell`] stands for.
pub open spec fn cell_model_of(c: VoronoiCell) -> CellModel {
    CellModel { vertices: c.vertices@, site: c.edge as int, closed: c.closed }
}

/// The models of a whole cell list.
pub open spec fn cells_of_vec(v: Seq<VoronoiCell>) -> Seq<CellModel> {
    v.map_values(|c: VoronoiCell| cell_model_of(c))
}

/// The cell reconstructed by walking from incoming edge `e`: the centroids
/// of the walked triangles, in walk order, owned by the site `e` points to.
pub open spec fn cell_model_at(
    t: Seq<usize>,
    h: Seq<usize>,
    pts: Seq<Site>,
    e: usize,
) -> CellModel {
    let w = the_walk(h, e);
    CellModel {
        vertices: w.map_values(|ed: usize| centroid_of(t, pts, ed as int / 3)),
        site: t[next_he(e as int)] as int,
        closed: walk_is_closed(h, w),
    }
}

/// The cells emitted by scanning edges `e`, `e + 1`, ... with the sites in
/// `seen` already owned by an earlier cell: each site's cell is walked from
/// the first incoming edge that reaches it.
pub open spec fn cells_model_rec(
    t: Seq<usize>,
    h: Seq<usize>,
    pts: Seq<Site>,
    e: int,
    seen: Set<int>,
) -> Seq<CellModel>
    decreases h.len() - e,
{
    if e < 0 || e >= h.len() {
        Seq::empty()
    } else {
        let site = t[next_he(e)] as int;
        if seen.contains(site) {
            cells_model_rec(t, h, pts, e + 1, seen)
        } else {
            seq![cell_model_at(t, h, pts, e as usize)] + cells_model_rec(
                t,
                h,
                pts,
                e + 1,
                seen.insert(site),
            )
        }
    }
}

/// The full cell decomposition of a triangulation: one cell per site that
/// some edge points to, in order of first reaching edge.
pub open spec fn cells_model(t: Seq<usize>, h: Seq<usize>, pts: Seq<Site>) -> Seq<CellModel> {
    cells_model_rec(t, h, pts, 0, Set::empty())
}

impl Voronoitor {
    /// The centroid of every triangle, as exact fixed-point sums of the
    /// three distinct vertex positions over `POINT_DEN`.
    #[verifier::loop_isolation(false)]
    pub fn calc_centroids(&self) -> (r: Vec<PointFx>)
        requires
            self.well_formed(),
        ensures
            r@.len() == self.halfedges@.len() as int / 3,
            forall|tr: int|
                0 <= tr < r@.len() ==> #[trigger] r@[tr] == centroid_of(
                    self.triangles@,
                    self.points@,
                    tr,
                ),
    {
        let num_triangles = self.halfedges.len() / 3;
        let mut centroids: Vec<PointFx> = Vec::new();
        let mut t: usize = 0;
        while t < num_triangles
            invariant
                t <= num_triangles,
                centroids@.len() == t,
                forall|tr: int|
                    0 <= tr < t ==> #[trigger] centroids@[tr] == centroid_of(
                        self.triangles@,
                        self.points@,
                        tr,
                    ),
            decreases num_triangles - t,
        {
            proof {
                let len = self.triangles@.len() as int;
                vstd::arithmetic::div_mod::lemma_fundamental_div_mod(len, 3);
                assert(3 * (t as int) + 2 < len) by (nonlinear_arith)
                    requires
                        0 <= t < len / 3,
                        len == 3 * (len / 3),
                ;
            }
            let i0 = self.triangles[3 * t];
            let i1 = self.triangles[3 * t + 1];
            let i2 = self.triangles[3 * t + 2];
            let p0 = self.points[i0];
            let p1 = self.points[i1];
            let p2 = self.points[i2];
            let cx: i64 = p0.x as i64 + p1.x as i64 + p2.x as i64;
            let cy: i64 = p0.y as i64 + p1.y as i64 + p2.y as i64;
            centroids.push(PointFx { x: cx, y: cy });
            t += 1;
        }
        centroids
    }

    /// Reconstructs the cell of every site: scans the incoming edges in
    /// order, walks the cell of each site not yet owned by an earlier cell,
    /// and maps the walked edges to their triangles' centroids.
    #[verifier::loop_isolation(false)]
    pub fn cell_iter(&self) -> (r: Vec<VoronoiCell>)
        requires
            self.well_formed(),
        ensures
            cells_of_vec(r@) == cells_model(self.triangles@, self.halfedges@, self.points@),
    {
        let ghost t = self.triangles@;
        let ghost h = self.halfedges@;
        let ghost pts = self.points@;
        let mut res: Vec<VoronoiCell> = Vec::new();
        let num_edges = self.num_edges();
        let centers = self.calc_centroids();
        let npts = self.points.len();
        let mut seen: Vec<bool> = Vec::new();
        let mut j: usize = 0;
        while j < npts
            invariant
                j <= npts,
                seen@.len() == j,
                forall|s: int| 0 <= s < j ==> !(#[trigger] seen@[s]),
            decreases npts - j,
        {
            seen.push(false);
            j += 1;
        }
        let ghost mut gseen: Set<int> = Set::empty();
        let mut e: usize = 0;
        while e < num_edges
            invariant
                e <= num_edges,
                seen@.len() == npts,
                forall|s: int| 0 <= s < npts ==> (#[trigger] seen@[s] == gseen.contains(s)),
                cells_of_vec(res@) + cells_model_rec(t, h, pts, e as int, gseen) == cells_model(
                    t,
                    h,
                    pts,
                ),
            decreases num_edges - e,
        {
            let out = self.next_halfedge(e);
            let site = self.triangles[out];
            if !seen[site] {
                seen[site] = true;
                let edges = self.edges_around_point(e);
                let mut verts: Vec<PointFx> = Vec::new();
                let mut k: usize = 0;
                while k < edges.len()
                    invariant
                        k <= edges@.len(),
                        verts@.len() == k,
                        forall|i: int|
                            0 <= i < k ==> #[trigger] verts@[i] == centroid_of(
                                t,
                                pts,
                                edges@[i] as int / 3,
                            ),
                    decreases edges@.len() - k,
                {
                    let ed = edges[k];
                    proof {
                        lemma_edge_triangle_index(ed as int, h.len() as int);
                    }
                    verts.push(centers[ed / 3]);
                    k += 1;
                }
                let last = edges[edges.len() - 1];
                let lastout = self.next_halfedge(last);
                let closed = self.halfedges[lastout] == e;
                let cell = VoronoiCell { vertices: verts, edge: site, closed };
                proof {
                    let w = the_walk(h, e);
                    let cm = cell_model_at(t, h, pts, e);
                    assert forall|i: int| 0 <= i < verts@.len() implies verts@[i]
                        == cm.vertices[i] by {
                        assert(cm.vertices[i] == centroid_of(t, pts, w[i] as int / 3));
                    }
                    assert(verts@ =~= cm.vertices);
                    assert(cell_model_of(cell) == cm);
                    let rest = cells_model_rec(t, h, pts, e as int + 1, gseen.insert(site as int));
                    assert(cells_model_rec(t, h, pts, e as int, gseen) == seq![cm] + rest);
                    assert(cells_of_vec(res@.push(cell)) =~= cells_of_vec(res@).push(cm));
                    assert(cells_of_vec(res@).push(cm) + rest =~= cells_of_vec(res@) + (seq![cm]
                        + rest));
                    gseen = gseen.insert(site as int);
                }
                res.push(cell);
            } else {
                proof {
                    assert(cells_model_rec(t, h, pts, e as int, gseen) == cells_model_rec(
                        t,
                        h,
                        pts,
                        e as int + 1,
                        gseen,
                    ));
                }
            }
            e += 1;
        }
        proof {
            assert(cells_model_rec(t, h, pts, num_edges as int, gseen) =~= Seq::empty());
            assert(cells_of_vec(res@) + Seq::<CellModel>::empty() =~= cells_of_vec(res@));
        }
        res
    }
}

/// The dual edges emitted scanning from edge `e` upward: one segment
/// between the centroids of the two triangles sharing an interior edge,
/// emitted exactly once, at the smaller index of the twin pair.
pub open spec fn dual_edges_rec(
    t: Seq<usize>,
    h: Seq<usize>,
    pts: Seq<Site>,
    e: int,
) -> Seq<Triangle>
    decreases h.len() - e,
{
    if e < 0 || e >= h.len() {
        Seq::empty()
    } else {
        let rest = dual_edges_rec(t, h, pts, e + 1);
        if e < h[e] as int && h[e] != EMPTY {
            seq![
                Triangle {
                    start: centroid_of(t, pts, e / 3),
                    end: centroid_of(t, pts, h[e] as int / 3),
                },
            ] + rest
        } else {
            rest
        }
    }
}

/// All dual edges of a triangulation.
pub open spec fn dual_edges_model(t: Seq<usize>, h: Seq<usize>, pts: Seq<Site>) -> Seq<Triangle> {
    dual_edges_rec(t, h, pts, 0)
}

/// The raw triangle edges emitted scanning from edge `e` upward: the
/// segment of each directed edge whose twin has a smaller index, so every
/// interior edge appears once and hull edges (twinned with the sentinel,
/// the largest index) not at all.
pub open spec fn raw_edges_rec(
    t: Seq<usize>,
    h: Seq<usize>,
    pts: Seq<Site>,
    e: int,
) -> Seq<Triangle>
    decreases t.len() - e,
{
    if e < 0 || e >= t.len() {
        Seq::empty()
    } else {
        let rest = raw_edges_rec(t, h, pts, e + 1);
        if (h[e] as int) < e {
            seq![
                Triangle {
                    start: site_as_point(pts[t[e] as int]),
                    end: site_as_point(pts[t[next_he(e)] as int]),
                },
            ] + rest
        } else {
            rest
        }
    }
}

/// All raw triangle edges of a triangulation.
pub open spec fn raw_edges_model(t: Seq<usize>, h: Seq<usize>, pts: Seq<Site>) -> Seq<Triangle> {
    raw_edges_rec(t, h, pts, 0)
}

impl Voronoitor {
    /// One segment between the centroids of each pair of adjacent
    /// triangles: the edges of the dual graph, each emitted once.
    #[verifier::loop_isolation(false)]
    pub fn voronoi_iter(&self) -> (r: Vec<Triangle>)
        requires
            self.well_formed(),
        ensures
            r@ == dual_edges_model(self.triangles@, self.halfedges@, self.points@),
    {
        let ghost t = self.triangles@;
        let ghost h = self.halfedges@;
        let ghost pts = self.points@;
        let centers = self.calc_centroids();
        let num_edges = self.num_edges();
        let mut res: Vec<Triangle> = Vec::new();
        let mut e: usize = 0;
        while e < num_edges
            invariant
                e <= num_edges,
                res@ + dual_edges_rec(t, h, pts, e as int) == dual_edges_model(t, h, pts),
            decreases num_edges - e,
        {
            let ghost rest = dual_edges_rec(t, h, pts, e as int + 1);
            let twin = self.halfedges[e];
            if e < twin && twin != EMPTY {
                proof {
                    lemma_edge_triangle_index(e as int, h.len() as int);
                    lemma_edge_triangle_index(twin as int, h.len() as int);
                }
                let p = centers[self.triangle_of_edges(e)];
                let q = centers[self.triangle_of_edges(twin)];
                let tri = Triangle { start: p, end: q };
                proof {
                    assert(res@.push(tri) + rest =~= res@ + (seq![tri] + rest));
                }
                res.push(tri);
            }
            e += 1;
        }
        proof {
            assert(dual_edges_rec(t, h, pts, num_edges as int) =~= Seq::<Triangle>::empty());
            assert(res@ + Seq::<Triangle>::empty() =~= res@);
        }
        res
    }

    /// Triangulates `points` afresh and returns each Delaunay edge once, at
    /// the larger index of its twin pair; an input the triangulator rejects
    /// or mangles yields no edges.
    #[verifier::loop_isolation(false)]
    pub fn triangle_iter(&self, points: &Vec<Site>) -> (r: Vec<Triangle>)
        requires
            forall|k: int| 0 <= k < points@.len() ==> site_in_range(#[trigger] points@[k]),
        ensures
            ({
                let d = delaunay_of(points@);
                if d.0.len() != 0 && tables_valid(d.0, d.1, d.2, points@.len() as int) {
                    r@ == raw_edges_model(d.0, d.1, points@)
                } else {
                    r@ == Seq::<Triangle>::empty()
                }
            }),
    {
        let mut own: Vec<Site> = Vec::new();
        let mut k: usize = 0;
        while k < points.len()
            invariant
                k <= points@.len(),
                own@ == points@.subrange(0, k as int),
            decreases points@.len() - k,
        {
            own.push(points[k]);
            proof {
                assert(own@ =~= points@.subrange(0, k as int + 1));
            }
            k += 1;
        }
        proof {
            assert(own@ =~= points@);
        }
        match Self::new(own) {
            Err(_) => Vec::new(),
            Ok(v) => {
                let ghost t = v.triangles@;
                let ghost h = v.halfedges@;
                let ghost pts = v.points@;
                let num_edges = v.num_edges();
                let mut res: Vec<Triangle> = Vec::new();
                let mut e: usize = 0;
                while e < num_edges
                    invariant
                        e <= num_edges,
                        res@ + raw_edges_rec(t, h, pts, e as int) == raw_edges_model(t, h, pts),
                    decreases num_edges - e,
                {
                    let ghost rest = raw_edges_rec(t, h, pts, e as int + 1);
                    let twin = v.halfedges[e];
                    if twin < e {
                        let a = v.points[v.triangles[e]];
                        let nxt = v.next_halfedge(e);
                        let b = v.points[v.triangles[nxt]];
                        let tri = Triangle { start: site_to_point(a), end: site_to_point(b) };
                        proof {
                            assert(res@.push(tri) + rest =~= res@ + (seq![tri] + rest));
                        }
                        res.push(tri);
                    }
                    e += 1;
                }
                proof {
                    assert(raw_edges_rec(t, h, pts, num_edges as int) =~= Seq::<Triangle>::empty());
                    assert(res@ + Seq::<Triangle>::empty() =~= res@);
                }
                res
            },
        }
    }
}

impl Voronoitor {
    /// The elevation of each of this triangulation's sites, keyed by site
    /// index, from the noise field seeded with `seed`.
    pub fn assign_elevation(&self, seed: u32) -> (r: Vec<i64>)
        requires
            self.well_formed(),
        ensures
            r@.len() == self.points@.len(),
            forall|k: int|
                0 <= k < self.points@.len() ==> #[trigger] r@[k] as int == site_elevation(
                    seed,
                    self.points@[k],
                ),
    {
        assign_elevation(&self.points, seed)
    }
}

/// Every cell of the model owns a site index within the site list.
pub proof fn lemma_cells_model_sites(
    t: Seq<usize>,
    h: Seq<usize>,
    pts: Seq<Site>,
    e: int,
    seen: Set<int>,
)
    requires
        t.len() == h.len(),
        sym_tables(h),
        forall|j: int| 0 <= j < t.len() ==> (#[trigger] t[j] as int) < pts.len(),
    ensures
        forall|i: int|
            0 <= i < cells_model_rec(t, h, pts, e, seen).len() ==> 0 <= (
            #[trigger] cells_model_rec(t, h, pts, e, seen)[i].site) < pts.len(),
    decreases h.len() - e,
{
    if 0 <= e < h.len() {
        lemma_next_in_range(e, h.len() as int);
        let site = t[next_he(e)] as int;
        if seen.contains(site) {
            lemma_cells_model_sites(t, h, pts, e + 1, seen);
            assert(cells_model_rec(t, h, pts, e, seen) == cells_model_rec(t, h, pts, e + 1, seen));
        } else {
            lemma_cells_model_sites(t, h, pts, e + 1, seen.insert(site));
            let cm = cells_model_rec(t, h, pts, e, seen);
            let rest = cells_model_rec(t, h, pts, e + 1, seen.insert(site));
            assert(cm == seq![cell_model_at(t, h, pts, e as usize)] + rest);
            assert forall|i: int| 0 <= i < cm.len() implies 0 <= (#[trigger] cm[i]).site
                < pts.len() by {
                if i == 0 {
                    assert((e as usize) as int == e);
                    assert(cm[0] == cell_model_at(t, h, pts, e as usize));
                    assert((t[next_he(e)] as int) < pts.len());
                } else {
                    assert(cm[i] == rest[i - 1]);
                }
            }
        }
    }
}

/// Each site is visited at most once across a full cell reconstruction: no
/// two cells of the model own the same site, and none owns a site already
/// seen before the scan.
pub proof fn lemma_cells_model_distinct_sites(
    t: Seq<usize>,
    h: Seq<usize>,
    pts: Seq<Site>,
    e: int,
    seen: Set<int>,
)
    requires
        h.len() <= usize::MAX,
    ensures
        forall|i: int, j: int|
            0 <= i < j < cells_model_rec(t, h, pts, e, seen).len() ==> (
            #[trigger] cells_model_rec(t, h, pts, e, seen)[i]).site != (
            #[trigger] cells_model_rec(t, h, pts, e, seen)[j]).site,
        forall|i: int|
            0 <= i < cells_model_rec(t, h, pts, e, seen).len() ==> !seen.contains(
                (#[trigger] cells_model_rec(t, h, pts, e, seen)[i]).site,
            ),
    decreases h.len() - e,
{
    if 0 <= e < h.len() {
        let site = t[next_he(e)] as int;
        let cm = cells_model_rec(t, h, pts, e, seen);
        if seen.contains(site) {
            lemma_cells_model_distinct_sites(t, h, pts, e + 1, seen);
            assert(cm == cells_model_rec(t, h, pts, e + 1, seen));
        } else {
            lemma_cells_model_distinct_sites(t, h, pts, e + 1, seen.insert(site));
            let rest = cells_model_rec(t, h, pts, e + 1, seen.insert(site));
            assert((e as usize) as int == e);
            assert(cm == seq![cell_model_at(t, h, pts, e as usize)] + rest);
            assert(cm[0].site == site);
            assert forall|i: int| 0 <= i < cm.len() implies !seen.contains(
                (#[trigger] cm[i]).site,
            ) && (i > 0 ==> cm[i].site != site) by {
                if i > 0 {
                    assert(cm[i] == rest[i - 1]);
                    assert(!seen.insert(site).contains(rest[i - 1].site));
                }
            }
            assert forall|i: int, j: int| 0 <= i < j < cm.len() implies (#[trigger] cm[i]).site
                != (#[trigger] cm[j]).site by {
                if i > 0 {
                    assert(cm[i] == rest[i - 1]);
                    assert(cm[j] == rest[j - 1]);
                }
            }
        }
    }
}

/// Half-edge pairing is symmetric: a finite twin's twin is the edge itself.
pub proof fn lemma_half_edge_symmetry(v: Voronoitor, e: int)
    requires
        v.well_formed(),
        0 <= e < v.halfedges@.len(),
        v.halfedges@[e] != EMPTY,
    ensures
        v.halfedges@[e] < v.halfedges@.len(),
        v.halfedges@[v.halfedges@[e] as int] == e,
{
}

/// Boundary-walk termination: over a well-formed triangulation the walk
/// from any starting edge visits pairwise-distinct edges — never more than
/// `num_edges` of them — and its last step either returns to the start
/// (a closed interior cell) or falls on the hull sentinel (an open boundary
/// cell).  [`Voronoitor::edges_around_point`] computes exactly such a walk.
pub proof fn lemma_boundary_walk_termination(v: Voronoitor, start: usize, r: Seq<usize>)
    requires
        v.well_formed(),
        start < v.halfedges@.len(),
        is_edge_walk(v.halfedges@, start, r),
    ensures
        r.no_duplicates(),
        1 <= r.len() <= v.halfedges@.len(),
        walk_next(v.halfedges@, r.last() as int) == EMPTY || walk_next(
            v.halfedges@,
            r.last() as int,
        ) == start,
{
    crate::walk::lemma_walk_bounded(v.halfedges@, start, r);
}

/// The two tables have one entry per directed edge, three per triangle.
pub proof fn lemma_triangle_grouping(v: Voronoitor)
    requires
        v.well_formed(),
    ensures
        v.triangles@.len() == v.halfedges@.len(),
        v.triangles@.len() % 3 == 0,
{
}

} // verus!
