//! The checked triangulation, the half-edge walks, and the derived edges.

use mapgen::fixed::{Site, SCALE};
use mapgen::sampler::sample_points;
use mapgen::voronoitor::{GeomError, Voronoitor};
use mapgen::walk::EMPTY;

fn site(x: i64, y: i64) -> Site {
    Site { x: x as i32, y: y as i32 }
}

fn unit_square() -> Vec<Site> {
    vec![site(0, 0), site(SCALE, 0), site(0, SCALE), site(SCALE, SCALE)]
}

#[test]
fn two_sites_are_degenerate() {
    let r = Voronoitor::new(vec![site(0, 0), site(SCALE, SCALE)]);
    assert!(matches!(r, Err(GeomError::DegenerateInput)));
}

#[test]
fn collinear_sites_are_degenerate() {
    let r = Voronoitor::new(vec![site(0, 0), site(SCALE, SCALE), site(2 * SCALE, 2 * SCALE)]);
    assert!(matches!(r, Err(GeomError::DegenerateInput)));
}

#[test]
fn square_triangulates_into_two_triangles() {
    let vor = Voronoitor::new(unit_square()).unwrap();
    assert_eq!(vor.triangles.len(), 6);
    assert_eq!(vor.num_edges(), 6);
    assert_eq!(vor.hull.len(), 4);
    // Exactly one interior edge pair: the diagonal.
    let interior = (0..6).filter(|&e| vor.halfedges[e] != EMPTY).count();
    assert_eq!(interior, 2);
}

#[test]
fn half_edges_pair_symmetrically() {
    let sites = sample_points(7, 6, SCALE as u64);
    let vor = Voronoitor::new(sites).unwrap();
    let n = vor.num_edges();
    assert_eq!(vor.triangles.len(), n);
    assert_eq!(n % 3, 0);
    for e in 0..n {
        let f = vor.halfedges[e];
        if f != EMPTY {
            assert_eq!(vor.halfedges[f], e);
        }
    }
}

#[test]
fn next_halfedge_cycles_within_a_triangle() {
    let vor = Voronoitor::new(unit_square()).unwrap();
    assert_eq!(vor.next_halfedge(0), 1);
    assert_eq!(vor.next_halfedge(1), 2);
    assert_eq!(vor.next_halfedge(2), 0);
    assert_eq!(vor.next_halfedge(3), 4);
    assert_eq!(vor.next_halfedge(5), 3);
}

#[test]
fn centroids_are_vertex_sums() {
    let vor = Voronoitor::new(unit_square()).unwrap();
    let centers = vor.calc_centroids();
    assert_eq!(centers.len(), 2);
    for t in 0..2usize {
        let (mut sx, mut sy) = (0i64, 0i64);
        for j in 0..3usize {
            let p = vor.points[vor.triangles[3 * t + j]];
            sx += p.x as i64;
            sy += p.y as i64;
        }
        assert_eq!(centers[t].x, sx);
        assert_eq!(centers[t].y, sy);
    }
}

#[test]
fn walks_terminate_and_match_break_condition() {
    let sites = sample_points(11, 5, SCALE as u64);
    let vor = Voronoitor::new(sites).unwrap();
    let n = vor.num_edges();
    for start in 0..n {
        let edges = vor.edges_around_point(start);
        assert!(!edges.is_empty());
        assert!(edges.len() <= n);
        assert_eq!(edges[0], start);
        // Each step is the twin of the next edge, and only the last one may
        // fall on the sentinel or close the loop.
        for w in 0..edges.len() {
            let step = vor.halfedges[vor.next_halfedge(edges[w])];
            if w + 1 < edges.len() {
                assert_eq!(step, edges[w + 1]);
            } else {
                assert!(step == EMPTY || step == start);
            }
        }
    }
}

#[test]
fn cells_cover_each_site_once() {
    let sites = sample_points(3, 4, SCALE as u64);
    let nsites = sites.len();
    let vor = Voronoitor::new(sites).unwrap();
    let cells = vor.cell_iter();
    let mut counts = vec![0usize; nsites];
    for c in &cells {
        counts[c.edge] += 1;
        assert!(!c.vertices.is_empty());
    }
    assert!(counts.iter().all(|&c| c <= 1));
    assert_eq!(cells.len(), counts.iter().sum::<usize>());
}

#[test]
fn dual_edges_pair_adjacent_centroids_once() {
    let vor = Voronoitor::new(unit_square()).unwrap();
    let duals = vor.voronoi_iter();
    // One interior pair in a square: one dual edge between the 2 centroids.
    assert_eq!(duals.len(), 1);
    let centers = vor.calc_centroids();
    let d = &duals[0];
    assert!(
        (d.start == centers[0] && d.end == centers[1]) || (d.start == centers[1] && d.end
            == centers[0])
    );
}

#[test]
fn triangle_edges_emit_interior_edges_once() {
    let vor = Voronoitor::new(unit_square()).unwrap();
    let raw = vor.triangle_iter(&unit_square());
    // Each directed edge is emitted when its twin has a smaller index: the
    // one interior pair yields one segment, hull edges none.
    assert_eq!(raw.len(), 1);
    // Endpoints are site positions scaled to the point denominator.
    let d = &raw[0];
    assert_eq!(d.start.x % 3, 0);
    assert_eq!(d.end.x % 3, 0);
}

#[test]
fn triangle_edges_of_degenerate_input_are_empty() {
    let vor = Voronoitor::new(unit_square()).unwrap();
    let raw = vor.triangle_iter(&vec![site(0, 0), site(SCALE, SCALE)]);
    assert!(raw.is_empty());
}
