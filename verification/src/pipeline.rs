//! The regeneration pipeline and its controller.
//!
//! A regeneration runs point sampling, triangulation, cell reconstruction,
//! elevation synthesis and biome classification in one synchronous pass and
//! yields a [`Generation`]: the full cell list plus the elevation field.
//! [`RegenerationController`] owns the configuration and the last successful
//! output; triggers coalesce to at most one pending regeneration, and a tick
//! either swaps the complete new output in or — on a degenerate input —
//! leaves the previous output untouched.

use vstd::prelude::*;

use crate::biome::{biome_of, classify, Biome};
use crate::config::{settings_valid, ConfigError, MapgenSettings};
use crate::delaunay::delaunay_of;
use crate::elevation::site_elevation;
use crate::fixed::{PointFx, Site};
use crate::sampler::{sample_points, site_matches, site_x_of, site_y_of};
use crate::voronoitor::{
    cells_model, cells_of_vec, lemma_cells_model_sites, tables_valid, GeomError, Voronoitor,
};

verus! {

/// One output cell: the polygon of surrounding centroids, the owning site,
/// its elevation (a numerator over [`crate::fixed::ELEV_DEN`]) and its
/// category.
pub struct Cell {
    pub vertices: Vec<PointFx>,
    pub site_index: usize,
    pub elevation: i64,
    pub biome: Biome,
}

/// The elevation field, indexable by site index.
pub struct Elevation(pub Vec<i64>);

/// One regeneration's complete output.
pub struct Generation {
    pub cells: Vec<Cell>,
    pub elevation: Elevation,
}

/// The ghost shape of one output cell.
pub struct CellView {
    pub vertices: Seq<PointFx>,
    pub site: int,
    pub elevation: int,
    pub biome: Biome,
}

/// The ghost shape of a whole generation.
pub struct GenView {
    pub cells: Seq<CellView>,
    pub elevation: Seq<int>,
}

/// The model a concrete [`Cell`] stands for.
pub open spec fn cell_view(c: Cell) -> CellView {
    CellView {
        vertices: c.vertices@,
        site: c.site_index as int,
        elevation: c.elevation as int,
        biome: c.biome,
    }
}

/// The model a concrete [`Generation`] stands for.
pub open spec fn gen_view(g: Generation) -> GenView {
    GenView {
        cells: g.cells@.map_values(|c: Cell| cell_view(c)),
        elevation: g.elevation.0@.map_values(|v: i64| v as int),
    }
}

/// The sites a configuration determines.
pub open spec fn sites_of(cfg: MapgenSettings) -> Seq<Site> {
    Seq::new(
        (cfg.grid_size * cfg.grid_size) as nat,
        |k: int|
            Site {
                x: site_x_of(cfg.rng_seed, cfg.grid_size as int, cfg.jitter as int, k) as i32,
                y: site_y_of(cfg.rng_seed, cfg.grid_size as int, cfg.jitter as int, k) as i32,
            },
    )
}

/// The generation a configuration determines: `None` exactly when the
/// triangulation fails on its sites.
pub open spec fn generation_of(cfg: MapgenSettings) -> Option<GenView> {
    let sites = sites_of(cfg);
    let d = delaunay_of(sites);
    if d.0.len() == 0 || !tables_valid(d.0, d.1, d.2, sites.len() as int) {
        None
    } else {
        let seed = cfg.rng_seed as u32;
        Some(
            GenView {
                cells: cells_model(d.0, d.1, sites).map_values(
                    |c: crate::voronoitor::CellModel|
                        CellView {
                            vertices: c.vertices,
                            site: c.site,
                            elevation: site_elevation(seed, sites[c.site]),
                            biome: biome_of(
                                site_elevation(seed, sites[c.site]),
                                cfg.elevation_threshold as int,
                            ),
                        },
                ),
                elevation: Seq::new(sites.len(), |k: int| site_elevation(seed, sites[k])),
            },
        )
    }
}

/// Runs the whole pipeline for `cfg`.  Succeeds, with the generation the
/// configuration determines, exactly when the triangulation of its sites
/// succeeds; a degenerate input is a recoverable error.
#[verifier::loop_isolation(false)]
pub fn generate(cfg: &MapgenSettings) -> (r: Result<Generation, GeomError>)
    requires
        settings_valid(*cfg),
    ensures
        match r {
            Ok(g) => generation_of(*cfg) == Some(gen_view(g)),
            Err(e) => {
                &&& generation_of(*cfg) is None
                &&& (e == GeomError::DegenerateInput <==> delaunay_of(sites_of(*cfg)).0.len()
                    == 0)
            },
        },
        r is Ok <==> generation_of(*cfg) is Some,
{
    let ghost target = generation_of(*cfg);
    let sites = sample_points(cfg.rng_seed, cfg.grid_size, cfg.jitter);
    proof {
        assert forall|k: int| 0 <= k < sites@.len() implies sites@[k] == sites_of(*cfg)[k]
            && crate::fixed::site_in_range(sites@[k]) by {
            assert(site_matches(
                cfg.rng_seed,
                cfg.grid_size as int,
                cfg.jitter as int,
                sites@[k],
                k,
            ));
        }
        assert(sites@ =~= sites_of(*cfg));
    }
    let vor = match Voronoitor::new(sites) {
        Err(e) => {
            return Err(e);
        },
        Ok(v) => v,
    };
    let ghost t = vor.triangles@;
    let ghost h = vor.halfedges@;
    let ghost pts = vor.points@;
    let seed32 = #[verifier::truncate] (cfg.rng_seed as u32);
    let vcells = vor.cell_iter();
    let elev = vor.assign_elevation(seed32);
    let ghost models = cells_model(t, h, pts);
    proof {
        lemma_cells_model_sites(t, h, pts, 0, Set::empty());
    }
    let mut cells: Vec<Cell> = Vec::new();
    let mut i: usize = 0;
    let ghost goal = target->Some_0.cells;
    while i < vcells.len()
        invariant
            i <= vcells@.len(),
            cells@.len() == i,
            forall|j: int| 0 <= j < i ==> #[trigger] cell_view(cells@[j]) == goal[j],
        decreases vcells@.len() - i,
    {
        let vc = &vcells[i];
        proof {
            assert(cells_of_vec(vcells@)[i as int] == crate::voronoitor::cell_model_of(
                vcells@[i as int],
            ));
            assert(0 <= models[i as int].site < pts.len());
        }
        let el = elev[vc.edge];
        let b = classify(el, cfg.elevation_threshold);
        let verts = vc.vertices.clone();
        let cell = Cell { vertices: verts, site_index: vc.edge, elevation: el, biome: b };
        proof {
            assert(goal[i as int] == CellView {
                vertices: models[i as int].vertices,
                site: models[i as int].site,
                elevation: site_elevation(seed32, pts[models[i as int].site]),
                biome: biome_of(
                    site_elevation(seed32, pts[models[i as int].site]),
                    cfg.elevation_threshold as int,
                ),
            });
            assert(verts@ == vc.vertices@);
            assert(cell_view(cell) == goal[i as int]);
        }
        cells.push(cell);
        i += 1;
    }
    let g = Generation { cells, elevation: Elevation(elev) };
    proof {
        assert(gen_view(g).cells =~= goal);
        assert forall|k: int| 0 <= k < elev@.len() implies gen_view(g).elevation[k]
            == target->Some_0.elevation[k] by {
            assert(elev@[k] as int == site_elevation(seed32, pts[k]));
        }
        assert(gen_view(g).elevation =~= target->Some_0.elevation);
        assert(gen_view(g) == target->Some_0);
    }
    Ok(g)
}

/// Determinism: a configuration determines its output in full, so any two
/// successful regenerations from the same configuration produce identical
/// site positions, cells and elevation fields.
pub proof fn lemma_generation_deterministic(cfg: MapgenSettings, g1: Generation, g2: Generation)
    requires
        generation_of(cfg) == Some(gen_view(g1)),
        generation_of(cfg) == Some(gen_view(g2)),
    ensures
        gen_view(g1) == gen_view(g2),
{
}

/// The controller: owns the configuration and the last successful output.
/// It sits in its idle state between ticks; a regeneration runs to
/// completion within one [`RegenerationController::tick`].
pub struct RegenerationController {
    settings: MapgenSettings,
    output: Option<Generation>,
    pending: bool,
}

impl RegenerationController {
    /// The configuration the next regeneration will use.
    pub closed spec fn spec_settings(self) -> MapgenSettings {
        self.settings
    }

    /// Whether a trigger is waiting to be processed.
    pub closed spec fn spec_pending(self) -> bool {
        self.pending
    }

    /// The model of the exposed output, if any generation succeeded yet.
    pub closed spec fn spec_output(self) -> Option<GenView> {
        match self.output {
            Some(g) => Some(gen_view(g)),
            None => None,
        }
    }

    /// The controller's invariant: its configuration is always valid.
    pub closed spec fn inv(self) -> bool {
        settings_valid(self.settings)
    }

    /// A controller holding a validated configuration and no output yet.
    pub fn new(settings: MapgenSettings) -> (r: Result<RegenerationController, ConfigError>)
        ensures
            r is Ok <==> settings_valid(settings),
            match r {
                Ok(c) => {
                    &&& c.inv()
                    &&& c.spec_settings() == settings
                    &&& c.spec_output() is None
                    &&& !c.spec_pending()
                },
                Err(e) => true,
            },
    {
        match settings.validate() {
            Ok(_) => Ok(RegenerationController { settings, output: None, pending: false }),
            Err(e) => Err(e),
        }
    }

    /// Replaces the configuration, rejecting an out-of-range one at update
    /// time: on rejection nothing changes.  The new configuration takes
    /// effect at the next processed trigger.
    pub fn update_settings(&mut self, settings: MapgenSettings) -> (r: Result<(), ConfigError>)
        requires
            old(self).inv(),
        ensures
            final(self).inv(),
            r is Ok <==> settings_valid(settings),
            final(self).spec_settings() == (if settings_valid(settings) {
                settings
            } else {
                old(self).spec_settings()
            }),
            final(self).spec_output() == old(self).spec_output(),
            final(self).spec_pending() == old(self).spec_pending(),
    {
        match settings.validate() {
            Ok(_) => {
                self.settings = settings;
                Ok(())
            },
            Err(e) => Err(e),
        }
    }

    /// Records a regeneration trigger.  Any number of triggers before the
    /// next tick coalesce into one pending regeneration.
    pub fn trigger(&mut self)
        requires
            old(self).inv(),
        ensures
            final(self).inv(),
            final(self).spec_pending(),
            final(self).spec_settings() == old(self).spec_settings(),
            final(self).spec_output() == old(self).spec_output(),
    {
        self.pending = true;
    }

    /// Processes at most one pending regeneration and returns whether one
    /// ran.  On success the whole previous output is replaced at once by the
    /// generation the configuration determines; on failure (a degenerate
    /// input) the previous output stays exactly as it was.
    pub fn tick(&mut self) -> (ran: bool)
        requires
            old(self).inv(),
        ensures
            final(self).inv(),
            ran == old(self).spec_pending(),
            !final(self).spec_pending(),
            final(self).spec_settings() == old(self).spec_settings(),
            ({
                let cfg = old(self).spec_settings();
                if !old(self).spec_pending() {
                    final(self).spec_output() == old(self).spec_output()
                } else if generation_of(cfg) is Some {
                    final(self).spec_output() == generation_of(cfg)
                } else {
                    final(self).spec_output() == old(self).spec_output()
                }
            }),
    {
        if !self.pending {
            return false;
        }
        self.pending = false;
        match generate(&self.settings) {
            Ok(g) => {
                self.output = Some(g);
            },
            Err(_) => {},
        }
        true
    }

    /// How many cells are exposed: the new generation's count right after a
    /// successful swap, and zero before the first success.
    pub fn cell_count(&self) -> (n: usize)
        ensures
            match self.spec_output() {
                Some(v) => n == v.cells.len(),
                None => n == 0,
            },
    {
        match &self.output {
            Some(g) => g.cells.len(),
            None => 0,
        }
    }

    /// The exposed output, if any generation has succeeded yet.
    pub fn output(&self) -> (o: &Option<Generation>)
        ensures
            match o {
                Some(g) => self.spec_output() == Some(gen_view(*g)),
                None => self.spec_output() is None,
            },
    {
        &self.output
    }
}

/// The triangle-fan index list a renderer uses for a polygon of
/// `num_vertices` vertices: the triple `[0, i, i - 1]` for each `i` from 1.
pub fn fan_indices(num_vertices: usize) -> (r: Vec<u32>)
    requires
        num_vertices <= 0xffff_ffff,
    ensures
        num_vertices == 0 ==> r@.len() == 0,
        num_vertices >= 1 ==> r@.len() == 3 * (num_vertices - 1),
        forall|i: int|
            1 <= i < num_vertices ==> {
                &&& #[trigger] r@[3 * (i - 1)] == 0u32
                &&& r@[3 * (i - 1) + 1] == i as u32
                &&& r@[3 * (i - 1) + 2] == (i - 1) as u32
            },
{
    let mut r: Vec<u32> = Vec::new();
    if num_vertices == 0 {
        return r;
    }
    let mut i: usize = 1;
    while i < num_vertices
        invariant
            num_vertices <= 0xffff_ffff,
            1 <= i <= num_vertices,
            r@.len() == 3 * (i - 1),
            forall|j: int|
                1 <= j < i ==> {
                    &&& #[trigger] r@[3 * (j - 1)] == 0u32
                    &&& r@[3 * (j - 1) + 1] == j as u32
                    &&& r@[3 * (j - 1) + 2] == (j - 1) as u32
                },
        decreases num_vertices - i,
    {
        r.push(0);
        r.push(i as u32);
        r.push((i - 1) as u32);
        proof {
            assert(r@[3 * (i as int - 1)] == 0u32);
            assert(r@[3 * (i as int - 1) + 1] == i as u32);
            assert(r@[3 * (i as int - 1) + 2] == (i - 1) as u32);
        }
        i += 1;
    }
    r
}

} // verus!
