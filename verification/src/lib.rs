//! Procedural polygonal terrain maps: a deterministic jittered point grid,
//! a Delaunay-style triangulation with a half-edge adjacency table, the dual
//! (Voronoi-like) cell decomposition recovered by walking half-edges around
//! each site, and a per-site elevation field shaped like a square island.
//!
//! All geometry is carried in exact fixed-point integers (see [`fixed`]), so
//! every stage of the pipeline is a pure function of the configuration and
//! verification covers the arithmetic itself.  The triangulation, the seeded
//! random stream and the coherent-noise field come from outside crates behind
//! small trusted wrappers; everything computed from their results is verified.

pub mod fixed;
pub mod config;
pub mod rng;
pub mod sampler;
pub mod walk;
pub mod delaunay;
pub mod voronoitor;
pub mod elevation;
pub mod biome;
pub mod pipeline;
pub mod ui;
