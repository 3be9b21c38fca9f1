//! The end-to-end pipeline, the regeneration controller, and the front-end
//! helpers.

use mapgen::config::{ConfigError, MapgenSettings, MAX_GRID, MAX_JITTER};
use mapgen::fixed::SCALE;
use mapgen::pipeline::{fan_indices, generate, RegenerationController};
use mapgen::ui;
use mapgen::ui::UIPlugin;

fn settings(seed: u64, grid: usize, jitter: u64) -> MapgenSettings {
    MapgenSettings { rng_seed: seed, grid_size: grid, jitter, elevation_threshold: 68157440 }
}

#[test]
fn validation_rejects_out_of_range_settings() {
    assert!(matches!(
        settings(0, MAX_GRID + 1, 0).validate(),
        Err(ConfigError::GridTooLarge)
    ));
    assert!(matches!(
        settings(0, 2, MAX_JITTER + 1).validate(),
        Err(ConfigError::JitterTooLarge)
    ));
    assert!(settings(0, MAX_GRID, MAX_JITTER).validate().is_ok());
    assert!(MapgenSettings::recommended().validate().is_ok());
}

#[test]
fn generation_is_bit_reproducible() {
    let cfg = settings(0xDEADBEEF, 6, SCALE as u64);
    let a = generate(&cfg).unwrap();
    let b = generate(&cfg).unwrap();
    assert_eq!(a.cells.len(), b.cells.len());
    assert_eq!(a.elevation.0, b.elevation.0);
    for (c, d) in a.cells.iter().zip(b.cells.iter()) {
        assert_eq!(c.site_index, d.site_index);
        assert_eq!(c.elevation, d.elevation);
        assert_eq!(c.biome, d.biome);
        assert_eq!(c.vertices, d.vertices);
    }
}

#[test]
fn end_to_end_lattice_scenario() {
    // seed 0xDEADBEEF, a 3 by 3 grid, no jitter: nine sites on the exact
    // integer lattice, eight triangles, nine cells, and the open cells are
    // exactly the hull sites.
    let cfg = settings(0xDEADBEEF, 3, 0);
    let sites = mapgen::sampler::sample_points(cfg.rng_seed, cfg.grid_size, cfg.jitter);
    assert_eq!(sites.len(), 9);
    for x in 0..3usize {
        for y in 0..3usize {
            assert_eq!(sites[x * 3 + y].x as i64, x as i64 * SCALE);
            assert_eq!(sites[x * 3 + y].y as i64, y as i64 * SCALE);
        }
    }
    let vor = mapgen::voronoitor::Voronoitor::new(sites).unwrap();
    assert_eq!(vor.triangles.len(), 3 * 8);
    let cells = vor.cell_iter();
    assert_eq!(cells.len(), 9);
    for cell in &cells {
        let on_hull = vor.hull.contains(&cell.edge);
        assert_eq!(cell.closed, !on_hull);
    }
    // The single interior site of the lattice is the centre, index 4.
    assert_eq!(cells.iter().filter(|c| c.closed).count(), 1);
    assert!(cells.iter().any(|c| c.edge == 4 && c.closed));
}

#[test]
fn controller_swaps_output_atomically() {
    let mut ctl = RegenerationController::new(settings(1, 3, 0)).unwrap();
    assert_eq!(ctl.cell_count(), 0);
    ctl.trigger();
    ctl.trigger();  // triggers coalesce: one regeneration
    assert!(ctl.tick());
    assert_eq!(ctl.cell_count(), 9);
    assert!(!ctl.tick());  // nothing pending any more
    ctl.update_settings(settings(1, 4, 0)).unwrap();
    ctl.trigger();
    assert!(ctl.tick());
    // No residue of the nine old cells: exactly the new generation's count.
    assert_eq!(ctl.cell_count(), 16);
}

#[test]
fn controller_keeps_output_on_degenerate_input() {
    let mut ctl = RegenerationController::new(settings(1, 3, 0)).unwrap();
    ctl.trigger();
    assert!(ctl.tick());
    assert_eq!(ctl.cell_count(), 9);
    let before: Vec<i64> = ctl.output().as_ref().unwrap().elevation.0.clone();
    // One site cannot be triangulated: the previous output must survive.
    ctl.update_settings(settings(1, 1, 0)).unwrap();
    ctl.trigger();
    assert!(ctl.tick());
    assert_eq!(ctl.cell_count(), 9);
    assert_eq!(ctl.output().as_ref().unwrap().elevation.0, before);
}

#[test]
fn controller_empty_run_stays_idle_without_output() {
    // A degenerate very first run leaves the controller idle and empty.
    let mut ctl = RegenerationController::new(settings(3, 1, 0)).unwrap();
    ctl.trigger();
    assert!(ctl.tick());
    assert_eq!(ctl.cell_count(), 0);
    assert!(ctl.output().is_none());
}

#[test]
fn controller_rejects_bad_settings_update() {
    let mut ctl = RegenerationController::new(settings(1, 3, 0)).unwrap();
    let r = ctl.update_settings(settings(1, MAX_GRID + 1, 0));
    assert!(matches!(r, Err(ConfigError::GridTooLarge)));
    ctl.trigger();
    assert!(ctl.tick());
    assert_eq!(ctl.cell_count(), 9);  // the old grid size still in force
}

#[test]
fn fan_indices_triangulate_a_polygon_fan() {
    assert_eq!(fan_indices(0), Vec::<u32>::new());
    assert_eq!(fan_indices(1), Vec::<u32>::new());
    assert_eq!(fan_indices(4), vec![0, 1, 0, 0, 2, 1, 0, 3, 2]);
}

#[test]
fn ui_preferences_fall_back_to_defaults() {
    let loaded = ui::MapgenSettings { num_cells: 400 };
    assert_eq!(UIPlugin::initial_mapgen(Some(loaded)).num_cells, 400);
    assert_eq!(UIPlugin::initial_mapgen(None).num_cells, 0);
}
