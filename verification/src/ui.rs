//! The decision core of the interactive front end: which preferences a
//! session starts from.  Reading and writing the preference file, and the
//! widgets themselves, belong to the unverified shell around the library.

use vstd::prelude::*;

verus! {

/// Persisted front-end preferences for the map generator.
#[derive(Clone, Copy, PartialEq, Eq, Structural, Debug)]
pub struct MapgenSettings {
    pub num_cells: usize,
}

/// The front-end wiring.  Its verified part is the start-up decision:
/// restored preferences are used as they are, and a missing or unreadable
/// preference record falls back to the empty defaults.
pub struct UIPlugin;

impl UIPlugin {
    /// The preferences a session starts from, given what the shell could
    /// restore from storage.
    pub fn initial_mapgen(loaded: Option<MapgenSettings>) -> (r: MapgenSettings)
        ensures
            r == (match loaded {
                Option::Some(s) => s,
                Option::None => MapgenSettings { num_cells: 0 },
            }),
    {
        match loaded {
            Some(s) => s,
            None => MapgenSettings { num_cells: 0 },
        }
    }
}

} // verus!
