//! Thresholding elevation into discrete terrain categories.

use vstd::prelude::*;

verus! {

/// The two-way partition of the current design.
#[derive(Clone, Copy, PartialEq, Eq, Structural, Debug)]
pub enum Biome {
    /// Elevation strictly below the threshold.
    Low,
    /// Elevation at or above the threshold.
    High,
}

/// The category of an elevation against a single threshold, both numerators
/// over [`crate::fixed::ELEV_DEN`].
pub open spec fn biome_of(elevation: int, threshold: int) -> Biome {
    if elevation < threshold {
        Biome::Low
    } else {
        Biome::High
    }
}

/// Exec counterpart of [`biome_of`].
pub fn classify(elevation: i64, threshold: i64) -> (b: Biome)
    ensures
        b == biome_of(elevation as int, threshold as int),
{
    if elevation < threshold {
        Biome::Low
    } else {
        Biome::High
    }
}

/// The category index against an ordered list of thresholds: the first
/// index whose threshold lies above the elevation, or `thresholds.len()`
/// when none does.  With one threshold this is [`classify`] as an index;
/// more thresholds partition the range into more categories without
/// changing the caller.
pub fn classify_index(elevation: i64, thresholds: &Vec<i64>) -> (idx: usize)
    ensures
        idx <= thresholds@.len(),
        idx < thresholds@.len() ==> elevation < thresholds@[idx as int],
        forall|j: int| 0 <= j < idx ==> #[trigger] thresholds@[j] <= elevation,
{
    let mut idx: usize = 0;
    while idx < thresholds.len()
        invariant
            idx <= thresholds@.len(),
            forall|j: int| 0 <= j < idx ==> #[trigger] thresholds@[j] <= elevation,
        decreases thresholds@.len() - idx,
    {
        if elevation < thresholds[idx] {
            return idx;
        }
        idx += 1;
    }
    idx
}

} // verus!
