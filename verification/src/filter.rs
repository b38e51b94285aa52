//! Near-range filtering of LiDAR measurements: the threshold below which points
//! are checked, and the intensity rule that decides whether a group of nearby
//! points is kept.

use vstd::prelude::*;

verus! {

/// Groups of fewer points than this need a high average intensity to be kept.
pub const SMALL_GROUP: usize = 3;
/// Groups of more points than this are always kept.
pub const LARGE_GROUP: usize = 15;
/// Average intensity at or below which a medium group is dropped.
pub const INTENSITY_LOW: u8 = 15;
/// Average intensity below which a small group is dropped.
pub const INTENSITY_SINGLE: u8 = 220;

/// Near-range point filter.
#[derive(Debug, Clone, Copy, PartialEq, Eq)]
pub struct NearRangeFilter {
    /// Points closer than this (in millimetres) are checked by the filter.
    pub near_range_threshold: u16,
}

impl NearRangeFilter {
    /// A filter with the default 5 m threshold.
    pub fn new() -> (f: Self)
        ensures
            f.near_range_threshold == 5000,
    {
        NearRangeFilter { near_range_threshold: 5000 }
    }

    /// A filter with a custom threshold (millimetres).
    pub fn with_threshold(threshold: u16) -> (f: Self)
        ensures
            f.near_range_threshold == threshold,
    {
        NearRangeFilter { near_range_threshold: threshold }
    }

    /// Whether a point at `distance` millimetres is a near point, checked by the filter.
    pub fn is_near(&self, distance: u16) -> (b: bool)
        ensures
            b == (distance < self.near_range_threshold),
    {
        distance < self.near_range_threshold
    }
}

impl Default for NearRangeFilter {
    fn default() -> (f: Self)
        ensures
            f.near_range_threshold == 5000,
    {
        Self::new()
    }
}

/// Sum of a sequence of intensities.
pub open spec fn sum_intensity(s: Seq<u8>) -> nat
    decreases s.len(),
{
    if s.len() == 0 {
        0
    } else {
        sum_intensity(s.drop_last()) + s.last() as nat
    }
}

/// Whether a group of nearby points with these intensities is kept: groups of
/// more than 15 points always; groups of fewer than 3 when their average
/// intensity (rounded down) is at least 220; other groups when it is above 15.
/// An empty group has nothing to keep.
pub open spec fn group_kept(intensities: Seq<u8>) -> bool {
    let n = intensities.len();
    if n == 0 {
        false
    } else if n > LARGE_GROUP {
        true
    } else if n < SMALL_GROUP {
        sum_intensity(intensities) / n >= INTENSITY_SINGLE
    } else {
        sum_intensity(intensities) / n > INTENSITY_LOW
    }
}

proof fn lemma_sum_bound(s: Seq<u8>)
    ensures
        sum_intensity(s) <= 255 * s.len(),
    decreases s.len(),
{
    if s.len() > 0 {
        lemma_sum_bound(s.drop_last());
    }
}

/// Whether a group of nearby points is kept (see `group_kept`); points of a
/// dropped group are marked invalid by the caller.
pub fn group_is_kept(intensities: &[u8]) -> (keep: bool)
    ensures
        keep == group_kept(intensities@),
{
    let n = intensities.len();
    if n == 0 {
        return false;
    }
    if n > LARGE_GROUP {
        return true;
    }
    let mut sum: u32 = 0;
    let mut i: usize = 0;
    while i < n
        invariant
            n == intensities@.len(),
            n <= LARGE_GROUP,
            i <= n,
            sum == sum_intensity(intensities@.take(i as int)),
        decreases n - i,
    {
        assert(intensities@.take(i + 1).drop_last() =~= intensities@.take(i as int));
        proof {
            lemma_sum_bound(intensities@.take(i as int));
        }
        sum = sum + intensities[i] as u32;
        i = i + 1;
    }
    assert(intensities@.take(n as int) =~= intensities@);
    let avg: u32 = sum / (n as u32);
    if n < SMALL_GROUP {
        avg >= INTENSITY_SINGLE as u32
    } else {
        avg > INTENSITY_LOW as u32
    }
}

} // verus!
