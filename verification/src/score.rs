//! Player score: a single accumulating counter.
//!
//! When the game scores directly instead of dealing damage, evaluation
//! outcomes land here. A label is re-rendered by the presentation layer
//! only when the value changes.

use vstd::prelude::*;

use crate::geom::spec_saturating_add;

verus! {

/// Accumulated score.
#[derive(Clone, Copy, PartialEq, Eq, Structural, Debug)]
pub struct Score(pub u64);

impl Score {
    /// Add points, stopping at the counter's ceiling rather than
    /// wrapping.
    pub fn add_points(&mut self, points: u64)
        ensures
            final(self).0 == spec_saturating_add(old(self).0, points),
    {
        self.0 = self.0.saturating_add(points);
    }
}

} // verus!
