//! The measurement that the area screen keeps while the pen moves over the
//! tablet: the extremes reached, and how many points were seen.

use vstd::prelude::*;

verus! {

/// The coordinates the pen reached during this session, and the number of
/// points seen.
#[derive(Clone, Copy, Debug, PartialEq, Eq, Structural)]
pub struct Observed {
    pub min_x: u16,
    pub max_x: u16,
    pub min_y: u16,
    pub max_y: u16,
    pub samples: u64,
}

impl Default for Observed {
    fn default() -> (r: Observed)
        ensures
            r == (Observed { min_x: u16::MAX, max_x: 0, min_y: u16::MAX, max_y: 0, samples: 0 }),
    {
        Observed { min_x: u16::MAX, max_x: 0, min_y: u16::MAX, max_y: 0, samples: 0 }
    }
}

impl Observed {
    /// Takes a point into the measurement.
    pub fn record(&mut self, x: u16, y: u16)
        requires
            old(self).samples < u64::MAX,
        ensures
            final(self).min_x == crate::shared::min_u16(old(self).min_x, x),
            final(self).max_x == crate::shared::max_u16(old(self).max_x, x),
            final(self).min_y == crate::shared::min_u16(old(self).min_y, y),
            final(self).max_y == crate::shared::max_u16(old(self).max_y, y),
            final(self).samples == old(self).samples + 1,
    {
        if x < self.min_x {
            self.min_x = x;
        }
        if x > self.max_x {
            self.max_x = x;
        }
        if y < self.min_y {
            self.min_y = y;
        }
        if y > self.max_y {
            self.max_y = y;
        }
        self.samples = self.samples + 1;
    }

    /// Whether no point has been seen.
    pub fn is_empty(&self) -> (r: bool)
        ensures
            r == (self.samples == 0),
    {
        self.samples == 0
    }
}

} // verus!
