//! The time grid: beats, and divisions of each beat.

use vstd::prelude::*;

verus! {

/// A grid of `num_beats` beats with `num_divs` divisions each. Both are at
/// least one in a well-formed rhythm.
#[derive(Clone, Copy, Debug, PartialEq, Eq, Structural)]
pub struct Rhythm {
    pub num_beats: u8,
    pub num_divs: u8,
}

impl Rhythm {
    /// Both dimensions are positive.
    pub open spec fn wf(&self) -> bool {
        self.num_beats >= 1 && self.num_divs >= 1
    }

    /// The number of slots of the grid, as a mathematical integer.
    pub open spec fn slots(&self) -> nat {
        (self.num_beats as nat) * (self.num_divs as nat)
    }

    /// The grid of the given dimensions, or nothing where one of them is zero.
    pub fn new(num_beats: u8, num_divs: u8) -> (r: Option<Rhythm>)
        ensures
            (num_beats >= 1 && num_divs >= 1) ==> r == Some(Rhythm { num_beats, num_divs }),
            (num_beats == 0 || num_divs == 0) ==> r.is_none(),
    {
        if num_beats >= 1 && num_divs >= 1 {
            Some(Rhythm { num_beats, num_divs })
        } else {
            None
        }
    }

    /// The number of slots: beats times divisions.
    pub fn num_slots(&self) -> (n: usize)
        ensures
            n == self.slots(),
            n <= 255 * 255,
    {
        assert((self.num_beats as nat) * (self.num_divs as nat) <= 255 * 255) by (nonlinear_arith)
            requires
                self.num_beats <= 255,
                self.num_divs <= 255,
        ;
        (self.num_beats as usize) * (self.num_divs as usize)
    }
}

} // verus!
