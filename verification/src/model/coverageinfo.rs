use vstd::prelude::*;

verus! {

/// What is remembered about a cell that has been covered.
#[derive(Debug, Clone, Copy, PartialEq, Eq, Structural)]
pub struct CoverageInfo {
    /// The travel segment during which the cell was most recently touched.
    pub segment_number: usize,
    /// How many distinct segments have covered the cell.
    pub times_visited: usize,
}

impl CoverageInfo {
    /// The record of a cell touched last by the given segment and visited the given number of times.
    pub fn new(segment_number: usize, times_visited: usize) -> (info: Self)
        ensures
            info.segment_number == segment_number,
            info.times_visited == times_visited,
    {
        Self { segment_number, times_visited }
    }
}

} // verus!
