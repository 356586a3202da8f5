//! A day's puzzle: its sequence number, solution word, and display date.
//!
//! The sequence number is the day count since the fixed epoch date of puzzle
//! number zero, so a calendar date and a puzzle number are the same value;
//! the application converts real dates to day counts at its boundary and
//! fetches the triple from the outside. The solution is bound by value and is
//! never changed after binding.

use vstd::prelude::*;

use crate::util::copy_vec;

verus! {

/// The triple describing one day's puzzle.
#[derive(Debug)]
pub struct GameInfo {
    /// Days since the epoch date of puzzle number zero.
    pub number: u32,
    /// The five-letter solution word, as ASCII bytes.
    pub word: Vec<u8>,
    /// The date as the outside source displays it; carried, never inspected.
    pub date_string: Vec<u8>,
}

impl GameInfo {
    /// A well-formed puzzle has a five-letter solution.
    pub open spec fn wf(self) -> bool {
        self.word@.len() == 5
    }

    /// Runtime check of `wf`, for values decoded at the boundary.
    pub fn check_wf(&self) -> (b: bool)
        ensures
            b == self.wf(),
    {
        self.word.len() == 5
    }

    /// An element-for-element copy of the puzzle.
    pub fn duplicate(&self) -> (r: GameInfo)
        ensures
            same_info(r, *self),
    {
        GameInfo {
            number: self.number,
            word: copy_vec(&self.word),
            date_string: copy_vec(&self.date_string),
        }
    }
}

/// Two puzzles with the same number, solution, and display date.
pub open spec fn same_info(a: GameInfo, b: GameInfo) -> bool {
    a.number == b.number && a.word@ == b.word@ && a.date_string@ == b.date_string@
}

} // verus!
