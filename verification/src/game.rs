//! The board state machine: one 6x5 guess grid bound to one puzzle.
//!
//! The cursor `(row, col)` always sits at the first unsubmitted row, after
//! the last typed cell. Typing, deleting, and submitting are total: on a
//! finished game, a full or empty row, or a rejected word they do nothing at
//! all. A game is finished once some row was scored all-exact or all six
//! rows were submitted.

use vstd::prelude::*;

use crate::board::{
    chars_of, is_alpha, row_all_green, row_submitted, row_unsubmitted, scored_row, to_upper,
    typed_prefix, upper_of, Letter, Row, BLANK,
};
use crate::dictionary::{dict_has, Dictionary};
use crate::puzzle::{same_info, GameInfo};
use crate::scoring::{fold_lower, to_lower};

verus! {

/// One attempt at one day's puzzle: the grid, the cursor, and the puzzle the
/// solution is bound to.
#[derive(Debug)]
pub struct Game {
    pub grid: Vec<Row>,
    pub row: usize,
    pub col: usize,
    pub info: GameInfo,
}

/// The grid as a sequence of rows of cells.
pub open spec fn grid_model(g: Game) -> Seq<Seq<Letter>> {
    g.grid@.map_values(|r: Row| r@)
}

/// The grid of a freshly created game: six rows of five blank cells.
pub open spec fn blank_grid() -> Seq<Seq<Letter>> {
    Seq::new(6, |r: int| Seq::new(5, |i: int| Letter { ch: BLANK, color: None }))
}

/// Two games with the same grid contents, cursor, and bound puzzle.
pub open spec fn same_game(a: Game, b: Game) -> bool {
    grid_model(a) == grid_model(b) && a.row == b.row && a.col == b.col && same_info(a.info, b.info)
}

/// The current row's bytes folded to lowercase: the word a submission looks
/// up in the dictionary.
pub open spec fn lowered(r: Seq<Letter>) -> Seq<u8> {
    chars_of(r).map_values(|b: u8| fold_lower(b))
}

/// The first all-green row at or after `r`, if any.
pub open spec fn first_green(gm: Seq<Seq<Letter>>, r: int) -> Option<int>
    decreases gm.len() - r,
{
    if r < 0 || r >= gm.len() {
        None
    } else if row_all_green(gm[r]) {
        Some(r)
    } else {
        first_green(gm, r + 1)
    }
}

/// What a found first-green row means: it is in range and all-green.
pub proof fn lemma_first_green_some(gm: Seq<Seq<Letter>>, j: int, r: int)
    requires
        first_green(gm, j) == Some(r),
    ensures
        j <= r < gm.len(),
        row_all_green(gm[r]),
    decreases gm.len() - j,
{
    if !(j < 0 || j >= gm.len()) {
        if !row_all_green(gm[j]) {
            lemma_first_green_some(gm, j + 1, r);
        }
    }
}

/// The 1-based index of the first all-green row, if any.
pub open spec fn spec_won_in(g: Game) -> Option<int> {
    match first_green(grid_model(g), 0) {
        Some(r) => Some(r + 1),
        None => None,
    }
}

impl Game {
    /// The structural invariant of a game. All rows before the cursor are
    /// submitted and fully typed; the cursor row holds `col` typed cells and
    /// then blanks; everything below is untouched.
    pub open spec fn wf(self) -> bool {
        &&& self.grid@.len() == 6
        &&& (forall|r: int| 0 <= r < 6 ==> (#[trigger] grid_model(self)[r]).len() == 5)
        &&& self.info.wf()
        &&& self.row <= 6
        &&& self.col <= 5
        &&& (forall|r: int|
            0 <= r < self.row ==> row_submitted(#[trigger] grid_model(self)[r]) && typed_prefix(
                grid_model(self)[r],
                5,
            ))
        &&& (forall|r: int|
            self.row <= r < 6 ==> row_unsubmitted(#[trigger] grid_model(self)[r]))
        &&& (self.row < 6 ==> typed_prefix(grid_model(self)[self.row as int], self.col as int))
        &&& (forall|r: int| self.row < r < 6 ==> typed_prefix(#[trigger] grid_model(self)[r], 0))
        &&& (self.row == 6 ==> self.col == 0)
    }

    /// Some row was scored all-exact.
    pub open spec fn spec_won(self) -> bool {
        exists|r: int| 0 <= r < 6 && row_all_green(#[trigger] grid_model(self)[r])
    }

    /// The game is over: a row was scored all-exact, or all six rows were
    /// submitted.
    pub open spec fn spec_finished(self) -> bool {
        self.spec_won() || forall|r: int| 0 <= r < 6 ==> row_submitted(#[trigger] grid_model(self)[r])
    }

    /// A fresh, empty game bound to the given puzzle.
    pub fn new(info: GameInfo) -> (g: Game)
        requires
            info.wf(),
        ensures
            g.wf(),
            grid_model(g) == blank_grid(),
            g.row == 0,
            g.col == 0,
            g.info == info,
    {
        let mut grid: Vec<Row> = Vec::new();
        let mut i: usize = 0;
        while i < 6
            invariant
                i <= 6,
                grid@.len() == i,
                forall|r: int|
                    0 <= r < i ==> (#[trigger] grid@[r])@ == Seq::new(
                        5,
                        |k: int| Letter { ch: BLANK, color: None },
                    ),
            decreases 6 - i,
        {
            let row = Row::new_blank();
            proof {
                assert(row@ =~= Seq::new(5, |k: int| Letter { ch: BLANK, color: None }));
            }
            grid.push(row);
            i += 1;
        }
        let g = Game { grid, row: 0, col: 0, info };
        proof {
            assert(grid_model(g) =~= blank_grid());
            assert(g.wf());
        }
        g
    }

    /// Runtime check of `wf`, for snapshots decoded at the boundary: a
    /// snapshot that fails it is treated as no saved data.
    pub fn check_wf(&self) -> (b: bool)
        ensures
            b == self.wf(),
    {
        if self.grid.len() != 6 {
            return false;
        }
        if !self.info.check_wf() {
            return false;
        }
        if self.row > 6 {
            return false;
        }
        if self.col > 5 {
            return false;
        }
        if self.row == 6 && self.col != 0 {
            return false;
        }
        let mut r: usize = 0;
        while r < 6
            invariant
                r <= 6,
                self.grid@.len() == 6,
                forall|m: int| 0 <= m < r ==> (#[trigger] grid_model(*self)[m]).len() == 5,
            decreases 6 - r,
        {
            let ok = self.grid[r].letters.len() == 5;
            proof {
                assert(grid_model(*self)[r as int] == self.grid@[r as int]@);
            }
            if !ok {
                return false;
            }
            r += 1;
        }
        let mut r: usize = 0;
        while r < self.row
            invariant
                r <= self.row,
                self.row <= 6,
                self.grid@.len() == 6,
                forall|m: int| 0 <= m < 6 ==> (#[trigger] grid_model(*self)[m]).len() == 5,
                forall|m: int|
                    0 <= m < r ==> row_submitted(#[trigger] grid_model(*self)[m]) && typed_prefix(
                        grid_model(*self)[m],
                        5,
                    ),
            decreases self.row - r,
        {
            proof {
                assert(grid_model(*self)[r as int] == self.grid@[r as int]@);
            }
            if !self.grid[r].is_submitted() {
                return false;
            }
            if !self.grid[r].has_typed_prefix(5) {
                return false;
            }
            r += 1;
        }
        let mut r: usize = self.row;
        while r < 6
            invariant
                self.row <= r <= 6,
                self.grid@.len() == 6,
                forall|m: int| 0 <= m < 6 ==> (#[trigger] grid_model(*self)[m]).len() == 5,
                forall|m: int|
                    self.row <= m < r ==> row_unsubmitted(#[trigger] grid_model(*self)[m]),
            decreases 6 - r,
        {
            proof {
                assert(grid_model(*self)[r as int] == self.grid@[r as int]@);
            }
            if !self.grid[r].is_unsubmitted() {
                return false;
            }
            r += 1;
        }
        if self.row < 6 {
            proof {
                assert(grid_model(*self)[self.row as int] == self.grid@[self.row as int]@);
            }
            if !self.grid[self.row].has_typed_prefix(self.col) {
                return false;
            }
        }
        let mut r: usize = self.row + 1;
        while r < 6
            invariant
                self.row + 1 <= r <= 6 || r == self.row + 1,
                self.grid@.len() == 6,
                forall|m: int| 0 <= m < 6 ==> (#[trigger] grid_model(*self)[m]).len() == 5,
                forall|m: int|
                    self.row < m < r ==> typed_prefix(#[trigger] grid_model(*self)[m], 0),
            decreases 6 - r,
        {
            proof {
                assert(grid_model(*self)[r as int] == self.grid@[r as int]@);
            }
            if !self.grid[r].has_typed_prefix(0) {
                return false;
            }
            r += 1;
        }
        true
    }

    /// An element-for-element copy of the game.
    pub fn duplicate(&self) -> (g: Game)
        requires
            self.wf(),
        ensures
            g.wf(),
            same_game(g, *self),
    {
        let mut grid: Vec<Row> = Vec::new();
        let mut i: usize = 0;
        while i < self.grid.len()
            invariant
                i <= self.grid@.len(),
                grid@.len() == i,
                forall|r: int| 0 <= r < i ==> (#[trigger] grid@[r])@ == self.grid@[r]@,
            decreases self.grid@.len() - i,
        {
            grid.push(self.grid[i].duplicate());
            i += 1;
        }
        let g = Game { grid, row: self.row, col: self.col, info: self.info.duplicate() };
        proof {
            assert(grid_model(g) =~= grid_model(*self));
        }
        g
    }

    /// The 1-based index of the first all-exact row: the number of guesses
    /// the game was won in, or nothing if it was never won.
    pub fn won_in(&self) -> (r: Option<usize>)
        requires
            self.wf(),
        ensures
            match r {
                Some(k) => {
                    &&& 1 <= k <= 6
                    &&& spec_won_in(*self) == Some(k as int)
                    &&& row_all_green(grid_model(*self)[k - 1])
                    &&& forall|m: int|
                        0 <= m < k - 1 ==> !row_all_green(#[trigger] grid_model(*self)[m])
                },
                None => {
                    &&& spec_won_in(*self) is None
                    &&& forall|m: int|
                        0 <= m < 6 ==> !row_all_green(#[trigger] grid_model(*self)[m])
                },
            },
    {
        let mut r: usize = 0;
        while r < 6
            invariant
                r <= 6,
                self.wf(),
                forall|m: int| 0 <= m < r ==> !row_all_green(#[trigger] grid_model(*self)[m]),
                first_green(grid_model(*self), 0) == first_green(grid_model(*self), r as int),
            decreases 6 - r,
        {
            let green = self.grid[r].is_all_green();
            proof {
                assert(grid_model(*self)[r as int] == self.grid@[r as int]@);
            }
            if green {
                return Some(r + 1);
            }
            r += 1;
        }
        None
    }

    /// Types one letter at the cursor, normalized to uppercase. A finished
    /// game, a full row, and a non-alphabetic byte are all left untouched.
    pub fn add_char(&mut self, c: u8)
        requires
            old(self).wf(),
        ensures
            final(self).wf(),
            old(self).spec_finished() || old(self).col >= 5 || !is_alpha(c) ==> *final(self)
                == *old(self),
            !old(self).spec_finished() && old(self).col < 5 && is_alpha(c) ==> {
                &&& old(self).row < 6
                &&& grid_model(*final(self)) == grid_model(*old(self)).update(
                    old(self).row as int,
                    grid_model(*old(self))[old(self).row as int].update(
                        old(self).col as int,
                        Letter { ch: upper_of(c), color: None },
                    ),
                )
                &&& final(self).row == old(self).row
                &&& final(self).col == old(self).col + 1
                &&& final(self).info == old(self).info
            },
    {
        if self.has_finished() {
            return ;
        }
        if self.col >= 5 {
            return ;
        }
        let up = to_upper(c);
        if !(65 <= up && up <= 90) {
            return ;
        }
        proof {
            if self.row == 6 {
                assert(self.spec_finished());
            }
        }
        let idx = self.row;
        let cc = self.col;
        let row_ref = &mut self.grid[idx];
        row_ref.letters.set(cc, Letter { ch: up, color: None });
        self.col = cc + 1;
        proof {
            assert(grid_model(*self) =~= grid_model(*old(self)).update(
                old(self).row as int,
                grid_model(*old(self))[old(self).row as int].update(
                    old(self).col as int,
                    Letter { ch: upper_of(c), color: None },
                ),
            ));
            assert(self.wf());
        }
    }

    /// Deletes the letter before the cursor, leaving the cell blank. A
    /// finished game and an empty row are left untouched.
    pub fn backspace(&mut self)
        requires
            old(self).wf(),
        ensures
            final(self).wf(),
            old(self).spec_finished() || old(self).col == 0 ==> *final(self) == *old(self),
            !old(self).spec_finished() && old(self).col > 0 ==> {
                &&& old(self).row < 6
                &&& grid_model(*final(self)) == grid_model(*old(self)).update(
                    old(self).row as int,
                    grid_model(*old(self))[old(self).row as int].update(
                        old(self).col - 1,
                        Letter { ch: BLANK, color: None },
                    ),
                )
                &&& final(self).row == old(self).row
                &&& final(self).col == old(self).col - 1
                &&& final(self).info == old(self).info
            },
    {
        if self.has_finished() {
            return ;
        }
        if self.col == 0 {
            return ;
        }
        proof {
            if self.row == 6 {
                assert(self.col == 0);
            }
        }
        let idx = self.row;
        let cc = self.col - 1;
        let row_ref = &mut self.grid[idx];
        row_ref.letters.set(cc, Letter { ch: BLANK, color: None });
        self.col = cc;
        proof {
            assert(grid_model(*self) =~= grid_model(*old(self)).update(
                old(self).row as int,
                grid_model(*old(self))[old(self).row as int].update(
                    old(self).col - 1,
                    Letter { ch: BLANK, color: None },
                ),
            ));
            assert(self.wf());
        }
    }

    /// Submits the current row. Nothing happens on a finished game or an
    /// incomplete row; a word the dictionary rejects leaves the grid and
    /// cursor exactly as they were. An accepted word is scored against the
    /// bound solution and the cursor moves to the start of the next row.
    pub fn submit(&mut self, dict: &Dictionary)
        requires
            old(self).wf(),
        ensures
            final(self).wf(),
            old(self).spec_finished() || old(self).col < 5 ==> *final(self) == *old(self),
            !old(self).spec_finished() && old(self).col == 5 && !dict_has(
                dict@,
                lowered(grid_model(*old(self))[old(self).row as int]),
            ) ==> *final(self) == *old(self),
            !old(self).spec_finished() && old(self).col == 5 && dict_has(
                dict@,
                lowered(grid_model(*old(self))[old(self).row as int]),
            ) ==> {
                &&& old(self).row < 6
                &&& grid_model(*final(self)) == grid_model(*old(self)).update(
                    old(self).row as int,
                    scored_row(
                        grid_model(*old(self))[old(self).row as int],
                        old(self).info.word@,
                    ),
                )
                &&& final(self).row == old(self).row + 1
                &&& final(self).col == 0
                &&& final(self).info == old(self).info
            },
    {
        if self.has_finished() {
            return ;
        }
        if self.col < 5 {
            return ;
        }
        proof {
            if self.row == 6 {
                assert(self.col == 0);
            }
        }
        let idx = self.row;
        let mut word: Vec<u8> = Vec::new();
        let mut i: usize = 0;
        while i < 5
            invariant
                i <= 5,
                self.wf(),
                self.row == idx < 6,
                word@.len() == i,
                forall|j: int|
                    0 <= j < i ==> word@[j] == fold_lower(
                        grid_model(*self)[idx as int][j].ch,
                    ),
            decreases 5 - i,
        {
            let c = self.grid[idx].letters[i].ch;
            proof {
                assert(grid_model(*self)[idx as int] == self.grid@[idx as int]@);
            }
            word.push(to_lower(c));
            i += 1;
        }
        proof {
            assert(word@ =~= lowered(grid_model(*self)[idx as int]));
        }
        if dict.contains(&word) {
            let row_ref = &mut self.grid[idx];
            row_ref.set_colors(&self.info.word);
            self.row = idx + 1;
            self.col = 0;
            proof {
                assert(grid_model(*self) =~= grid_model(*old(self)).update(
                    old(self).row as int,
                    scored_row(
                        grid_model(*old(self))[old(self).row as int],
                        old(self).info.word@,
                    ),
                ));
                assert(self.wf());
            }
        }
    }

    /// Whether the game is over, computed from the grid alone: some row
    /// all-exact, or all six rows submitted.
    pub fn has_finished(&self) -> (b: bool)
        requires
            self.wf(),
        ensures
            b == self.spec_finished(),
    {
        match self.won_in() {
            Some(_) => true,
            None => {
                let mut r: usize = 0;
                while r < 6
                    invariant
                        r <= 6,
                        self.wf(),
                        !self.spec_won(),
                        forall|m: int| 0 <= m < r ==> row_submitted(#[trigger] grid_model(*self)[m]),
                    decreases 6 - r,
                {
                    let sub = self.grid[r].is_submitted();
                    proof {
                        assert(grid_model(*self)[r as int] == self.grid@[r as int]@);
                    }
                    if !sub {
                        return false;
                    }
                    r += 1;
                }
                true
            },
        }
    }
}

} // verus!
