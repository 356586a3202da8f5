//! Letters and rows of the guess grid.
//!
//! A cell holds an ASCII byte (uppercase once typed, the blank sentinel `32`
//! while empty) and, after its row was submitted, the color the scoring
//! engine assigned. A row is always in one of two states: wholly unscored or
//! wholly scored.

use vstd::prelude::*;

use crate::scoring::{spec_score, score_guess, Color};
use crate::util::copy_vec;

verus! {

/// The blank sentinel for a cell that has not been typed into: an ASCII space.
pub const BLANK: u8 = 32;

/// One cell of the grid: its byte and the feedback color it received, unset
/// until the row is submitted.
#[derive(Clone, Copy, Debug, PartialEq, Eq)]
pub struct Letter {
    pub ch: u8,
    pub color: Option<Color>,
}

impl Default for Letter {
    /// A blank, unscored cell.
    fn default() -> (l: Letter)
        ensures
            l.ch == BLANK,
            l.color is None,
    {
        Letter { ch: BLANK, color: None }
    }
}

/// One row of five cells.
#[derive(Debug)]
pub struct Row {
    pub letters: Vec<Letter>,
}

impl View for Row {
    type V = Seq<Letter>;

    open spec fn view(&self) -> Seq<Letter> {
        self.letters@
    }
}

/// The bytes of a row, one per cell.
pub open spec fn chars_of(r: Seq<Letter>) -> Seq<u8> {
    r.map_values(|l: Letter| l.ch)
}

/// Every cell of the row has been scored.
pub open spec fn row_submitted(r: Seq<Letter>) -> bool {
    forall|i: int| 0 <= i < r.len() ==> (#[trigger] r[i].color) is Some
}

/// No cell of the row has been scored.
pub open spec fn row_unsubmitted(r: Seq<Letter>) -> bool {
    forall|i: int| 0 <= i < r.len() ==> (#[trigger] r[i].color) is None
}

/// Every cell of the row was scored an exact match.
pub open spec fn row_all_green(r: Seq<Letter>) -> bool {
    r.len() == 5 && forall|i: int| 0 <= i < r.len() ==> #[trigger] r[i].color == Some(Color::Green)
}

/// An uppercase ASCII letter, as typing normalizes cells.
pub open spec fn is_upper(b: u8) -> bool {
    65 <= b && b <= 90
}

/// The shape of a row being edited: `col` typed uppercase cells, then blanks.
pub open spec fn typed_prefix(r: Seq<Letter>, col: int) -> bool {
    &&& forall|i: int| 0 <= i < col ==> is_upper(#[trigger] r[i].ch)
    &&& forall|i: int| col <= i < r.len() ==> (#[trigger] r[i].ch) == BLANK
}

/// An ASCII letter of either case.
pub open spec fn is_alpha(b: u8) -> bool {
    (65 <= b && b <= 90) || (97 <= b && b <= 122)
}

/// ASCII case raising: lowercase letters map to uppercase, all else is kept.
pub open spec fn upper_of(b: u8) -> u8 {
    if 97 <= b && b <= 122 {
        (b - 32) as u8
    } else {
        b
    }
}

/// Executable ASCII case raising.
pub fn to_upper(b: u8) -> (r: u8)
    ensures
        r == upper_of(b),
{
    if 97 <= b && b <= 122 {
        b - 32
    } else {
        b
    }
}

/// The row after scoring: the same bytes, each cell now carrying its color.
pub open spec fn scored_row(r: Seq<Letter>, solution: Seq<u8>) -> Seq<Letter> {
    Seq::new(r.len(), |i: int| Letter { ch: r[i].ch, color: Some(spec_score(chars_of(r), solution)[i]) })
}

impl Row {
    /// A fresh row of five blank cells.
    pub fn new_blank() -> (r: Row)
        ensures
            r@.len() == 5,
            forall|i: int| 0 <= i < 5 ==> #[trigger] r@[i] == (Letter { ch: BLANK, color: None }),
    {
        let mut letters: Vec<Letter> = Vec::new();
        let mut i: usize = 0;
        while i < 5
            invariant
                i <= 5,
                letters@.len() == i,
                forall|j: int| 0 <= j < i ==> #[trigger] letters@[j] == (Letter { ch: BLANK, color: None }),
            decreases 5 - i,
        {
            letters.push(Letter { ch: BLANK, color: None });
            i += 1;
        }
        Row { letters }
    }

    /// An element-for-element copy of the row.
    pub fn duplicate(&self) -> (r: Row)
        ensures
            r@ == self@,
    {
        Row { letters: copy_vec(&self.letters) }
    }

    /// Whether every cell of the row has been scored.
    pub fn is_submitted(&self) -> (b: bool)
        ensures
            b == row_submitted(self@),
    {
        let mut i: usize = 0;
        while i < self.letters.len()
            invariant
                i <= self@.len(),
                forall|j: int| 0 <= j < i ==> (#[trigger] self@[j].color) is Some,
            decreases self@.len() - i,
        {
            match self.letters[i].color {
                Some(_) => {},
                None => {
                    return false;
                },
            }
            i += 1;
        }
        true
    }

    /// Whether no cell of the row has been scored.
    pub fn is_unsubmitted(&self) -> (b: bool)
        ensures
            b == row_unsubmitted(self@),
    {
        let mut i: usize = 0;
        while i < self.letters.len()
            invariant
                i <= self@.len(),
                forall|j: int| 0 <= j < i ==> (#[trigger] self@[j].color) is None,
            decreases self@.len() - i,
        {
            match self.letters[i].color {
                Some(_) => {
                    return false;
                },
                None => {},
            }
            i += 1;
        }
        true
    }

    /// Whether every cell of the row was scored an exact match.
    pub fn is_all_green(&self) -> (b: bool)
        ensures
            b == row_all_green(self@),
    {
        if self.letters.len() != 5 {
            return false;
        }
        let mut i: usize = 0;
        while i < 5
            invariant
                i <= 5,
                self@.len() == 5,
                forall|j: int| 0 <= j < i ==> #[trigger] self@[j].color == Some(Color::Green),
            decreases 5 - i,
        {
            match self.letters[i].color {
                Some(Color::Green) => {},
                _ => {
                    return false;
                },
            }
            i += 1;
        }
        true
    }

    /// Whether the row is `col` typed uppercase cells followed by blanks.
    pub fn has_typed_prefix(&self, col: usize) -> (b: bool)
        requires
            col <= self@.len(),
        ensures
            b == typed_prefix(self@, col as int),
    {
        let mut i: usize = 0;
        while i < self.letters.len()
            invariant
                i <= self@.len(),
                col <= self@.len(),
                forall|j: int| 0 <= j < i && j < col ==> is_upper(#[trigger] self@[j].ch),
                forall|j: int| col <= j < i ==> (#[trigger] self@[j].ch) == BLANK,
            decreases self@.len() - i,
        {
            let c = self.letters[i].ch;
            if i < col {
                if !(65 <= c && c <= 90) {
                    return false;
                }
            } else {
                if c != BLANK {
                    return false;
                }
            }
            i += 1;
        }
        true
    }

    /// Scores the row in place against the solution word, coloring every
    /// cell. Relies on the verified scoring engine; the bytes are kept.
    pub fn set_colors(&mut self, word: &Vec<u8>)
        requires
            old(self)@.len() == 5,
            word@.len() == 5,
            row_unsubmitted(old(self)@),
        ensures
            final(self)@ == scored_row(old(self)@, word@),
    {
        let mut guess: Vec<u8> = Vec::new();
        let mut i: usize = 0;
        while i < 5
            invariant
                i <= 5,
                self@.len() == 5,
                self@ == old(self)@,
                guess@.len() == i,
                forall|j: int| 0 <= j < i ==> guess@[j] == chars_of(self@)[j],
            decreases 5 - i,
        {
            guess.push(self.letters[i].ch);
            i += 1;
        }
        proof {
            assert(guess@ =~= chars_of(old(self)@));
        }
        let colors = score_guess(&guess, word);
        proof {
            crate::scoring::lemma_scored_prefix_len(guess@, word@, 5);
        }
        let mut i: usize = 0;
        while i < 5
            invariant
                i <= 5,
                self@.len() == 5,
                colors@ == spec_score(chars_of(old(self)@), word@),
                colors@.len() == 5,
                forall|j: int| i <= j < 5 ==> #[trigger] self@[j] == old(self)@[j],
                forall|j: int|
                    0 <= j < i ==> #[trigger] self@[j] == (Letter {
                        ch: old(self)@[j].ch,
                        color: Some(spec_score(chars_of(old(self)@), word@)[j]),
                    }),
            decreases 5 - i,
        {
            let cell = self.letters[i];
            self.letters.set(i, Letter { ch: cell.ch, color: Some(colors[i]) });
            i += 1;
        }
        proof {
            assert(self@ =~= scored_row(old(self)@, word@));
        }
    }
}

} // verus!
