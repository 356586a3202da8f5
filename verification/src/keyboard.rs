//! Keyboard hint colors: for every key, the best feedback any cell of the
//! grid gave that letter, in the order none < absent < present < exact.

use vstd::prelude::*;

use crate::board::{Letter, Row};
use crate::scoring::{color_rank, rank_of, Color};

verus! {

/// One row of keyboard keys, each carrying its best feedback so far.
#[derive(Debug)]
pub struct KeyboardRow {
    pub letters: Vec<Letter>,
}

impl View for KeyboardRow {
    type V = Seq<Letter>;

    open spec fn view(&self) -> Seq<Letter> {
        self.letters@
    }
}

/// Every cell of the grid, row by row.
pub open spec fn grid_cells(rows: Seq<Row>) -> Seq<Letter> {
    rows.map_values(|r: Row| r@).flatten()
}

/// The best (highest-ranked) color among the cells holding the byte `c`,
/// or the rank of no feedback when none does.
pub open spec fn best_rank(cells: Seq<Letter>, c: u8) -> int
    decreases cells.len(),
{
    if cells.len() == 0 {
        0
    } else {
        let rest = best_rank(cells.drop_last(), c);
        if cells.last().ch == c && color_rank(cells.last().color) > rest {
            color_rank(cells.last().color)
        } else {
            rest
        }
    }
}

proof fn lemma_best_rank_push(cells: Seq<Letter>, l: Letter, c: u8)
    ensures
        best_rank(cells.push(l), c) == if l.ch == c && color_rank(l.color) > best_rank(cells, c) {
            color_rank(l.color)
        } else {
            best_rank(cells, c)
        },
{
    assert(cells.push(l).drop_last() =~= cells);
    assert(cells.push(l).last() == l);
}

/// The first key position holding the byte `ch`, at or after `j`.
pub open spec fn find_key(r: Seq<Letter>, ch: u8, j: int) -> Option<int>
    decreases r.len() - j,
{
    if j < 0 || j >= r.len() {
        None
    } else if r[j].ch == ch {
        Some(j)
    } else {
        find_key(r, ch, j + 1)
    }
}

impl KeyboardRow {
    /// A key row for the given bytes, with no feedback yet.
    pub fn from_chars(chars: &Vec<u8>) -> (kr: KeyboardRow)
        ensures
            kr@.len() == chars@.len(),
            forall|i: int|
                0 <= i < chars@.len() ==> #[trigger] kr@[i] == (Letter {
                    ch: chars@[i],
                    color: None,
                }),
    {
        let mut letters: Vec<Letter> = Vec::new();
        let mut i: usize = 0;
        while i < chars.len()
            invariant
                i <= chars@.len(),
                letters@.len() == i,
                forall|j: int|
                    0 <= j < i ==> #[trigger] letters@[j] == (Letter {
                        ch: chars@[j],
                        color: None,
                    }),
            decreases chars@.len() - i,
        {
            letters.push(Letter { ch: chars[i], color: None });
            i += 1;
        }
        KeyboardRow { letters }
    }

    /// Raises the feedback of the first key holding `ch` to `color`, if that
    /// is better than what the key already shows. Keys are left alone when
    /// no key holds `ch` or the feedback would not improve.
    pub fn set_color(&mut self, ch: u8, color: Option<Color>)
        ensures
            match find_key(old(self)@, ch, 0) {
                Some(i) => final(self)@ == old(self)@.update(
                    i,
                    Letter {
                        ch: old(self)@[i].ch,
                        color: if color_rank(color) > color_rank(old(self)@[i].color) {
                            color
                        } else {
                            old(self)@[i].color
                        },
                    },
                ),
                None => final(self)@ == old(self)@,
            },
    {
        let mut j: usize = 0;
        while j < self.letters.len()
            invariant
                j <= self@.len(),
                *self == *old(self),
                find_key(old(self)@, ch, 0) == find_key(old(self)@, ch, j as int),
            decreases self@.len() - j,
        {
            if self.letters[j].ch == ch {
                let cur = self.letters[j];
                if rank_of(color) > rank_of(cur.color) {
                    self.letters.set(j, Letter { ch: cur.ch, color });
                } else {
                    proof {
                        assert(self@ =~= old(self)@.update(
                            j as int,
                            Letter { ch: old(self)@[j as int].ch, color: old(self)@[j as int].color },
                        ));
                    }
                }
                return ;
            }
            j += 1;
        }
    }
}

/// The best feedback the grid gave the byte `ch`, over all its cells.
fn best_hint(rows: &Vec<Row>, ch: u8) -> (c: Option<Color>)
    ensures
        color_rank(c) == best_rank(grid_cells(rows@), ch),
{
    let ghost gm = rows@.map_values(|r: Row| r@);
    let mut acc: Option<Color> = None;
    let mut r: usize = 0;
    proof {
        assert(gm.take(0) =~= Seq::<Seq<Letter>>::empty());
        assert(gm.take(0).flatten_alt() =~= Seq::<Letter>::empty());
    }
    while r < rows.len()
        invariant
            r <= rows@.len(),
            gm == rows@.map_values(|rw: Row| rw@),
            color_rank(acc) == best_rank(gm.take(r as int).flatten_alt(), ch),
        decreases rows@.len() - r,
    {
        let mut i: usize = 0;
        let row_len = rows[r].letters.len();
        proof {
            assert(gm.take(r as int).flatten_alt() + gm[r as int].take(0) =~= gm.take(
                r as int,
            ).flatten_alt());
        }
        while i < row_len
            invariant
                i <= row_len,
                r < rows@.len(),
                row_len == rows@[r as int]@.len(),
                gm == rows@.map_values(|rw: Row| rw@),
                color_rank(acc) == best_rank(
                    gm.take(r as int).flatten_alt() + gm[r as int].take(i as int),
                    ch,
                ),
            decreases row_len - i,
        {
            let cell = rows[r].letters[i];
            proof {
                let cells = gm.take(r as int).flatten_alt() + gm[r as int].take(i as int);
                lemma_best_rank_push(cells, cell, ch);
                assert(cells.push(cell) =~= gm.take(r as int).flatten_alt() + gm[r as int].take(
                    i as int + 1,
                ));
            }
            if cell.ch == ch && rank_of(cell.color) > rank_of(acc) {
                acc = cell.color;
            }
            i += 1;
        }
        proof {
            assert(gm[r as int].take(row_len as int) =~= gm[r as int]);
            assert(gm.take(r as int + 1).drop_last() =~= gm.take(r as int));
            assert(gm.take(r as int + 1).last() == gm[r as int]);
            assert(gm.take(r as int + 1).flatten_alt() =~= gm.take(r as int).flatten_alt()
                + gm[r as int]);
        }
        r += 1;
    }
    proof {
        assert(gm.take(rows@.len() as int) =~= gm);
        gm.lemma_flatten_and_flatten_alt_are_equivalent();
    }
    acc
}

/// The three key rows of the on-screen keyboard.
#[derive(Debug)]
pub struct Keyboard {
    pub rows: (KeyboardRow, KeyboardRow, KeyboardRow),
}

/// The top key row: the bytes of `QWERTYUIOP`.
pub open spec fn top_row_layout() -> Seq<u8> {
    seq![81u8, 87, 69, 82, 84, 89, 85, 73, 79, 80]
}

/// The middle key row: the bytes of `ASDFGHJKL`.
pub open spec fn middle_row_layout() -> Seq<u8> {
    seq![65u8, 83, 68, 70, 71, 72, 74, 75, 76]
}

/// The bottom key row: the bytes of `ZXCVBNM`.
pub open spec fn bottom_row_layout() -> Seq<u8> {
    seq![90u8, 88, 67, 86, 66, 78, 77]
}

/// A key row whose bytes follow `layout` and whose colors are the best
/// feedback the grid gave each byte.
pub open spec fn hinted(kr: KeyboardRow, layout: Seq<u8>, rows: Seq<Row>) -> bool {
    &&& kr@.len() == layout.len()
    &&& forall|i: int|
        0 <= i < layout.len() ==> (#[trigger] kr@[i]).ch == layout[i] && color_rank(kr@[i].color)
            == best_rank(grid_cells(rows), layout[i])
}

fn hinted_row(layout: &Vec<u8>, rows: &Vec<Row>) -> (kr: KeyboardRow)
    ensures
        kr@.len() == layout@.len(),
        forall|i: int|
            0 <= i < layout@.len() ==> (#[trigger] kr@[i]).ch == layout@[i] && color_rank(
                kr@[i].color,
            ) == best_rank(grid_cells(rows@), layout@[i]),
{
    let mut letters: Vec<Letter> = Vec::new();
    let mut i: usize = 0;
    while i < layout.len()
        invariant
            i <= layout@.len(),
            letters@.len() == i,
            forall|j: int|
                0 <= j < i ==> (#[trigger] letters@[j]).ch == layout@[j] && color_rank(
                    letters@[j].color,
                ) == best_rank(grid_cells(rows@), layout@[j]),
        decreases layout@.len() - i,
    {
        let ch = layout[i];
        let hint = best_hint(rows, ch);
        letters.push(Letter { ch, color: hint });
        i += 1;
    }
    KeyboardRow { letters }
}

impl Keyboard {
    /// The keyboard for a grid: every key shows the best feedback any cell
    /// of the grid gave its letter.
    pub fn from_rows(rows: &Vec<Row>) -> (kb: Keyboard)
        ensures
            hinted(kb.rows.0, top_row_layout(), rows@),
            hinted(kb.rows.1, middle_row_layout(), rows@),
            hinted(kb.rows.2, bottom_row_layout(), rows@),
    {
        let mut top: Vec<u8> = Vec::new();
        top.push(81);
        top.push(87);
        top.push(69);
        top.push(82);
        top.push(84);
        top.push(89);
        top.push(85);
        top.push(73);
        top.push(79);
        top.push(80);
        let mut middle: Vec<u8> = Vec::new();
        middle.push(65);
        middle.push(83);
        middle.push(68);
        middle.push(70);
        middle.push(71);
        middle.push(72);
        middle.push(74);
        middle.push(75);
        middle.push(76);
        let mut bottom: Vec<u8> = Vec::new();
        bottom.push(90);
        bottom.push(88);
        bottom.push(67);
        bottom.push(86);
        bottom.push(66);
        bottom.push(78);
        bottom.push(77);
        proof {
            assert(top@ =~= top_row_layout());
            assert(middle@ =~= middle_row_layout());
            assert(bottom@ =~= bottom_row_layout());
        }
        Keyboard {
            rows: (
                hinted_row(&top, rows),
                hinted_row(&middle, rows),
                hinted_row(&bottom, rows),
            ),
        }
    }
}

} // verus!
