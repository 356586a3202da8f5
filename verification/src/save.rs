//! The save store: snapshots of games, keyed by puzzle number.
//!
//! The store is the in-memory mapping; the application reads it from and
//! flushes it back to the save file at its boundary, handing decode failures
//! to `SaveData::new` (an empty store). At most one snapshot is held per
//! puzzle number; saving again overwrites it.

use vstd::prelude::*;

use crate::game::{same_game, Game};

verus! {

/// The date-indexed store of game snapshots.
#[derive(Debug)]
pub struct SaveData {
    pub entries: Vec<Game>,
}

impl View for SaveData {
    type V = Seq<Game>;

    open spec fn view(&self) -> Seq<Game> {
        self.entries@
    }
}

/// Whether the store holds a snapshot for puzzle number `n`.
pub open spec fn has_game(s: Seq<Game>, n: u32) -> bool {
    exists|i: int| 0 <= i < s.len() && (#[trigger] s[i]).info.number == n
}

/// What one save call does to the stored sequence: a snapshot identical to
/// `g` now stands under its number, entries under other numbers are kept,
/// and the store grew only if the number was new.
pub open spec fn upsert_ok(pre: Seq<Game>, post: Seq<Game>, g: Game) -> bool {
    &&& post.len() == if has_game(pre, g.info.number) {
        pre.len()
    } else {
        pre.len() + 1
    }
    &&& exists|i: int|
        0 <= i < post.len() && (#[trigger] post[i]).info.number == g.info.number && same_game(
            post[i],
            g,
        )
    &&& forall|i: int|
        0 <= i < pre.len() && (#[trigger] pre[i]).info.number != g.info.number ==> exists|j: int|
            0 <= j < post.len() && #[trigger] post[j] == pre[i]
}

impl SaveData {
    /// Every snapshot is a well-formed game, and numbers are unique.
    pub open spec fn wf(self) -> bool {
        &&& (forall|i: int| 0 <= i < self@.len() ==> (#[trigger] self@[i]).wf())
        &&& (forall|i: int, j: int|
            0 <= i < j < self@.len() ==> (#[trigger] self@[i]).info.number != (
            #[trigger] self@[j]).info.number)
    }

    /// An empty store: what a missing or undecodable save file degrades to.
    pub fn new() -> (s: SaveData)
        ensures
            s@ == Seq::<Game>::empty(),
            s.wf(),
    {
        let s = SaveData { entries: Vec::new() };
        proof {
            assert(s@ =~= Seq::<Game>::empty());
        }
        s
    }

    /// All stored snapshots, for aggregate statistics.
    pub fn games(&self) -> (r: &Vec<Game>)
        ensures
            r@ == self@,
    {
        &self.entries
    }

    /// The stored snapshot for puzzle number `number`, if any.
    pub fn load(&self, number: u32) -> (r: Option<&Game>)
        requires
            self.wf(),
        ensures
            match r {
                Some(g) => {
                    &&& g.info.number == number
                    &&& g.wf()
                    &&& exists|i: int| 0 <= i < self@.len() && #[trigger] self@[i] == *g
                },
                None => !has_game(self@, number),
            },
    {
        let mut i: usize = 0;
        while i < self.entries.len()
            invariant
                i <= self@.len(),
                self.wf(),
                forall|j: int| 0 <= j < i ==> (#[trigger] self@[j]).info.number != number,
            decreases self@.len() - i,
        {
            if self.entries[i].info.number == number {
                return Some(&self.entries[i]);
            }
            i += 1;
        }
        None
    }

    /// Stores a snapshot of `game` under its puzzle number, overwriting any
    /// prior entry for that number.
    pub fn save(&mut self, game: &Game)
        requires
            old(self).wf(),
            game.wf(),
        ensures
            final(self).wf(),
            upsert_ok(old(self)@, final(self)@, *game),
    {
        let n = game.info.number;
        let mut i: usize = 0;
        while i < self.entries.len()
            invariant
                i <= self@.len(),
                self.wf(),
                *self == *old(self),
                forall|j: int| 0 <= j < i ==> (#[trigger] self@[j]).info.number != n,
                n == game.info.number,
                game.wf(),
            decreases self@.len() - i,
        {
            if self.entries[i].info.number == n {
                let snap = game.duplicate();
                self.entries.set(i, snap);
                proof {
                    assert(has_game(old(self)@, n));
                    assert(forall|k: int|
                        0 <= k < old(self)@.len() && k != i ==> self@[k] == old(self)@[k]);
                    assert(self@[i as int].info.number == n && same_game(self@[i as int], *game));
                }
                return ;
            }
            i += 1;
        }
        let snap = game.duplicate();
        self.entries.push(snap);
        proof {
            assert(!has_game(old(self)@, n));
            assert(forall|k: int| 0 <= k < old(self)@.len() ==> self@[k] == old(self)@[k]);
            assert(self@[old(self)@.len() as int].info.number == n && same_game(
                self@[old(self)@.len() as int],
                *game,
            ));
        }
    }
}

/// Round trip: a well-formed store that holds a snapshot of `game` under its
/// number hands back, for that number, a game with identical grid contents,
/// cursor, and bound puzzle.
pub proof fn lemma_save_load_round_trip(s: SaveData, game: Game, loaded: Game)
    requires
        s.wf(),
        exists|i: int|
            0 <= i < s@.len() && (#[trigger] s@[i]).info.number == game.info.number && same_game(
                s@[i],
                game,
            ),
        exists|i: int| 0 <= i < s@.len() && #[trigger] s@[i] == loaded,
        loaded.info.number == game.info.number,
    ensures
        same_game(loaded, game),
{
    let i = choose|i: int|
        0 <= i < s@.len() && (#[trigger] s@[i]).info.number == game.info.number && same_game(
            s@[i],
            game,
        );
    let j = choose|j: int| 0 <= j < s@.len() && #[trigger] s@[j] == loaded;
    if i < j {
        assert(s@[i].info.number != s@[j].info.number);
    } else if j < i {
        assert(s@[j].info.number != s@[i].info.number);
    }
}

} // verus!
