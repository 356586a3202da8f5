//! The game navigator: the current date, the current game, and the store.
//!
//! A date is carried as its day count since the epoch date of puzzle number
//! zero, so the date and the puzzle number coincide. Navigation clamps to
//! the range from the epoch up to today; today is recomputed by the caller
//! on every move, since real time advances. Moving to a date first tries the
//! store; only when no snapshot exists does the caller have to fetch the
//! day's puzzle from the outside, and on a failed fetch it simply never
//! completes the move, leaving date and game untouched.

use vstd::prelude::*;

use crate::game::{blank_grid, grid_model, same_game, Game};
use crate::puzzle::GameInfo;
use crate::save::{has_game, upsert_ok, SaveData};

verus! {

/// The navigator: current day number, current game, and the save store.
#[derive(Debug)]
pub struct GameManager {
    /// Days since the epoch date of puzzle number zero; also the puzzle
    /// number of the current game's day.
    pub date: u32,
    /// The game being played.
    pub game: Game,
    /// The store of snapshots, owned exclusively by this navigator.
    pub save_data: SaveData,
}

/// What one navigation step does. A target outside `[0, today]` is ignored.
/// An in-range target with a stored snapshot adopts that snapshot verbatim.
/// Otherwise nothing changes and `fetch` names the puzzle number the caller
/// must fetch to complete the move with `goto_fetched`.
pub open spec fn goto_transition(
    pre: GameManager,
    post: GameManager,
    target: int,
    today: u32,
    fetch: Option<u32>,
) -> bool {
    &&& post.save_data@ == pre.save_data@
    &&& ((target < 0 || target > today) ==> post == pre && fetch is None)
    &&& ((0 <= target <= today && has_game(pre.save_data@, target as u32)) ==> {
        &&& fetch is None
        &&& post.date == target
        &&& exists|i: int|
            0 <= i < pre.save_data@.len() && (#[trigger] pre.save_data@[i]).info.number
                == target as u32 && same_game(post.game, pre.save_data@[i])
    })
    &&& ((0 <= target <= today && !has_game(pre.save_data@, target as u32)) ==> post == pre
        && fetch == Some(target as u32))
}

impl GameManager {
    /// A well-formed navigator holds a well-formed game and store.
    pub open spec fn wf(self) -> bool {
        self.game.wf() && self.save_data.wf()
    }

    /// Starts a session on today's puzzle: the stored snapshot for its
    /// number if one exists, else a fresh game bound to the fetched puzzle.
    pub fn new(today: u32, info: GameInfo, save_data: SaveData) -> (m: GameManager)
        requires
            info.wf(),
            save_data.wf(),
        ensures
            m.wf(),
            m.date == today,
            m.save_data@ == save_data@,
            has_game(save_data@, info.number) ==> exists|i: int|
                0 <= i < save_data@.len() && (#[trigger] save_data@[i]).info.number == info.number
                    && same_game(m.game, save_data@[i]),
            !has_game(save_data@, info.number) ==> grid_model(m.game) == blank_grid()
                && m.game.row == 0 && m.game.col == 0 && m.game.info == info,
    {
        let game = match save_data.load(info.number) {
            Some(saved) => saved.duplicate(),
            None => Game::new(info),
        };
        GameManager { date: today, game, save_data }
    }

    /// Commits the current game into the store, unconditionally.
    pub fn save(&mut self)
        requires
            old(self).wf(),
        ensures
            final(self).wf(),
            final(self).date == old(self).date,
            final(self).game == old(self).game,
            upsert_ok(old(self).save_data@, final(self).save_data@, old(self).game),
    {
        let snapshot_of = &self.game;
        self.save_data.save(snapshot_of);
    }

    /// Moves to the given day if the range and the store allow it; returns
    /// the puzzle number still to be fetched when they do not settle it.
    pub fn goto(&mut self, target: i64, today: u32) -> (fetch: Option<u32>)
        requires
            old(self).wf(),
        ensures
            final(self).wf(),
            goto_transition(*old(self), *final(self), target as int, today, fetch),
    {
        if target < 0 || target > today as i64 {
            return None;
        }
        let number = target as u32;
        let restored = match self.save_data.load(number) {
            Some(saved) => Some(saved.duplicate()),
            None => None,
        };
        match restored {
            Some(g) => {
                self.game = g;
                self.date = number;
                None
            },
            None => Some(number),
        }
    }

    /// Completes a move for which `goto` asked for a fetch: binds a fresh
    /// game to the fetched puzzle and adopts the target date.
    pub fn goto_fetched(&mut self, target: u32, today: u32, info: GameInfo)
        requires
            old(self).wf(),
            info.wf(),
            target <= today,
        ensures
            final(self).wf(),
            final(self).date == target,
            final(self).save_data@ == old(self).save_data@,
            grid_model(final(self).game) == blank_grid(),
            final(self).game.row == 0,
            final(self).game.col == 0,
            final(self).game.info == info,
    {
        self.game = Game::new(info);
        self.date = target;
    }

    /// Moves one day forward.
    pub fn next(&mut self, today: u32) -> (fetch: Option<u32>)
        requires
            old(self).wf(),
        ensures
            final(self).wf(),
            goto_transition(*old(self), *final(self), old(self).date + 1, today, fetch),
    {
        let target = self.date as i64 + 1;
        self.goto(target, today)
    }

    /// Moves one day back.
    pub fn previous(&mut self, today: u32) -> (fetch: Option<u32>)
        requires
            old(self).wf(),
        ensures
            final(self).wf(),
            goto_transition(*old(self), *final(self), old(self).date - 1, today, fetch),
    {
        let target = self.date as i64 - 1;
        self.goto(target, today)
    }

    /// Moves to the epoch date of puzzle number zero.
    pub fn first(&mut self, today: u32) -> (fetch: Option<u32>)
        requires
            old(self).wf(),
        ensures
            final(self).wf(),
            goto_transition(*old(self), *final(self), 0, today, fetch),
    {
        self.goto(0, today)
    }

    /// Moves to today.
    pub fn last(&mut self, today: u32) -> (fetch: Option<u32>)
        requires
            old(self).wf(),
        ensures
            final(self).wf(),
            goto_transition(*old(self), *final(self), today as int, today, fetch),
    {
        self.goto(today as i64, today)
    }
}

/// Navigation never leaves the valid date range: a navigator whose date is
/// between the epoch and today still is after any navigation step.
pub proof fn lemma_goto_stays_in_range(
    pre: GameManager,
    post: GameManager,
    target: int,
    today: u32,
    fetch: Option<u32>,
)
    requires
        goto_transition(pre, post, target, today, fetch),
        pre.date <= today,
    ensures
        post.date <= today,
{
}

/// Asking for the day after today is a no-op: nothing moves, nothing is
/// fetched.
pub proof fn lemma_next_at_today_is_noop(
    pre: GameManager,
    post: GameManager,
    today: u32,
    fetch: Option<u32>,
)
    requires
        goto_transition(pre, post, pre.date + 1, today, fetch),
        pre.date == today,
    ensures
        post == pre,
        fetch is None,
{
}

/// Moving to a day whose game is already stored never fetches, however often
/// it is repeated: both steps restore the same stored snapshot and leave the
/// store alone.
pub proof fn lemma_goto_saved_is_idempotent(
    pre: GameManager,
    mid: GameManager,
    post: GameManager,
    target: int,
    today: u32,
    fetch1: Option<u32>,
    fetch2: Option<u32>,
)
    requires
        pre.save_data.wf(),
        goto_transition(pre, mid, target, today, fetch1),
        goto_transition(mid, post, target, today, fetch2),
        0 <= target <= today,
        has_game(pre.save_data@, target as u32),
    ensures
        fetch1 is None,
        fetch2 is None,
        post.date == mid.date,
        post.save_data@ == mid.save_data@,
        same_game(post.game, mid.game),
{
    let n = target as u32;
    let i = choose|i: int|
        0 <= i < pre.save_data@.len() && (#[trigger] pre.save_data@[i]).info.number == n
            && same_game(mid.game, pre.save_data@[i]);
    let j = choose|j: int|
        0 <= j < mid.save_data@.len() && (#[trigger] mid.save_data@[j]).info.number == n
            && same_game(post.game, mid.save_data@[j]);
    if i < j {
        assert(pre.save_data@[i].info.number != pre.save_data@[j].info.number);
    } else if j < i {
        assert(pre.save_data@[j].info.number != pre.save_data@[i].info.number);
    }
}

} // verus!
