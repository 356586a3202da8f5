//! Aggregate statistics over the save store: how many games were finished,
//! and a histogram of wins by guess count.

use vstd::prelude::*;

use crate::game::{spec_won_in, Game};
use crate::save::SaveData;

verus! {

/// Counts of finished games and of wins per guess count.
#[derive(Debug)]
pub struct Stats {
    /// How many stored games are finished.
    pub attempted: usize,
    /// `won[k]` is how many games were won in `k + 1` guesses.
    pub won: Vec<usize>,
}

/// How many of the first `i` stored games are finished.
pub open spec fn count_finished(s: Seq<Game>, i: int) -> int
    decreases i,
{
    if i <= 0 {
        0
    } else {
        count_finished(s, i - 1) + if s[i - 1].spec_finished() {
            1int
        } else {
            0int
        }
    }
}

/// How many of the first `i` stored games were won in exactly `k` guesses.
pub open spec fn count_won_in(s: Seq<Game>, k: int, i: int) -> int
    decreases i,
{
    if i <= 0 {
        0
    } else {
        count_won_in(s, k, i - 1) + if spec_won_in(s[i - 1]) == Some(k) {
            1int
        } else {
            0int
        }
    }
}

proof fn lemma_counts_bounded(s: Seq<Game>, k: int, i: int)
    requires
        0 <= i,
    ensures
        0 <= count_finished(s, i) <= i,
        0 <= count_won_in(s, k, i) <= i,
    decreases i,
{
    if i > 0 {
        lemma_counts_bounded(s, k, i - 1);
    }
}

impl SaveData {
    /// Tallies the store: how many games are finished, and for each guess
    /// count how many games were won in it.
    pub fn stats(&self) -> (st: Stats)
        requires
            self.wf(),
        ensures
            st.won@.len() == 6,
            st.attempted == count_finished(self@, self@.len() as int),
            forall|k: int|
                1 <= k <= 6 ==> #[trigger] st.won@[k - 1] == count_won_in(
                    self@,
                    k,
                    self@.len() as int,
                ),
    {
        let mut attempted: usize = 0;
        let mut won: Vec<usize> = Vec::new();
        let mut k: usize = 0;
        while k < 6
            invariant
                k <= 6,
                won@.len() == k,
                forall|m: int| 0 <= m < k ==> won@[m] == 0,
            decreases 6 - k,
        {
            won.push(0);
            k += 1;
        }
        let n = self.entries.len();
        let mut i: usize = 0;
        while i < n
            invariant
                i <= n,
                n == self@.len(),
                self.wf(),
                won@.len() == 6,
                attempted == count_finished(self@, i as int),
                forall|k: int|
                    1 <= k <= 6 ==> #[trigger] won@[k - 1] == count_won_in(self@, k, i as int),
            decreases n - i,
        {
            proof {
                lemma_counts_bounded(self@, 1, i as int);
            }
            let g = &self.entries[i];
            if g.has_finished() {
                attempted += 1;
                match g.won_in() {
                    Some(guesses) => {
                        proof {
                            lemma_counts_bounded(self@, guesses as int, i as int);
                        }
                        let prior = won[guesses - 1];
                        won.set(guesses - 1, prior + 1);
                    },
                    None => {},
                }
            } else {
                proof {
                    let gm = crate::game::grid_model(self@[i as int]);
                    match crate::game::first_green(gm, 0) {
                        Some(r) => {
                            crate::game::lemma_first_green_some(gm, 0, r);
                            assert(self@[i as int].spec_won());
                        },
                        None => {},
                    }
                }
            }
            i += 1;
        }
        Stats { attempted, won }
    }
}

} // verus!
