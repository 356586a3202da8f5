//! Scoring of a guess against a solution word.
//!
//! A score is one color per letter: `Green` for an exact match, `Yellow` for a
//! letter that occurs elsewhere in the solution, `Gray` for a letter with no
//! remaining occurrence. The algorithm is the classic two-pass one: exact
//! matches first consume their solution position, then each remaining guess
//! letter, left to right, consumes the leftmost still-free occurrence of
//! itself in the solution. Consumption is what makes repeated letters score
//! correctly: a letter is never credited more often than it occurs in the
//! solution (`lemma_score_no_overcredit`).

use vstd::prelude::*;

verus! {

/// Per-letter feedback on a submitted row, totally ordered by how good the
/// news is: `Gray` (absent) < `Yellow` (present, misplaced) < `Green` (exact).
#[derive(Clone, Copy, Debug, PartialEq, Eq, Structural)]
pub enum Color {
    Gray,
    Yellow,
    Green,
}

/// ASCII case folding: uppercase letters map to lowercase, all else is kept.
pub open spec fn fold_lower(b: u8) -> u8 {
    if 65 <= b && b <= 90 {
        (b + 32) as u8
    } else {
        b
    }
}

/// Executable ASCII case folding.
pub fn to_lower(b: u8) -> (r: u8)
    ensures
        r == fold_lower(b),
{
    if 65 <= b && b <= 90 {
        b + 32
    } else {
        b
    }
}

/// The rank of a feedback color, `None` (no feedback yet) ranking below all:
/// the order in which keyboard hints improve.
pub open spec fn color_rank(c: Option<Color>) -> int {
    match c {
        None => 0,
        Some(Color::Gray) => 1,
        Some(Color::Yellow) => 2,
        Some(Color::Green) => 3,
    }
}

/// Executable color rank.
pub fn rank_of(c: Option<Color>) -> (r: u8)
    ensures
        r == color_rank(c),
{
    match c {
        None => 0,
        Some(Color::Gray) => 1,
        Some(Color::Yellow) => 2,
        Some(Color::Green) => 3,
    }
}

/// Solution positions consumed by the first pass: those where guess and
/// solution agree, case-folded.
pub open spec fn initial_used(guess: Seq<u8>, solution: Seq<u8>) -> Seq<bool> {
    Seq::new(solution.len(), |j: int| fold_lower(guess[j]) == fold_lower(solution[j]))
}

/// The leftmost solution position at or after `j` that is not yet consumed
/// and holds the folded letter `c`.
pub open spec fn first_unused(solution: Seq<u8>, used: Seq<bool>, c: u8, j: int) -> Option<int>
    decreases solution.len() - j,
{
    if j < 0 || j >= solution.len() {
        None
    } else if !used[j] && fold_lower(solution[j]) == c {
        Some(j)
    } else {
        first_unused(solution, used, c, j + 1)
    }
}

/// The second pass at one guess position: an exact match is `Green`; else the
/// leftmost free occurrence of the letter is consumed for a `Yellow`; else
/// `Gray`.
pub open spec fn pass_step(guess: Seq<u8>, solution: Seq<u8>, i: int, used: Seq<bool>) -> (
    Color,
    Seq<bool>,
) {
    if fold_lower(guess[i]) == fold_lower(solution[i]) {
        (Color::Green, used)
    } else {
        match first_unused(solution, used, fold_lower(guess[i]), 0) {
            Some(j) => (Color::Yellow, used.update(j, true)),
            None => (Color::Gray, used),
        }
    }
}

/// Colors of the first `i` guess positions, paired with the consumption map
/// after processing them.
pub open spec fn scored_prefix(guess: Seq<u8>, solution: Seq<u8>, i: int) -> (Seq<Color>, Seq<
    bool,
>)
    decreases i,
{
    if i <= 0 {
        (Seq::empty(), initial_used(guess, solution))
    } else {
        let prev = scored_prefix(guess, solution, i - 1);
        let st = pass_step(guess, solution, i - 1, prev.1);
        (prev.0.push(st.0), st.1)
    }
}

/// The full two-pass score of a guess against a solution of the same length.
pub open spec fn spec_score(guess: Seq<u8>, solution: Seq<u8>) -> Seq<Color> {
    scored_prefix(guess, solution, guess.len() as int).0
}

pub proof fn lemma_scored_prefix_len(guess: Seq<u8>, solution: Seq<u8>, i: int)
    requires
        0 <= i,
    ensures
        scored_prefix(guess, solution, i).0.len() == i,
        scored_prefix(guess, solution, i).1.len() == solution.len(),
    decreases i,
{
    if i > 0 {
        lemma_scored_prefix_len(guess, solution, i - 1);
        let prev = scored_prefix(guess, solution, i - 1);
        if fold_lower(guess[i - 1]) != fold_lower(solution[i - 1]) {
            match first_unused(solution, prev.1, fold_lower(guess[i - 1]), 0) {
                Some(j) => {
                    lemma_first_unused_some(solution, prev.1, fold_lower(guess[i - 1]), 0, j);
                    assert(prev.1.update(j, true).len() == prev.1.len());
                },
                None => {},
            }
        }
    }
}

/// How many of the first `i` positions of `s` hold the folded letter `c`.
pub open spec fn letter_count(s: Seq<u8>, c: u8, i: int) -> int
    decreases i,
{
    if i <= 0 {
        0
    } else {
        letter_count(s, c, i - 1) + if fold_lower(s[i - 1]) == c {
            1int
        } else {
            0int
        }
    }
}

/// How many of the first `i` guess positions were credited (colored other
/// than `Gray`) for the folded letter `c`.
pub open spec fn credited_count(guess: Seq<u8>, colors: Seq<Color>, c: u8, i: int) -> int
    decreases i,
{
    if i <= 0 {
        0
    } else {
        credited_count(guess, colors, c, i - 1) + if fold_lower(guess[i - 1]) == c && colors[i - 1]
            != Color::Gray {
            1int
        } else {
            0int
        }
    }
}

/// How many of the first `j` solution positions are consumed and hold `c`.
pub open spec fn consumed_count(solution: Seq<u8>, used: Seq<bool>, c: u8, j: int) -> int
    decreases j,
{
    if j <= 0 {
        0
    } else {
        consumed_count(solution, used, c, j - 1) + if used[j - 1] && fold_lower(solution[j - 1])
            == c {
            1int
        } else {
            0int
        }
    }
}

/// How many positions `k` with `lo <= k < hi` are exact matches holding `c`.
pub open spec fn exact_count(guess: Seq<u8>, solution: Seq<u8>, c: u8, lo: int, hi: int) -> int
    decreases hi - lo,
{
    if hi <= lo {
        0
    } else {
        exact_count(guess, solution, c, lo, hi - 1) + if fold_lower(guess[hi - 1]) == c
            && fold_lower(guess[hi - 1]) == fold_lower(solution[hi - 1]) {
            1int
        } else {
            0int
        }
    }
}

proof fn lemma_exact_peel_lo(guess: Seq<u8>, solution: Seq<u8>, c: u8, lo: int, hi: int)
    requires
        lo < hi,
    ensures
        exact_count(guess, solution, c, lo, hi) == exact_count(guess, solution, c, lo + 1, hi) + if
            fold_lower(guess[lo]) == c && fold_lower(guess[lo]) == fold_lower(solution[lo]) {
            1int
        } else {
            0int
        },
    decreases hi - lo,
{
    if lo + 1 < hi {
        lemma_exact_peel_lo(guess, solution, c, lo, hi - 1);
    } else {
        assert(exact_count(guess, solution, c, lo, lo) == 0);
        assert(exact_count(guess, solution, c, lo + 1, hi) == 0);
    }
}

proof fn lemma_consumed_update(solution: Seq<u8>, used: Seq<bool>, c: u8, jj: int, j: int)
    requires
        0 <= jj < used.len(),
        j <= used.len(),
    ensures
        consumed_count(solution, used.update(jj, true), c, j) == consumed_count(
            solution,
            used,
            c,
            j,
        ) + if jj < j && !used[jj] && fold_lower(solution[jj]) == c {
            1int
        } else {
            0int
        },
    decreases j,
{
    if j > 0 {
        lemma_consumed_update(solution, used, c, jj, j - 1);
    }
}

proof fn lemma_consumed_initial(guess: Seq<u8>, solution: Seq<u8>, c: u8, j: int)
    requires
        guess.len() == solution.len(),
        j <= solution.len(),
    ensures
        consumed_count(solution, initial_used(guess, solution), c, j) == exact_count(
            guess,
            solution,
            c,
            0,
            j,
        ),
    decreases j,
{
    if j > 0 {
        lemma_consumed_initial(guess, solution, c, j - 1);
    }
}

/// What a successful second-pass search means: the found position is free and
/// holds the letter.
pub proof fn lemma_first_unused_some(solution: Seq<u8>, used: Seq<bool>, c: u8, k: int, j: int)
    requires
        first_unused(solution, used, c, k) == Some(j),
    ensures
        k <= j < solution.len(),
        !used[j],
        fold_lower(solution[j]) == c,
    decreases solution.len() - k,
{
    if !(k < 0 || k >= solution.len()) {
        if !(!used[k] && fold_lower(solution[k]) == c) {
            lemma_first_unused_some(solution, used, c, k + 1, j);
        }
    }
}

/// Colors agree on a prefix whenever the color sequences agree there.
proof fn lemma_credited_agree(guess: Seq<u8>, a: Seq<Color>, b: Seq<Color>, c: u8, i: int)
    requires
        forall|k: int| 0 <= k < i ==> a[k] == b[k],
    ensures
        credited_count(guess, a, c, i) == credited_count(guess, b, c, i),
    decreases i,
{
    if i > 0 {
        lemma_credited_agree(guess, a, b, c, i - 1);
    }
}

/// The conservation law of the two passes: the solution positions consumed so
/// far are exactly the guess positions already credited plus the exact
/// matches still to come.
proof fn lemma_consumption_invariant(guess: Seq<u8>, solution: Seq<u8>, c: u8, i: int)
    requires
        guess.len() == solution.len(),
        0 <= i <= guess.len(),
    ensures
        consumed_count(solution, scored_prefix(guess, solution, i).1, c, solution.len() as int)
            == credited_count(guess, scored_prefix(guess, solution, i).0, c, i) + exact_count(
            guess,
            solution,
            c,
            i,
            guess.len() as int,
        ),
    decreases i,
{
    if i == 0 {
        lemma_consumed_initial(guess, solution, c, solution.len() as int);
    } else {
        lemma_consumption_invariant(guess, solution, c, i - 1);
        lemma_scored_prefix_len(guess, solution, i - 1);
        lemma_exact_peel_lo(guess, solution, c, i - 1, guess.len() as int);
        let prev = scored_prefix(guess, solution, i - 1);
        let cur = scored_prefix(guess, solution, i);
        lemma_credited_agree(guess, cur.0, prev.0, c, i - 1);
        if fold_lower(guess[i - 1]) == fold_lower(solution[i - 1]) {
        } else {
            match first_unused(solution, prev.1, fold_lower(guess[i - 1]), 0) {
                Some(j) => {
                    lemma_first_unused_some(solution, prev.1, fold_lower(guess[i - 1]), 0, j);
                    lemma_consumed_update(solution, prev.1, c, j, solution.len() as int);
                },
                None => {},
            }
        }
    }
}

proof fn lemma_consumed_le_letter(solution: Seq<u8>, used: Seq<bool>, c: u8, j: int)
    ensures
        consumed_count(solution, used, c, j) <= letter_count(solution, c, j),
    decreases j,
{
    if j > 0 {
        lemma_consumed_le_letter(solution, used, c, j - 1);
    }
}

/// No overcrediting: across a scored guess, the positions credited for a
/// letter (exact or present) never outnumber that letter's occurrences in the
/// solution. This is the property that the two-pass algorithm exists for; a
/// naive single pass violates it on repeated letters.
pub proof fn lemma_score_no_overcredit(guess: Seq<u8>, solution: Seq<u8>, c: u8)
    requires
        guess.len() == solution.len(),
    ensures
        credited_count(guess, spec_score(guess, solution), c, guess.len() as int) <= letter_count(
            solution,
            c,
            solution.len() as int,
        ),
{
    lemma_consumption_invariant(guess, solution, c, guess.len() as int);
    lemma_consumed_le_letter(
        solution,
        scored_prefix(guess, solution, guess.len() as int).1,
        c,
        solution.len() as int,
    );
}

/// Scoring the same guess against the same solution twice gives the same
/// colors: letter consumption is resolved by position alone, so a re-score
/// has nothing left to chance.
pub proof fn lemma_score_repeatable(
    guess: Seq<u8>,
    solution: Seq<u8>,
    first: Seq<Color>,
    second: Seq<Color>,
)
    requires
        first == spec_score(guess, solution),
        second == spec_score(guess, solution),
    ensures
        first == second,
{
}

/// Finds the leftmost not-yet-consumed solution position holding `c`.
fn find_unused(solution: &Vec<u8>, used: &Vec<bool>, c: u8) -> (r: Option<usize>)
    requires
        used@.len() == solution@.len(),
    ensures
        match r {
            Some(j) => first_unused(solution@, used@, c, 0) == Some(j as int),
            None => first_unused(solution@, used@, c, 0) is None,
        },
{
    let n = solution.len();
    let mut j: usize = 0;
    while j < n
        invariant
            j <= n,
            n == solution@.len(),
            used@.len() == n,
            first_unused(solution@, used@, c, 0) == first_unused(solution@, used@, c, j as int),
        decreases n - j,
    {
        if !used[j] && to_lower(solution[j]) == c {
            return Some(j);
        }
        j += 1;
    }
    None
}

/// The executable scoring engine: colors a guess against a solution of the
/// same length, exactly as `spec_score` says.
pub fn score_guess(guess: &Vec<u8>, solution: &Vec<u8>) -> (colors: Vec<Color>)
    requires
        guess@.len() == solution@.len(),
    ensures
        colors@ == spec_score(guess@, solution@),
{
    let n = guess.len();
    let mut used: Vec<bool> = Vec::new();
    let mut k: usize = 0;
    while k < n
        invariant
            k <= n,
            n == guess@.len(),
            n == solution@.len(),
            used@.len() == k,
            forall|j: int|
                0 <= j < k ==> used@[j] == (fold_lower(guess@[j]) == fold_lower(solution@[j])),
        decreases n - k,
    {
        let folded = to_lower(guess[k]) == to_lower(solution[k]);
        used.push(folded);
        k += 1;
    }
    proof {
        assert(used@ =~= initial_used(guess@, solution@));
    }
    let mut colors: Vec<Color> = Vec::new();
    let mut i: usize = 0;
    while i < n
        invariant
            i <= n,
            n == guess@.len(),
            n == solution@.len(),
            colors@ == scored_prefix(guess@, solution@, i as int).0,
            used@ == scored_prefix(guess@, solution@, i as int).1,
        decreases n - i,
    {
        proof {
            lemma_scored_prefix_len(guess@, solution@, i as int);
        }
        let gi = to_lower(guess[i]);
        if gi == to_lower(solution[i]) {
            colors.push(Color::Green);
        } else {
            match find_unused(solution, &used, gi) {
                Some(j) => {
                    proof {
                        lemma_first_unused_some(solution@, used@, gi, 0, j as int);
                    }
                    used.set(j, true);
                    colors.push(Color::Yellow);
                },
                None => {
                    colors.push(Color::Gray);
                },
            }
        }
        i += 1;
    }
    colors
}

} // verus!
