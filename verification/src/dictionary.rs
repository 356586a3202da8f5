//! The fixed list of accepted five-letter guesses.
//!
//! Submission consults this list; the day's solution itself need not appear
//! in it. The application compiles the list in and hands it over once, as
//! plain byte words.

use vstd::prelude::*;

use crate::util::bytes_eq;

verus! {

/// The accepted-guess list, each word as lowercase ASCII bytes.
#[derive(Debug)]
pub struct Dictionary {
    pub words: Vec<Vec<u8>>,
}

impl View for Dictionary {
    type V = Seq<Seq<u8>>;

    open spec fn view(&self) -> Seq<Seq<u8>> {
        self.words@.map_values(|w: Vec<u8>| w@)
    }
}

/// Whether the word list holds `w`.
pub open spec fn dict_has(d: Seq<Seq<u8>>, w: Seq<u8>) -> bool {
    exists|i: int| 0 <= i < d.len() && d[i] == w
}

impl Dictionary {
    /// An empty list.
    pub fn new() -> (d: Dictionary)
        ensures
            d@ == Seq::<Seq<u8>>::empty(),
    {
        let d = Dictionary { words: Vec::new() };
        proof {
            assert(d@ =~= Seq::<Seq<u8>>::empty());
        }
        d
    }

    /// Appends one accepted word.
    pub fn add_word(&mut self, w: Vec<u8>)
        ensures
            final(self)@ == old(self)@.push(w@),
    {
        self.words.push(w);
        proof {
            assert(self@ =~= old(self)@.push(self.words@.last()@));
        }
    }

    /// Whether `w` is an accepted guess.
    pub fn contains(&self, w: &Vec<u8>) -> (r: bool)
        ensures
            r == dict_has(self@, w@),
    {
        let mut i: usize = 0;
        while i < self.words.len()
            invariant
                i <= self.words@.len(),
                forall|j: int| 0 <= j < i ==> self@[j] != w@,
                self@.len() == self.words@.len(),
                forall|j: int| 0 <= j < self.words@.len() ==> self@[j] == (#[trigger] self.words@[j])@,
            decreases self.words@.len() - i,
        {
            if bytes_eq(&self.words[i], w) {
                return true;
            }
            i += 1;
        }
        false
    }
}

} // verus!
