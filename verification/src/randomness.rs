//! Where entropy comes from.
//!
//! Every operation that needs entropy takes its source as an argument, so
//! that a run can be reproduced by handing in a source with a fixed output.

use vstd::prelude::*;
use crate::bytes::zeros;

verus! {

/// A source of random 32-byte words. Nothing is promised of a word drawn:
/// what is built on one holds for every value of it.
pub trait RandomnessSource {
    /// Draws the next word.
    fn next_word(&mut self) -> [u8; 32];
}

/// A source with a fixed output: it hands out the words it was made with,
/// in order, and starts over after the last. With no words it hands out
/// zero words.
#[derive(Debug)]
pub struct FixedRandomness {
    words: Vec<[u8; 32]>,
    cursor: usize,
}

impl FixedRandomness {
    /// The words this source cycles through.
    pub closed spec fn words(&self) -> Seq<[u8; 32]> {
        self.words@
    }

    /// The index of the word that comes next.
    pub closed spec fn cursor(&self) -> nat {
        self.cursor as nat
    }

    /// The word that the next draw returns.
    pub open spec fn upcoming(&self) -> Seq<u8> {
        if self.cursor() < self.words().len() {
            self.words()[self.cursor() as int]@
        } else {
            zeros(32)
        }
    }

    /// The cursor after the next draw.
    pub open spec fn cursor_after_draw(&self) -> nat {
        if self.cursor() + 1 < self.words().len() {
            self.cursor() + 1
        } else {
            0
        }
    }

    /// A source that cycles through `words`, starting at the first.
    pub fn new(words: Vec<[u8; 32]>) -> (source: FixedRandomness)
        ensures
            source.words() == words@,
            source.cursor() == 0,
    {
        FixedRandomness { words, cursor: 0 }
    }
}

impl RandomnessSource for FixedRandomness {
    /// Hands out the word under the cursor and moves the cursor on.
    fn next_word(&mut self) -> (word: [u8; 32])
        ensures
            word@ == old(self).upcoming(),
            final(self).words() == old(self).words(),
            final(self).cursor() == old(self).cursor_after_draw(),
    {
        let word = if self.cursor < self.words.len() {
            self.words[self.cursor]
        } else {
            [0u8; 32]
        };
        assert(word@ =~= old(self).upcoming());
        if self.cursor < self.words.len() && self.cursor + 1 < self.words.len() {
            self.cursor = self.cursor + 1;
        } else {
            self.cursor = 0;
        }
        word
    }
}

} // verus!
