//! The keyboard feedback tracker: one entry per letter in QWERTY order, each
//! holding the classification it was last marked with.  Marking overwrites
//! unconditionally, so a later mark may replace an earlier, higher-precedence
//! one; this matches the tracker's observable behaviour.

use crate::evaluator::Match;
use vstd::prelude::*;

verus! {

/// The letters of the keyboard diagram, in QWERTY order.
pub open spec fn qwerty() -> Seq<char> {
    "qwertyuiopasdfghjklzxcvbnm"@
}

/// A fresh keyboard: every letter unmarked.
pub open spec fn init_keys() -> Seq<(char, Option<Match>)> {
    qwerty().map_values(|c: char| (c, Option::<Match>::None))
}

/// The keyboard after `letter` is marked with `mark`: the first entry for
/// that letter is overwritten; a character with no entry changes nothing.
pub open spec fn apply_mark(
    kb: Seq<(char, Option<Match>)>,
    letter: char,
    mark: Match,
) -> Seq<(char, Option<Match>)> {
    let keys = kb.map_values(|e: (char, Option<Match>)| e.0);
    match keys.index_of_first(letter) {
        Some(j) => kb.update(j, (letter, Some(mark))),
        None => kb,
    }
}

/// The keyboard after the first `upto` letters of a guess are marked in
/// order, each with its classification.
pub open spec fn mark_word(
    kb: Seq<(char, Option<Match>)>,
    word: Seq<char>,
    marks: Seq<Match>,
    upto: int,
) -> Seq<(char, Option<Match>)>
    decreases upto,
{
    if upto <= 0 {
        kb
    } else {
        apply_mark(mark_word(kb, word, marks, upto - 1), word[upto - 1], marks[upto - 1])
    }
}

/// Marking never changes which letter an entry is for, nor the length.
pub proof fn lemma_apply_mark_keys(kb: Seq<(char, Option<Match>)>, letter: char, mark: Match)
    ensures
        apply_mark(kb, letter, mark).len() == kb.len(),
        forall|i: int|
            0 <= i < kb.len() ==> #[trigger] apply_mark(kb, letter, mark)[i].0 == kb[i].0,
{
    let keys = kb.map_values(|e: (char, Option<Match>)| e.0);
    keys.index_of_first_ensures(letter);
}

/// Marking a whole guess never changes which letter an entry is for.
pub proof fn lemma_mark_word_keys(
    kb: Seq<(char, Option<Match>)>,
    word: Seq<char>,
    marks: Seq<Match>,
    upto: int,
)
    ensures
        mark_word(kb, word, marks, upto).len() == kb.len(),
        forall|i: int|
            0 <= i < kb.len() ==> #[trigger] mark_word(kb, word, marks, upto)[i].0 == kb[i].0,
    decreases upto,
{
    if upto > 0 {
        lemma_mark_word_keys(kb, word, marks, upto - 1);
        lemma_apply_mark_keys(mark_word(kb, word, marks, upto - 1), word[upto - 1], marks[upto - 1]);
    }
}

/// The on-screen keyboard state: each letter with its last-seen
/// classification, if any.
pub struct Keyboard(Vec<(char, Option<Match>)>);

impl View for Keyboard {
    type V = Seq<(char, Option<Match>)>;

    closed spec fn view(&self) -> Seq<(char, Option<Match>)> {
        self.0@
    }
}

impl Keyboard {
    /// A fresh keyboard: the 26 letters in QWERTY order, all unmarked.
    pub fn new() -> (r: Keyboard)
        ensures
            r@ == init_keys(),
            r@.len() == 26,
    {
        let letters = "qwertyuiopasdfghjklzxcvbnm";
        proof {
            reveal_strlit("qwertyuiopasdfghjklzxcvbnm");
        }
        let mut keyboard: Vec<(char, Option<Match>)> = Vec::with_capacity(26);
        let mut i: usize = 0;
        while i < 26
            invariant
                i <= 26,
                letters@ == qwerty(),
                qwerty().len() == 26,
                keyboard@ =~= init_keys().take(i as int),
            decreases 26 - i,
        {
            keyboard.push((letters.get_char(i), None));
            proof {
                assert(keyboard@ =~= init_keys().take(i + 1));
            }
            i += 1;
        }
        proof {
            assert(keyboard@ =~= init_keys());
        }
        Keyboard(keyboard)
    }

    /// Record `mark` for `letter`: the first entry for that letter is
    /// overwritten with the new classification; a character with no entry
    /// (not a keyboard letter) changes nothing.
    pub fn mark_letter(&mut self, letter: char, mark: Match)
        ensures
            final(self)@ == apply_mark(old(self)@, letter, mark),
    {
        let ghost keys = self@.map_values(|e: (char, Option<Match>)| e.0);
        let n = self.0.len();
        let mut i: usize = 0;
        while i < n
            invariant
                i <= n,
                n == self.0@.len(),
                self.0@ == old(self)@,
                keys == old(self)@.map_values(|e: (char, Option<Match>)| e.0),
                forall|k: int| 0 <= k < i ==> keys[k] != letter,
            decreases n - i,
        {
            if self.0[i].0 == letter {
                proof {
                    assert(keys[i as int] == letter);
                    keys.index_of_first_ensures(letter);
                }
                self.0[i] = (letter, Some(mark));
                return ;
            }
            i += 1;
        }
        proof {
            assert(!keys.contains(letter));
            keys.index_of_first_ensures(letter);
        }
    }
}

impl Default for Keyboard {
    /// Same as `Keyboard::new`: a fresh, unmarked keyboard.
    fn default() -> (r: Keyboard)
        ensures
            r@ == init_keys(),
    {
        Keyboard::new()
    }
}

/// The entries of one row of the keyboard diagram: the top row holds the
/// first ten letters, the middle row the next nine, the bottom row the last
/// seven.
pub fn print_row(keyboard: &Keyboard, row: usize) -> (cells: Vec<(char, Option<Match>)>)
    requires
        keyboard@.len() == 26,
        row < 3,
    ensures
        cells@ == (if row == 0 {
            keyboard@.subrange(0, 10)
        } else if row == 1 {
            keyboard@.subrange(10, 19)
        } else {
            keyboard@.subrange(19, 26)
        }),
{
    let (lo, hi): (usize, usize) = if row == 0 {
        (0, 10)
    } else if row == 1 {
        (10, 19)
    } else {
        (19, 26)
    };
    let mut cells: Vec<(char, Option<Match>)> = Vec::new();
    let mut i: usize = lo;
    while i < hi
        invariant
            lo <= i <= hi,
            hi <= keyboard@.len(),
            cells@ =~= keyboard@.subrange(lo as int, i as int),
        decreases hi - i,
    {
        cells.push(keyboard.0[i]);
        proof {
            assert(cells@ =~= keyboard@.subrange(lo as int, i + 1));
        }
        i += 1;
    }
    cells
}

} // verus!
