//! The word repository: the set of valid secret words, the larger set of
//! additionally acceptable guesses, and random selection of a secret word.

use crate::evaluator::is_lower;
use crate::evaluator::wf_word;
use vstd::prelude::*;

verus! {

/// The immutable word lists of a session: the words a secret may be drawn
/// from, and the further words accepted as guesses.
pub struct WordList {
    words: Vec<String>,
    acceptable: Vec<String>,
}

impl WordList {
    /// The words a secret word may be drawn from.
    pub closed spec fn secrets(self) -> Seq<Seq<char>> {
        self.words@.map_values(|w: String| w@)
    }

    /// The words accepted as guesses beyond the secret-word set.
    pub closed spec fn acceptables(self) -> Seq<Seq<char>> {
        self.acceptable@.map_values(|w: String| w@)
    }

    /// A usable repository: non-empty, and every word is five lowercase
    /// letters.
    pub open spec fn wf(self) -> bool {
        &&& self.secrets().len() > 0
        &&& forall|i: int| 0 <= i < self.secrets().len() ==> wf_word(#[trigger] self.secrets()[i])
        &&& forall|i: int|
            0 <= i < self.acceptables().len() ==> wf_word(#[trigger] self.acceptables()[i])
    }

    /// Build a repository from the two lists, checking that the secret list
    /// is non-empty and that every word is five lowercase letters.
    pub fn new(words: Vec<String>, acceptable: Vec<String>) -> (r: Option<WordList>)
        ensures
            match r {
                Some(l) => {
                    &&& l.wf()
                    &&& l.secrets() == words@.map_values(|w: String| w@)
                    &&& l.acceptables() == acceptable@.map_values(|w: String| w@)
                },
                None => {
                    ||| words@.len() == 0
                    ||| exists|i: int|
                        0 <= i < words@.len() && !wf_word(#[trigger] words@[i]@)
                    ||| exists|i: int|
                        0 <= i < acceptable@.len() && !wf_word(#[trigger] acceptable@[i]@)
                },
            },
    {
        if words.len() == 0 {
            return None;
        }
        if !all_wf_words(&words) || !all_wf_words(&acceptable) {
            return None;
        }
        Some(WordList { words, acceptable })
    }

    /// A uniformly random word of the secret-word set.
    pub fn random_secret(&self) -> (r: String)
        requires
            self.wf(),
        ensures
            self.secrets().contains(r@),
            wf_word(r@),
    {
        let i = random_index(self.words.len());
        let w = self.words[i].clone();
        proof {
            assert(self.secrets()[i as int] == w@);
        }
        w
    }
}

/// Relies on rand's `Rng::gen_range` over `0..n`, driven by `thread_rng`:
/// a uniformly random index strictly below `n`.  The range is non-empty, so
/// the call does not panic; nothing more can be promised of a random value.
#[verifier::external_body]
fn random_index(n: usize) -> (r: usize)
    requires
        n > 0,
    ensures
        r < n,
{
    rand::Rng::gen_range(&mut rand::thread_rng(), 0..n)
}

/// Character-wise string equality.
pub fn str_eq(a: &str, b: &str) -> (r: bool)
    ensures
        r == (a@ == b@),
{
    let la = a.unicode_len();
    let lb = b.unicode_len();
    if la != lb {
        return false;
    }
    let mut i: usize = 0;
    while i < la
        invariant
            i <= la,
            la == a@.len(),
            la == b@.len(),
            forall|k: int| 0 <= k < i ==> a@[k] == b@[k],
        decreases la - i,
    {
        if a.get_char(i) != b.get_char(i) {
            return false;
        }
        i += 1;
    }
    proof {
        assert(a@ =~= b@);
    }
    true
}

/// Whether every word of the list is five lowercase letters.
fn all_wf_words(list: &Vec<String>) -> (r: bool)
    ensures
        r == (forall|i: int| 0 <= i < list@.len() ==> wf_word(#[trigger] list@[i]@)),
{
    let mut i: usize = 0;
    while i < list.len()
        invariant
            i <= list@.len(),
            forall|k: int| 0 <= k < i ==> wf_word(#[trigger] list@[k]@),
        decreases list@.len() - i,
    {
        if !is_wf_word(list[i].as_str()) {
            return false;
        }
        i += 1;
    }
    true
}

/// Whether the word is exactly five lowercase ASCII letters.
pub fn is_wf_word(w: &str) -> (r: bool)
    ensures
        r == wf_word(w@),
{
    if w.unicode_len() != 5 {
        return false;
    }
    let mut i: usize = 0;
    while i < 5
        invariant
            i <= 5,
            w@.len() == 5,
            forall|k: int| 0 <= k < i ==> is_lower(#[trigger] w@[k]),
        decreases 5 - i,
    {
        let c = w.get_char(i);
        if !(('a' <= c) && (c <= 'z')) {
            return false;
        }
        i += 1;
    }
    true
}

/// Whether the word stands in the repository's acceptable set: the secret
/// words or the further acceptable guesses.
pub fn is_valid_word(list: &WordList, word: &str) -> (r: bool)
    ensures
        r == (list.secrets().contains(word@) || list.acceptables().contains(word@)),
{
    contains_word(&list.words, word) || contains_word(&list.acceptable, word)
}

/// Whether `word` occurs in `list`, compared character-wise.
fn contains_word(list: &Vec<String>, word: &str) -> (r: bool)
    ensures
        r == list@.map_values(|w: String| w@).contains(word@),
{
    let ghost views = list@.map_values(|w: String| w@);
    let mut i: usize = 0;
    while i < list.len()
        invariant
            i <= list@.len(),
            views == list@.map_values(|w: String| w@),
            forall|k: int| 0 <= k < i ==> views[k] != word@,
        decreases list@.len() - i,
    {
        if str_eq(list[i].as_str(), word) {
            proof {
                assert(views[i as int] == word@);
            }
            return true;
        }
        i += 1;
    }
    proof {
        assert(!views.contains(word@));
    }
    false
}

} // verus!
