//! The round state machine: the secret word, the submitted guesses with
//! their classifications, the in-progress guess, and the keyboard tracker.
//! A round is won when the last submitted guess is classified all `Correct`,
//! and lost when six guesses are submitted without a win.

use crate::evaluator::all_correct;
use crate::evaluator::check_word;
use crate::evaluator::is_lower;
use crate::evaluator::spec_check_word;
use crate::evaluator::wf_word;
use crate::evaluator::Match;
use crate::keyboard::init_keys;
use crate::keyboard::lemma_mark_word_keys;
use crate::keyboard::mark_word;
use crate::keyboard::qwerty;
use crate::keyboard::Keyboard;
use crate::words::is_valid_word;
use crate::words::WordList;
use vstd::prelude::*;

verus! {

/// What submitting the in-progress guess led to.
#[derive(Clone, Copy, Debug, PartialEq, Eq, Structural)]
pub enum GuessOutcome {
    /// The round was over, or the guess was shorter than five letters: no-op.
    Ignored,
    /// The guess is not in the acceptable set: nothing recorded, the guess
    /// stays in place for correction.
    Rejected,
    /// The guess was recorded and the round goes on.
    Continue,
    /// The guess was recorded and matched the secret word.
    Win,
    /// The guess was recorded as the sixth miss.
    Loose,
}

/// What the session loop should do after one input event.
#[derive(Clone, Copy, Debug, PartialEq, Eq, Structural)]
pub enum StepOutcome {
    /// End the session.
    Quit,
    /// Redraw and keep playing.
    Continue,
    /// The submitted word is not acceptable: show the rejection flash.
    Rejected,
    /// The round ended: show the end-of-round prompt.
    RoundOver,
}

/// One keystroke, as the round state machine sees it.
#[derive(Clone, Copy, Debug, PartialEq, Eq, Structural)]
pub enum KeyInput {
    /// The session-wide quit signal.
    CtrlC,
    /// A printable character.
    Letter(char),
    Backspace,
    Enter,
}

/// A round of the game.
pub struct Game {
    secret_word: String,
    guesses: Vec<(String, Vec<Match>)>,
    guess: String,
    keyboard: Keyboard,
    words: WordList,
}

impl Game {
    /// The secret word of this round.
    pub closed spec fn secret(self) -> Seq<char> {
        self.secret_word@
    }

    /// The submitted guesses in order, each with its classification.
    pub closed spec fn history(self) -> Seq<(Seq<char>, Seq<Match>)> {
        self.guesses@.map_values(|g: (String, Vec<Match>)| (g.0@, g.1@))
    }

    /// The in-progress guess.
    pub closed spec fn current(self) -> Seq<char> {
        self.guess@
    }

    /// The keyboard tracker's state.
    pub closed spec fn keyboard_view(self) -> Seq<(char, Option<Match>)> {
        self.keyboard@
    }

    /// The word repository of the session.
    pub closed spec fn word_list(self) -> WordList {
        self.words
    }

    /// Whether a word is an acceptable guess for this game.
    pub open spec fn acceptable(self, w: Seq<char>) -> bool {
        self.word_list().secrets().contains(w) || self.word_list().acceptables().contains(w)
    }

    /// The round invariant: the secret word comes from the repository, the
    /// in-progress guess has at most five lowercase letters, at most six
    /// guesses are recorded, each recorded guess is five lowercase letters
    /// classified by the evaluator, no guess before the last one was a win,
    /// and the keyboard holds the 26 letters in QWERTY order.
    pub open spec fn wf(self) -> bool {
        &&& self.word_list().wf()
        &&& wf_word(self.secret())
        &&& self.word_list().secrets().contains(self.secret())
        &&& self.current().len() <= 5
        &&& forall|i: int| 0 <= i < self.current().len() ==> is_lower(#[trigger] self.current()[i])
        &&& self.history().len() <= 6
        &&& forall|i: int|
            0 <= i < self.history().len() ==> wf_word(#[trigger] self.history()[i].0)
        &&& forall|i: int|
            0 <= i < self.history().len() ==> (#[trigger] self.history()[i]).1 == spec_check_word(
                self.secret(),
                self.history()[i].0,
            )
        &&& forall|i: int|
            0 <= i < self.history().len() - 1 ==> !all_correct(#[trigger] self.history()[i].1)
        &&& self.keyboard_view().len() == 26
        &&& forall|i: int|
            0 <= i < 26 ==> (#[trigger] self.keyboard_view()[i]).0 == qwerty()[i]
    }

    /// The round is won: the last submitted guess matched the secret word.
    pub open spec fn spec_won(self) -> bool {
        self.history().len() > 0 && all_correct(self.history().last().1)
    }

    /// The round is lost: six guesses were submitted and the last one (hence,
    /// under the invariant, every one) missed.
    pub open spec fn spec_lost(self) -> bool {
        self.history().len() >= 6 && !(self.history().len() > 0 && all_correct(
            self.history().last().1,
        ))
    }

    /// The round still accepts input.
    pub open spec fn spec_playing(self) -> bool {
        !self.spec_won() && !self.spec_lost()
    }

    /// Start a game: draw a random secret word from the repository, with no
    /// guesses yet and a fresh keyboard.
    pub fn new(words: WordList) -> (g: Game)
        requires
            words.wf(),
        ensures
            g.wf(),
            g.word_list() == words,
            g.history().len() == 0,
            g.current().len() == 0,
            g.keyboard_view() == init_keys(),
            words.secrets().contains(g.secret()),
            g.spec_playing(),
    {
        let secret_word = words.random_secret();
        proof {
            reveal_strlit("qwertyuiopasdfghjklzxcvbnm");
        }
        Game {
            secret_word,
            guesses: Vec::new(),
            guess: String::new(),
            keyboard: Keyboard::new(),
            words,
        }
    }

    /// The round is won.
    pub fn is_win(&self) -> (r: bool)
        requires
            self.wf(),
        ensures
            r == self.spec_won(),
    {
        if self.guesses.len() == 0 {
            return false;
        }
        let last: &(String, Vec<Match>) = &self.guesses[self.guesses.len() - 1];
        crate::evaluator::all_marks_correct(&last.1) && self.guesses.len() <= 6
    }

    /// The round is lost.
    pub fn is_loose(&self) -> (r: bool)
        requires
            self.wf(),
        ensures
            r == self.spec_lost(),
    {
        if self.guesses.len() == 0 {
            return false;
        }
        let last: &(String, Vec<Match>) = &self.guesses[self.guesses.len() - 1];
        !crate::evaluator::all_marks_correct(&last.1) && self.guesses.len() >= 6
    }

    /// A round that meets the invariant is never both won and lost.
    pub proof fn lemma_not_both_won_and_lost(self)
        requires
            self.wf(),
        ensures
            !(self.spec_won() && self.spec_lost()),
    {
    }

    /// A won round's last guess is the secret word itself: the evaluator
    /// grants an all-`Correct` classification to nothing else.
    pub proof fn lemma_won_round_guessed_the_secret(self)
        requires
            self.wf(),
            self.spec_won(),
        ensures
            self.history().last().0 == self.secret(),
    {
        let last = self.history().last();
        assert(last == self.history()[self.history().len() - 1]);
        crate::evaluator::lemma_win_is_exact(self.secret(), last.0);
    }

    /// Append a typed letter to the in-progress guess; a no-op unless the
    /// round is still playing, the guess is shorter than five letters and
    /// the character is a lowercase letter.
    pub fn type_letter(&mut self, c: char)
        requires
            old(self).wf(),
        ensures
            final(self).wf(),
            type_letter_post(*old(self), *final(self), c),
    {
        let playing = !self.is_win() && !self.is_loose();
        if playing && self.guess.as_str().unicode_len() < 5 && 'a' <= c && c <= 'z' {
            push_char(&mut self.guess, c);
        }
    }

    /// Remove the last letter of the in-progress guess; a no-op when the
    /// round is over or the guess is empty.
    pub fn backspace(&mut self)
        requires
            old(self).wf(),
        ensures
            final(self).wf(),
            backspace_post(*old(self), *final(self)),
    {
        let playing = !self.is_win() && !self.is_loose();
        if playing && self.guess.as_str().unicode_len() > 0 {
            pop_char(&mut self.guess);
            proof {
                assert(self.guess@ =~= old(self).guess@.drop_last());
            }
        }
    }

    /// Submit the in-progress guess.  Ignored unless the round is playing
    /// and the guess has five letters; rejected, leaving all state in place,
    /// when the word is not acceptable; otherwise the guess is classified,
    /// recorded, fed to the keyboard tracker and cleared, and the round ends
    /// in a win on an all-`Correct` classification, in a loss on the sixth
    /// miss, and goes on otherwise.
    pub fn guess(&mut self) -> (r: GuessOutcome)
        requires
            old(self).wf(),
        ensures
            final(self).wf(),
            submit_post(*old(self), *final(self), r),
            r == GuessOutcome::Win ==> final(self).spec_won(),
            r == GuessOutcome::Loose ==> final(self).spec_lost(),
            r == GuessOutcome::Continue ==> final(self).spec_playing(),
            r == GuessOutcome::Ignored || r == GuessOutcome::Rejected ==> *final(self) == *old(
                self,
            ),
    {
        let playing = !self.is_win() && !self.is_loose();
        if !(playing && self.guess.as_str().unicode_len() == 5) {
            return GuessOutcome::Ignored;
        }
        if !is_valid_word(&self.words, self.guess.as_str()) {
            return GuessOutcome::Rejected;
        }
        let matches_ = check_word(self.secret_word.as_str(), self.guess.as_str());
        let ghost kb0 = self.keyboard@;
        let ghost w = self.guess@;
        let ghost marks = matches_@;
        let mut i: usize = 0;
        while i < 5
            invariant
                i <= 5,
                w.len() == 5,
                marks.len() == 5,
                self.guess@ == w,
                matches_@ == marks,
                self.secret_word == old(self).secret_word,
                self.guesses == old(self).guesses,
                self.words == old(self).words,
                self.keyboard@ == mark_word(kb0, w, marks, i as int),
            decreases 5 - i,
        {
            let c = self.guess.as_str().get_char(i);
            self.keyboard.mark_letter(c, matches_[i]);
            proof {
                assert(self.keyboard@ == mark_word(kb0, w, marks, i + 1));
            }
            i += 1;
        }
        let word = self.guess.clone();
        self.guess = String::new();
        self.guesses.push((word, matches_));
        proof {
            lemma_mark_word_keys(kb0, w, marks, 5);
            assert(self.history() =~= old(self).history().push((w, marks)));
            assert(old(self).history().len() <= 5) by {
                if old(self).history().len() == 6 {
                    assert(old(self).spec_won() || old(self).spec_lost());
                }
            }
        }
        if self.is_win() {
            GuessOutcome::Win
        } else if self.is_loose() {
            GuessOutcome::Loose
        } else {
            GuessOutcome::Continue
        }
    }

    /// Start a fresh round: clear the guesses and the in-progress guess,
    /// reset the keyboard, and draw a new random secret word.
    pub fn start_new_round(&mut self)
        requires
            old(self).wf(),
        ensures
            final(self).wf(),
            final(self).word_list() == old(self).word_list(),
            final(self).history().len() == 0,
            final(self).current().len() == 0,
            final(self).keyboard_view() == init_keys(),
            old(self).word_list().secrets().contains(final(self).secret()),
            final(self).spec_playing(),
    {
        self.guess = String::new();
        self.guesses = Vec::new();
        self.secret_word = self.words.random_secret();
        self.keyboard = Keyboard::new();
        proof {
            reveal_strlit("qwertyuiopasdfghjklzxcvbnm");
            assert(self.history() =~= Seq::<(Seq<char>, Seq<Match>)>::empty());
        }
    }

    /// One step of the session loop: map a keystroke to a transition of the
    /// round and say what the loop should do next.
    pub fn handle_key(&mut self, key: KeyInput) -> (r: StepOutcome)
        requires
            old(self).wf(),
        ensures
            final(self).wf(),
            match key {
                KeyInput::CtrlC => r == StepOutcome::Quit && *final(self) == *old(self),
                KeyInput::Letter(c) => r == StepOutcome::Continue && type_letter_post(
                    *old(self),
                    *final(self),
                    c,
                ),
                KeyInput::Backspace => r == StepOutcome::Continue && backspace_post(
                    *old(self),
                    *final(self),
                ),
                KeyInput::Enter => {
                    &&& r != StepOutcome::Quit
                    &&& (r == StepOutcome::Rejected ==> submit_post(
                        *old(self),
                        *final(self),
                        GuessOutcome::Rejected,
                    ))
                    &&& (r == StepOutcome::RoundOver ==> (submit_post(
                        *old(self),
                        *final(self),
                        GuessOutcome::Win,
                    ) || submit_post(*old(self), *final(self), GuessOutcome::Loose))
                        && !final(self).spec_playing())
                    &&& (r == StepOutcome::Continue ==> (submit_post(
                        *old(self),
                        *final(self),
                        GuessOutcome::Ignored,
                    ) || submit_post(*old(self), *final(self), GuessOutcome::Continue)))
                },
            },
    {
        match key {
            KeyInput::CtrlC => StepOutcome::Quit,
            KeyInput::Letter(c) => {
                self.type_letter(c);
                StepOutcome::Continue
            },
            KeyInput::Backspace => {
                self.backspace();
                StepOutcome::Continue
            },
            KeyInput::Enter => {
                match self.guess() {
                    GuessOutcome::Win => StepOutcome::RoundOver,
                    GuessOutcome::Loose => StepOutcome::RoundOver,
                    GuessOutcome::Rejected => StepOutcome::Rejected,
                    GuessOutcome::Ignored => StepOutcome::Continue,
                    GuessOutcome::Continue => StepOutcome::Continue,
                }
            },
        }
    }

    /// The secret word, for the end-of-round reveal.
    pub fn secret_word(&self) -> (r: &String)
        ensures
            r@ == self.secret(),
    {
        &self.secret_word
    }

    /// The submitted guesses in order, for rendering the grid.
    pub fn guesses(&self) -> (r: &Vec<(String, Vec<Match>)>)
        ensures
            r@.len() == self.history().len(),
            forall|i: int|
                0 <= i < r@.len() ==> (#[trigger] r@[i]).0@ == self.history()[i].0 && r@[i].1@
                    == self.history()[i].1,
    {
        &self.guesses
    }

    /// The in-progress guess, for rendering the input row.
    pub fn current_guess(&self) -> (r: &String)
        ensures
            r@ == self.current(),
    {
        &self.guess
    }

    /// The keyboard tracker, for rendering the keyboard diagram.
    pub fn keyboard(&self) -> (r: &Keyboard)
        ensures
            r@ == self.keyboard_view(),
    {
        &self.keyboard
    }
}

/// How `type_letter(c)` relates the round before and after: the letter is
/// appended when the round is playing, the guess is short and the character
/// is a lowercase letter; otherwise nothing changes.
pub open spec fn type_letter_post(pre: Game, post: Game, c: char) -> bool {
    if pre.spec_playing() && pre.current().len() < 5 && is_lower(c) {
        &&& post.secret() == pre.secret()
        &&& post.word_list() == pre.word_list()
        &&& post.history() == pre.history()
        &&& post.keyboard_view() == pre.keyboard_view()
        &&& post.current() == pre.current().push(c)
    } else {
        post == pre
    }
}

/// How `backspace()` relates the round before and after: the last letter is
/// removed when the round is playing and the guess is non-empty; otherwise
/// nothing changes.
pub open spec fn backspace_post(pre: Game, post: Game) -> bool {
    if pre.spec_playing() && pre.current().len() > 0 {
        &&& post.secret() == pre.secret()
        &&& post.word_list() == pre.word_list()
        &&& post.history() == pre.history()
        &&& post.keyboard_view() == pre.keyboard_view()
        &&& post.current() == pre.current().drop_last()
    } else {
        post == pre
    }
}

/// How `guess()` relates the round before and after, and which outcome it
/// reports: ignored (unchanged) when not playing or the guess is short;
/// rejected (unchanged) when the word is not acceptable; otherwise the guess
/// is recorded with its classification, the keyboard is marked letter by
/// letter, the in-progress guess is cleared, and the outcome is a win on an
/// all-`Correct` classification, a loss on the sixth miss, and a plain
/// continue otherwise.
pub open spec fn submit_post(pre: Game, post: Game, r: GuessOutcome) -> bool {
    if !(pre.spec_playing() && pre.current().len() == 5) {
        post == pre && r == GuessOutcome::Ignored
    } else if !pre.acceptable(pre.current()) {
        post == pre && r == GuessOutcome::Rejected
    } else {
        let marks = spec_check_word(pre.secret(), pre.current());
        &&& post.secret() == pre.secret()
        &&& post.word_list() == pre.word_list()
        &&& post.history() == pre.history().push((pre.current(), marks))
        &&& post.current().len() == 0
        &&& post.keyboard_view() == mark_word(pre.keyboard_view(), pre.current(), marks, 5)
        &&& r == (if all_correct(marks) {
            GuessOutcome::Win
        } else if pre.history().len() == 5 {
            GuessOutcome::Loose
        } else {
            GuessOutcome::Continue
        })
    }
}

/// The replay decision of the end-of-round prompt: `y` starts a new round,
/// `n` ends the session, anything else keeps asking.
pub fn replay_choice(c: char) -> (r: Option<bool>)
    ensures
        r == (if c == 'y' {
            Some(true)
        } else if c == 'n' {
            Some(false)
        } else {
            None::<bool>
        }),
{
    if c == 'y' {
        Some(true)
    } else if c == 'n' {
        Some(false)
    } else {
        None
    }
}

/// Relies on `String::push`: appends the character to the end of the string.
#[verifier::external_body]
fn push_char(s: &mut String, c: char)
    ensures
        final(s)@ == old(s)@.push(c),
{
    s.push(c)
}

/// Relies on `String::pop`: removes the last character and returns it, or
/// returns `None` leaving the string unchanged when it is empty.
#[verifier::external_body]
fn pop_char(s: &mut String) -> (r: Option<char>)
    ensures
        old(s)@.len() == 0 ==> final(s)@ == old(s)@ && r is None,
        old(s)@.len() > 0 ==> final(s)@ == old(s)@.drop_last() && r == Some(old(s)@.last()),
{
    s.pop()
}

} // verus!
