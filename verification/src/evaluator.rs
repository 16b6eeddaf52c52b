//! The match evaluator: classifies each letter of a guess against the
//! secret word, handling duplicate letters with a two-pass consumption rule.
//!
//! Pass one marks every index-wise exact match as `Correct` and consumes the
//! matched secret letter.  Pass two walks the remaining indices in order and
//! marks a letter `Misplaced` if it still occurs among the unconsumed secret
//! letters, consuming the first such occurrence; everything else stays
//! `Incorrect`.

use vstd::prelude::*;

verus! {

/// Per-letter feedback for a submitted guess.
#[derive(Clone, Copy, Debug, PartialEq, Eq, Structural)]
pub enum Match {
    Correct,
    Misplaced,
    Incorrect,
}

/// A lowercase ASCII letter.
pub open spec fn is_lower(c: char) -> bool {
    'a' <= c && c <= 'z'
}

/// A well-formed word: exactly five lowercase ASCII letters.
pub open spec fn wf_word(s: Seq<char>) -> bool {
    &&& s.len() == 5
    &&& forall|i: int| 0 <= i < s.len() ==> is_lower(#[trigger] s[i])
}

/// Every mark is `Correct`: a winning guess.
pub open spec fn all_correct(marks: Seq<Match>) -> bool {
    forall|i: int| 0 <= i < marks.len() ==> marks[i] == Match::Correct
}

/// Marks after the first pass: `Correct` exactly at the index-wise matches.
pub open spec fn pass1_marks(secret: Seq<char>, guess: Seq<char>) -> Seq<Match> {
    Seq::new(guess.len(), |i: int| if guess[i] == secret[i] {
        Match::Correct
    } else {
        Match::Incorrect
    })
}

/// Secret letters left after the first pass: exact matches are replaced by a
/// placeholder that is not a letter, so they cannot be matched again.
pub open spec fn pass1_remaining(secret: Seq<char>, guess: Seq<char>) -> Seq<char> {
    Seq::new(secret.len(), |i: int| if guess[i] == secret[i] {
        '\0'
    } else {
        secret[i]
    })
}

/// The second pass, processing guess positions `i..` in order: an index still
/// marked `Incorrect` whose letter occurs among the remaining secret letters
/// becomes `Misplaced` and consumes the first such occurrence.
pub open spec fn pass2(guess: Seq<char>, marks: Seq<Match>, rem: Seq<char>, i: nat) -> (Seq<
    Match,
>, Seq<char>)
    decreases guess.len() - i,
{
    if i >= guess.len() {
        (marks, rem)
    } else if marks[i as int] != Match::Incorrect {
        pass2(guess, marks, rem, i + 1)
    } else {
        match rem.index_of_first(guess[i as int]) {
            Some(j) => pass2(
                guess,
                marks.update(i as int, Match::Misplaced),
                rem.update(j, '\0'),
                i + 1,
            ),
            None => pass2(guess, marks, rem, i + 1),
        }
    }
}

/// The classification of `guess` against `secret`: both passes, in order.
pub open spec fn spec_check_word(secret: Seq<char>, guess: Seq<char>) -> Seq<Match> {
    pass2(guess, pass1_marks(secret, guess), pass1_remaining(secret, guess), 0).0
}

/// How many of the first `upto` letters of `s` are `c`.
pub open spec fn count_char(s: Seq<char>, c: char, upto: int) -> nat
    decreases upto,
{
    if upto <= 0 {
        0
    } else {
        count_char(s, c, upto - 1) + (if s[upto - 1] == c {
            1nat
        } else {
            0nat
        })
    }
}

/// How many of the first `upto` indices are index-wise exact matches.
pub open spec fn count_exact(secret: Seq<char>, guess: Seq<char>, upto: int) -> nat
    decreases upto,
{
    if upto <= 0 {
        0
    } else {
        count_exact(secret, guess, upto - 1) + (if guess[upto - 1] == secret[upto - 1] {
            1nat
        } else {
            0nat
        })
    }
}

/// How many of the first `upto` marks equal `m`.
pub open spec fn count_mark(marks: Seq<Match>, m: Match, upto: int) -> nat
    decreases upto,
{
    if upto <= 0 {
        0
    } else {
        count_mark(marks, m, upto - 1) + (if marks[upto - 1] == m {
            1nat
        } else {
            0nat
        })
    }
}

/// How many of the first `upto` guess positions hold the letter `c` and are
/// classified as a match (`Correct` or `Misplaced`).
pub open spec fn count_hits(marks: Seq<Match>, guess: Seq<char>, c: char, upto: int) -> nat
    decreases upto,
{
    if upto <= 0 {
        0
    } else {
        count_hits(marks, guess, c, upto - 1) + (if guess[upto - 1] == c && marks[upto - 1]
            != Match::Incorrect {
            1nat
        } else {
            0nat
        })
    }
}

proof fn lemma_count_char_update(s: Seq<char>, c: char, j: int, x: char, upto: int)
    requires
        0 <= j < s.len(),
        upto <= s.len(),
    ensures
        count_char(s.update(j, x), c, upto) as int == count_char(s, c, upto) as int + (if j < upto
            && x == c {
            1int
        } else {
            0int
        }) - (if j < upto && s[j] == c {
            1int
        } else {
            0int
        }),
    decreases upto,
{
    if upto > 0 {
        lemma_count_char_update(s, c, j, x, upto - 1);
    }
}

proof fn lemma_count_hits_update(marks: Seq<Match>, guess: Seq<char>, c: char, i: int, m: Match, upto: int)
    requires
        0 <= i < marks.len(),
        upto <= marks.len(),
    ensures
        count_hits(marks.update(i, m), guess, c, upto) as int == count_hits(marks, guess, c, upto)
            as int + (if i < upto && guess[i] == c && m != Match::Incorrect {
            1int
        } else {
            0int
        }) - (if i < upto && guess[i] == c && marks[i] != Match::Incorrect {
            1int
        } else {
            0int
        }),
    decreases upto,
{
    if upto > 0 {
        lemma_count_hits_update(marks, guess, c, i, m, upto - 1);
    }
}

/// Sequences whose marks agree on membership in `m` have equal counts of `m`.
proof fn lemma_count_mark_equiv(m1: Seq<Match>, m2: Seq<Match>, m: Match, upto: int)
    requires
        m1.len() == m2.len(),
        upto <= m1.len(),
        forall|j: int| 0 <= j < m1.len() ==> ((m1[j] == m) <==> (m2[j] == m)),
    ensures
        count_mark(m1, m, upto) == count_mark(m2, m, upto),
    decreases upto,
{
    if upto > 0 {
        lemma_count_mark_equiv(m1, m2, m, upto - 1);
    }
}

/// After the first pass, `Correct` marks count exactly the exact matches.
proof fn lemma_pass1_correct_count(secret: Seq<char>, guess: Seq<char>, upto: int)
    requires
        upto <= guess.len(),
    ensures
        count_mark(pass1_marks(secret, guess), Match::Correct, upto) == count_exact(
            secret,
            guess,
            upto,
        ),
    decreases upto,
{
    if upto > 0 {
        lemma_pass1_correct_count(secret, guess, upto - 1);
    }
}

/// After the first pass, for each letter `c`, the matches already granted plus
/// the occurrences of `c` still unconsumed add up to the occurrences of `c`
/// in the secret word.
proof fn lemma_pass1_budget(secret: Seq<char>, guess: Seq<char>, c: char, upto: int)
    requires
        is_lower(c),
        secret.len() == guess.len(),
        upto <= secret.len(),
    ensures
        count_char(pass1_remaining(secret, guess), c, upto) + count_hits(
            pass1_marks(secret, guess),
            guess,
            c,
            upto,
        ) == count_char(secret, c, upto),
    decreases upto,
{
    if upto > 0 {
        lemma_pass1_budget(secret, guess, c, upto - 1);
    }
}

/// Structure of the second pass: it only ever turns an `Incorrect` mark at a
/// not-yet-visited position into `Misplaced`, and it keeps the lengths.
proof fn lemma_pass2_marks(guess: Seq<char>, marks: Seq<Match>, rem: Seq<char>, i: nat)
    requires
        marks.len() == guess.len(),
        i <= guess.len(),
    ensures
        pass2(guess, marks, rem, i).0.len() == marks.len(),
        pass2(guess, marks, rem, i).1.len() == rem.len(),
        forall|j: int|
            0 <= j < marks.len() ==> (#[trigger] pass2(guess, marks, rem, i).0[j] == marks[j] || (
            i <= j && marks[j] == Match::Incorrect && pass2(guess, marks, rem, i).0[j]
                == Match::Misplaced)),
    decreases guess.len() - i,
{
    if i < guess.len() {
        if marks[i as int] != Match::Incorrect {
            lemma_pass2_marks(guess, marks, rem, i + 1);
        } else {
            match rem.index_of_first(guess[i as int]) {
                Some(j) => {
                    rem.index_of_first_ensures(guess[i as int]);
                    lemma_pass2_marks(
                        guess,
                        marks.update(i as int, Match::Misplaced),
                        rem.update(j, '\0'),
                        i + 1,
                    );
                },
                None => {
                    lemma_pass2_marks(guess, marks, rem, i + 1);
                },
            }
        }
    }
}

/// Conservation through the second pass: for each letter `c`, granted matches
/// plus unconsumed occurrences of `c` is unchanged by the pass.
proof fn lemma_pass2_budget(guess: Seq<char>, marks: Seq<Match>, rem: Seq<char>, i: nat, c: char)
    requires
        is_lower(c),
        marks.len() == guess.len(),
        i <= guess.len(),
    ensures
        count_hits(pass2(guess, marks, rem, i).0, guess, c, guess.len() as int) + count_char(
            pass2(guess, marks, rem, i).1,
            c,
            rem.len() as int,
        ) == count_hits(marks, guess, c, guess.len() as int) + count_char(
            rem,
            c,
            rem.len() as int,
        ),
    decreases guess.len() - i,
{
    if i < guess.len() {
        if marks[i as int] != Match::Incorrect {
            lemma_pass2_budget(guess, marks, rem, i + 1, c);
        } else {
            match rem.index_of_first(guess[i as int]) {
                Some(j) => {
                    rem.index_of_first_ensures(guess[i as int]);
                    lemma_count_char_update(rem, c, j, '\0', rem.len() as int);
                    lemma_count_hits_update(
                        marks,
                        guess,
                        c,
                        i as int,
                        Match::Misplaced,
                        guess.len() as int,
                    );
                    lemma_pass2_budget(
                        guess,
                        marks.update(i as int, Match::Misplaced),
                        rem.update(j, '\0'),
                        i + 1,
                        c,
                    );
                },
                None => {
                    lemma_pass2_budget(guess, marks, rem, i + 1, c);
                },
            }
        }
    }
}

/// The evaluation has exactly as many `Correct` entries as there are
/// index-wise exact matches between secret and guess.
pub proof fn lemma_correct_counts_exact_matches(secret: Seq<char>, guess: Seq<char>)
    requires
        wf_word(secret),
        wf_word(guess),
    ensures
        spec_check_word(secret, guess).len() == 5,
        count_mark(spec_check_word(secret, guess), Match::Correct, 5) == count_exact(
            secret,
            guess,
            5,
        ),
{
    let marks1 = pass1_marks(secret, guess);
    let rem1 = pass1_remaining(secret, guess);
    lemma_pass2_marks(guess, marks1, rem1, 0);
    let m2 = pass2(guess, marks1, rem1, 0).0;
    assert forall|j: int| 0 <= j < marks1.len() implies ((m2[j] == Match::Correct) <==> (marks1[j]
        == Match::Correct)) by {
        assert(m2[j] == marks1[j] || (marks1[j] == Match::Incorrect && m2[j] == Match::Misplaced));
    }
    lemma_count_mark_equiv(m2, marks1, Match::Correct, 5);
    lemma_pass1_correct_count(secret, guess, 5);
}

/// For any letter `c`, the evaluation grants `c` at most as many matches
/// (`Correct` or `Misplaced` at positions where the guess holds `c`) as the
/// secret word has occurrences of `c`.
pub proof fn lemma_letter_matches_bounded(secret: Seq<char>, guess: Seq<char>, c: char)
    requires
        wf_word(secret),
        wf_word(guess),
        is_lower(c),
    ensures
        count_hits(spec_check_word(secret, guess), guess, c, 5) <= count_char(secret, c, 5),
{
    let marks1 = pass1_marks(secret, guess);
    let rem1 = pass1_remaining(secret, guess);
    lemma_pass1_budget(secret, guess, c, 5);
    lemma_pass2_budget(guess, marks1, rem1, 0, c);
}

/// Guessing the secret word itself is classified all `Correct`.
pub proof fn lemma_self_guess_all_correct(secret: Seq<char>)
    requires
        wf_word(secret),
    ensures
        all_correct(spec_check_word(secret, secret)),
{
    let marks1 = pass1_marks(secret, secret);
    let rem1 = pass1_remaining(secret, secret);
    lemma_pass2_marks(secret, marks1, rem1, 0);
    assert forall|j: int| 0 <= j < 5 implies spec_check_word(secret, secret)[j] == Match::Correct by {
        assert(marks1[j] == Match::Correct);
        assert(spec_check_word(secret, secret)[j] == marks1[j] || (marks1[j] == Match::Incorrect
            && spec_check_word(secret, secret)[j] == Match::Misplaced));
    }
}

/// Only the secret word itself is classified all `Correct`: a win always
/// reveals the secret.
pub proof fn lemma_win_is_exact(secret: Seq<char>, guess: Seq<char>)
    requires
        wf_word(secret),
        wf_word(guess),
        all_correct(spec_check_word(secret, guess)),
    ensures
        guess == secret,
{
    let marks1 = pass1_marks(secret, guess);
    let rem1 = pass1_remaining(secret, guess);
    lemma_pass2_marks(guess, marks1, rem1, 0);
    assert forall|j: int| 0 <= j < 5 implies guess[j] == secret[j] by {
        assert(spec_check_word(secret, guess)[j] == Match::Correct);
        assert(spec_check_word(secret, guess)[j] == marks1[j] || (marks1[j] == Match::Incorrect
            && spec_check_word(secret, guess)[j] == Match::Misplaced));
        assert(marks1[j] == Match::Correct);
    }
    assert(guess =~= secret);
}

/// Evaluation is a pure function of the secret and the guess: any two results
/// that meet the contract of `check_word` on the same pair are equal.
pub proof fn lemma_evaluation_deterministic(
    secret: Seq<char>,
    guess: Seq<char>,
    r1: Seq<Match>,
    r2: Seq<Match>,
)
    requires
        r1 == spec_check_word(secret, guess),
        r2 == spec_check_word(secret, guess),
    ensures
        r1 == r2,
{
}

/// Whether every mark of a classification is `Correct`.
pub fn all_marks_correct(marks: &Vec<Match>) -> (r: bool)
    ensures
        r == all_correct(marks@),
{
    let mut i: usize = 0;
    while i < marks.len()
        invariant
            i <= marks@.len(),
            forall|k: int| 0 <= k < i ==> marks@[k] == Match::Correct,
        decreases marks@.len() - i,
    {
        if !(marks[i] == Match::Correct) {
            return false;
        }
        i += 1;
    }
    true
}

/// The first unconsumed occurrence of `c`, as `index_of_first` names it.
fn find_first(rem: &Vec<char>, c: char) -> (r: Option<usize>)
    ensures
        match r {
            Some(j) => j < rem@.len() && rem@.index_of_first(c) == Some(j as int),
            None => rem@.index_of_first(c) is None,
        },
{
    let mut j: usize = 0;
    while j < rem.len()
        invariant
            j <= rem@.len(),
            forall|k: int| 0 <= k < j ==> rem@[k] != c,
        decreases rem@.len() - j,
    {
        if rem[j] == c {
            proof {
                rem@.index_of_first_ensures(c);
            }
            return Some(j);
        }
        j += 1;
    }
    proof {
        rem@.index_of_first_ensures(c);
        assert(!rem@.contains(c));
    }
    None
}

/// Classify each letter of `guess` against `secret_word`, the two-pass rule
/// of the evaluator: exact matches first, then first-occurrence misplacements.
pub fn check_word(secret_word: &str, guess: &str) -> (matches: Vec<Match>)
    requires
        wf_word(secret_word@),
        wf_word(guess@),
    ensures
        matches@ == spec_check_word(secret_word@, guess@),
        matches@.len() == 5,
{
    let ghost marks1 = pass1_marks(secret_word@, guess@);
    let ghost rem1 = pass1_remaining(secret_word@, guess@);
    let mut marks: Vec<Match> = Vec::new();
    let mut rem: Vec<char> = Vec::new();
    // first pass: exact positions
    let mut i: usize = 0;
    while i < 5
        invariant
            wf_word(secret_word@),
            wf_word(guess@),
            i <= 5,
            marks@ =~= marks1.take(i as int),
            rem@ =~= rem1.take(i as int),
            marks1 == pass1_marks(secret_word@, guess@),
            rem1 == pass1_remaining(secret_word@, guess@),
        decreases 5 - i,
    {
        let cs = secret_word.get_char(i);
        let cg = guess.get_char(i);
        if cg == cs {
            marks.push(Match::Correct);
            rem.push('\0');
        } else {
            marks.push(Match::Incorrect);
            rem.push(cs);
        }
        proof {
            assert(marks@ =~= marks1.take(i + 1));
            assert(rem@ =~= rem1.take(i + 1));
        }
        i += 1;
    }
    proof {
        assert(marks@ =~= marks1);
        assert(rem@ =~= rem1);
    }
    // second pass: misplaced letters
    let mut i: usize = 0;
    while i < 5
        invariant
            wf_word(secret_word@),
            wf_word(guess@),
            i <= 5,
            marks@.len() == 5,
            rem@.len() == 5,
            marks1 == pass1_marks(secret_word@, guess@),
            rem1 == pass1_remaining(secret_word@, guess@),
            pass2(guess@, marks@, rem@, i as nat) == pass2(guess@, marks1, rem1, 0),
        decreases 5 - i,
    {
        let ghost old_marks = marks@;
        let ghost old_rem = rem@;
        if marks[i] == Match::Incorrect {
            let c = guess.get_char(i);
            match find_first(&rem, c) {
                Some(j) => {
                    marks[i] = Match::Misplaced;
                    rem[j] = '\0';
                    proof {
                        assert(marks@ == old_marks.update(i as int, Match::Misplaced));
                        assert(rem@ == old_rem.update(j as int, '\0'));
                        assert(pass2(guess@, old_marks, old_rem, i as nat) == pass2(
                            guess@,
                            marks@,
                            rem@,
                            (i + 1) as nat,
                        ));
                    }
                },
                None => {
                    proof {
                        assert(pass2(guess@, marks@, rem@, i as nat) == pass2(
                            guess@,
                            marks@,
                            rem@,
                            (i + 1) as nat,
                        ));
                    }
                },
            }
        } else {
            proof {
                assert(pass2(guess@, marks@, rem@, i as nat) == pass2(
                    guess@,
                    marks@,
                    rem@,
                    (i + 1) as nat,
                ));
            }
        }
        i += 1;
    }
    proof {
        assert(pass2(guess@, marks@, rem@, 5nat) == (marks@, rem@));
    }
    marks
}

} // verus!
