use yawc::evaluator::check_word;
use yawc::evaluator::Match;

#[test]
fn golden_duplicate_letters() {
    // secret "allot", guess "lolly": the two-pass consumption rule gives the
    // first two ells of the guess a match, the third ell is matched exactly,
    // and the fourth ell of the guess finds nothing left.
    let m = check_word("allot", "lolly");
    assert_eq!(
        m,
        vec![
            Match::Misplaced,
            Match::Misplaced,
            Match::Correct,
            Match::Incorrect,
            Match::Incorrect,
        ]
    );
}

#[test]
fn exact_match_all_correct() {
    let m = check_word("crane", "crane");
    assert_eq!(m, vec![Match::Correct; 5]);
}

#[test]
fn no_letter_in_common() {
    // no letter of "podgy" occurs in "crane"
    let m = check_word("crane", "podgy");
    assert_eq!(m, vec![Match::Incorrect; 5]);
}

#[test]
fn evaluate_twice_same_result() {
    let a = check_word("abbey", "babes");
    let b = check_word("abbey", "babes");
    assert_eq!(a, b);
}

#[test]
fn duplicate_budget_respected() {
    // secret "abbey" has two bees; guess "babes" asks for two and gets both,
    // one exact and one misplaced, and no more.
    let m = check_word("abbey", "babes");
    assert_eq!(
        m,
        vec![
            Match::Misplaced,
            Match::Misplaced,
            Match::Correct,
            Match::Correct,
            Match::Incorrect,
        ]
    );
}

#[test]
fn correct_entries_count_exact_matches() {
    let secret = "stale";
    let guess = "slate";
    let m = check_word(secret, guess);
    let exact = secret
        .chars()
        .zip(guess.chars())
        .filter(|(a, b)| a == b)
        .count();
    let correct = m.iter().filter(|x| **x == Match::Correct).count();
    assert_eq!(correct, exact);
}
