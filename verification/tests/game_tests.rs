use yawc::evaluator::Match;
use yawc::game::Game;
use yawc::game::GuessOutcome;
use yawc::game::KeyInput;
use yawc::game::StepOutcome;
use yawc::game::replay_choice;
use yawc::keyboard::print_row;
use yawc::words::WordList;

fn make_list(secrets: &[&str], acceptable: &[&str]) -> WordList {
    let s: Vec<String> = secrets.iter().map(|w| w.to_string()).collect();
    let a: Vec<String> = acceptable.iter().map(|w| w.to_string()).collect();
    WordList::new(s, a).expect("word lists should be well-formed")
}

fn type_word(g: &mut Game, word: &str) {
    for c in word.chars() {
        g.type_letter(c);
    }
}

#[test]
fn exact_guess_wins() {
    // a single secret word, so the draw is determined
    let mut g = Game::new(make_list(&["crane"], &[]));
    type_word(&mut g, "crane");
    let r = g.guess();
    assert_eq!(r, GuessOutcome::Win);
    assert!(g.is_win());
    assert!(!g.is_loose());
    let gs = g.guesses();
    assert_eq!(gs.len(), 1);
    assert_eq!(gs[0].0.as_str(), "crane");
    assert_eq!(gs[0].1, vec![Match::Correct; 5]);
}

#[test]
fn six_misses_lose_exactly_on_sixth() {
    let misses = ["slate", "pound", "light", "foggy", "jumps", "wrong"];
    let mut g = Game::new(make_list(&["crane"], &misses));
    for (i, w) in misses.iter().enumerate() {
        assert!(!g.is_loose(), "never lost before the sixth submission");
        type_word(&mut g, w);
        let r = g.guess();
        if i < 5 {
            assert_eq!(r, GuessOutcome::Continue);
            assert!(!g.is_win());
            assert!(!g.is_loose());
        } else {
            assert_eq!(r, GuessOutcome::Loose);
        }
    }
    assert!(g.is_loose());
    assert!(!g.is_win());
    assert_eq!(g.guesses().len(), 6);
}

#[test]
fn rejected_guess_changes_nothing() {
    let mut g = Game::new(make_list(&["crane"], &["slate"]));
    type_word(&mut g, "slate");
    g.guess();
    type_word(&mut g, "zzzzz");
    let before = g.guesses().len();
    let r = g.guess();
    assert_eq!(r, GuessOutcome::Rejected);
    assert_eq!(g.guesses().len(), before);
    assert_eq!(g.current_guess().as_str(), "zzzzz");
}

#[test]
fn typing_past_five_letters_is_a_no_op() {
    let mut g = Game::new(make_list(&["crane"], &[]));
    type_word(&mut g, "slates");
    assert_eq!(g.current_guess().as_str(), "slate");
}

#[test]
fn backspace_on_empty_guess_is_a_no_op() {
    let mut g = Game::new(make_list(&["crane"], &[]));
    g.backspace();
    assert_eq!(g.current_guess().as_str(), "");
    type_word(&mut g, "ab");
    g.backspace();
    assert_eq!(g.current_guess().as_str(), "a");
}

#[test]
fn non_letter_input_is_ignored() {
    let mut g = Game::new(make_list(&["crane"], &[]));
    g.type_letter('A');
    g.type_letter('1');
    g.type_letter(' ');
    assert_eq!(g.current_guess().as_str(), "");
}

#[test]
fn short_guess_submission_is_ignored() {
    let mut g = Game::new(make_list(&["crane"], &[]));
    type_word(&mut g, "cra");
    let r = g.guess();
    assert_eq!(r, GuessOutcome::Ignored);
    assert_eq!(g.guesses().len(), 0);
    assert_eq!(g.current_guess().as_str(), "cra");
}

#[test]
fn replay_resets_the_round() {
    let mut g = Game::new(make_list(&["crane"], &["slate"]));
    type_word(&mut g, "slate");
    g.guess();
    type_word(&mut g, "cr");
    g.start_new_round();
    assert_eq!(g.guesses().len(), 0);
    assert_eq!(g.current_guess().as_str(), "");
    assert_eq!(g.secret_word().as_str(), "crane");
    // fresh keyboard: everything unmarked again
    for row in 0..3 {
        for (_, mark) in print_row(g.keyboard(), row) {
            assert_eq!(mark, None);
        }
    }
}

#[test]
fn keyboard_tracks_submitted_letters() {
    let mut g = Game::new(make_list(&["crane"], &["slate"]));
    type_word(&mut g, "slate");
    g.guess();
    // against "crane": a and e exact, s l t absent
    let mut seen = std::collections::HashMap::new();
    for row in 0..3 {
        for (c, mark) in print_row(g.keyboard(), row) {
            seen.insert(c, mark);
        }
    }
    assert_eq!(seen[&'a'], Some(Match::Correct));
    assert_eq!(seen[&'e'], Some(Match::Correct));
    assert_eq!(seen[&'s'], Some(Match::Incorrect));
    assert_eq!(seen[&'l'], Some(Match::Incorrect));
    assert_eq!(seen[&'t'], Some(Match::Incorrect));
    assert_eq!(seen[&'q'], None);
}

#[test]
fn winning_round_ignores_further_input() {
    let mut g = Game::new(make_list(&["crane"], &[]));
    type_word(&mut g, "crane");
    assert_eq!(g.guess(), GuessOutcome::Win);
    g.type_letter('a');
    assert_eq!(g.current_guess().as_str(), "");
    assert_eq!(g.guess(), GuessOutcome::Ignored);
    assert_eq!(g.guesses().len(), 1);
}

#[test]
fn handle_key_drives_a_round() {
    let mut g = Game::new(make_list(&["crane"], &[]));
    assert_eq!(g.handle_key(KeyInput::Letter('c')), StepOutcome::Continue);
    assert_eq!(g.handle_key(KeyInput::Letter('r')), StepOutcome::Continue);
    assert_eq!(g.handle_key(KeyInput::Backspace), StepOutcome::Continue);
    assert_eq!(g.current_guess().as_str(), "c");
    for c in "rane".chars() {
        g.handle_key(KeyInput::Letter(c));
    }
    assert_eq!(g.handle_key(KeyInput::Enter), StepOutcome::RoundOver);
    assert!(g.is_win());
}

#[test]
fn handle_key_quit_and_rejection() {
    let mut g = Game::new(make_list(&["crane"], &[]));
    assert_eq!(g.handle_key(KeyInput::CtrlC), StepOutcome::Quit);
    for c in "zzzzz".chars() {
        g.handle_key(KeyInput::Letter(c));
    }
    assert_eq!(g.handle_key(KeyInput::Enter), StepOutcome::Rejected);
    assert_eq!(g.current_guess().as_str(), "zzzzz");
}

#[test]
fn replay_choice_reads_the_prompt_keys() {
    assert_eq!(replay_choice('y'), Some(true));
    assert_eq!(replay_choice('n'), Some(false));
    assert_eq!(replay_choice('x'), None);
    assert_eq!(replay_choice('Y'), None);
}
