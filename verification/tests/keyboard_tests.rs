use yawc::evaluator::Match;
use yawc::keyboard::Keyboard;
use yawc::keyboard::print_row;

fn row_letters(kb: &Keyboard, row: usize) -> String {
    print_row(kb, row).iter().map(|(c, _)| *c).collect()
}

#[test]
fn fresh_keyboard_is_qwerty_and_unmarked() {
    let kb = Keyboard::new();
    assert_eq!(row_letters(&kb, 0), "qwertyuiop");
    assert_eq!(row_letters(&kb, 1), "asdfghjkl");
    assert_eq!(row_letters(&kb, 2), "zxcvbnm");
    for row in 0..3 {
        for (_, mark) in print_row(&kb, row) {
            assert_eq!(mark, None);
        }
    }
}

#[test]
fn default_is_a_fresh_keyboard() {
    let kb = Keyboard::default();
    assert_eq!(row_letters(&kb, 0), "qwertyuiop");
    for row in 0..3 {
        for (_, mark) in print_row(&kb, row) {
            assert_eq!(mark, None);
        }
    }
}

#[test]
fn mark_letter_records_the_classification() {
    let mut kb = Keyboard::new();
    kb.mark_letter('q', Match::Misplaced);
    let cells = print_row(&kb, 0);
    assert_eq!(cells[0], ('q', Some(Match::Misplaced)));
    assert_eq!(cells[1], ('w', None));
}

#[test]
fn mark_letter_overwrites_unconditionally() {
    // a later mark replaces an earlier one, even with a lower-precedence
    // classification: last write wins
    let mut kb = Keyboard::new();
    kb.mark_letter('a', Match::Correct);
    kb.mark_letter('a', Match::Incorrect);
    let cells = print_row(&kb, 1);
    assert_eq!(cells[0], ('a', Some(Match::Incorrect)));
}

#[test]
fn marking_an_unknown_character_changes_nothing() {
    let mut kb = Keyboard::new();
    kb.mark_letter('!', Match::Correct);
    kb.mark_letter('Q', Match::Correct);
    for row in 0..3 {
        for (_, mark) in print_row(&kb, row) {
            assert_eq!(mark, None);
        }
    }
}

#[test]
fn rows_cover_all_26_letters_once() {
    let kb = Keyboard::new();
    let mut all = String::new();
    for row in 0..3 {
        all.push_str(&row_letters(&kb, row));
    }
    assert_eq!(all.len(), 26);
    let mut sorted: Vec<char> = all.chars().collect();
    sorted.sort_unstable();
    sorted.dedup();
    assert_eq!(sorted.len(), 26);
}
