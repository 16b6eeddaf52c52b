use yawc::ansi::visible_len;

#[test]
fn plain_text_counts_every_character() {
    assert_eq!(visible_len(""), 0);
    assert_eq!(visible_len("hello"), 5);
    assert_eq!(visible_len("you won!"), 8);
}

#[test]
fn colour_codes_take_no_cells() {
    assert_eq!(visible_len("\u{1b}[32mhi\u{1b}[0m"), 2);
    assert_eq!(visible_len("\u{1b}[38;5;10mcrane\u{1b}[39m"), 5);
    assert_eq!(visible_len("\u{1b}[m"), 0);
}

#[test]
fn unclosed_escape_prefix_stays_visible() {
    // no closing letter: the escape grammar does not match, so the
    // characters keep their cells
    assert_eq!(visible_len("abc\u{1b}[12"), 7);
    assert_eq!(visible_len("\u{1b}x"), 2);
    assert_eq!(visible_len("\u{1b}"), 1);
    assert_eq!(visible_len("\u{1b}[[m"), 4);
}

#[test]
fn escape_can_restart_inside_a_failed_sequence() {
    // the first ESC never closes; the second one does
    assert_eq!(visible_len("\u{1b}[12\u{1b}[3ma"), 5);
}

#[test]
fn mixed_status_line() {
    let s = format!("You {}! The word was {}.", "\u{1b}[31mloose\u{1b}[0m", "crane");
    // "You loose! The word was crane."
    assert_eq!(visible_len(&s), 30);
}
