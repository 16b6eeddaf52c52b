//! Visible length of status-bar text: characters that are part of an ANSI
//! colour escape sequence (ESC `[`, a run of digits and semicolons, closed
//! by an ASCII letter) do not take a terminal cell and are not counted.
//! An escape prefix that never closes stays visible, as the terminal would
//! show it.

use vstd::prelude::*;

verus! {

/// A parameter character of an escape sequence: a digit or a semicolon.
pub open spec fn is_param_char(c: char) -> bool {
    c == ';' || ('0' <= c && c <= '9')
}

/// An ASCII letter, which closes an escape sequence.
pub open spec fn is_ascii_letter(c: char) -> bool {
    ('a' <= c && c <= 'z') || ('A' <= c && c <= 'Z')
}

/// Where the scan stands inside a possible escape sequence.
#[derive(Clone, Copy, Debug, PartialEq, Eq, Structural)]
pub enum ScanState {
    /// Outside any escape sequence.
    Plain,
    /// Right after an ESC.
    SawEsc,
    /// After ESC `[`, inside the parameter run.
    InParams,
}

/// The visible characters from position `i` on, given the scan state and the
/// number of characters provisionally swallowed by an unfinished escape
/// prefix (they count after all if the prefix fails to close).
pub open spec fn scan(s: Seq<char>, i: int, st: ScanState, pending: nat) -> nat
    decreases s.len() - i,
{
    if i < 0 || i >= s.len() {
        pending
    } else {
        let c = s[i];
        match st {
            ScanState::Plain => {
                if c == '\u{1b}' {
                    scan(s, i + 1, ScanState::SawEsc, 1)
                } else {
                    1 + scan(s, i + 1, ScanState::Plain, 0)
                }
            },
            ScanState::SawEsc => {
                if c == '[' {
                    scan(s, i + 1, ScanState::InParams, pending + 1)
                } else if c == '\u{1b}' {
                    pending + scan(s, i + 1, ScanState::SawEsc, 1)
                } else {
                    pending + 1 + scan(s, i + 1, ScanState::Plain, 0)
                }
            },
            ScanState::InParams => {
                if is_param_char(c) {
                    scan(s, i + 1, ScanState::InParams, pending + 1)
                } else if is_ascii_letter(c) {
                    scan(s, i + 1, ScanState::Plain, 0)
                } else if c == '\u{1b}' {
                    pending + scan(s, i + 1, ScanState::SawEsc, 1)
                } else {
                    pending + 1 + scan(s, i + 1, ScanState::Plain, 0)
                }
            },
        }
    }
}

/// The number of terminal cells the string takes: its characters outside
/// ANSI escape sequences.
pub open spec fn spec_visible_len(s: Seq<char>) -> nat {
    scan(s, 0, ScanState::Plain, 0)
}

/// Count the characters of `s` that are not part of an ANSI escape sequence.
pub fn visible_len(s: &str) -> (n: usize)
    ensures
        n == spec_visible_len(s@),
{
    let len = s.unicode_len();
    let mut i: usize = 0;
    let mut acc: usize = 0;
    let mut pending: usize = 0;
    let mut st = ScanState::Plain;
    while i < len
        invariant
            i <= len,
            len == s@.len(),
            acc + pending <= i,
            st == ScanState::Plain ==> pending == 0,
            acc + scan(s@, i as int, st, pending as nat) == spec_visible_len(s@),
        decreases len - i,
    {
        let c = s.get_char(i);
        match st {
            ScanState::Plain => {
                if c == '\u{1b}' {
                    st = ScanState::SawEsc;
                    pending = 1;
                } else {
                    acc += 1;
                }
            },
            ScanState::SawEsc => {
                if c == '[' {
                    st = ScanState::InParams;
                    pending += 1;
                } else if c == '\u{1b}' {
                    acc += pending;
                    pending = 1;
                } else {
                    acc += pending + 1;
                    st = ScanState::Plain;
                    pending = 0;
                }
            },
            ScanState::InParams => {
                if c == ';' || ('0' <= c && c <= '9') {
                    pending += 1;
                } else if ('a' <= c && c <= 'z') || ('A' <= c && c <= 'Z') {
                    st = ScanState::Plain;
                    pending = 0;
                } else if c == '\u{1b}' {
                    acc += pending;
                    st = ScanState::SawEsc;
                    pending = 1;
                } else {
                    acc += pending + 1;
                    st = ScanState::Plain;
                    pending = 0;
                }
            },
        }
        i += 1;
    }
    acc + pending
}

} // verus!
