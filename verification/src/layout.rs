//! Layout of the terminal screen: where the grid, the input row, the status
//! bar and the keyboard diagram go, and when a small terminal omits them.
//! The renderer enforces a minimum terminal size of 47 by 13 cells.

use vstd::prelude::*;

verus! {

/// The row of the status bar: omitted below height 14, drawn two rows above
/// the bottom on taller terminals and on the bottom row at exactly height 14.
pub fn status_row(height: u16) -> (r: Option<u16>)
    ensures
        r == (if height <= 13 {
            None::<u16>
        } else if height > 14 {
            Some((height - 2) as u16)
        } else {
            Some(height)
        }),
{
    if height <= 13 {
        None
    } else if height > 14 {
        Some(height - 2)
    } else {
        Some(height)
    }
}

/// The column where a status line of visible length `len` starts, centred.
pub fn status_col(width: u16, len: u16) -> (r: u16)
    requires
        len / 2 <= width / 2,
    ensures
        r == width / 2 - len / 2,
{
    width / 2 - len / 2
}

/// The column where the guess grid starts.
pub fn grid_origin_col(width: u16) -> (r: u16)
    requires
        width >= 24,
    ensures
        r == width / 2 - 12,
{
    width / 2 - 12
}

/// Where the letters of the row after `submitted` guesses are drawn: just
/// inside the grid, two rows per guess.
pub fn input_position(width: u16, submitted: u16) -> (r: (u16, u16))
    requires
        width >= 22,
        submitted <= 6,
    ensures
        r.0 == width / 2 - 11,
        r.1 == 2 * submitted + 1,
{
    (width / 2 - 11, 2 * submitted + 1)
}

/// Where the keyboard diagram starts: omitted on terminals narrower than 48
/// columns or shorter than 22 rows; drawn twelve rows above the bottom on
/// tall terminals and at row 13 otherwise.
pub fn keyboard_position(width: u16, height: u16) -> (r: Option<(u16, u16)>)
    ensures
        r == (if height > 21 && width >= 48 {
            Some(
                (
                    (width / 2 - 20) as u16,
                    (if height >= 26 {
                        (height - 12) as u16
                    } else {
                        13u16
                    }),
                ),
            )
        } else {
            None::<(u16, u16)>
        }),
{
    if height > 21 && width >= 48 {
        let row: u16 = if height >= 26 {
            height - 12
        } else {
            13
        };
        Some((width / 2 - 20, row))
    } else {
        None
    }
}

} // verus!
