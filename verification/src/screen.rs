//! The display as a frontend shows it: as text for a terminal, and as the
//! list of lit cells for a canvas.

use vstd::prelude::*;
use crate::{DISPHEIGHT, DISPSIZE, DISPWIDTH};

verus! {

/// The number of characters in a line of the text frame, the line end not
/// counted: two for each cell and two for each side of the border.
pub const FRAME_WIDTH: usize = 132;

/// The number of lines of the text frame: one for each row and one each for
/// the border above and below.
pub const FRAME_HEIGHT: usize = 34;

/// The character in line `line`, column `col` of the text frame. A line is
/// `FRAME_WIDTH` characters and then a line feed and a carriage return. The
/// frame has a border of `#`; inside it each cell is two characters wide, full
/// blocks if the cell is lit and blanks if not.
pub open spec fn frame_char(display: Seq<bool>, line: int, col: int) -> char {
    if col == 132 {
        '\n'
    } else if col == 133 {
        '\r'
    } else if line == 0 || line == 33 || col < 2 || col >= 130 {
        '#'
    } else if display[(line - 1) * 64 + (col - 2) / 2] {
        '\u{2588}'
    } else {
        ' '
    }
}

/// The text frame: 34 lines of 134 characters.
pub open spec fn spec_frame_text(display: Seq<bool>) -> Seq<char> {
    Seq::new(34 * 134, |i: int| frame_char(display, i / 134, i % 134))
}

/// Computes one character of the text frame.
fn frame_char_at(display: &[bool; DISPSIZE], line: usize, col: usize) -> (c: char)
    requires
        line < 34,
        col < 134,
    ensures
        c == frame_char(display@, line as int, col as int),
{
    if col == FRAME_WIDTH {
        '\n'
    } else if col == FRAME_WIDTH + 1 {
        '\r'
    } else if line == 0 || line == FRAME_HEIGHT - 1 || col < 2 || col >= FRAME_WIDTH - 2 {
        '#'
    } else if display[(line - 1) * DISPWIDTH + (col - 2) / 2] {
        '\u{2588}'
    } else {
        ' '
    }
}

/// Renders the display as text for a terminal.
pub fn frame_text(display: &[bool; DISPSIZE]) -> (text: Vec<char>)
    ensures
        text@ == spec_frame_text(display@),
{
    let mut text: Vec<char> = Vec::new();
    for line in 0..FRAME_HEIGHT
        invariant
            text@.len() == line * 134,
            forall|i: int|
                0 <= i < text@.len() ==> text@[i] == frame_char(display@, i / 134, i % 134),
    {
        for col in 0..FRAME_WIDTH + 2
            invariant
                line < 34,
                text@.len() == line * 134 + col,
                forall|i: int|
                    0 <= i < text@.len() ==> text@[i] == frame_char(display@, i / 134, i % 134),
        {
            let c = frame_char_at(display, line, col);
            proof {
                let i = line * 134 + col;
                vstd::arithmetic::div_mod::lemma_fundamental_div_mod_converse(
                    i as int,
                    134,
                    line as int,
                    col as int,
                );
            }
            text.push(c);
        }
    }
    text
}

/// The cells among the first `upto` that are lit, each as its column and its
/// row, in the order of the display: row by row, each row from the left.
pub open spec fn spec_lit_cells(display: Seq<bool>, upto: int) -> Seq<(usize, usize)>
    decreases upto,
{
    if upto <= 0 {
        Seq::empty()
    } else {
        let before = spec_lit_cells(display, upto - 1);
        if display[upto - 1] {
            before.push((((upto - 1) % 64) as usize, ((upto - 1) / 64) as usize))
        } else {
            before
        }
    }
}

/// Lists the lit cells of the display, each as its column and its row, row
/// by row and each row from the left.
pub fn lit_cells(display: &[bool; DISPSIZE]) -> (cells: Vec<(usize, usize)>)
    ensures
        cells@ == spec_lit_cells(display@, 2048),
{
    let mut cells: Vec<(usize, usize)> = Vec::new();
    for y in 0..DISPHEIGHT
        invariant
            cells@ == spec_lit_cells(display@, y * 64),
    {
        for x in 0..DISPWIDTH
            invariant
                y < 32,
                cells@ == spec_lit_cells(display@, y * 64 + x),
        {
            let this_index = y * DISPWIDTH + x;
            proof {
                vstd::arithmetic::div_mod::lemma_fundamental_div_mod_converse(
                    this_index as int,
                    64,
                    y as int,
                    x as int,
                );
            }
            if display[this_index] {
                cells.push((x, y));
            }
        }
    }
    cells
}

} // verus!
