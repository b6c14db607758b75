//! Where the parts of a drawn board stand: the pixel geometry of the squares
//! and of the labels around them, for whoever draws the boards.

use vstd::prelude::*;
use crate::grid::{Coordinate, BOARD_HEIGHT, BOARD_WIDTH};

verus! {

/// Side of one square, in pixels.
pub const SQUARE_SIZE: i32 = 50;

/// Width of the strip of row numbers and height of the strip of column
/// letters, in pixels.
pub const NUM_OFFSET: i32 = 50;

/// Left edge of the first player's board.
pub const P1_BOARD_LEFT_OFFSET: i32 = 0;

/// Left edge of the second player's board.
pub const P2_BOARD_LEFT_OFFSET: i32 = 850;

/// Top edge of both boards.
pub const BOARD_TOP_OFFSET: i32 = 50;

/// Number of ship markers shown beside a board.
pub const MARKER_COUNT: i32 = 6;

/// A rectangle on the screen.
#[derive(Clone, Copy, Debug, PartialEq, Eq, Structural)]
pub struct Rect {
    /// Left edge.
    pub x: i32,
    /// Top edge.
    pub y: i32,
    /// Width.
    pub w: i32,
    /// Height.
    pub h: i32,
}

/// Width of a drawn board, labels included.
pub open spec fn board_width_px() -> int {
    BOARD_WIDTH * SQUARE_SIZE + NUM_OFFSET
}

/// Height of a drawn board, labels included.
pub open spec fn board_height_px() -> int {
    BOARD_HEIGHT * SQUARE_SIZE + NUM_OFFSET
}

/// Whether a board drawn with its top left corner at (x, y) stays within the
/// range of pixel positions.
pub open spec fn board_fits_screen(x: i32, y: i32) -> bool {
    x + board_width_px() <= i32::MAX && y + board_height_px() <= i32::MAX
}

/// Whether a board drawn with its top left corner at (x, y) stays within the
/// range of pixel positions.
pub fn fits_screen(x: i32, y: i32) -> (b: bool)
    ensures
        b == board_fits_screen(x, y),
{
    x <= i32::MAX - 550 && y <= i32::MAX - 500
}

/// The rectangle of a whole board whose top left corner is (x, y).
pub fn board_rect(x: i32, y: i32) -> (rect: Rect)
    ensures
        rect.x == x,
        rect.y == y,
        rect.w == board_width_px(),
        rect.h == board_height_px(),
{
    Rect { x, y, w: 10 * SQUARE_SIZE + NUM_OFFSET, h: 9 * SQUARE_SIZE + NUM_OFFSET }
}

/// The rectangle of the square for `cell` on the board at (x, y).
pub fn square_rect(x: i32, y: i32, cell: Coordinate) -> (rect: Rect)
    requires
        board_fits_screen(x, y),
    ensures
        rect.x == x + NUM_OFFSET + cell@.0 * SQUARE_SIZE,
        rect.y == y + NUM_OFFSET + cell@.1 * SQUARE_SIZE,
        rect.w == SQUARE_SIZE,
        rect.h == SQUARE_SIZE,
{
    let column: usize = cell.column();
    let row: usize = cell.row();
    Rect {
        x: column as i32 * SQUARE_SIZE + x + NUM_OFFSET,
        y: row as i32 * SQUARE_SIZE + y + NUM_OFFSET,
        w: SQUARE_SIZE,
        h: SQUARE_SIZE,
    }
}

/// The rectangle of the letter above `column` on the board at (x, y).
pub fn column_label_rect(x: i32, y: i32, column: usize) -> (rect: Rect)
    requires
        board_fits_screen(x, y),
        column < BOARD_WIDTH,
    ensures
        rect.x == x + NUM_OFFSET + column * SQUARE_SIZE,
        rect.y == y,
        rect.w == SQUARE_SIZE,
        rect.h == SQUARE_SIZE,
{
    Rect { x: column as i32 * SQUARE_SIZE + x + NUM_OFFSET, y, w: SQUARE_SIZE, h: SQUARE_SIZE }
}

/// The rectangle of the number beside `row` on the board at (x, y).
pub fn row_label_rect(x: i32, y: i32, row: usize) -> (rect: Rect)
    requires
        board_fits_screen(x, y),
        row < BOARD_HEIGHT,
    ensures
        rect.x == x,
        rect.y == y + NUM_OFFSET + row * SQUARE_SIZE,
        rect.w == SQUARE_SIZE,
        rect.h == SQUARE_SIZE,
{
    Rect { x, y: row as i32 * SQUARE_SIZE + y + NUM_OFFSET, w: SQUARE_SIZE, h: SQUARE_SIZE }
}

/// The letters of the columns, from the left.
pub open spec fn column_letters() -> Seq<char> {
    seq!['A', 'B', 'C', 'D', 'E', 'F', 'G', 'H', 'I', 'J']
}

/// The letter that labels `column`.
pub fn column_letter(column: usize) -> (letter: char)
    requires
        column < BOARD_WIDTH,
    ensures
        letter == column_letters()[column as int],
{
    if column == 0 {
        'A'
    } else if column == 1 {
        'B'
    } else if column == 2 {
        'C'
    } else if column == 3 {
        'D'
    } else if column == 4 {
        'E'
    } else if column == 5 {
        'F'
    } else if column == 6 {
        'G'
    } else if column == 7 {
        'H'
    } else if column == 8 {
        'I'
    } else {
        'J'
    }
}

/// The number that labels `row`: rows are counted from one on the screen.
pub fn row_number(row: usize) -> (number: usize)
    requires
        row < BOARD_HEIGHT,
    ensures
        number == row + 1,
{
    row + 1
}

/// The rectangle of the marker for a ship of `n + 1` squares in the list
/// beside a board: one row per marker, a little lower than a square.
pub fn ship_marker_rect(n: i32) -> (rect: Rect)
    requires
        0 <= n < MARKER_COUNT,
    ensures
        rect.x == 550,
        rect.y == 55 + (n + 1) * SQUARE_SIZE,
        rect.w == (n + 1) * SQUARE_SIZE,
        rect.h == SQUARE_SIZE - 10,
{
    Rect { x: 550, y: 55 + ((n + 1) * SQUARE_SIZE), w: (n + 1) * SQUARE_SIZE, h: SQUARE_SIZE - 10 }
}

} // verus!
