pub mod board;
pub mod laws;
pub mod mask;
pub mod piece;
pub mod session;
pub mod shapes;

use vstd::prelude::*;

verus! {

/// Number of columns on the board.
pub const BOARD_WIDTH: usize = 10;
/// Number of rows on the board.
pub const BOARD_HEIGHT: usize = 20;

/// Points awarded for clearing `n` rows in a single lock event.
pub open spec fn award(n: nat) -> nat {
    if n == 1 { 100 }
    else if n == 2 { 300 }
    else if n == 3 { 500 }
    else if n == 4 { 800 }
    else { 0 }
}

/// Points awarded for clearing `lines` rows in a single lock event:
/// 1 line scores 100, 2 score 300, 3 score 500, 4 score 800, anything
/// else scores 0.
pub fn line_award(lines: usize) -> (r: u32)
    ensures
        r == award(lines as nat),
{
    match lines {
        1 => 100,
        2 => 300,
        3 => 500,
        4 => 800,
        _ => 0,
    }
}

} // verus!
