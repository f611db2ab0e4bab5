//! The board: a 20-row by 10-column grid of locked cells, with the single
//! collision predicate used by every move, the lock operation, and
//! bottom-to-top clearing of full rows.

use vstd::prelude::*;
use vstd::pervasive::VecAdditionalExecFns;
use crate::mask::mask_cell;
use crate::{BOARD_HEIGHT, BOARD_WIDTH};

verus! {

/// A well-formed grid: 20 rows of 10 cells each.
pub open spec fn grid_wf(b: Seq<Seq<u8>>) -> bool {
    &&& b.len() == 20
    &&& forall|r: int| 0 <= r < 20 ==> (#[trigger] b[r]).len() == 10
}

/// Whether board position (column `col`, row `row`) can hold a piece cell:
/// it must be inside the column range and above the floor, and if it is on
/// the visible board (row >= 0) the cell must be empty. Rows above the top
/// (row < 0) are never blocking.
pub open spec fn cell_free(b: Seq<Seq<u8>>, col: int, row: int) -> bool {
    &&& 0 <= col < 10
    &&& row < 20
    &&& row >= 0 ==> b[row][col] == 0
}

/// The sole collision-detection authority: every filled mask cell, placed
/// with its 4x4 box anchored at (x, y), must land on a free position.
pub open spec fn valid_placement(b: Seq<Seq<u8>>, m: Seq<u8>, x: int, y: int) -> bool {
    forall|cx: int, cy: int|
        0 <= cx < 4 && 0 <= cy < 4 && #[trigger] mask_cell(m, cx, cy)
            ==> cell_free(b, x + cx, y + cy)
}

/// The column part of placement validity alone: every filled mask cell
/// lands inside the column range.
pub open spec fn cols_ok(m: Seq<u8>, x: int) -> bool {
    forall|cx: int, cy: int|
        0 <= cx < 4 && 0 <= cy < 4 && #[trigger] mask_cell(m, cx, cy) ==> 0 <= x + cx < 10
}

/// A valid placement in particular keeps every filled cell in column range.
pub proof fn lemma_valid_implies_cols_ok(b: Seq<Seq<u8>>, m: Seq<u8>, x: int, y: int)
    requires
        valid_placement(b, m, x, y),
    ensures
        cols_ok(m, x),
{
}

/// For a piece standing entirely above the visible board (every filled
/// cell's row is negative), validity is exactly column validity: there is
/// nothing on or below the top row to collide with.
pub proof fn lemma_above_board_valid(b: Seq<Seq<u8>>, m: Seq<u8>, x: int, y: int)
    requires
        y <= -4,
    ensures
        valid_placement(b, m, x, y) == cols_ok(m, x),
{
    if cols_ok(m, x) {
        assert forall|cx: int, cy: int|
            0 <= cx < 4 && 0 <= cy < 4 && #[trigger] mask_cell(m, cx, cy)
                implies cell_free(b, x + cx, y + cy) by {
            assert(y + cy < 0);
        }
    }
}

/// Whether the mask anchored at (x, y) covers board position (col, row).
pub open spec fn covered(m: Seq<u8>, x: int, y: int, col: int, row: int) -> bool {
    exists|cx: int, cy: int|
        0 <= cx < 4 && 0 <= cy < 4 && #[trigger] mask_cell(m, cx, cy)
            && x + cx == col && y + cy == row
}

/// The grid after locking the mask anchored at (x, y) with colour `color`:
/// every covered on-board position takes the colour, everything else keeps
/// its old value. Cells of the mask that fall outside the grid (negative
/// rows in particular) are silently dropped.
pub open spec fn locked_grid(b: Seq<Seq<u8>>, m: Seq<u8>, x: int, y: int, color: u8) -> Seq<
    Seq<u8>,
> {
    Seq::new(20, |r: int| Seq::new(10, |c: int| if covered(m, x, y, c, r) { color } else { b[r][c] }))
}

/// A full row: every one of its 10 cells is occupied.
pub open spec fn row_full_spec(row: Seq<u8>) -> bool {
    forall|c: int| 0 <= c < 10 ==> #[trigger] row[c] != 0
}

/// A row of 10 empty cells.
pub open spec fn empty_row_spec() -> Seq<u8> {
    Seq::new(10, |c: int| 0u8)
}

/// `n` empty rows.
pub open spec fn empty_rows(n: nat) -> Seq<Seq<u8>> {
    Seq::new(n, |r: int| empty_row_spec())
}

/// The rows of `rows` that are not full, kept in their original
/// top-to-bottom order.
pub open spec fn keep_rows(rows: Seq<Seq<u8>>) -> Seq<Seq<u8>>
    decreases rows.len(),
{
    if rows.len() == 0 {
        Seq::empty()
    } else if row_full_spec(rows.first()) {
        keep_rows(rows.drop_first())
    } else {
        seq![rows.first()] + keep_rows(rows.drop_first())
    }
}

/// The number of full rows of `rows`.
pub open spec fn count_full(rows: Seq<Seq<u8>>) -> nat
    decreases rows.len(),
{
    if rows.len() == 0 {
        0
    } else {
        (if row_full_spec(rows.first()) { 1nat } else { 0 }) + count_full(rows.drop_first())
    }
}

/// Clearing removes exactly the full rows: what is left is the non-full
/// rows in order, below as many fresh empty rows as were cleared.
pub open spec fn cleared_grid(b: Seq<Seq<u8>>) -> Seq<Seq<u8>>
    recommends
        grid_wf(b),
{
    empty_rows((b.len() - keep_rows(b).len()) as nat) + keep_rows(b)
}

/// The kept rows account for everything that is not full: their number
/// plus the number of full rows is the total, each kept row is not full,
/// and each kept row is one of the original rows.
pub proof fn lemma_keep_rows_props(rows: Seq<Seq<u8>>)
    ensures
        keep_rows(rows).len() + count_full(rows) == rows.len(),
        forall|i: int| 0 <= i < keep_rows(rows).len()
            ==> !row_full_spec(#[trigger] keep_rows(rows)[i]),
        forall|i: int| 0 <= i < keep_rows(rows).len()
            ==> rows.contains(#[trigger] keep_rows(rows)[i]),
    decreases rows.len(),
{
    if rows.len() == 0 {
    } else {
        lemma_keep_rows_props(rows.drop_first());
        assert forall|i: int| 0 <= i < keep_rows(rows).len()
            implies rows.contains(#[trigger] keep_rows(rows)[i]) by {
            let tail = rows.drop_first();
            if row_full_spec(rows.first()) {
                assert(tail.contains(keep_rows(rows)[i]));
                let j = choose|j: int| 0 <= j < tail.len() && tail[j] == keep_rows(rows)[i];
                assert(rows[j + 1] == keep_rows(rows)[i]);
            } else {
                if i == 0 {
                    assert(rows[0] == keep_rows(rows)[i]);
                } else {
                    assert(tail.contains(keep_rows(rows)[i]));
                    let j = choose|j: int| 0 <= j < tail.len() && tail[j] == keep_rows(rows)[i];
                    assert(rows[j + 1] == keep_rows(rows)[i]);
                }
            }
        }
    }
}

/// The grid of locked cells.
pub struct Board {
    pub cells: Vec<Vec<u8>>,
}

impl View for Board {
    type V = Seq<Seq<u8>>;

    open spec fn view(&self) -> Seq<Seq<u8>> {
        self.cells@.map_values(|row: Vec<u8>| row@)
    }
}

/// Build one empty row.
fn empty_row() -> (r: Vec<u8>)
    ensures
        r@ == empty_row_spec(),
{
    let mut row: Vec<u8> = Vec::new();
    let mut c: usize = 0;
    while c < 10
        invariant
            c <= 10,
            row@.len() == c,
            forall|i: int| 0 <= i < c ==> row@[i] == 0,
        decreases 10 - c,
    {
        row.push(0);
        c = c + 1;
    }
    assert(row@ =~= empty_row_spec());
    row
}

/// Decide whether every cell of a row is occupied.
fn row_full(row: &Vec<u8>) -> (b: bool)
    requires
        row@.len() == 10,
    ensures
        b == row_full_spec(row@),
{
    let mut c: usize = 0;
    while c < 10
        invariant
            c <= 10,
            row@.len() == 10,
            forall|i: int| 0 <= i < c ==> #[trigger] row@[i] != 0,
        decreases 10 - c,
    {
        if row[c] == 0 {
            return false;
        }
        c = c + 1;
    }
    true
}

/// Decide whether the mask anchored at (x, y) covers position (col, row).
fn mask_covers(mask: &Vec<u8>, x: i32, y: i32, col: i32, row: i32) -> (b: bool)
    requires
        mask@.len() == 16,
        x <= i32::MAX - 3,
        y <= i32::MAX - 3,
    ensures
        b == covered(mask@, x as int, y as int, col as int, row as int),
{
    let mut cy: usize = 0;
    while cy < 4
        invariant
            mask@.len() == 16,
            x <= i32::MAX - 3,
            y <= i32::MAX - 3,
            cy <= 4,
            forall|icx: int, icy: int|
                0 <= icx < 4 && 0 <= icy < cy && #[trigger] mask_cell(mask@, icx, icy)
                    ==> !(x + icx == col && y + icy == row),
        decreases 4 - cy,
    {
        let mut cx: usize = 0;
        while cx < 4
            invariant
                mask@.len() == 16,
                x <= i32::MAX - 3,
                y <= i32::MAX - 3,
                cy < 4,
                cx <= 4,
                forall|icx: int, icy: int|
                    0 <= icx < 4 && 0 <= icy < cy && #[trigger] mask_cell(mask@, icx, icy)
                        ==> !(x + icx == col && y + icy == row),
                forall|icx: int|
                    0 <= icx < cx && #[trigger] mask_cell(mask@, icx, cy as int)
                        ==> !(x + icx == col && y + cy == row),
            decreases 4 - cx,
        {
            if mask[cy * 4 + cx] != 0 {
                let bx = x + cx as i32;
                let by = y + cy as i32;
                if bx == col && by == row {
                    assert(mask_cell(mask@, cx as int, cy as int));
                    return true;
                }
            }
            assert(!(mask_cell(mask@, cx as int, cy as int) && x + cx == col && y + cy == row));
            cx = cx + 1;
        }
        cy = cy + 1;
    }
    false
}

impl Board {
    /// A well-formed board holds a 20 by 10 grid.
    pub open spec fn wf(self) -> bool {
        grid_wf(self@)
    }

    /// A fresh, fully empty board.
    pub fn new() -> (b: Board)
        ensures
            b.wf(),
            b@ == empty_rows(20),
    {
        let mut cells: Vec<Vec<u8>> = Vec::new();
        let mut r: usize = 0;
        while r < 20
            invariant
                r <= 20,
                cells@.len() == r,
                forall|i: int| 0 <= i < r ==> #[trigger] cells@[i]@ == empty_row_spec(),
            decreases 20 - r,
        {
            cells.push(empty_row());
            r = r + 1;
        }
        let b = Board { cells };
        assert(b@ =~= empty_rows(20));
        b
    }

    /// Read one cell of the visible board.
    pub fn cell(&self, row: usize, col: usize) -> (v: u8)
        requires
            self.wf(),
            row < 20,
            col < 10,
        ensures
            v == self@[row as int][col as int],
    {
        proof {
            assert(self.cells@.len() == 20);
            assert(self.cells@[row as int]@ == self@[row as int]);
        }
        self.cells[row][col]
    }

    /// Overwrite one cell of the visible board.
    pub fn set_cell(&mut self, row: usize, col: usize, v: u8)
        requires
            old(self).wf(),
            row < 20,
            col < 10,
        ensures
            final(self).wf(),
            final(self)@ == old(self)@.update(
                row as int,
                old(self)@[row as int].update(col as int, v),
            ),
    {
        proof {
            assert(self.cells@.len() == 20);
            assert(self.cells@[row as int]@ == self@[row as int]);
        }
        self.cells[row].set(col, v);
        assert(self@ =~= old(self)@.update(
            row as int,
            old(self)@[row as int].update(col as int, v),
        ));
    }

    /// Whether board position (row, col) blocks a piece cell: true outside
    /// the column range or at or below the floor, true on an occupied
    /// visible cell, and never true above the top of the board.
    pub fn is_occupied(&self, row: i32, col: i32) -> (r: bool)
        requires
            self.wf(),
        ensures
            r == !cell_free(self@, col as int, row as int),
    {
        if col < 0 || col >= BOARD_WIDTH as i32 {
            true
        } else if row >= BOARD_HEIGHT as i32 {
            true
        } else if row < 0 {
            false
        } else {
            proof {
                assert(self.cells@.len() == 20);
                assert(self.cells@[row as int]@ == self@[row as int]);
            }
            self.cells[row as usize][col as usize] != 0
        }
    }

    /// Test the mask anchored at (x, y) against the board: false as soon as
    /// a filled cell leaves the column range, reaches the floor, or lands
    /// on an occupied visible cell.
    pub fn validate_placement(&self, mask: &Vec<u8>, x: i32, y: i32) -> (ok: bool)
        requires
            self.wf(),
            mask@.len() == 16,
            x <= i32::MAX - 3,
            y <= i32::MAX - 3,
        ensures
            ok == valid_placement(self@, mask@, x as int, y as int),
    {
        let mut cy: usize = 0;
        while cy < 4
            invariant
                self.wf(),
                mask@.len() == 16,
                x <= i32::MAX - 3,
                y <= i32::MAX - 3,
                cy <= 4,
                forall|icx: int, icy: int|
                    0 <= icx < 4 && 0 <= icy < cy && #[trigger] mask_cell(mask@, icx, icy)
                        ==> cell_free(self@, x + icx, y + icy),
            decreases 4 - cy,
        {
            let mut cx: usize = 0;
            while cx < 4
                invariant
                    self.wf(),
                    mask@.len() == 16,
                    x <= i32::MAX - 3,
                    y <= i32::MAX - 3,
                    cy < 4,
                    cx <= 4,
                    forall|icx: int, icy: int|
                        0 <= icx < 4 && 0 <= icy < cy && #[trigger] mask_cell(mask@, icx, icy)
                            ==> cell_free(self@, x + icx, y + icy),
                    forall|icx: int|
                        0 <= icx < cx && #[trigger] mask_cell(mask@, icx, cy as int)
                            ==> cell_free(self@, x + icx, y + cy),
                decreases 4 - cx,
            {
                if mask[cy * 4 + cx] != 0 {
                    assert(mask_cell(mask@, cx as int, cy as int));
                    if self.is_occupied(y + cy as i32, x + cx as i32) {
                        return false;
                    }
                }
                cx = cx + 1;
            }
            cy = cy + 1;
        }
        true
    }

    /// Write the mask anchored at (x, y) into the board with the given
    /// colour. Covered positions outside the grid (negative rows in
    /// particular) are silently dropped.
    pub fn lock(&mut self, mask: &Vec<u8>, x: i32, y: i32, color: u8)
        requires
            old(self).wf(),
            mask@.len() == 16,
            x <= i32::MAX - 3,
            y <= i32::MAX - 3,
        ensures
            final(self).wf(),
            final(self)@ == locked_grid(old(self)@, mask@, x as int, y as int, color),
    {
        let target = Ghost(locked_grid(old(self)@, mask@, x as int, y as int, color));
        let mut r: usize = 0;
        while r < 20
            invariant
                self.wf(),
                mask@.len() == 16,
                x <= i32::MAX - 3,
                y <= i32::MAX - 3,
                r <= 20,
                target@ == locked_grid(old(self)@, mask@, x as int, y as int, color),
                forall|rr: int, cc: int|
                    0 <= rr < r && 0 <= cc < 10 ==> #[trigger] self@[rr][cc] == target@[rr][cc],
                forall|rr: int, cc: int|
                    r <= rr < 20 && 0 <= cc < 10
                        ==> #[trigger] self@[rr][cc] == old(self)@[rr][cc],
            decreases 20 - r,
        {
            let mut c: usize = 0;
            while c < 10
                invariant
                    self.wf(),
                    mask@.len() == 16,
                    x <= i32::MAX - 3,
                    y <= i32::MAX - 3,
                    r < 20,
                    c <= 10,
                    target@ == locked_grid(old(self)@, mask@, x as int, y as int, color),
                    forall|rr: int, cc: int|
                        0 <= rr < r && 0 <= cc < 10 ==> #[trigger] self@[rr][cc] == target@[rr][cc],
                    forall|cc: int| 0 <= cc < c ==> #[trigger] self@[r as int][cc] == target@[r as int][cc],
                    forall|cc: int| c <= cc < 10 ==> #[trigger] self@[r as int][cc] == old(self)@[r as int][cc],
                    forall|rr: int, cc: int|
                        r < rr < 20 && 0 <= cc < 10
                            ==> #[trigger] self@[rr][cc] == old(self)@[rr][cc],
                decreases 10 - c,
            {
                if mask_covers(mask, x, y, c as i32, r as i32) {
                    self.set_cell(r, c, color);
                } else {
                    assert(target@[r as int][c as int] == old(self)@[r as int][c as int]);
                }
                c = c + 1;
            }
            r = r + 1;
        }
        assert forall|rr: int| 0 <= rr < 20 implies self@[rr] =~= target@[rr] by {}
        assert(self@ =~= target@);
    }

    /// Scan the rows bottom-to-top; remove each full row by shifting every
    /// row above it down one step and inserting a fresh empty row at the
    /// top, resuming at the same index after a shift. Returns how many rows
    /// were removed.
    pub fn clear_full_rows(&mut self) -> (n: usize)
        requires
            old(self).wf(),
        ensures
            final(self).wf(),
            final(self)@ == cleared_grid(old(self)@),
            n == count_full(old(self)@),
            n as int == 20 - keep_rows(old(self)@).len(),
    {
        proof {
            lemma_keep_rows_props(old(self)@);
        }
        let mut n: usize = 0;
        let mut y: usize = 20;
        let ghost mut j: int = 20;
        proof {
            assert(old(self)@.skip(20) =~= Seq::<Seq<u8>>::empty());
            assert(old(self)@.take(20) =~= old(self)@);
            assert(self@ =~= empty_rows(0) + old(self)@.take(20) + keep_rows(old(self)@.skip(20)));
        }
        while y > 0
            invariant
                grid_wf(old(self)@),
                self.wf(),
                0 <= j <= 20,
                n + j + keep_rows(old(self)@.skip(j)).len() == 20,
                j > 0 ==> y == n + j,
                j == 0 ==> y <= n,
                y <= 20,
                n <= 20,
                self@ == empty_rows(n as nat) + old(self)@.take(j) + keep_rows(old(self)@.skip(j)),
            decreases y + j,
        {
            let idx = y - 1;
            proof {
                assert(self.cells@.len() == 20);
                assert(self.cells@[idx as int]@ == self@[idx as int]);
            }
            let full = row_full(&self.cells[idx]);
            if full {
                proof {
                    if j == 0 {
                        assert(self@[idx as int] == empty_row_spec());
                        assert(self@[idx as int][0] == 0);
                        assert(false);
                    }
                    assert(self@[idx as int] == old(self)@[j - 1]);
                }
                let ghost prev = self@;
                let _removed = self.cells.remove(idx);
                self.cells.insert(0, empty_row());
                proof {
                    assert(self@ =~= seq![empty_row_spec()] + prev.remove(idx as int));
                    let tail = old(self)@.skip(j - 1);
                    assert(tail.first() == old(self)@[j - 1]);
                    assert(row_full_spec(tail.first()));
                    assert(tail.drop_first() =~= old(self)@.skip(j));
                    assert(keep_rows(old(self)@.skip(j - 1)) == keep_rows(old(self)@.skip(j)));
                    assert(self@ =~= empty_rows((n + 1) as nat) + old(self)@.take(j - 1)
                        + keep_rows(old(self)@.skip(j - 1)));
                    j = j - 1;
                }
                n = n + 1;
            } else {
                proof {
                    if j > 0 {
                        assert(self@[idx as int] == old(self)@[j - 1]);
                        let tail = old(self)@.skip(j - 1);
                        assert(tail.first() == old(self)@[j - 1]);
                        assert(!row_full_spec(tail.first()));
                        assert(tail.drop_first() =~= old(self)@.skip(j));
                        assert(keep_rows(old(self)@.skip(j - 1)) == seq![old(self)@[j - 1]]
                            + keep_rows(old(self)@.skip(j)));
                        assert(self@ =~= empty_rows(n as nat) + old(self)@.take(j - 1)
                            + keep_rows(old(self)@.skip(j - 1)));
                        j = j - 1;
                    }
                }
                y = idx;
            }
        }
        proof {
            assert(j == 0);
            assert(old(self)@.skip(0) =~= old(self)@);
            assert(old(self)@.take(0) =~= Seq::<Seq<u8>>::empty());
            assert(self@ =~= empty_rows(n as nat) + keep_rows(old(self)@));
            assert(self@ =~= cleared_grid(old(self)@));
        }
        n
    }
}

} // verus!
