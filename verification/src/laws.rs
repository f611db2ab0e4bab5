//! The library-wide laws, stated over the same spec functions the
//! operation contracts use and proved from them.

use vstd::prelude::*;
use crate::award;
use crate::board::{
    cell_free, cleared_grid, count_full, empty_rows, grid_wf, keep_rows,
    lemma_keep_rows_props, locked_grid, row_full_spec, valid_placement,
};
use crate::mask::{lemma_rot_ccw_cell, lemma_rot_cw_cell, mask_cell, mask_wf, rot_dir};
use crate::session::{
    add_score, kick_row, lock_advance_outcome, next_rotation, rot_cand_valid, rot_cand_x,
    rot_cand_y, rotation_outcome, GameState,
};
use crate::shapes::lemma_kick_first_is_zero;

verus! {

/// Placement validation rejects any mask whose filled cell (cx, cy) would
/// land outside the column range or at or below the floor, whatever the
/// board holds.
pub proof fn lemma_validate_rejects_out_of_bounds(
    b: Seq<Seq<u8>>,
    m: Seq<u8>,
    x: int,
    y: int,
    cx: int,
    cy: int,
)
    requires
        0 <= cx < 4,
        0 <= cy < 4,
        mask_cell(m, cx, cy),
        x + cx < 0 || x + cx >= 10 || y + cy >= 20,
    ensures
        !valid_placement(b, m, x, y),
{
    assert(!cell_free(b, x + cx, y + cy));
}

/// Rotating a mask four quarter turns in the same direction returns it
/// exactly to its original cells.
pub proof fn lemma_four_rotations_mask(m: Seq<u8>, clockwise: bool)
    requires
        mask_wf(m),
    ensures
        rot_dir(rot_dir(rot_dir(rot_dir(m, clockwise), clockwise), clockwise), clockwise) == m,
{
    let m1 = rot_dir(m, clockwise);
    let m2 = rot_dir(m1, clockwise);
    let m3 = rot_dir(m2, clockwise);
    let m4 = rot_dir(m3, clockwise);
    assert forall|i: int| 0 <= i < 16 implies m4[i] == m[i] by {
        let cx = i % 4;
        let cy = i / 4;
        if clockwise {
            lemma_rot_cw_cell(m3, cx, cy);
            lemma_rot_cw_cell(m2, cy, 3 - cx);
            lemma_rot_cw_cell(m1, 3 - cx, 3 - cy);
            lemma_rot_cw_cell(m, 3 - cy, cx);
        } else {
            lemma_rot_ccw_cell(m3, cx, cy);
            lemma_rot_ccw_cell(m2, 3 - cy, cx);
            lemma_rot_ccw_cell(m1, 3 - cx, 3 - cy);
            lemma_rot_ccw_cell(m, cy, 3 - cx);
        }
        assert(mask_cell(m4, cx, cy) == mask_cell(m, cx, cy));
        assert(m4[cy * 4 + cx] == (if mask_cell(m4, cx, cy) { 1u8 } else { 0u8 }));
        assert(i == cy * 4 + cx);
    }
    assert(m4 =~= m);
}

/// Four quarter turns in the same direction return the orientation index
/// to its starting value.
pub proof fn lemma_four_rotations_orientation(r: int, clockwise: bool)
    requires
        0 <= r < 4,
    ensures
        next_rotation(
            next_rotation(next_rotation(next_rotation(r, clockwise), clockwise), clockwise),
            clockwise,
        ) == r,
{
}

/// A rotation attempt whose null-offset candidate validates commits that
/// candidate: the anchor stays put, the mask takes the quarter turn, and
/// the orientation advances.
pub proof fn lemma_rotation_without_kick(s: GameState, t: GameState, clockwise: bool)
    requires
        !s.game_over,
        s.piece.rotation < 4,
        rotation_outcome(s, t, clockwise),
        rot_cand_valid(s, clockwise, 0),
    ensures
        t.board == s.board,
        t.score == s.score,
        t.game_over == s.game_over,
        t.piece.kind == s.piece.kind,
        t.piece.rotation == next_rotation(s.piece.rotation as int, clockwise),
        t.piece.mask@ == rot_dir(s.piece.mask@, clockwise),
        t.piece.x == s.piece.x,
        t.piece.y == s.piece.y,
{
    let k = choose|k: int|
        {
            &&& 0 <= k < 5
            &&& rot_cand_valid(s, clockwise, k)
            &&& forall|m: int| 0 <= m < k ==> !rot_cand_valid(s, clockwise, m)
            &&& t.piece.kind == s.piece.kind
            &&& t.piece.rotation == next_rotation(s.piece.rotation as int, clockwise)
            &&& t.piece.mask@ == rot_dir(s.piece.mask@, clockwise)
            &&& t.piece.x == rot_cand_x(s, clockwise, k)
            &&& t.piece.y == rot_cand_y(s, clockwise, k)
        };
    assert(k == 0);
    lemma_kick_first_is_zero(s.piece.kind == 0, kick_row(s.piece.rotation as int, clockwise));
}

/// Rotating four times in the same direction, with the null-offset
/// candidate validating every time (as it does on an empty board away
/// from the walls), returns the piece to its original mask, orientation
/// and anchor, and leaves board, score and flag untouched.
pub proof fn lemma_four_rotations_identity(
    s0: GameState,
    s1: GameState,
    s2: GameState,
    s3: GameState,
    s4: GameState,
    clockwise: bool,
)
    requires
        s0.wf(),
        !s0.game_over,
        rotation_outcome(s0, s1, clockwise),
        rot_cand_valid(s0, clockwise, 0),
        rotation_outcome(s1, s2, clockwise),
        rot_cand_valid(s1, clockwise, 0),
        rotation_outcome(s2, s3, clockwise),
        rot_cand_valid(s2, clockwise, 0),
        rotation_outcome(s3, s4, clockwise),
        rot_cand_valid(s3, clockwise, 0),
    ensures
        s4.piece.mask@ == s0.piece.mask@,
        s4.piece.rotation == s0.piece.rotation,
        s4.piece.x == s0.piece.x,
        s4.piece.y == s0.piece.y,
        s4.piece.kind == s0.piece.kind,
        s4.board == s0.board,
        s4.score == s0.score,
        s4.game_over == s0.game_over,
{
    lemma_rotation_without_kick(s0, s1, clockwise);
    lemma_rotation_without_kick(s1, s2, clockwise);
    lemma_rotation_without_kick(s2, s3, clockwise);
    lemma_rotation_without_kick(s3, s4, clockwise);
    lemma_four_rotations_mask(s0.piece.mask@, clockwise);
    lemma_four_rotations_orientation(s0.piece.rotation as int, clockwise);
}

/// Locking and advancing removes exactly the rows of the locked grid that
/// were full, keeps the remaining rows in their top-to-bottom order below
/// as many fresh empty rows, and every kept row is a non-full row of the
/// locked grid.
pub proof fn lemma_lock_then_clear_exact(b: Seq<Seq<u8>>, m: Seq<u8>, x: int, y: int, color: u8)
    requires
        grid_wf(b),
    ensures
        cleared_grid(locked_grid(b, m, x, y, color)) == empty_rows(
            count_full(locked_grid(b, m, x, y, color)),
        ) + keep_rows(locked_grid(b, m, x, y, color)),
        forall|i: int|
            0 <= i < keep_rows(locked_grid(b, m, x, y, color)).len()
                ==> !row_full_spec(#[trigger] keep_rows(locked_grid(b, m, x, y, color))[i]),
        forall|i: int|
            0 <= i < keep_rows(locked_grid(b, m, x, y, color)).len()
                ==> locked_grid(b, m, x, y, color).contains(
                #[trigger] keep_rows(locked_grid(b, m, x, y, color))[i],
            ),
{
    let lg = locked_grid(b, m, x, y, color);
    lemma_keep_rows_props(lg);
    assert(lg.len() == 20);
}

/// A lock event that completes exactly two full rows adds exactly 300 to
/// the score (whatever else the board holds), as long as the score is not
/// within 300 of the u32 ceiling.
pub proof fn lemma_double_clear_scores_300(
    s: GameState,
    t: GameState,
    kind: u8,
    px: int,
    py: int,
)
    requires
        lock_advance_outcome(s, t, kind, px, py),
        count_full(locked_grid(s.board@, s.piece.mask@, px, py, (s.piece.kind + 1) as u8)) == 2,
        s.score + 300 <= u32::MAX,
    ensures
        t.score == s.score + 300,
{
    assert(award(2) == 300);
}

/// A lock event that completes no full row leaves the score exactly
/// unchanged.
pub proof fn lemma_no_clear_scores_nothing(s: GameState, t: GameState, kind: u8, px: int, py: int)
    requires
        lock_advance_outcome(s, t, kind, px, py),
        count_full(locked_grid(s.board@, s.piece.mask@, px, py, (s.piece.kind + 1) as u8)) == 0,
    ensures
        t.score == s.score,
{
    assert(award(0) == 0);
    assert(add_score(s.score as int, 0) == s.score as int);
}

} // verus!
