//! Static piece data: the seven tetromino kinds, their canonical rotation-0
//! occupancy masks, their colour indices, and the two wall-kick offset
//! tables (one for the I piece, one shared by J, L, S, T and Z).

use vstd::prelude::*;
use crate::mask::{mask_cell, mask_nonempty, mask_wf};

verus! {

/// Number of distinct piece kinds. Kinds are numbered
/// 0 = I, 1 = O, 2 = T, 3 = S, 4 = Z, 5 = J, 6 = L.
pub const PIECE_KINDS: u8 = 7;

/// Whether the canonical rotation-0 mask of piece kind `k` fills the cell
/// at column `cx`, row `cy` of its 4x4 bounding box.
pub open spec fn base_cell(k: int, cx: int, cy: int) -> bool {
    if k == 0 {
        cy == 1
    } else if k == 1 {
        (cy == 0 || cy == 1) && (cx == 1 || cx == 2)
    } else if k == 2 {
        (cy == 0 && cx == 1) || (cy == 1 && cx <= 2)
    } else if k == 3 {
        (cy == 0 && (cx == 1 || cx == 2)) || (cy == 1 && (cx == 0 || cx == 1))
    } else if k == 4 {
        (cy == 0 && (cx == 0 || cx == 1)) || (cy == 1 && (cx == 1 || cx == 2))
    } else if k == 5 {
        (cy == 0 && cx == 0) || (cy == 1 && cx <= 2)
    } else if k == 6 {
        (cy == 0 && cx == 2) || (cy == 1 && cx <= 2)
    } else {
        false
    }
}

/// The canonical rotation-0 occupancy mask of piece kind `k`, flattened
/// row-major into 16 cells of 0 or 1.
pub open spec fn base_mask_spec(k: int) -> Seq<u8> {
    Seq::new(16, |i: int| if base_cell(k, i % 4, i / 4) { 1u8 } else { 0u8 })
}

/// The canonical mask of every kind is well-formed and non-empty.
pub proof fn lemma_base_mask_wf(k: int)
    requires
        0 <= k < 7,
    ensures
        mask_wf(base_mask_spec(k)),
        mask_nonempty(base_mask_spec(k)),
{
    assert(mask_cell(base_mask_spec(k), 1, 1)) by {
        assert(base_cell(k, 1, 1));
        assert(base_mask_spec(k)[5] == 1);
    }
}

/// Build the canonical rotation-0 mask of piece kind `kind`.
pub fn base_mask(kind: u8) -> (r: Vec<u8>)
    requires
        kind < 7,
    ensures
        r@ == base_mask_spec(kind as int),
{
    let mut out: Vec<u8> = Vec::new();
    let mut i: usize = 0;
    while i < 16
        invariant
            kind < 7,
            i <= 16,
            out@.len() == i,
            forall|j: int| 0 <= j < i ==> out@[j] == base_mask_spec(kind as int)[j],
        decreases 16 - i,
    {
        let cx: usize = i % 4;
        let cy: usize = i / 4;
        let filled: bool = match kind {
            0 => cy == 1,
            1 => (cy == 0 || cy == 1) && (cx == 1 || cx == 2),
            2 => (cy == 0 && cx == 1) || (cy == 1 && cx <= 2),
            3 => (cy == 0 && (cx == 1 || cx == 2)) || (cy == 1 && (cx == 0 || cx == 1)),
            4 => (cy == 0 && (cx == 0 || cx == 1)) || (cy == 1 && (cx == 1 || cx == 2)),
            5 => (cy == 0 && cx == 0) || (cy == 1 && cx <= 2),
            _ => (cy == 0 && cx == 2) || (cy == 1 && cx <= 2),
        };
        assert(filled == base_cell(kind as int, cx as int, cy as int));
        let v: u8 = if filled { 1 } else { 0 };
        out.push(v);
        i = i + 1;
    }
    assert(out@ =~= base_mask_spec(kind as int));
    out
}

/// The colour index written into the board for piece kind `k`: kinds are
/// numbered from 0 while 0 marks an empty board cell, so kind `k` locks
/// as `k + 1`.
pub open spec fn color_of(k: int) -> int {
    k + 1
}

/// The column component of wall-kick candidate `idx` for source row `row`
/// of the kick table (`ipiece` selects the I-piece table, otherwise the
/// table shared by J, L, S, T and Z).
pub open spec fn kick_dx(ipiece: bool, row: int, idx: int) -> int
    recommends
        0 <= row < 4,
        0 <= idx < 5,
{
    if ipiece {
        if row == 0 {
            if idx == 0 { 0 } else if idx == 1 { -2 } else if idx == 2 { 1 }
            else if idx == 3 { -2 } else { 1 }
        } else if row == 1 {
            if idx == 0 { 0 } else if idx == 1 { -1 } else if idx == 2 { 2 }
            else if idx == 3 { -1 } else { 2 }
        } else if row == 2 {
            if idx == 0 { 0 } else if idx == 1 { 2 } else if idx == 2 { -1 }
            else if idx == 3 { 2 } else { -1 }
        } else {
            if idx == 0 { 0 } else if idx == 1 { 1 } else if idx == 2 { -2 }
            else if idx == 3 { 1 } else { -2 }
        }
    } else {
        if row == 0 {
            if idx == 0 { 0 } else if idx == 1 { -1 } else if idx == 2 { -1 }
            else if idx == 3 { 0 } else { -1 }
        } else if row == 1 {
            if idx == 0 { 0 } else if idx == 1 { 1 } else if idx == 2 { 1 }
            else if idx == 3 { 0 } else { 1 }
        } else if row == 2 {
            if idx == 0 { 0 } else if idx == 1 { 1 } else if idx == 2 { 1 }
            else if idx == 3 { 0 } else { 1 }
        } else {
            if idx == 0 { 0 } else if idx == 1 { -1 } else if idx == 2 { -1 }
            else if idx == 3 { 0 } else { -1 }
        }
    }
}

/// The row component of wall-kick candidate `idx`, in the kick table's own
/// axis (positive means upward on the board; the resolver subtracts it).
pub open spec fn kick_dy(ipiece: bool, row: int, idx: int) -> int
    recommends
        0 <= row < 4,
        0 <= idx < 5,
{
    if ipiece {
        if row == 0 {
            if idx == 0 { 0 } else if idx == 1 { 0 } else if idx == 2 { 0 }
            else if idx == 3 { 1 } else { -2 }
        } else if row == 1 {
            if idx == 0 { 0 } else if idx == 1 { 0 } else if idx == 2 { 0 }
            else if idx == 3 { -2 } else { 1 }
        } else if row == 2 {
            if idx == 0 { 0 } else if idx == 1 { 0 } else if idx == 2 { 0 }
            else if idx == 3 { -1 } else { 2 }
        } else {
            if idx == 0 { 0 } else if idx == 1 { 0 } else if idx == 2 { 0 }
            else if idx == 3 { 2 } else { -1 }
        }
    } else {
        if row == 0 {
            if idx == 0 { 0 } else if idx == 1 { 0 } else if idx == 2 { -1 }
            else if idx == 3 { 2 } else { 2 }
        } else if row == 1 {
            if idx == 0 { 0 } else if idx == 1 { 0 } else if idx == 2 { 1 }
            else if idx == 3 { -2 } else { -2 }
        } else if row == 2 {
            if idx == 0 { 0 } else if idx == 1 { 0 } else if idx == 2 { -1 }
            else if idx == 3 { 2 } else { 2 }
        } else {
            if idx == 0 { 0 } else if idx == 1 { 0 } else if idx == 2 { 1 }
            else if idx == 3 { -2 } else { -2 }
        }
    }
}

/// Look up wall-kick candidate `idx` for table row `row`.
pub fn kick_offset(ipiece: bool, row: u8, idx: u8) -> (r: (i32, i32))
    requires
        row < 4,
        idx < 5,
    ensures
        r.0 == kick_dx(ipiece, row as int, idx as int),
        r.1 == kick_dy(ipiece, row as int, idx as int),
{
    if ipiece {
        match (row, idx) {
            (0, 0) => (0, 0), (0, 1) => (-2, 0), (0, 2) => (1, 0), (0, 3) => (-2, 1), (0, _) => (1, -2),
            (1, 0) => (0, 0), (1, 1) => (-1, 0), (1, 2) => (2, 0), (1, 3) => (-1, -2), (1, _) => (2, 1),
            (2, 0) => (0, 0), (2, 1) => (2, 0), (2, 2) => (-1, 0), (2, 3) => (2, -1), (2, _) => (-1, 2),
            (_, 0) => (0, 0), (_, 1) => (1, 0), (_, 2) => (-2, 0), (_, 3) => (1, 2), (_, _) => (-2, -1),
        }
    } else {
        match (row, idx) {
            (0, 0) => (0, 0), (0, 1) => (-1, 0), (0, 2) => (-1, -1), (0, 3) => (0, 2), (0, _) => (-1, 2),
            (1, 0) => (0, 0), (1, 1) => (1, 0), (1, 2) => (1, 1), (1, 3) => (0, -2), (1, _) => (1, -2),
            (2, 0) => (0, 0), (2, 1) => (1, 0), (2, 2) => (1, -1), (2, 3) => (0, 2), (2, _) => (1, 2),
            (_, 0) => (0, 0), (_, 1) => (-1, 0), (_, 2) => (-1, 1), (_, 3) => (0, -2), (_, _) => (-1, -2),
        }
    }
}

/// The first wall-kick candidate of every table row is the null offset.
pub proof fn lemma_kick_first_is_zero(ipiece: bool, row: int)
    requires
        0 <= row < 4,
    ensures
        kick_dx(ipiece, row, 0) == 0,
        kick_dy(ipiece, row, 0) == 0,
{
}

/// Every wall-kick candidate with a vertical component is preceded, in the
/// same table row, by a purely horizontal candidate with the same column
/// offset. (So a rotation of a piece standing entirely above the visible
/// board can never commit an upward kick: the earlier candidate tests the
/// same columns and would have succeeded first.)
pub proof fn lemma_kick_cover(ipiece: bool, row: int, idx: int)
    requires
        0 <= row < 4,
        0 <= idx < 5,
        kick_dy(ipiece, row, idx) != 0,
    ensures
        exists|i: int|
            0 <= i < idx && kick_dx(ipiece, row, i) == kick_dx(ipiece, row, idx)
                && kick_dy(ipiece, row, i) == 0,
{
    let w: int = if ipiece {
        if idx == 3 { 1 } else { 2 }
    } else {
        if idx == 3 { 0 } else { 1 }
    };
    assert(0 <= w < idx && kick_dx(ipiece, row, w) == kick_dx(ipiece, row, idx)
        && kick_dy(ipiece, row, w) == 0);
}

/// Kick offsets are small: both components lie in [-2, 2].
pub proof fn lemma_kick_bounds(ipiece: bool, row: int, idx: int)
    requires
        0 <= row < 4,
        0 <= idx < 5,
    ensures
        -2 <= kick_dx(ipiece, row, idx) <= 2,
        -2 <= kick_dy(ipiece, row, idx) <= 2,
{
}

} // verus!
