//! The 4x4 occupancy mask of a falling piece, stored row-major as 16 cells
//! holding 0 (empty) or 1 (filled), and the pure geometric rotation of such
//! a mask, independent of any board.

use vstd::prelude::*;

verus! {

/// A well-formed mask has exactly 16 cells, each 0 or 1.
pub open spec fn mask_wf(m: Seq<u8>) -> bool {
    &&& m.len() == 16
    &&& forall|i: int| 0 <= i < 16 ==> m[i] == 0 || m[i] == 1
}

/// Whether the mask cell at column `cx`, row `cy` is filled.
pub open spec fn mask_cell(m: Seq<u8>, cx: int, cy: int) -> bool
    recommends
        m.len() == 16,
        0 <= cx < 4,
        0 <= cy < 4,
{
    m[cy * 4 + cx] != 0
}

/// At least one cell of the mask is filled.
pub open spec fn mask_nonempty(m: Seq<u8>) -> bool {
    exists|cx: int, cy: int| 0 <= cx < 4 && 0 <= cy < 4 && mask_cell(m, cx, cy)
}

/// The mask rotated a quarter turn clockwise: the cell at (cx, cy) of the
/// result is the cell at (cy, 3 - cx) of the source, written out as 0 or 1.
pub open spec fn rot_cw(m: Seq<u8>) -> Seq<u8>
    recommends
        m.len() == 16,
{
    Seq::new(16, |i: int| if m[(3 - i % 4) * 4 + i / 4] != 0 { 1u8 } else { 0u8 })
}

/// The mask rotated a quarter turn counter-clockwise: the cell at (cx, cy)
/// of the result is the cell at (3 - cy, cx) of the source.
pub open spec fn rot_ccw(m: Seq<u8>) -> Seq<u8>
    recommends
        m.len() == 16,
{
    Seq::new(16, |i: int| if m[(i % 4) * 4 + (3 - i / 4)] != 0 { 1u8 } else { 0u8 })
}

/// The rotated mask to use when turning in the given direction.
pub open spec fn rot_dir(m: Seq<u8>, clockwise: bool) -> Seq<u8> {
    if clockwise {
        rot_cw(m)
    } else {
        rot_ccw(m)
    }
}

/// Cell-level reading of the clockwise rotation.
pub proof fn lemma_rot_cw_cell(m: Seq<u8>, cx: int, cy: int)
    requires
        m.len() == 16,
        0 <= cx < 4,
        0 <= cy < 4,
    ensures
        mask_cell(rot_cw(m), cx, cy) == mask_cell(m, cy, 3 - cx),
{
    let i = cy * 4 + cx;
    assert(i % 4 == cx && i / 4 == cy);
}

/// Cell-level reading of the counter-clockwise rotation.
pub proof fn lemma_rot_ccw_cell(m: Seq<u8>, cx: int, cy: int)
    requires
        m.len() == 16,
        0 <= cx < 4,
        0 <= cy < 4,
    ensures
        mask_cell(rot_ccw(m), cx, cy) == mask_cell(m, 3 - cy, cx),
{
    let i = cy * 4 + cx;
    assert(i % 4 == cx && i / 4 == cy);
}

/// Rotation in either direction yields a well-formed mask.
pub proof fn lemma_rot_wf(m: Seq<u8>, clockwise: bool)
    requires
        m.len() == 16,
    ensures
        mask_wf(rot_dir(m, clockwise)),
{
}

/// Rotation in either direction keeps the mask non-empty.
pub proof fn lemma_rot_nonempty(m: Seq<u8>, clockwise: bool)
    requires
        m.len() == 16,
        mask_nonempty(m),
    ensures
        mask_nonempty(rot_dir(m, clockwise)),
{
    let (cx0, cy0) = choose|cx: int, cy: int|
        0 <= cx < 4 && 0 <= cy < 4 && mask_cell(m, cx, cy);
    if clockwise {
        lemma_rot_cw_cell(m, 3 - cy0, cx0);
        assert(mask_cell(rot_cw(m), 3 - cy0, cx0));
    } else {
        lemma_rot_ccw_cell(m, cy0, 3 - cx0);
        assert(mask_cell(rot_ccw(m), cy0, 3 - cx0));
    }
}

/// Build the rotation of a 16-cell mask.
pub fn rotate_mask(mask: &Vec<u8>, clockwise: bool) -> (r: Vec<u8>)
    requires
        mask@.len() == 16,
    ensures
        r@ == rot_dir(mask@, clockwise),
{
    let mut out: Vec<u8> = Vec::new();
    let mut i: usize = 0;
    while i < 16
        invariant
            mask@.len() == 16,
            i <= 16,
            out@.len() == i,
            forall|j: int| 0 <= j < i ==> out@[j] == rot_dir(mask@, clockwise)[j],
        decreases 16 - i,
    {
        let col: usize = i % 4;
        let row: usize = i / 4;
        let src: usize = if clockwise {
            (3 - col) * 4 + row
        } else {
            col * 4 + (3 - row)
        };
        let v: u8 = if mask[src] != 0 { 1 } else { 0 };
        out.push(v);
        i = i + 1;
    }
    assert(out@ =~= rot_dir(mask@, clockwise));
    out
}

} // verus!
