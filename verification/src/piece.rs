//! The single active falling piece: its kind, orientation, current 4x4
//! occupancy mask and anchor position (the mask's top-left corner in board
//! coordinates).

use vstd::prelude::*;
use crate::mask::{mask_nonempty, mask_wf};
use crate::shapes::{base_mask, base_mask_spec, lemma_base_mask_wf};
use crate::BOARD_WIDTH;

verus! {

/// The active piece.
pub struct Piece {
    /// 0 = I, 1 = O, 2 = T, 3 = S, 4 = Z, 5 = J, 6 = L.
    pub kind: u8,
    /// Orientation index, clockwise quarter turns from spawn: 0..4.
    pub rotation: u8,
    /// Board column of the mask's top-left corner.
    pub x: i32,
    /// Board row of the mask's top-left corner.
    pub y: i32,
    /// Current 4x4 occupancy mask, row-major, cells 0 or 1.
    pub mask: Vec<u8>,
}

impl Piece {
    /// A well-formed piece: a known kind and orientation, a well-formed,
    /// non-empty mask, and an anchor within the narrow band positions can
    /// ever reach (every committed placement keeps all filled cells in
    /// column range and above the floor, which pins the anchor down, and a
    /// piece standing entirely above the board can never kick upward).
    pub open spec fn wf(self) -> bool {
        &&& self.kind < 7
        &&& self.rotation < 4
        &&& mask_wf(self.mask@)
        &&& mask_nonempty(self.mask@)
        &&& -3 <= self.x <= 9
        &&& -5 <= self.y <= 19
    }

    /// A freshly spawned piece of the given kind: canonical mask,
    /// orientation 0, anchored at the spawn position.
    pub open spec fn is_spawn(self, kind: u8) -> bool {
        &&& self.kind == kind
        &&& self.rotation == 0
        &&& self.x == 3
        &&& self.y == 0
        &&& self.mask@ == base_mask_spec(kind as int)
    }

    /// Construct the spawn piece of the given kind.
    pub fn new(kind: u8) -> (p: Piece)
        requires
            kind < 7,
        ensures
            p.wf(),
            p.is_spawn(kind),
    {
        proof {
            lemma_base_mask_wf(kind as int);
        }
        Piece {
            kind,
            rotation: 0,
            x: (BOARD_WIDTH / 2 - 2) as i32,
            y: 0,
            mask: base_mask(kind),
        }
    }
}

} // verus!
