//! The game session: board, active piece, score and terminal flag, with
//! the discrete intents the presentation shell forwards (move, rotate with
//! wall-kick resolution, soft drop, hard drop, gravity tick, restart).

use vstd::prelude::*;
use crate::award;
use crate::board::{
    cell_free, cleared_grid, count_full, empty_rows, lemma_above_board_valid,
    lemma_valid_implies_cols_ok, locked_grid, valid_placement, Board,
};
use crate::line_award;
use crate::mask::{
    lemma_rot_nonempty, lemma_rot_wf, mask_cell, mask_nonempty, rot_dir, rotate_mask,
};
use crate::piece::Piece;
use crate::shapes::{
    base_mask_spec, kick_dx, kick_dy, kick_offset, lemma_kick_bounds, lemma_kick_cover,
};

verus! {

/// A valid placement with a non-empty mask pins the anchor to a narrow
/// band: every filled cell sits in column range and above the floor.
pub proof fn lemma_valid_bounds(b: Seq<Seq<u8>>, m: Seq<u8>, x: int, y: int)
    requires
        valid_placement(b, m, x, y),
        mask_nonempty(m),
    ensures
        -3 <= x <= 9,
        y <= 19,
{
    let (cx, cy) = choose|cx: int, cy: int|
        0 <= cx < 4 && 0 <= cy < 4 && mask_cell(m, cx, cy);
    assert(cell_free(b, x + cx, y + cy));
}

/// The orientation reached from `r` by one quarter turn.
pub open spec fn next_rotation(r: int, clockwise: bool) -> int {
    if clockwise {
        (r + 1) % 4
    } else {
        (r + 3) % 4
    }
}

/// The kick-table row used for a turn: the pre-rotation orientation for a
/// clockwise turn, the post-rotation orientation for a counter-clockwise
/// one.
pub open spec fn kick_row(r: int, clockwise: bool) -> int {
    if clockwise {
        r
    } else {
        next_rotation(r, clockwise)
    }
}

/// The column offset actually applied for kick candidate `k`: the table
/// value, negated for a counter-clockwise turn.
pub open spec fn eff_dx(ipiece: bool, row: int, k: int, clockwise: bool) -> int {
    if clockwise {
        kick_dx(ipiece, row, k)
    } else {
        -kick_dx(ipiece, row, k)
    }
}

/// The row offset actually applied for kick candidate `k` (the kick
/// table's vertical axis is inverted relative to board rows, so it is
/// subtracted from the anchor row).
pub open spec fn eff_dy(ipiece: bool, row: int, k: int, clockwise: bool) -> int {
    if clockwise {
        kick_dy(ipiece, row, k)
    } else {
        -kick_dy(ipiece, row, k)
    }
}

/// The anchor column tested by kick candidate `k` of state `s`.
pub open spec fn rot_cand_x(s: GameState, clockwise: bool, k: int) -> int {
    s.piece.x + eff_dx(s.piece.kind == 0, kick_row(s.piece.rotation as int, clockwise), k, clockwise)
}

/// The anchor row tested by kick candidate `k` of state `s`.
pub open spec fn rot_cand_y(s: GameState, clockwise: bool, k: int) -> int {
    s.piece.y - eff_dy(s.piece.kind == 0, kick_row(s.piece.rotation as int, clockwise), k, clockwise)
}

/// Whether kick candidate `k` of a turn of `s` validates: the rotated mask
/// fits at the offset anchor.
pub open spec fn rot_cand_valid(s: GameState, clockwise: bool, k: int) -> bool {
    valid_placement(
        s.board@,
        rot_dir(s.piece.mask@, clockwise),
        rot_cand_x(s, clockwise, k),
        rot_cand_y(s, clockwise, k),
    )
}

/// What a rotation attempt does: nothing in the terminal state; otherwise
/// board, score and flag are untouched, and either some candidate `k`
/// validates with every earlier candidate failing and the piece commits
/// the rotated mask, the offset anchor and the next orientation, or all
/// five candidates fail and the piece is left completely unchanged.
pub open spec fn rotation_outcome(s: GameState, t: GameState, clockwise: bool) -> bool {
    if s.game_over {
        t == s
    } else {
        &&& t.board == s.board
        &&& t.score == s.score
        &&& t.game_over == s.game_over
        &&& if exists|k: int| 0 <= k < 5 && rot_cand_valid(s, clockwise, k) {
            exists|k: int|
                {
                    &&& 0 <= k < 5
                    &&& rot_cand_valid(s, clockwise, k)
                    &&& forall|m: int| 0 <= m < k ==> !rot_cand_valid(s, clockwise, m)
                    &&& t.piece.kind == s.piece.kind
                    &&& t.piece.rotation == next_rotation(s.piece.rotation as int, clockwise)
                    &&& t.piece.mask@ == rot_dir(s.piece.mask@, clockwise)
                    &&& t.piece.x == rot_cand_x(s, clockwise, k)
                    &&& t.piece.y == rot_cand_y(s, clockwise, k)
                }
        } else {
            t.piece == s.piece
        }
    }
}

/// What a single-step translation by (dx, dy) does: nothing in the
/// terminal state; otherwise the shifted anchor is committed exactly when
/// the unrotated mask validates there, and everything else is untouched.
pub open spec fn shift_outcome(s: GameState, t: GameState, dx: int, dy: int) -> bool {
    &&& t.board == s.board
    &&& t.score == s.score
    &&& t.game_over == s.game_over
    &&& t.piece.kind == s.piece.kind
    &&& t.piece.rotation == s.piece.rotation
    &&& t.piece.mask == s.piece.mask
    &&& if !s.game_over && valid_placement(s.board@, s.piece.mask@, s.piece.x + dx, s.piece.y + dy) {
        t.piece.x == s.piece.x + dx && t.piece.y == s.piece.y + dy
    } else {
        t.piece.x == s.piece.x && t.piece.y == s.piece.y
    }
}

/// What spawning a piece of the given kind does: board and score are
/// untouched, the active piece is replaced by the spawn piece, and the
/// session becomes terminal exactly when it already was or the spawn
/// placement is invalid.
pub open spec fn spawn_outcome(s: GameState, t: GameState, kind: u8) -> bool {
    &&& t.board == s.board
    &&& t.score == s.score
    &&& t.piece.is_spawn(kind)
    &&& t.game_over == (s.game_over || !valid_placement(s.board@, base_mask_spec(kind as int), 3, 0))
}

/// Score addition, saturating at the u32 ceiling.
pub open spec fn add_score(s: int, a: int) -> int {
    if s + a <= u32::MAX { s + a } else { u32::MAX as int }
}

/// What locking the active piece at anchor (px, py) and advancing does:
/// the mask is written into the board with the piece's colour, full rows
/// are cleared, the score grows by the award for the number of rows
/// cleared, and a piece of the given kind is spawned, setting the terminal
/// flag if its placement on the new board is invalid.
pub open spec fn lock_advance_outcome(s: GameState, t: GameState, kind: u8, px: int, py: int) -> bool {
    let lg = locked_grid(s.board@, s.piece.mask@, px, py, (s.piece.kind + 1) as u8);
    &&& t.board@ == cleared_grid(lg)
    &&& t.score == add_score(s.score as int, award(count_full(lg)) as int)
    &&& t.piece.is_spawn(kind)
    &&& t.game_over == !valid_placement(cleared_grid(lg), base_mask_spec(kind as int), 3, 0)
}

/// What a gravity tick does: nothing in the terminal state; one row down
/// when that validates; otherwise the piece locks where it is and play
/// advances with a spawn of the given kind.
pub open spec fn tick_outcome(s: GameState, t: GameState, kind: u8) -> bool {
    if s.game_over {
        t == s
    } else if valid_placement(s.board@, s.piece.mask@, s.piece.x as int, s.piece.y + 1) {
        shift_outcome(s, t, 0, 1)
    } else {
        lock_advance_outcome(s, t, kind, s.piece.x as int, s.piece.y as int)
    }
}

/// What a hard drop does: nothing in the terminal state; otherwise the
/// anchor falls to the last row `yf` of an unbroken run of valid
/// placements and the piece locks there, advancing with a spawn of the
/// given kind.
pub open spec fn hard_drop_outcome(s: GameState, t: GameState, kind: u8) -> bool {
    if s.game_over {
        t == s
    } else {
        exists|yf: int|
            {
                &&& s.piece.y <= yf <= 19
                &&& forall|i: int|
                    s.piece.y <= i <= yf ==> valid_placement(
                        s.board@,
                        s.piece.mask@,
                        s.piece.x as int,
                        i,
                    )
                &&& !valid_placement(s.board@, s.piece.mask@, s.piece.x as int, yf + 1)
                &&& lock_advance_outcome(s, t, kind, s.piece.x as int, yf)
            }
    }
}

/// A brand-new session: empty board, zero score, play not terminal, the
/// given kind freshly spawned.
pub open spec fn fresh_session(t: GameState, kind: u8) -> bool {
    &&& t.board@ == empty_rows(20)
    &&& t.score == 0
    &&& t.game_over == false
    &&& t.piece.is_spawn(kind)
}

/// The whole game session.
pub struct GameState {
    pub board: Board,
    pub piece: Piece,
    pub score: u32,
    pub game_over: bool,
}

/// Relies on macroquad::rand::gen_range (quad-rand): for unsigned integer
/// arguments the result lies in [low, high), here [0, 7).
#[verifier::external_body]
fn random_kind() -> (k: u8)
    ensures
        k < 7,
{
    macroquad::rand::gen_range(0u8, 7u8)
}

impl GameState {
    /// Session invariant: board and piece are well-formed, and while play
    /// is not terminal the active piece's placement is collision-free and
    /// in bounds.
    pub open spec fn wf(self) -> bool {
        &&& self.board.wf()
        &&& self.piece.wf()
        &&& !self.game_over ==> valid_placement(
            self.board@,
            self.piece.mask@,
            self.piece.x as int,
            self.piece.y as int,
        )
    }

    /// A fresh session with a chosen first piece: empty board, zero score,
    /// play running.
    pub fn new_with_kind(kind: u8) -> (s: GameState)
        requires
            kind < 7,
        ensures
            s.wf(),
            fresh_session(s, kind),
    {
        let board = Board::new();
        let piece = Piece::new(kind);
        let s = GameState { board, piece, score: 0, game_over: false };
        proof {
            assert forall|cx: int, cy: int|
                0 <= cx < 4 && 0 <= cy < 4 && #[trigger] mask_cell(s.piece.mask@, cx, cy)
                    implies cell_free(s.board@, 3 + cx, 0 + cy) by {
                assert(s.board@[0 + cy][3 + cx] == 0);
            }
        }
        s
    }

    /// A fresh session with a uniformly random first piece.
    pub fn new() -> (s: GameState)
        ensures
            s.wf(),
            exists|kind: u8| kind < 7 && fresh_session(s, kind),
    {
        let kind = random_kind();
        let s = Self::new_with_kind(kind);
        proof {
            assert(kind < 7 && fresh_session(s, kind));
        }
        s
    }

    /// Discard the whole session and reconstruct it from scratch. Safe to
    /// call at any time, meaningful after the terminal state.
    pub fn reset(&mut self)
        ensures
            final(self).wf(),
            exists|kind: u8| kind < 7 && fresh_session(*final(self), kind),
    {
        *self = GameState::new();
    }

    /// The single collision-detection authority, on an arbitrary piece:
    /// true exactly when every filled mask cell lands on a free position.
    pub fn is_valid_position(&self, piece: &Piece) -> (ok: bool)
        requires
            self.board.wf(),
            piece.mask@.len() == 16,
            piece.x <= i32::MAX - 3,
            piece.y <= i32::MAX - 3,
        ensures
            ok == valid_placement(self.board@, piece.mask@, piece.x as int, piece.y as int),
    {
        self.board.validate_placement(&piece.mask, piece.x, piece.y)
    }

    /// Replace the active piece by a spawn of the given kind; if its
    /// placement is invalid, the session becomes terminal, the invalid
    /// piece left in place for the shell's final frame.
    pub fn spawn_with_kind(&mut self, kind: u8)
        requires
            old(self).board.wf(),
            kind < 7,
        ensures
            final(self).wf(),
            spawn_outcome(*old(self), *final(self), kind),
    {
        self.piece = Piece::new(kind);
        let ok = self.board.validate_placement(&self.piece.mask, self.piece.x, self.piece.y);
        if !ok {
            self.game_over = true;
        }
    }

    /// Replace the active piece by a spawn of a uniformly random kind,
    /// becoming terminal if its placement is invalid.
    pub fn spawn_new_piece(&mut self)
        requires
            old(self).board.wf(),
        ensures
            final(self).wf(),
            exists|kind: u8| kind < 7 && spawn_outcome(*old(self), *final(self), kind),
    {
        let kind = random_kind();
        self.spawn_with_kind(kind);
        proof {
            assert(kind < 7 && spawn_outcome(*old(self), *self, kind));
        }
    }

    /// Try to shift the active piece one column left.
    pub fn move_left(&mut self)
        requires
            old(self).wf(),
        ensures
            final(self).wf(),
            shift_outcome(*old(self), *final(self), -1, 0),
    {
        if self.game_over {
            return;
        }
        if self.board.validate_placement(&self.piece.mask, self.piece.x - 1, self.piece.y) {
            proof {
                lemma_valid_bounds(self.board@, self.piece.mask@, self.piece.x - 1, self.piece.y as int);
            }
            self.piece.x = self.piece.x - 1;
        }
    }

    /// Try to shift the active piece one column right.
    pub fn move_right(&mut self)
        requires
            old(self).wf(),
        ensures
            final(self).wf(),
            shift_outcome(*old(self), *final(self), 1, 0),
    {
        if self.game_over {
            return;
        }
        if self.board.validate_placement(&self.piece.mask, self.piece.x + 1, self.piece.y) {
            proof {
                lemma_valid_bounds(self.board@, self.piece.mask@, self.piece.x + 1, self.piece.y as int);
            }
            self.piece.x = self.piece.x + 1;
        }
    }

    /// Try to shift the active piece one row down.
    pub fn soft_drop(&mut self)
        requires
            old(self).wf(),
        ensures
            final(self).wf(),
            shift_outcome(*old(self), *final(self), 0, 1),
    {
        if self.game_over {
            return;
        }
        if self.board.validate_placement(&self.piece.mask, self.piece.x, self.piece.y + 1) {
            proof {
                lemma_valid_bounds(self.board@, self.piece.mask@, self.piece.x as int, self.piece.y + 1);
            }
            self.piece.y = self.piece.y + 1;
        }
    }

    /// Write the active piece into the board, clear full rows, apply the
    /// scoring table to the count, and spawn a piece of the given kind.
    /// The only path that creates a new active piece besides construction
    /// and reset.
    pub fn lock_piece_with_kind(&mut self, kind: u8)
        requires
            old(self).wf(),
            !old(self).game_over,
            kind < 7,
        ensures
            final(self).wf(),
            lock_advance_outcome(
                *old(self),
                *final(self),
                kind,
                old(self).piece.x as int,
                old(self).piece.y as int,
            ),
    {
        let color = self.piece.kind + 1;
        self.board.lock(&self.piece.mask, self.piece.x, self.piece.y, color);
        self.clear_lines();
        self.spawn_with_kind(kind);
    }

    /// Lock the active piece and advance with a uniformly random spawn.
    pub fn lock_piece(&mut self)
        requires
            old(self).wf(),
            !old(self).game_over,
        ensures
            final(self).wf(),
            exists|kind: u8|
                kind < 7 && lock_advance_outcome(
                    *old(self),
                    *final(self),
                    kind,
                    old(self).piece.x as int,
                    old(self).piece.y as int,
                ),
    {
        let kind = random_kind();
        self.lock_piece_with_kind(kind);
        proof {
            assert(kind < 7 && lock_advance_outcome(
                *old(self),
                *self,
                kind,
                old(self).piece.x as int,
                old(self).piece.y as int,
            ));
        }
    }

    /// Remove every full row, shifting what is above down, and grow the
    /// score by the single-event award for the count, saturating at the
    /// u32 ceiling. Touches only board and score; the caller (the lock
    /// path) respawns afterwards.
    pub fn clear_lines(&mut self)
        requires
            old(self).board.wf(),
        ensures
            final(self).board.wf(),
            final(self).board@ == cleared_grid(old(self).board@),
            final(self).score == add_score(
                old(self).score as int,
                award(count_full(old(self).board@)) as int,
            ),
            final(self).piece == old(self).piece,
            final(self).game_over == old(self).game_over,
    {
        let n = self.board.clear_full_rows();
        let a = line_award(n);
        if self.score <= u32::MAX - a {
            self.score = self.score + a;
        } else {
            self.score = u32::MAX;
        }
    }

    /// Gravity: try one row down; if that fails, lock the piece where it
    /// is and advance with a spawn of the given kind.
    pub fn tick_with_kind(&mut self, kind: u8)
        requires
            old(self).wf(),
            kind < 7,
        ensures
            final(self).wf(),
            tick_outcome(*old(self), *final(self), kind),
    {
        if self.game_over {
            return;
        }
        if self.board.validate_placement(&self.piece.mask, self.piece.x, self.piece.y + 1) {
            proof {
                lemma_valid_bounds(self.board@, self.piece.mask@, self.piece.x as int, self.piece.y + 1);
            }
            self.piece.y = self.piece.y + 1;
        } else {
            self.lock_piece_with_kind(kind);
        }
    }

    /// Gravity with a uniformly random respawn on lock.
    pub fn tick(&mut self)
        requires
            old(self).wf(),
        ensures
            final(self).wf(),
            exists|kind: u8| kind < 7 && tick_outcome(*old(self), *final(self), kind),
    {
        let kind = random_kind();
        self.tick_with_kind(kind);
        proof {
            assert(kind < 7 && tick_outcome(*old(self), *self, kind));
        }
    }

    /// Drop the active piece straight down to the last valid row, lock it
    /// there, and advance with a spawn of the given kind.
    pub fn hard_drop_with_kind(&mut self, kind: u8)
        requires
            old(self).wf(),
            kind < 7,
        ensures
            final(self).wf(),
            hard_drop_outcome(*old(self), *final(self), kind),
    {
        if self.game_over {
            return;
        }
        while self.board.validate_placement(&self.piece.mask, self.piece.x, self.piece.y + 1)
            invariant
                self.wf(),
                !self.game_over,
                self.board == old(self).board,
                self.score == old(self).score,
                self.piece.kind == old(self).piece.kind,
                self.piece.rotation == old(self).piece.rotation,
                self.piece.mask == old(self).piece.mask,
                self.piece.x == old(self).piece.x,
                old(self).piece.y <= self.piece.y <= 19,
                forall|i: int|
                    old(self).piece.y <= i <= self.piece.y ==> valid_placement(
                        old(self).board@,
                        old(self).piece.mask@,
                        old(self).piece.x as int,
                        i,
                    ),
            decreases 19 - self.piece.y,
        {
            proof {
                lemma_valid_bounds(self.board@, self.piece.mask@, self.piece.x as int, self.piece.y + 1);
            }
            self.piece.y = self.piece.y + 1;
        }
        let ghost yf = self.piece.y as int;
        self.lock_piece_with_kind(kind);
        proof {
            assert(old(self).piece.y <= yf <= 19
                && (forall|i: int|
                    old(self).piece.y <= i <= yf ==> valid_placement(
                        old(self).board@,
                        old(self).piece.mask@,
                        old(self).piece.x as int,
                        i,
                    ))
                && !valid_placement(old(self).board@, old(self).piece.mask@, old(self).piece.x as int, yf + 1)
                && lock_advance_outcome(*old(self), *self, kind, old(self).piece.x as int, yf));
        }
    }

    /// Hard drop with a uniformly random respawn.
    pub fn hard_drop(&mut self)
        requires
            old(self).wf(),
        ensures
            final(self).wf(),
            exists|kind: u8| kind < 7 && hard_drop_outcome(*old(self), *final(self), kind),
    {
        let kind = random_kind();
        self.hard_drop_with_kind(kind);
        proof {
            assert(kind < 7 && hard_drop_outcome(*old(self), *self, kind));
        }
    }
}

/// Attempt to rotate the active piece one quarter turn (direction 1 is
/// clockwise, -1 counter-clockwise), resolving wall kicks: the rotated
/// mask is tested at each of the five candidate offsets of the applicable
/// kick-table row, strictly in order, and the first that validates is
/// committed together with the new orientation; if all five fail, the
/// piece is left completely unchanged.
pub fn handle_rotation(game: &mut GameState, direction: i32)
    requires
        old(game).wf(),
        direction == 1 || direction == -1,
    ensures
        final(game).wf(),
        rotation_outcome(*old(game), *final(game), direction == 1),
{
    if game.game_over {
        return;
    }
    let cw = direction > 0;
    let new_rotation: u8 = if cw {
        (game.piece.rotation + 1) % 4
    } else {
        (game.piece.rotation + 3) % 4
    };
    let rmask = rotate_mask(&game.piece.mask, cw);
    let ipiece = game.piece.kind == 0;
    let krow: u8 = if cw {
        game.piece.rotation
    } else {
        new_rotation
    };
    proof {
        assert(new_rotation == next_rotation(old(game).piece.rotation as int, cw));
        assert(krow == kick_row(old(game).piece.rotation as int, cw));
    }
    let mut i: u8 = 0;
    while i < 5
        invariant
            old(game).wf(),
            !old(game).game_over,
            *game == *old(game),
            cw == (direction == 1),
            ipiece == (old(game).piece.kind == 0),
            krow == kick_row(old(game).piece.rotation as int, cw),
            krow < 4,
            new_rotation == next_rotation(old(game).piece.rotation as int, cw),
            new_rotation < 4,
            rmask@ == rot_dir(old(game).piece.mask@, cw),
            i <= 5,
            forall|k: int| 0 <= k < i ==> !rot_cand_valid(*old(game), cw, k),
        decreases 5 - i,
    {
        let (kx, ky) = kick_offset(ipiece, krow, i);
        proof {
            lemma_kick_bounds(ipiece, krow as int, i as int);
        }
        let off_x: i32 = if cw { kx } else { -kx };
        let off_y: i32 = if cw { ky } else { -ky };
        let cand_x = game.piece.x + off_x;
        let cand_y = game.piece.y - off_y;
        proof {
            assert(cand_x == rot_cand_x(*old(game), cw, i as int));
            assert(cand_y == rot_cand_y(*old(game), cw, i as int));
        }
        if game.board.validate_placement(&rmask, cand_x, cand_y) {
            proof {
                let s = *old(game);
                let k = i as int;
                lemma_rot_wf(s.piece.mask@, cw);
                lemma_rot_nonempty(s.piece.mask@, cw);
                lemma_valid_bounds(s.board@, rmask@, cand_x as int, cand_y as int);
                if s.piece.y <= -4 && cand_y < s.piece.y {
                    // An upward kick committed from a piece standing
                    // entirely above the board: impossible, since an
                    // earlier purely horizontal candidate with the same
                    // column offset would have validated first.
                    assert(kick_dy(ipiece, krow as int, k) != 0);
                    lemma_kick_cover(ipiece, krow as int, k);
                    let w = choose|w: int|
                        0 <= w < k && kick_dx(ipiece, krow as int, w) == kick_dx(
                            ipiece,
                            krow as int,
                            k,
                        ) && kick_dy(ipiece, krow as int, w) == 0;
                    lemma_valid_implies_cols_ok(s.board@, rmask@, cand_x as int, cand_y as int);
                    lemma_above_board_valid(s.board@, rmask@, cand_x as int, s.piece.y as int);
                    assert(rot_cand_x(s, cw, w) == cand_x);
                    assert(rot_cand_y(s, cw, w) == s.piece.y);
                    assert(rot_cand_valid(s, cw, w));
                    assert(false);
                }
                assert(-5 <= cand_y);
            }
            game.piece = Piece {
                kind: game.piece.kind,
                rotation: new_rotation,
                x: cand_x,
                y: cand_y,
                mask: rmask,
            };
            proof {
                assert(rot_cand_valid(*old(game), cw, i as int));
            }
            return;
        }
        i = i + 1;
    }
}

} // verus!
