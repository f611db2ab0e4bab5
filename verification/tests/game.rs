use tetris_core::board::Board;
use tetris_core::line_award;
use tetris_core::session::{handle_rotation, GameState};
use tetris_core::shapes::base_mask;

/// The single-event scoring table.
#[test]
fn award_table() {
    assert_eq!(line_award(0), 0);
    assert_eq!(line_award(1), 100);
    assert_eq!(line_award(2), 300);
    assert_eq!(line_award(3), 500);
    assert_eq!(line_award(4), 800);
    assert_eq!(line_award(5), 0);
}

/// Placement validation rejects cells outside the column range or at or
/// below the floor, whatever the board holds.
#[test]
fn validate_rejects_out_of_bounds() {
    let board = Board::new();
    let o_mask = base_mask(1); // fills columns 1-2, rows 0-1 of its box
    // Left of the wall: cell column would be -1.
    assert!(!board.validate_placement(&o_mask, -2, 0));
    // Right of the wall: cell column would be 10.
    assert!(!board.validate_placement(&o_mask, 8, 0));
    // Below the floor: cell row would be 20.
    assert!(!board.validate_placement(&o_mask, 3, 19));
    // In range, empty board: accepted.
    assert!(board.validate_placement(&o_mask, 3, 18));
    // Above the top is never blocking by itself.
    assert!(board.validate_placement(&o_mask, 3, -2));
}

/// Occupancy queries: outside columns and below the floor block, above the
/// top never blocks.
#[test]
fn occupancy_edges() {
    let mut board = Board::new();
    assert!(board.is_occupied(0, -1));
    assert!(board.is_occupied(0, 10));
    assert!(board.is_occupied(20, 4));
    assert!(!board.is_occupied(-3, 4));
    assert!(!board.is_occupied(5, 5));
    board.set_cell(5, 5, 3);
    assert!(board.is_occupied(5, 5));
}

/// Clearing removes exactly the full rows and keeps the remaining rows'
/// top-to-bottom order, sliding them onto fresh empty rows.
#[test]
fn clear_removes_exactly_full_rows() {
    let mut board = Board::new();
    // Row 19 full, row 18 a recognisable partial pattern, row 17 full,
    // row 16 another partial pattern.
    for c in 0..10 {
        board.set_cell(19, c, 1);
        board.set_cell(17, c, 2);
    }
    board.set_cell(18, 0, 3);
    board.set_cell(18, 9, 3);
    board.set_cell(16, 4, 4);
    let n = board.clear_full_rows();
    assert_eq!(n, 2);
    // Order preserved: old row 16 is now row 18, old row 18 is now row 19.
    assert_eq!(board.cell(18, 4), 4);
    assert_eq!(board.cell(19, 0), 3);
    assert_eq!(board.cell(19, 9), 3);
    assert_eq!(board.cell(19, 4), 0);
    // Everything above is empty.
    for r in 0..18 {
        for c in 0..10 {
            assert_eq!(board.cell(r, c), 0);
        }
    }
}

/// A full stack of four full rows clears in one call.
#[test]
fn clear_four_rows() {
    let mut board = Board::new();
    for r in 16..20 {
        for c in 0..10 {
            board.set_cell(r, c, 5);
        }
    }
    let n = board.clear_full_rows();
    assert_eq!(n, 4);
    for r in 0..20 {
        for c in 0..10 {
            assert_eq!(board.cell(r, c), 0);
        }
    }
}

/// A full top row (row 0) is cleared too.
#[test]
fn clear_top_row() {
    let mut board = Board::new();
    for c in 0..10 {
        board.set_cell(0, c, 6);
    }
    board.set_cell(1, 3, 2);
    let n = board.clear_full_rows();
    assert_eq!(n, 1);
    assert_eq!(board.cell(1, 3), 2);
    for c in 0..10 {
        assert_eq!(board.cell(0, c), 0);
    }
}

/// Rotating four times in the same direction returns mask, orientation
/// and anchor to their original values on an empty board.
#[test]
fn four_rotations_identity() {
    for kind in 0..7u8 {
        for direction in [1i32, -1] {
            let mut game = GameState::new_with_kind(kind);
            // Away from the walls so every null-offset candidate fits.
            game.soft_drop();
            game.soft_drop();
            let mask0 = game.piece.mask.clone();
            let (rot0, x0, y0) = (game.piece.rotation, game.piece.x, game.piece.y);
            for _ in 0..4 {
                handle_rotation(&mut game, direction);
            }
            assert_eq!(game.piece.mask, mask0);
            assert_eq!(game.piece.rotation, rot0);
            assert_eq!(game.piece.x, x0);
            assert_eq!(game.piece.y, y0);
        }
    }
}

/// Hard-dropping an O piece into a two-row well completes exactly two
/// rows and adds exactly 300 to the score.
#[test]
fn double_clear_scores_300() {
    let mut game = GameState::new_with_kind(1); // O piece over columns 4-5
    for r in 18..20 {
        for c in 0..10 {
            if c != 4 && c != 5 {
                game.board.set_cell(r, c, 7);
            }
        }
    }
    game.hard_drop_with_kind(2);
    assert_eq!(game.score, 300);
    assert!(!game.game_over);
    // The two completed rows vanished; nothing else was on the board.
    for r in 0..20 {
        for c in 0..10 {
            assert_eq!(game.board.cell(r, c), 0);
        }
    }
}

/// A spawn whose placement collides sets the terminal flag and leaves the
/// score unchanged.
#[test]
fn spawn_collision_is_game_over() {
    let mut game = GameState::new_with_kind(0);
    game.score = 1200;
    for r in 0..2 {
        for c in 0..10 {
            game.board.set_cell(r, c, 1);
        }
    }
    game.spawn_with_kind(1);
    assert!(game.game_over);
    assert_eq!(game.score, 1200);
    // The invalid piece is left in place, frozen at the spawn anchor.
    assert_eq!(game.piece.x, 3);
    assert_eq!(game.piece.y, 0);
}

/// End to end: an O piece hard-dropped on an empty board locks at the
/// bottom with two adjacent cells on row 19 at columns 4-5, scores
/// nothing, and a fresh piece spawns with play still running.
#[test]
fn o_piece_hard_drop() {
    let mut game = GameState::new_with_kind(1);
    // The O piece's filled cells sit at board columns 4-5, row 0.
    assert_eq!(game.piece.x, 3);
    assert_eq!(game.piece.y, 0);
    game.hard_drop_with_kind(3);
    assert_eq!(game.score, 0);
    assert!(!game.game_over);
    for c in 0..10 {
        let expect = if c == 4 || c == 5 { 2 } else { 0 }; // colour of kind 1
        assert_eq!(game.board.cell(19, c), expect);
        assert_eq!(game.board.cell(18, c), expect);
    }
    for r in 0..18 {
        for c in 0..10 {
            assert_eq!(game.board.cell(r, c), 0);
        }
    }
    // A fresh S piece is active.
    assert_eq!(game.piece.kind, 3);
    assert_eq!(game.piece.rotation, 0);
    assert_eq!(game.piece.x, 3);
    assert_eq!(game.piece.y, 0);
}

/// A T piece hugging the left wall in a vertical orientation rotates
/// clockwise by taking the first kick candidate that fits: one column to
/// the right.
#[test]
fn t_piece_wall_kick() {
    let mut game = GameState::new_with_kind(2);
    game.soft_drop();
    game.soft_drop();
    // One clockwise turn: the T now occupies columns 2-3 of its box.
    handle_rotation(&mut game, 1);
    assert_eq!(game.piece.rotation, 1);
    // Push it against the left wall.
    game.move_left();
    game.move_left();
    game.move_left();
    game.move_left();
    game.move_left();
    assert_eq!(game.piece.x, -2);
    let y_before = game.piece.y;
    // The null-offset candidate would put a cell at column -1, so the
    // resolver must take the next candidate (one column right) instead.
    handle_rotation(&mut game, 1);
    assert_eq!(game.piece.rotation, 2);
    assert_eq!(game.piece.x, -1);
    assert_eq!(game.piece.y, y_before);
}

/// When every kick candidate collides, a rotation attempt leaves the
/// piece completely unchanged.
#[test]
fn rotation_with_no_valid_kick_is_a_no_op() {
    let mut game = GameState::new_with_kind(2); // T piece
    // Sink the T to the floor (rows 18-19), then block the handful of
    // cells the kick candidates that are not already stopped by the floor
    // would need.
    for _ in 0..18 {
        game.soft_drop();
    }
    assert_eq!(game.piece.y, 18);
    game.board.set_cell(16, 4, 1);
    game.board.set_cell(16, 5, 1);
    game.board.set_cell(17, 4, 1);
    game.board.set_cell(17, 5, 1);
    game.board.set_cell(18, 5, 1);
    let mask0 = game.piece.mask.clone();
    let (rot0, x0, y0) = (game.piece.rotation, game.piece.x, game.piece.y);
    handle_rotation(&mut game, 1);
    assert_eq!(game.piece.mask, mask0);
    assert_eq!(game.piece.rotation, rot0);
    assert_eq!(game.piece.x, x0);
    assert_eq!(game.piece.y, y0);
    handle_rotation(&mut game, -1);
    assert_eq!(game.piece.rotation, rot0);
    assert_eq!(game.piece.x, x0);
}

/// Single-step moves commit exactly when the shifted placement is free,
/// and do nothing at a wall.
#[test]
fn moves_stop_at_walls() {
    let mut game = GameState::new_with_kind(1); // O over columns 4-5
    for _ in 0..10 {
        game.move_left();
    }
    assert_eq!(game.piece.x, -1); // filled cells at columns 0-1
    for _ in 0..20 {
        game.move_right();
    }
    assert_eq!(game.piece.x, 7); // filled cells at columns 8-9
}

/// Gravity moves the piece one row down while it fits, then locks it and
/// respawns.
#[test]
fn tick_falls_then_locks() {
    let mut game = GameState::new_with_kind(1);
    for expected_y in 1..=18 {
        game.tick_with_kind(4);
        assert_eq!(game.piece.y, expected_y);
        assert!(!game.game_over);
    }
    // The O piece now rests on the floor (cells on rows 18-19): the next
    // tick locks it and spawns the Z piece.
    game.tick_with_kind(4);
    assert_eq!(game.piece.kind, 4);
    assert_eq!(game.piece.y, 0);
    assert_eq!(game.board.cell(19, 4), 2);
    assert_eq!(game.board.cell(19, 5), 2);
    assert_eq!(game.score, 0);
}

/// Intents are ignored in the terminal state; reset starts play afresh.
#[test]
fn game_over_freezes_until_reset() {
    let mut game = GameState::new_with_kind(0);
    for r in 0..2 {
        for c in 0..10 {
            game.board.set_cell(r, c, 1);
        }
    }
    game.spawn_with_kind(2);
    assert!(game.game_over);
    let (x0, y0) = (game.piece.x, game.piece.y);
    game.move_left();
    game.soft_drop();
    handle_rotation(&mut game, 1);
    assert_eq!(game.piece.x, x0);
    assert_eq!(game.piece.y, y0);
    game.reset();
    assert!(!game.game_over);
    assert_eq!(game.score, 0);
    assert!(game.piece.kind < 7);
    for r in 0..20 {
        for c in 0..10 {
            assert_eq!(game.board.cell(r, c), 0);
        }
    }
}

/// A fresh session draws its piece kind from the seven kinds and starts
/// with an empty board, zero score and play running.
#[test]
fn fresh_sessions_are_well_formed() {
    for _ in 0..50 {
        let game = GameState::new();
        assert!(game.piece.kind < 7);
        assert_eq!(game.piece.rotation, 0);
        assert_eq!(game.piece.x, 3);
        assert_eq!(game.piece.y, 0);
        assert_eq!(game.score, 0);
        assert!(!game.game_over);
    }
}

/// Locking with a random respawn always hands back one of the seven
/// kinds at the spawn anchor.
#[test]
fn random_respawn_is_in_range() {
    for _ in 0..20 {
        let mut game = GameState::new_with_kind(1);
        game.hard_drop();
        assert!(game.piece.kind < 7);
        assert_eq!(game.piece.x, 3);
        assert_eq!(game.piece.y, 0);
        assert!(!game.game_over);
    }
}

/// Scoring a single completed row adds exactly 100, via the lock path.
#[test]
fn single_clear_scores_100() {
    let mut game = GameState::new_with_kind(0); // I piece, horizontal
    for c in 0..10 {
        if !(3..7).contains(&c) {
            game.board.set_cell(19, c, 2);
        }
    }
    game.hard_drop_with_kind(5);
    assert_eq!(game.score, 100);
    for c in 0..10 {
        assert_eq!(game.board.cell(19, c), 0);
    }
}

/// The score saturates at the u32 ceiling instead of wrapping.
#[test]
fn score_saturates() {
    let mut game = GameState::new_with_kind(1);
    game.score = u32::MAX - 100;
    for r in 18..20 {
        for c in 0..10 {
            if c != 4 && c != 5 {
                game.board.set_cell(r, c, 7);
            }
        }
    }
    game.hard_drop_with_kind(2);
    assert_eq!(game.score, u32::MAX);
}
