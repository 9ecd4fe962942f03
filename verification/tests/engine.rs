//! Tests of the game engine: move validation in the canonical order,
//! atomicity of rejected moves, the built-in piece rules, and the
//! royal-piece game-over criterion.

use rulechess::board::{Board, Piece, PieceType, PlayerId};
use rulechess::errors::GameError;
use rulechess::rules::{evaluate, MovementCap, PieceRule};
use rulechess::state::GameState;

fn players() -> (PlayerId, PlayerId) {
    (PlayerId("alice-id".to_string()), PlayerId("bob-id".to_string()))
}

fn fresh_game() -> GameState {
    let (a, b) = players();
    GameState::new(a, b)
}

#[test]
fn out_of_bounds_from_rejected() {
    let mut g = fresh_game();
    let a = g.players.0.clone();
    let before = fresh_game();
    let r = g.apply_move(&a, (8, 1), (0, 2));
    assert_eq!(r, Err(GameError::OutOfBounds { x: 8, y: 1 }));
    assert_eq!(g, before);
}

#[test]
fn out_of_bounds_to_rejected() {
    let mut g = fresh_game();
    let a = g.players.0.clone();
    let before = fresh_game();
    let r = g.apply_move(&a, (0, 1), (0, 8));
    assert_eq!(r, Err(GameError::OutOfBounds { x: 0, y: 8 }));
    assert_eq!(g, before);
    let r2 = g.apply_move(&a, (0, 1), (255, 255));
    assert_eq!(r2, Err(GameError::OutOfBounds { x: 255, y: 255 }));
    assert_eq!(g, before);
}

#[test]
fn turn_alternates_strictly() {
    let mut g = fresh_game();
    let a = g.players.0.clone();
    let b = g.players.1.clone();
    assert_eq!(g.turn, a);
    assert_eq!(g.apply_move(&a, (0, 1), (0, 2)), Ok(()));
    assert_eq!(g.turn, b);
    // A again: rejected, and B is the valid actor.
    let r = g.apply_move(&a, (1, 1), (1, 2));
    assert_eq!(r, Err(GameError::NotYourTurn { current_player: "bob-id".to_string() }));
    assert_eq!(g.apply_move(&b, (0, 6), (0, 5)), Ok(()));
    assert_eq!(g.turn, a);
    let r2 = g.apply_move(&b, (1, 6), (1, 5));
    assert_eq!(r2, Err(GameError::NotYourTurn { current_player: "alice-id".to_string() }));
    assert_eq!(g.apply_move(&a, (1, 1), (1, 2)), Ok(()));
    assert_eq!(g.turn, b);
}

#[test]
fn rejected_move_leaves_state_identical() {
    let mut g = fresh_game();
    let a = g.players.0.clone();
    let b = g.players.1.clone();
    let before = fresh_game();
    // Wrong turn.
    assert!(g.apply_move(&b, (0, 6), (0, 5)).is_err());
    assert_eq!(g, before);
    // Empty source.
    assert_eq!(
        g.apply_move(&a, (4, 4), (4, 5)),
        Err(GameError::EmptySource { x: 4, y: 4 })
    );
    assert_eq!(g, before);
    // Someone else's piece.
    assert_eq!(
        g.apply_move(&a, (0, 6), (0, 5)),
        Err(GameError::NotYourPiece { owner: "bob-id".to_string() })
    );
    assert_eq!(g, before);
    // Own piece on the destination.
    assert_eq!(
        g.apply_move(&a, (0, 0), (0, 1)),
        Err(GameError::DestinationOccupiedBySelf { x: 0, y: 1 })
    );
    assert_eq!(g, before);
    // Illegal delta for the piece.
    assert_eq!(
        g.apply_move(&a, (0, 1), (0, 4)),
        Err(GameError::ViolatesRule("move not allowed".to_string()))
    );
    assert_eq!(g, before);
}

#[test]
fn unknown_piece_type_rejected() {
    let mut g = fresh_game();
    let a = g.players.0.clone();
    g.board.cells[3 * 8 + 3] = Some(Piece {
        piece_type: PieceType("Wyvern".to_string()),
        owner: a.clone(),
    });
    let r = g.apply_move(&a, (3, 3), (3, 4));
    assert_eq!(r, Err(GameError::ViolatesRule("unknown piece".to_string())));
}

#[test]
fn pawn_moves_one_forward_not_two() {
    let mut g = fresh_game();
    let a = g.players.0.clone();
    let before = fresh_game();
    assert_eq!(
        g.apply_move(&a, (2, 1), (2, 3)),
        Err(GameError::ViolatesRule("move not allowed".to_string()))
    );
    assert_eq!(g, before);
    assert_eq!(g.apply_move(&a, (2, 1), (2, 2)), Ok(()));
    assert!(g.board.cells[2 * 8 + 2].is_some());
    assert!(g.board.cells[8 + 2].is_none());
}

#[test]
fn pawn_cannot_move_backward_or_diagonally() {
    let mut g = fresh_game();
    let a = g.players.0.clone();
    let b = g.players.1.clone();
    assert_eq!(g.apply_move(&a, (0, 1), (0, 2)), Ok(()));
    // Backward for the second player is +y.
    assert_eq!(
        g.apply_move(&b, (2, 6), (2, 7)),
        Err(GameError::ViolatesRule("move not allowed".to_string()))
    );
    assert_eq!(g.apply_move(&b, (2, 6), (2, 5)), Ok(()));
    // Diagonal does not fit the straight-line pattern.
    assert_eq!(
        g.apply_move(&a, (0, 2), (1, 3)),
        Err(GameError::ViolatesRule("move not allowed".to_string()))
    );
}

#[test]
fn rook_blocked_by_intervening_piece() {
    let (a, b) = players();
    let mut g = GameState::new(a.clone(), b);
    // A board of our own: a rook at (0, 0), a blocker at (2, 0).
    g.board = Board::empty();
    g.board.set_at(0, 0, Some(Piece { piece_type: PieceType("Rook".to_string()), owner: a.clone() }));
    g.board.set_at(
        2,
        0,
        Some(Piece { piece_type: PieceType("Pawn".to_string()), owner: g.players.1.clone() }),
    );
    let r = g.apply_move(&a, (0, 0), (4, 0));
    assert_eq!(r, Err(GameError::ViolatesRule("move not allowed".to_string())));
    // Clear the blocker: the same slide is permitted.
    g.board.set_at(2, 0, None);
    assert_eq!(g.apply_move(&a, (0, 0), (4, 0)), Ok(()));
    assert!(g.board.cells[4].is_some());
    assert!(g.board.cells[0].is_none());
}

#[test]
fn rook_captures_at_end_of_clear_path() {
    let (a, b) = players();
    let mut g = GameState::new(a.clone(), b.clone());
    g.board = Board::empty();
    g.board.set_at(0, 0, Some(Piece { piece_type: PieceType("Rook".to_string()), owner: a.clone() }));
    g.board.set_at(0, 5, Some(Piece { piece_type: PieceType("Pawn".to_string()), owner: b.clone() }));
    assert_eq!(g.apply_move(&a, (0, 0), (0, 5)), Ok(()));
    let captured = g.board.cells[5 * 8].as_ref().unwrap();
    assert_eq!(captured.piece_type, PieceType("Rook".to_string()));
    assert_eq!(captured.owner, a);
}

#[test]
fn knight_leaps_over_occupied_squares() {
    let mut g = fresh_game();
    let a = g.players.0.clone();
    // (1, 0) -> (2, 2) jumps the pawn row.
    assert_eq!(g.apply_move(&a, (1, 0), (2, 2)), Ok(()));
}

#[test]
fn knight_offsets_exact() {
    let g = fresh_game();
    let knight = g.rules.get(&"Knight".to_string()).unwrap();
    let offsets = [
        (1i8, 2i8),
        (2, 1),
        (2, -1),
        (1, -2),
        (-1, -2),
        (-2, -1),
        (-2, 1),
        (-1, 2),
    ];
    // From the board's center every offset is accepted, occupancy or not.
    for (dx, dy) in offsets {
        let to = ((4 + dx) as u8, (4 + dy) as u8);
        assert!(evaluate(knight, (4, 4), to, true, &g.board));
        assert!(evaluate(knight, (4, 4), to, false, &g.board));
    }
    // A non-offset delta is not.
    assert!(!evaluate(knight, (4, 4), (6, 6), true, &g.board));
    assert!(!evaluate(knight, (4, 4), (4, 5), true, &g.board));
}

#[test]
fn zero_vector_matches_no_capability() {
    let g = fresh_game();
    let pawn = g.rules.get(&"Pawn".to_string()).unwrap();
    let rook = g.rules.get(&"Rook".to_string()).unwrap();
    assert!(!evaluate(pawn, (3, 3), (3, 3), true, &g.board));
    assert!(!evaluate(rook, (3, 3), (3, 3), true, &g.board));
    // Even a leap whose offset list contains (0, 0) rejects the zero vector.
    let still = PieceRule {
        name: "Still".to_string(),
        symbol: "S".to_string(),
        capabilities: vec![MovementCap::Leap { possibilities: vec![(0, 0), (1, 1)] }],
        is_royal: false,
    };
    assert!(!evaluate(&still, (3, 3), (3, 3), true, &g.board));
    assert!(evaluate(&still, (3, 3), (4, 4), true, &g.board));
}

#[test]
fn check_path_clear_reports_blockers() {
    let g = fresh_game();
    // Vertical path through the pawn row is blocked.
    assert_eq!(
        g.check_path_clear((0, 0), (0, 3)),
        Err(GameError::ViolatesRule("path is blocked".to_string()))
    );
    // A path over empty middle rows is clear.
    assert_eq!(g.check_path_clear((2, 2), (5, 5)), Ok(()));
    // A non-line delta is never path-checked.
    assert_eq!(g.check_path_clear((0, 0), (1, 2)), Ok(()));
}

#[test]
fn game_over_needs_a_royal_rule() {
    let mut g = fresh_game();
    assert_eq!(g.check_game_over(), None);
    // Strip the royal flag everywhere: no winner can ever be found.
    for rule in g.rules.entries.iter_mut() {
        rule.is_royal = false;
    }
    // Remove the second player's king outright.
    g.board.cells[7 * 8 + 4] = None;
    assert_eq!(g.check_game_over(), None);
}

#[test]
fn game_over_when_one_side_has_no_royal_piece() {
    let mut g = fresh_game();
    let a = g.players.0.clone();
    let b = g.players.1.clone();
    // Both sides still hold their king: no winner.
    assert_eq!(g.check_game_over(), None);
    // The second player's king falls: the first player wins.
    g.board.cells[7 * 8 + 4] = None;
    assert_eq!(g.check_game_over(), Some(a.clone()));
    // The first player's king falls too: simultaneous loss, no winner.
    g.board.cells[4] = None;
    assert_eq!(g.check_game_over(), None);
    // Only the first player's king is gone: the second player wins.
    g.board.cells[7 * 8 + 4] = Some(Piece {
        piece_type: PieceType("King".to_string()),
        owner: b.clone(),
    });
    assert_eq!(g.check_game_over(), Some(b));
}

#[test]
fn has_royal_pieces_tracks_ownership() {
    let mut g = fresh_game();
    let a = g.players.0.clone();
    let b = g.players.1.clone();
    assert!(g.has_royal_pieces(&a));
    assert!(g.has_royal_pieces(&b));
    g.board.cells[4] = None;
    assert!(!g.has_royal_pieces(&a));
    assert!(g.has_royal_pieces(&b));
}

#[test]
fn initial_position_layout() {
    let g = fresh_game();
    let a = &g.players.0;
    let b = &g.players.1;
    let mut pawns_row1: usize = 0;
    let mut pawns_row6: usize = 0;
    for x in 0..8usize {
        if let Some(p) = &g.board.cells[8 + x] {
            assert_eq!(p.piece_type, PieceType("Pawn".to_string()));
            assert_eq!(&p.owner, a);
            pawns_row1 += 1;
        }
        if let Some(p) = &g.board.cells[6 * 8 + x] {
            assert_eq!(p.piece_type, PieceType("Pawn".to_string()));
            assert_eq!(&p.owner, b);
            pawns_row6 += 1;
        }
    }
    assert_eq!(pawns_row1, 8);
    assert_eq!(pawns_row6, 8);
    // Back ranks: rooks in the corners, knights beside them, kings on 4.
    for (row, owner) in [(0usize, a), (7usize, b)] {
        let cell = |x: usize| g.board.cells[row * 8 + x].as_ref();
        assert_eq!(cell(0).unwrap().piece_type, PieceType("Rook".to_string()));
        assert_eq!(cell(7).unwrap().piece_type, PieceType("Rook".to_string()));
        assert_eq!(cell(1).unwrap().piece_type, PieceType("Knight".to_string()));
        assert_eq!(cell(6).unwrap().piece_type, PieceType("Knight".to_string()));
        assert_eq!(cell(4).unwrap().piece_type, PieceType("King".to_string()));
        assert!(cell(2).is_none() && cell(3).is_none() && cell(5).is_none());
        assert_eq!(&cell(4).unwrap().owner, owner);
    }
    assert_eq!(g.turn, *a);
    assert_eq!(g.disagreement_count, 0);
    assert_eq!(g.max_disagreements, 3);
}
