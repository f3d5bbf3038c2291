use quoridor::game::{Axis, Board, Direction, LegalMove, Move, PlayerColor};

fn commit(board: &mut Board, m: Move, player: PlayerColor) {
    let legal = board.make_move_legal(m, player).unwrap();
    board.make_legal_move(legal, player);
}

fn pawn_targets(moves: &[LegalMove]) -> Vec<(usize, usize)> {
    let mut targets: Vec<(usize, usize)> =
        moves.iter().filter_map(|m| m.as_pawn_move()).map(|(_, to)| to).collect();
    targets.sort();
    targets
}

fn placements(moves: &[LegalMove]) -> Vec<(Axis, (usize, usize))> {
    moves.iter().filter_map(|m| m.as_fence_placement()).collect()
}

fn all_moves() -> Vec<Move> {
    let dirs = [Direction::Left, Direction::Right, Direction::Up, Direction::Down];
    let mut all = Vec::new();
    for dir in dirs {
        all.push(Move::MovePlayer(dir, None));
        for side in dirs {
            all.push(Move::MovePlayer(dir, Some(side)));
        }
    }
    for y in 0..8 {
        for x in 0..8 {
            all.push(Move::PlaceFence(Axis::Horizontal, (x, y)));
            all.push(Move::PlaceFence(Axis::Vertical, (x, y)));
        }
    }
    all
}

/// Every generated move is what validation makes of some move, every
/// move that validates is generated, and none comes twice.
fn generated_is_validated(board: &Board, player: PlayerColor) {
    let generated = board.legal_moves(player);
    let mut validated: Vec<LegalMove> = Vec::new();
    for m in all_moves() {
        if let Ok(legal) = board.make_move_legal(m, player) {
            if !validated.contains(&legal) {
                validated.push(legal);
            }
        }
    }
    for legal in &generated {
        assert!(validated.contains(legal));
    }
    for legal in &validated {
        assert!(generated.contains(legal));
    }
    assert_eq!(generated.len(), validated.len());
}

#[test]
fn opening_moves_of_white() {
    let board = Board::default();
    let moves = board.legal_moves(PlayerColor::White);
    let up = board
        .make_move_legal(Move::MovePlayer(Direction::Up, None), PlayerColor::White)
        .unwrap();
    assert_eq!(up.as_pawn_move(), Some(((4, 8), (4, 7))));
    assert_eq!(moves.iter().filter(|m| **m == up).count(), 1);
    assert_eq!(pawn_targets(&moves), vec![(3, 8), (4, 7), (5, 8)]);
    assert_eq!(placements(&moves).len(), 128);
    assert_eq!(moves.len(), 131);
    for y in 0..8 {
        for x in 0..8 {
            assert!(placements(&moves).contains(&(Axis::Horizontal, (x, y))));
            assert!(placements(&moves).contains(&(Axis::Vertical, (x, y))));
        }
    }
}

#[test]
fn opening_moves_of_black() {
    let board = Board::default();
    let moves = board.legal_moves(PlayerColor::Black);
    assert_eq!(pawn_targets(&moves), vec![(3, 0), (4, 1), (5, 0)]);
    assert_eq!(placements(&moves).len(), 128);
}

#[test]
fn pawn_moves_come_first_in_direction_order() {
    let board = Board::default();
    let moves = board.legal_moves(PlayerColor::White);
    assert_eq!(moves[0].as_pawn_move(), Some(((4, 8), (3, 8))));
    assert_eq!(moves[1].as_pawn_move(), Some(((4, 8), (5, 8))));
    assert_eq!(moves[2].as_pawn_move(), Some(((4, 8), (4, 7))));
    assert_eq!(moves[3].as_fence_placement(), Some((Axis::Horizontal, (0, 0))));
    assert_eq!(moves[4].as_fence_placement(), Some((Axis::Vertical, (0, 0))));
    assert_eq!(moves[5].as_fence_placement(), Some((Axis::Horizontal, (1, 0))));
}

#[test]
fn generated_moves_validate_on_the_opening_board() {
    let board = Board::default();
    generated_is_validated(&board, PlayerColor::White);
    generated_is_validated(&board, PlayerColor::Black);
}

#[test]
fn generated_moves_validate_among_fences() {
    let mut board = Board::default();
    commit(&mut board, Move::PlaceFence(Axis::Vertical, (3, 7)), PlayerColor::White);
    commit(&mut board, Move::PlaceFence(Axis::Vertical, (5, 7)), PlayerColor::Black);
    commit(&mut board, Move::PlaceFence(Axis::Horizontal, (1, 1)), PlayerColor::White);
    generated_is_validated(&board, PlayerColor::White);
    generated_is_validated(&board, PlayerColor::Black);
    let moves = board.legal_moves(PlayerColor::White);
    assert!(!placements(&moves).contains(&(Axis::Horizontal, (4, 7))));
    assert!(!placements(&moves).contains(&(Axis::Horizontal, (4, 6))));
    assert!(!placements(&moves).contains(&(Axis::Horizontal, (0, 1))));
    assert!(!placements(&moves).contains(&(Axis::Vertical, (3, 6))));
    assert!(placements(&moves).contains(&(Axis::Vertical, (0, 1))));
    assert_eq!(pawn_targets(&moves), vec![(4, 7), (5, 8)]);
}

#[test]
fn generated_moves_around_a_blocked_jump() {
    let mut board = Board::default();
    for _ in 0..4 {
        commit(&mut board, Move::MovePlayer(Direction::Up, None), PlayerColor::White);
    }
    for _ in 0..3 {
        commit(&mut board, Move::MovePlayer(Direction::Down, None), PlayerColor::Black);
    }
    let open = board.legal_moves(PlayerColor::White);
    assert_eq!(pawn_targets(&open), vec![(3, 4), (4, 2), (4, 5), (5, 4)]);
    generated_is_validated(&board, PlayerColor::White);

    commit(&mut board, Move::PlaceFence(Axis::Horizontal, (4, 2)), PlayerColor::Black);
    let blocked = board.legal_moves(PlayerColor::White);
    assert_eq!(pawn_targets(&blocked), vec![(3, 3), (3, 4), (4, 5), (5, 3), (5, 4)]);
    generated_is_validated(&board, PlayerColor::White);
    generated_is_validated(&board, PlayerColor::Black);

    commit(&mut board, Move::PlaceFence(Axis::Vertical, (3, 2)), PlayerColor::Black);
    let one_side = board.legal_moves(PlayerColor::White);
    assert_eq!(pawn_targets(&one_side), vec![(3, 4), (4, 5), (5, 3), (5, 4)]);
    generated_is_validated(&board, PlayerColor::White);
}

#[test]
fn side_steps_are_tried_from_the_square_of_the_opponent() {
    // A fence beside the mover, not beside the opponent, leaves both
    // side-steps open.
    let mut board = Board::default();
    for _ in 0..4 {
        commit(&mut board, Move::MovePlayer(Direction::Up, None), PlayerColor::White);
    }
    for _ in 0..3 {
        commit(&mut board, Move::MovePlayer(Direction::Down, None), PlayerColor::Black);
    }
    commit(&mut board, Move::PlaceFence(Axis::Horizontal, (4, 2)), PlayerColor::Black);
    commit(&mut board, Move::PlaceFence(Axis::Vertical, (3, 4)), PlayerColor::Black);
    assert!(board.is_obstructed((4, 4), Direction::Left));
    assert!(!board.is_obstructed((4, 3), Direction::Left));
    let moves = board.legal_moves(PlayerColor::White);
    assert_eq!(pawn_targets(&moves), vec![(3, 3), (4, 5), (5, 3), (5, 4)]);
    generated_is_validated(&board, PlayerColor::White);
}

#[test]
fn no_move_is_generated_twice() {
    let mut board = Board::default();
    commit(&mut board, Move::PlaceFence(Axis::Horizontal, (3, 3)), PlayerColor::White);
    let moves = board.legal_moves(PlayerColor::Black);
    for (i, a) in moves.iter().enumerate() {
        for b in &moves[i + 1..] {
            assert_ne!(a, b);
        }
    }
}

#[test]
fn player_without_fences_has_pawn_moves_only() {
    let mut board = Board::default();
    let cells = [
        (0, 0),
        (2, 0),
        (4, 0),
        (6, 0),
        (0, 2),
        (2, 2),
        (4, 2),
        (6, 2),
        (0, 4),
        (2, 4),
    ];
    for cell in cells {
        commit(&mut board, Move::PlaceFence(Axis::Horizontal, cell), PlayerColor::White);
    }
    assert_eq!(board.fences_left(PlayerColor::White), 0);
    let white = board.legal_moves(PlayerColor::White);
    assert!(placements(&white).is_empty());
    assert_eq!(pawn_targets(&white), vec![(3, 8), (4, 7), (5, 8)]);
    let black = board.legal_moves(PlayerColor::Black);
    assert!(!placements(&black).is_empty());
    generated_is_validated(&board, PlayerColor::White);
    generated_is_validated(&board, PlayerColor::Black);
}

#[test]
fn chosen_move_is_a_legal_move() {
    let board = Board::default();
    for player in [PlayerColor::White, PlayerColor::Black] {
        let moves = board.legal_moves(player);
        for _ in 0..50 {
            let chosen = board.find_best_move(player);
            assert!(moves.contains(&chosen));
        }
    }
}

#[test]
fn chosen_moves_vary() {
    let board = Board::default();
    let first = board.find_best_move(PlayerColor::White);
    let mut differs = false;
    for _ in 0..200 {
        if board.find_best_move(PlayerColor::White) != first {
            differs = true;
        }
    }
    assert!(differs);
}
