use quoridor::game::pawn_move::Fail;
use quoridor::game::{Axis, Board, Direction, Move, MoveMakeFail, PlayerColor};

fn commit(board: &mut Board, m: Move, player: PlayerColor) {
    let legal = board.make_move_legal(m, player).unwrap();
    board.make_legal_move(legal, player);
}

/// White on (4, 4) facing Black on (4, 3).
fn facing_pawns() -> Board {
    let mut board = Board::default();
    for _ in 0..4 {
        commit(&mut board, Move::MovePlayer(Direction::Up, None), PlayerColor::White);
    }
    for _ in 0..3 {
        commit(&mut board, Move::MovePlayer(Direction::Down, None), PlayerColor::Black);
    }
    assert_eq!(board.pawn_pos(PlayerColor::White), (4, 4));
    assert_eq!(board.pawn_pos(PlayerColor::Black), (4, 3));
    board
}

#[test]
fn opening_position() {
    let board = Board::default();
    assert_eq!(board.pawn_pos(PlayerColor::White), (4, 8));
    assert_eq!(board.pawn_pos(PlayerColor::Black), (4, 0));
    assert_eq!(board.square(4, 8), Some(PlayerColor::White));
    assert_eq!(board.square(4, 0), Some(PlayerColor::Black));
    assert_eq!(board.fences_left(PlayerColor::White), 10);
    assert_eq!(board.fences_left(PlayerColor::Black), 10);
    assert_eq!(board.is_game_won(), None);
    let mut pawns = 0;
    for y in 0..9 {
        for x in 0..9 {
            if board.square(x, y).is_some() {
                pawns += 1;
            }
        }
    }
    assert_eq!(pawns, 2);
    for y in 0..8 {
        for x in 0..8 {
            assert_eq!(board.fence(x, y), None);
        }
    }
}

#[test]
fn board_edges_obstruct() {
    let board = Board::default();
    assert!(board.is_obstructed((0, 3), Direction::Left));
    assert!(board.is_obstructed((8, 3), Direction::Right));
    assert!(board.is_obstructed((3, 0), Direction::Up));
    assert!(board.is_obstructed((3, 8), Direction::Down));
    assert!(!board.is_obstructed((0, 3), Direction::Right));
    assert!(!board.is_obstructed((8, 8), Direction::Left));
    assert!(!board.is_obstructed((8, 8), Direction::Up));
    assert!(!board.is_obstructed((0, 0), Direction::Down));
}

#[test]
fn horizontal_fence_obstructs_two_columns() {
    let mut board = Board::default();
    commit(&mut board, Move::PlaceFence(Axis::Horizontal, (3, 5)), PlayerColor::White);
    assert!(board.is_obstructed((3, 5), Direction::Down));
    assert!(board.is_obstructed((4, 5), Direction::Down));
    assert!(board.is_obstructed((3, 6), Direction::Up));
    assert!(board.is_obstructed((4, 6), Direction::Up));
    assert!(!board.is_obstructed((2, 5), Direction::Down));
    assert!(!board.is_obstructed((5, 5), Direction::Down));
    assert!(!board.is_obstructed((3, 5), Direction::Up));
    assert!(!board.is_obstructed((3, 5), Direction::Left));
    assert!(!board.is_obstructed((3, 5), Direction::Right));
}

#[test]
fn vertical_fence_obstructs_two_rows() {
    let mut board = Board::default();
    commit(&mut board, Move::PlaceFence(Axis::Vertical, (3, 5)), PlayerColor::White);
    assert!(board.is_obstructed((3, 5), Direction::Right));
    assert!(board.is_obstructed((3, 6), Direction::Right));
    assert!(board.is_obstructed((4, 5), Direction::Left));
    assert!(board.is_obstructed((4, 6), Direction::Left));
    assert!(!board.is_obstructed((3, 4), Direction::Right));
    assert!(!board.is_obstructed((3, 7), Direction::Right));
    assert!(!board.is_obstructed((3, 5), Direction::Down));
    assert!(!board.is_obstructed((3, 5), Direction::Up));
}

#[test]
fn fences_on_the_last_cells_reach_the_outer_squares() {
    let mut board = Board::default();
    commit(&mut board, Move::PlaceFence(Axis::Vertical, (7, 7)), PlayerColor::White);
    assert!(board.is_obstructed((7, 8), Direction::Right));
    assert!(board.is_obstructed((8, 8), Direction::Left));
    assert!(board.is_obstructed((8, 7), Direction::Left));
    commit(&mut board, Move::PlaceFence(Axis::Horizontal, (7, 0)), PlayerColor::Black);
    assert!(board.is_obstructed((8, 0), Direction::Down));
    assert!(board.is_obstructed((8, 1), Direction::Up));
    assert!(board.is_obstructed((7, 1), Direction::Up));
}

#[test]
fn simple_step_ignores_the_side_step() {
    let board = Board::default();
    assert_eq!(
        board.pawn_move_destination(PlayerColor::White, Direction::Up, None),
        Ok((4, 7))
    );
    assert_eq!(
        board.pawn_move_destination(PlayerColor::White, Direction::Up, Some(Direction::Left)),
        Ok((4, 7))
    );
    assert_eq!(
        board.pawn_move_destination(PlayerColor::White, Direction::Up, Some(Direction::Down)),
        Ok((4, 7))
    );
    assert_eq!(
        board.pawn_move_destination(PlayerColor::Black, Direction::Down, None),
        Ok((4, 1))
    );
}

#[test]
fn step_off_the_board_is_obstructed() {
    let board = Board::default();
    assert_eq!(
        board.pawn_move_destination(PlayerColor::White, Direction::Down, None),
        Err(Fail::PathObstructed)
    );
    assert_eq!(
        board.pawn_move_destination(PlayerColor::Black, Direction::Up, None),
        Err(Fail::PathObstructed)
    );
    assert_eq!(
        board.make_move_legal(Move::MovePlayer(Direction::Down, None), PlayerColor::White),
        Err(MoveMakeFail::PawnMoveFail(Fail::PathObstructed))
    );
}

#[test]
fn step_across_a_fence_is_obstructed() {
    let mut board = Board::default();
    commit(&mut board, Move::PlaceFence(Axis::Horizontal, (4, 7)), PlayerColor::Black);
    assert_eq!(
        board.pawn_move_destination(PlayerColor::White, Direction::Up, None),
        Err(Fail::PathObstructed)
    );
    assert_eq!(
        board.pawn_move_destination(PlayerColor::White, Direction::Left, None),
        Ok((3, 8))
    );
}

#[test]
fn straight_jump_over_the_opponent() {
    let board = facing_pawns();
    assert_eq!(
        board.pawn_move_destination(PlayerColor::White, Direction::Up, None),
        Ok((4, 2))
    );
    for side in [Direction::Left, Direction::Right, Direction::Up, Direction::Down] {
        assert_eq!(
            board.pawn_move_destination(PlayerColor::White, Direction::Up, Some(side)),
            Ok((4, 2))
        );
    }
    assert_eq!(
        board.pawn_move_destination(PlayerColor::Black, Direction::Down, None),
        Ok((4, 5))
    );
}

#[test]
fn blocked_jump_needs_a_side_step() {
    let mut board = facing_pawns();
    commit(&mut board, Move::PlaceFence(Axis::Horizontal, (4, 2)), PlayerColor::Black);
    assert!(board.is_obstructed((4, 3), Direction::Up));
    assert_eq!(
        board.pawn_move_destination(PlayerColor::White, Direction::Up, None),
        Err(Fail::NoSecondary)
    );
    assert_eq!(
        board.pawn_move_destination(PlayerColor::White, Direction::Up, Some(Direction::Up)),
        Err(Fail::InvalidSecondary)
    );
    assert_eq!(
        board.pawn_move_destination(PlayerColor::White, Direction::Up, Some(Direction::Down)),
        Err(Fail::InvalidSecondary)
    );
    assert_eq!(
        board.pawn_move_destination(PlayerColor::White, Direction::Up, Some(Direction::Left)),
        Ok((3, 3))
    );
    assert_eq!(
        board.pawn_move_destination(PlayerColor::White, Direction::Up, Some(Direction::Right)),
        Ok((5, 3))
    );
}

#[test]
fn blocked_side_step_is_obstructed() {
    let mut board = facing_pawns();
    commit(&mut board, Move::PlaceFence(Axis::Horizontal, (4, 2)), PlayerColor::Black);
    commit(&mut board, Move::PlaceFence(Axis::Vertical, (3, 2)), PlayerColor::Black);
    assert!(board.is_obstructed((4, 3), Direction::Left));
    assert_eq!(
        board.pawn_move_destination(PlayerColor::White, Direction::Up, Some(Direction::Left)),
        Err(Fail::PathObstructed)
    );
    assert_eq!(
        board.pawn_move_destination(PlayerColor::White, Direction::Up, Some(Direction::Right)),
        Ok((5, 3))
    );
    assert_eq!(
        board.make_move_legal(
            Move::MovePlayer(Direction::Up, Some(Direction::Left)),
            PlayerColor::White
        ),
        Err(MoveMakeFail::PawnMoveFail(Fail::PathObstructed))
    );
    assert_eq!(
        board.make_move_legal(Move::MovePlayer(Direction::Up, None), PlayerColor::White),
        Err(MoveMakeFail::PawnMoveFail(Fail::NoSecondary))
    );
    assert_eq!(
        board.make_move_legal(
            Move::MovePlayer(Direction::Up, Some(Direction::Down)),
            PlayerColor::White
        ),
        Err(MoveMakeFail::PawnMoveFail(Fail::InvalidSecondary))
    );
}

#[test]
fn jump_at_the_edge_of_the_board_is_blocked() {
    let mut board = Board::default();
    for _ in 0..7 {
        commit(&mut board, Move::MovePlayer(Direction::Up, None), PlayerColor::White);
    }
    assert_eq!(board.pawn_pos(PlayerColor::White), (4, 1));
    assert_eq!(
        board.pawn_move_destination(PlayerColor::White, Direction::Up, None),
        Err(Fail::NoSecondary)
    );
    assert_eq!(
        board.pawn_move_destination(PlayerColor::White, Direction::Up, Some(Direction::Left)),
        Ok((3, 0))
    );
}

#[test]
fn move_pawn_moves_or_leaves_the_board_alone() {
    let mut board = Board::default();
    let before = board.clone();
    assert_eq!(
        board.move_pawn(PlayerColor::White, Direction::Down, None),
        Err(Fail::PathObstructed)
    );
    assert_eq!(board, before);
    assert_eq!(board.move_pawn(PlayerColor::White, Direction::Up, None), Ok(()));
    assert_eq!(board.pawn_pos(PlayerColor::White), (4, 7));
    assert_eq!(board.square(4, 8), None);
    assert_eq!(board.square(4, 7), Some(PlayerColor::White));
    assert_eq!(board.move_pawn(PlayerColor::Black, Direction::Left, None), Ok(()));
    assert_eq!(board.pawn_pos(PlayerColor::Black), (3, 0));
}

#[test]
fn winner_is_the_pawn_on_its_goal_row() {
    let mut board = Board::default();
    for _ in 0..3 {
        commit(&mut board, Move::MovePlayer(Direction::Up, None), PlayerColor::White);
    }
    commit(&mut board, Move::MovePlayer(Direction::Left, None), PlayerColor::White);
    for _ in 0..4 {
        commit(&mut board, Move::MovePlayer(Direction::Up, None), PlayerColor::White);
        assert_eq!(board.is_game_won(), None);
    }
    commit(&mut board, Move::MovePlayer(Direction::Up, None), PlayerColor::White);
    assert_eq!(board.pawn_pos(PlayerColor::White), (3, 0));
    assert_eq!(board.is_game_won(), Some(PlayerColor::White));
}

#[test]
fn black_wins_on_the_last_row() {
    let mut board = Board::default();
    commit(&mut board, Move::MovePlayer(Direction::Left, None), PlayerColor::White);
    for _ in 0..8 {
        assert_eq!(board.is_game_won(), None);
        commit(&mut board, Move::MovePlayer(Direction::Down, None), PlayerColor::Black);
    }
    assert_eq!(board.pawn_pos(PlayerColor::Black), (4, 8));
    assert_eq!(board.is_game_won(), Some(PlayerColor::Black));
}
