use quoridor::game::fence_move::Fail;
use quoridor::game::{Axis, Board, Direction, Move, MoveMakeFail, PlayerColor};

fn commit(board: &mut Board, m: Move, player: PlayerColor) {
    let legal = board.make_move_legal(m, player).unwrap();
    board.make_legal_move(legal, player);
}

#[test]
fn placement_writes_the_grid_and_takes_a_fence() {
    let mut board = Board::default();
    commit(&mut board, Move::PlaceFence(Axis::Horizontal, (3, 3)), PlayerColor::White);
    assert_eq!(board.fence(3, 3), Some(Axis::Horizontal));
    assert_eq!(board.fences_left(PlayerColor::White), 9);
    assert_eq!(board.fences_left(PlayerColor::Black), 10);
    commit(&mut board, Move::PlaceFence(Axis::Vertical, (5, 5)), PlayerColor::Black);
    assert_eq!(board.fence(5, 5), Some(Axis::Vertical));
    assert_eq!(board.fences_left(PlayerColor::White), 9);
    assert_eq!(board.fences_left(PlayerColor::Black), 9);
}

#[test]
fn occupied_cell_collides() {
    let mut board = Board::default();
    commit(&mut board, Move::PlaceFence(Axis::Horizontal, (3, 3)), PlayerColor::White);
    assert_eq!(
        board.is_fence_move_legal(PlayerColor::Black, Axis::Horizontal, (3, 3)),
        Err(Fail::Collides)
    );
    assert_eq!(
        board.is_fence_move_legal(PlayerColor::Black, Axis::Vertical, (3, 3)),
        Err(Fail::Collides)
    );
    assert_eq!(
        board.make_move_legal(Move::PlaceFence(Axis::Vertical, (3, 3)), PlayerColor::Black),
        Err(MoveMakeFail::AddFenceMove(Fail::Collides))
    );
}

#[test]
fn horizontal_fence_restricts_the_cells_beside_it() {
    let mut board = Board::default();
    commit(&mut board, Move::PlaceFence(Axis::Horizontal, (3, 3)), PlayerColor::White);
    assert_eq!(
        board.is_fence_move_legal(PlayerColor::Black, Axis::Horizontal, (2, 3)),
        Err(Fail::Collides)
    );
    assert_eq!(
        board.is_fence_move_legal(PlayerColor::Black, Axis::Horizontal, (4, 3)),
        Err(Fail::Collides)
    );
    assert_eq!(board.is_fence_move_legal(PlayerColor::Black, Axis::Vertical, (2, 3)), Ok(()));
    assert_eq!(board.is_fence_move_legal(PlayerColor::Black, Axis::Vertical, (4, 3)), Ok(()));
    assert_eq!(board.is_fence_move_legal(PlayerColor::Black, Axis::Horizontal, (3, 2)), Ok(()));
    assert_eq!(board.is_fence_move_legal(PlayerColor::Black, Axis::Vertical, (3, 4)), Ok(()));
    assert_eq!(board.is_fence_move_legal(PlayerColor::Black, Axis::Horizontal, (1, 3)), Ok(()));
}

#[test]
fn vertical_fence_restricts_the_cells_above_and_below() {
    let mut board = Board::default();
    commit(&mut board, Move::PlaceFence(Axis::Vertical, (3, 3)), PlayerColor::White);
    assert_eq!(
        board.is_fence_move_legal(PlayerColor::Black, Axis::Vertical, (3, 2)),
        Err(Fail::Collides)
    );
    assert_eq!(
        board.is_fence_move_legal(PlayerColor::Black, Axis::Vertical, (3, 4)),
        Err(Fail::Collides)
    );
    assert_eq!(board.is_fence_move_legal(PlayerColor::Black, Axis::Horizontal, (3, 2)), Ok(()));
    assert_eq!(board.is_fence_move_legal(PlayerColor::Black, Axis::Horizontal, (3, 4)), Ok(()));
    assert_eq!(board.is_fence_move_legal(PlayerColor::Black, Axis::Vertical, (2, 3)), Ok(()));
    assert_eq!(board.is_fence_move_legal(PlayerColor::Black, Axis::Vertical, (4, 3)), Ok(()));
}

#[test]
fn cell_restricted_from_both_lines_admits_nothing() {
    let mut board = Board::default();
    commit(&mut board, Move::PlaceFence(Axis::Horizontal, (2, 3)), PlayerColor::White);
    commit(&mut board, Move::PlaceFence(Axis::Vertical, (3, 2)), PlayerColor::Black);
    assert_eq!(
        board.is_fence_move_legal(PlayerColor::White, Axis::Horizontal, (3, 3)),
        Err(Fail::Collides)
    );
    assert_eq!(
        board.is_fence_move_legal(PlayerColor::White, Axis::Vertical, (3, 3)),
        Err(Fail::Collides)
    );
}

#[test]
fn fences_at_the_rim_of_the_grid() {
    let mut board = Board::default();
    commit(&mut board, Move::PlaceFence(Axis::Horizontal, (0, 0)), PlayerColor::White);
    commit(&mut board, Move::PlaceFence(Axis::Horizontal, (7, 7)), PlayerColor::White);
    commit(&mut board, Move::PlaceFence(Axis::Vertical, (0, 7)), PlayerColor::Black);
    commit(&mut board, Move::PlaceFence(Axis::Vertical, (7, 0)), PlayerColor::Black);
    assert_eq!(
        board.is_fence_move_legal(PlayerColor::White, Axis::Horizontal, (1, 0)),
        Err(Fail::Collides)
    );
    assert_eq!(
        board.is_fence_move_legal(PlayerColor::White, Axis::Horizontal, (6, 7)),
        Err(Fail::Collides)
    );
    assert_eq!(
        board.is_fence_move_legal(PlayerColor::White, Axis::Vertical, (0, 6)),
        Err(Fail::Collides)
    );
    assert_eq!(
        board.is_fence_move_legal(PlayerColor::White, Axis::Vertical, (7, 1)),
        Err(Fail::Collides)
    );
}

#[test]
fn enclosing_fence_leaves_no_path() {
    let mut board = Board::default();
    commit(&mut board, Move::PlaceFence(Axis::Vertical, (3, 7)), PlayerColor::White);
    commit(&mut board, Move::PlaceFence(Axis::Vertical, (5, 7)), PlayerColor::Black);
    let before = board.clone();
    assert_eq!(
        board.is_fence_move_legal(PlayerColor::Black, Axis::Horizontal, (4, 7)),
        Err(Fail::NoPathRemaining)
    );
    assert_eq!(
        board.make_move_legal(Move::PlaceFence(Axis::Horizontal, (4, 7)), PlayerColor::Black),
        Err(MoveMakeFail::AddFenceMove(Fail::NoPathRemaining))
    );
    assert_eq!(board, before);
    assert_eq!(board.fence(4, 7), None);
    assert_eq!(board.fences_left(PlayerColor::Black), 9);
    assert_eq!(
        board.is_fence_move_legal(PlayerColor::Black, Axis::Horizontal, (4, 6)),
        Err(Fail::NoPathRemaining)
    );
    assert_eq!(board.is_fence_move_legal(PlayerColor::Black, Axis::Horizontal, (3, 6)), Ok(()));
    assert_eq!(board.is_fence_move_legal(PlayerColor::Black, Axis::Horizontal, (4, 5)), Ok(()));
}

#[test]
fn full_row_of_fences_leaves_no_path() {
    let mut board = Board::default();
    commit(&mut board, Move::PlaceFence(Axis::Horizontal, (0, 3)), PlayerColor::White);
    commit(&mut board, Move::PlaceFence(Axis::Horizontal, (2, 3)), PlayerColor::White);
    commit(&mut board, Move::PlaceFence(Axis::Horizontal, (4, 3)), PlayerColor::White);
    commit(&mut board, Move::PlaceFence(Axis::Horizontal, (6, 3)), PlayerColor::White);
    assert!(board.are_pawns_able_to_win());
    assert_eq!(
        board.is_fence_move_legal(PlayerColor::White, Axis::Horizontal, (7, 3)),
        Err(Fail::Collides)
    );
    commit(&mut board, Move::PlaceFence(Axis::Vertical, (7, 2)), PlayerColor::Black);
    assert_eq!(
        board.is_fence_move_legal(PlayerColor::Black, Axis::Horizontal, (7, 2)),
        Err(Fail::Collides)
    );
    assert_eq!(
        board.is_fence_move_legal(PlayerColor::Black, Axis::Horizontal, (7, 1)),
        Err(Fail::NoPathRemaining)
    );
    assert_eq!(board.is_fence_move_legal(PlayerColor::Black, Axis::Horizontal, (7, 0)), Ok(()));
    assert_eq!(board.is_fence_move_legal(PlayerColor::Black, Axis::Horizontal, (6, 1)), Ok(()));
    assert!(board.are_pawns_able_to_win());
}

#[test]
fn no_fences_remaining_comes_first() {
    let mut board = Board::default();
    let cells = [
        (0, 0),
        (2, 0),
        (4, 0),
        (6, 0),
        (0, 2),
        (2, 2),
        (4, 2),
        (6, 2),
        (0, 4),
        (2, 4),
    ];
    for (n, cell) in cells.into_iter().enumerate() {
        assert_eq!(board.fences_left(PlayerColor::White), 10 - n as u32);
        commit(&mut board, Move::PlaceFence(Axis::Horizontal, cell), PlayerColor::White);
    }
    assert_eq!(board.fences_left(PlayerColor::White), 0);
    assert_eq!(
        board.is_fence_move_legal(PlayerColor::White, Axis::Horizontal, (4, 4)),
        Err(Fail::NoFencesRemaining)
    );
    assert_eq!(
        board.is_fence_move_legal(PlayerColor::White, Axis::Horizontal, (0, 0)),
        Err(Fail::NoFencesRemaining)
    );
    assert_eq!(
        board.make_move_legal(Move::PlaceFence(Axis::Vertical, (5, 5)), PlayerColor::White),
        Err(MoveMakeFail::AddFenceMove(Fail::NoFencesRemaining))
    );
    assert_eq!(
        board.is_fence_move_legal(PlayerColor::Black, Axis::Horizontal, (0, 0)),
        Err(Fail::Collides)
    );
    assert_eq!(board.is_fence_move_legal(PlayerColor::Black, Axis::Horizontal, (4, 4)), Ok(()));
}

#[test]
fn pawns_can_win_on_the_opening_board() {
    let board = Board::default();
    assert!(board.are_pawns_able_to_win());
}

#[test]
fn pawns_can_win_around_fences() {
    let mut board = Board::default();
    commit(&mut board, Move::PlaceFence(Axis::Horizontal, (3, 7)), PlayerColor::White);
    commit(&mut board, Move::PlaceFence(Axis::Vertical, (2, 7)), PlayerColor::Black);
    commit(&mut board, Move::PlaceFence(Axis::Horizontal, (4, 0)), PlayerColor::White);
    assert!(board.are_pawns_able_to_win());
    assert_eq!(
        board.pawn_move_destination(PlayerColor::White, Direction::Up, None),
        Err(quoridor::game::pawn_move::Fail::PathObstructed)
    );
}

#[test]
fn cell_outside_the_grid_collides() {
    let mut board = Board::default();
    commit(&mut board, Move::PlaceFence(Axis::Horizontal, (3, 3)), PlayerColor::White);
    let before = board.clone();
    for cell in [(8, 8), (8, 0), (0, 8), (8, 3), (3, 8), (9, 9), (usize::MAX, 0), (0, usize::MAX)] {
        for axis in [Axis::Horizontal, Axis::Vertical] {
            for player in [PlayerColor::White, PlayerColor::Black] {
                assert_eq!(
                    board.is_fence_move_legal(player, axis, cell),
                    Err(Fail::Collides)
                );
                assert_eq!(
                    board.make_move_legal(Move::PlaceFence(axis, cell), player),
                    Err(MoveMakeFail::AddFenceMove(Fail::Collides))
                );
            }
        }
    }
    assert_eq!(board, before);
}

#[test]
fn cell_outside_the_grid_without_fences_left() {
    let mut board = Board::default();
    let cells = [
        (0, 0),
        (2, 0),
        (4, 0),
        (6, 0),
        (0, 2),
        (2, 2),
        (4, 2),
        (6, 2),
        (0, 4),
        (2, 4),
    ];
    for cell in cells {
        commit(&mut board, Move::PlaceFence(Axis::Horizontal, cell), PlayerColor::White);
    }
    let before = board.clone();
    assert_eq!(
        board.make_move_legal(Move::PlaceFence(Axis::Horizontal, (8, 8)), PlayerColor::White),
        Err(MoveMakeFail::AddFenceMove(Fail::NoFencesRemaining))
    );
    assert_eq!(
        board.is_fence_move_legal(PlayerColor::White, Axis::Vertical, (3, 8)),
        Err(Fail::NoFencesRemaining)
    );
    assert_eq!(
        board.make_move_legal(Move::PlaceFence(Axis::Horizontal, (8, 8)), PlayerColor::Black),
        Err(MoveMakeFail::AddFenceMove(Fail::Collides))
    );
    assert_eq!(board, before);
}
