use quoridor::game::{Axis, Direction, Move, PlayerColor};

#[test]
fn offset_moves_one_square() {
    assert_eq!(Direction::Left.offset((4, 4)), (3, 4));
    assert_eq!(Direction::Right.offset((4, 4)), (5, 4));
    assert_eq!(Direction::Up.offset((4, 4)), (4, 3));
    assert_eq!(Direction::Down.offset((4, 4)), (4, 5));
}

#[test]
fn offset_at_the_corners() {
    assert_eq!(Direction::Right.offset((0, 0)), (1, 0));
    assert_eq!(Direction::Down.offset((0, 0)), (0, 1));
    assert_eq!(Direction::Left.offset((8, 8)), (7, 8));
    assert_eq!(Direction::Up.offset((8, 8)), (8, 7));
}

#[test]
fn parallel_directions_share_a_line() {
    assert!(Direction::Left.are_parallel(Direction::Left));
    assert!(Direction::Left.are_parallel(Direction::Right));
    assert!(Direction::Right.are_parallel(Direction::Left));
    assert!(Direction::Up.are_parallel(Direction::Down));
    assert!(Direction::Down.are_parallel(Direction::Down));
    assert!(!Direction::Left.are_parallel(Direction::Up));
    assert!(!Direction::Right.are_parallel(Direction::Down));
    assert!(!Direction::Up.are_parallel(Direction::Left));
    assert!(!Direction::Down.are_parallel(Direction::Right));
}

#[test]
fn perpendiculars_are_the_two_across() {
    assert_eq!(Direction::Up.perpendiculars(), [Direction::Left, Direction::Right]);
    assert_eq!(Direction::Down.perpendiculars(), [Direction::Left, Direction::Right]);
    assert_eq!(Direction::Left.perpendiculars(), [Direction::Down, Direction::Up]);
    assert_eq!(Direction::Right.perpendiculars(), [Direction::Down, Direction::Up]);
}

#[test]
fn perpendiculars_are_never_parallel() {
    for dir in [Direction::Left, Direction::Right, Direction::Up, Direction::Down] {
        for side in dir.perpendiculars() {
            assert!(!dir.are_parallel(side));
        }
    }
}

#[test]
fn colour_names() {
    assert_eq!(PlayerColor::White.name(), "white");
    assert_eq!(PlayerColor::Black.name(), "black");
}

#[test]
fn moves_compare_by_value() {
    assert_eq!(
        Move::MovePlayer(Direction::Up, None),
        Move::MovePlayer(Direction::Up, None)
    );
    assert_ne!(
        Move::PlaceFence(Axis::Horizontal, (1, 2)),
        Move::PlaceFence(Axis::Vertical, (1, 2))
    );
}
