//! Players, directions, orientations and the unvalidated move type.

use vstd::prelude::*;

pub mod board;
pub mod notation;

pub use board::{fence_move, pawn_move, Board, LegalMove, MoveMakeFail};

verus! {

/// One of the two players.
#[derive(Debug, Clone, Copy, PartialEq, Eq, Structural)]
pub enum PlayerColor {
    White,
    Black,
}

/// A unit step on the board. `Up` decreases the row, `Down` increases it.
#[derive(Debug, Clone, Copy, PartialEq, Eq, Structural)]
pub enum Direction {
    Left,
    Right,
    Up,
    Down,
}

/// Orientation of a fence.
#[derive(Debug, Clone, Copy, PartialEq, Eq, Structural)]
pub enum Axis {
    Horizontal,
    Vertical,
}

/// A move as a player asks for it, not yet checked against a board.
#[derive(Debug, Clone, Copy, PartialEq, Eq)]
pub enum Move {
    /// Move the pawn one step in the first direction; the second direction
    /// picks the side-step when a jump over the opponent is blocked.
    MovePlayer(Direction, Option<Direction>),
    /// Place a fence of the given orientation on the fence cell `(x, y)`.
    PlaceFence(Axis, (usize, usize)),
}

/// Why a text could not be read as a [`Move`].
#[derive(Debug, Clone, Copy, PartialEq, Eq, Structural)]
pub enum TryIntoMoveError {
    UnrecognizedChar,
    UnexpectedEndOfString,
}

impl Move {
    /// Whether a fence placement names a cell of the 8×8 fence grid. A
    /// pawn move always does.
    pub open spec fn fits_board(self) -> bool {
        match self {
            Move::MovePlayer(_, _) => true,
            Move::PlaceFence(_, cell) => cell.0 < 8 && cell.1 < 8,
        }
    }
}

impl PlayerColor {
    /// The name of the colour in lower case.
    pub fn name(self) -> (r: &'static str)
        ensures
            r@ == (match self {
                PlayerColor::White => "white"@,
                PlayerColor::Black => "black"@,
            }),
    {
        match self {
            PlayerColor::White => "white",
            PlayerColor::Black => "black",
        }
    }

    /// The other player.
    pub open spec fn opponent(self) -> PlayerColor {
        match self {
            PlayerColor::White => PlayerColor::Black,
            PlayerColor::Black => PlayerColor::White,
        }
    }
}

impl Direction {
    /// Column change of one step in this direction.
    pub open spec fn dx(self) -> int {
        match self {
            Direction::Left => -1,
            Direction::Right => 1,
            Direction::Up => 0,
            Direction::Down => 0,
        }
    }

    /// Row change of one step in this direction.
    pub open spec fn dy(self) -> int {
        match self {
            Direction::Left => 0,
            Direction::Right => 0,
            Direction::Up => -1,
            Direction::Down => 1,
        }
    }

    /// The square one step away from `(x, y)`, as mathematical integers.
    pub open spec fn step(self, x: int, y: int) -> (int, int) {
        (x + self.dx(), y + self.dy())
    }

    /// Whether the two directions lie on the same line.
    pub open spec fn parallel_to(self, other: Direction) -> bool {
        (self.dx() == 0) == (other.dx() == 0)
    }

    /// The square one step from `pos` in this direction.
    pub fn offset(self, pos: (usize, usize)) -> (r: (usize, usize))
        requires
            0 <= pos.0 + self.dx() <= usize::MAX,
            0 <= pos.1 + self.dy() <= usize::MAX,
        ensures
            (r.0 as int, r.1 as int) == self.step(pos.0 as int, pos.1 as int),
    {
        let (x, y) = pos;
        match self {
            Direction::Left => (x - 1, y),
            Direction::Right => (x + 1, y),
            Direction::Down => (x, y + 1),
            Direction::Up => (x, y - 1),
        }
    }

    /// Whether `self` and `other` lie on the same line (both horizontal or
    /// both vertical).
    pub fn are_parallel(self, other: Direction) -> (r: bool)
        ensures
            r == self.parallel_to(other),
    {
        match (self, other) {
            (Direction::Left, Direction::Left)
            | (Direction::Left, Direction::Right)
            | (Direction::Right, Direction::Left)
            | (Direction::Right, Direction::Right) => true,
            (Direction::Up, Direction::Up)
            | (Direction::Up, Direction::Down)
            | (Direction::Down, Direction::Up)
            | (Direction::Down, Direction::Down) => true,
            _ => false,
        }
    }

    /// The two directions orthogonal to `self`.
    pub fn perpendiculars(self) -> (r: [Direction; 2])
        ensures
            r[0] != r[1],
            !self.parallel_to(r[0]),
            !self.parallel_to(r[1]),
            self.dx() == 0 ==> r[0] == Direction::Left && r[1] == Direction::Right,
            self.dx() != 0 ==> r[0] == Direction::Down && r[1] == Direction::Up,
    {
        match self {
            Direction::Down | Direction::Up => [Direction::Left, Direction::Right],
            Direction::Left | Direction::Right => [Direction::Down, Direction::Up],
        }
    }
}

} // verus!
