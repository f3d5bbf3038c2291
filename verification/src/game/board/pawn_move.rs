//! Obstruction of single steps and the resolution of pawn moves.

use vstd::prelude::*;
use super::super::{Axis, Direction, PlayerColor};
use super::{on_board, Board, BoardView};

verus! {

/// Why a pawn move was refused.
#[derive(Debug, Clone, Copy, PartialEq, Eq, Structural)]
pub enum Fail {
    /// The step in the first or in the second direction crosses a fence or
    /// leaves the board.
    PathObstructed,
    /// The jump over the opponent is blocked and no side-step was named.
    NoSecondary,
    /// The side-step named lies on the line of the first direction.
    InvalidSecondary,
}

impl BoardView {
    /// Whether cell `(x, y)` of the fence grid holds a fence of orientation
    /// `axis`.
    pub open spec fn has_fence(self, axis: Axis, x: int, y: int) -> bool {
        self.fence(x, y) == Some(axis)
    }

    /// Whether the step from square `(x, y)` in direction `dir` leaves the
    /// board or crosses a fence. The edge crossed is covered by up to two
    /// fence cells, and a fence blocks it when it lies across the line of
    /// travel.
    pub open spec fn obstructed(self, x: int, y: int, dir: Direction) -> bool {
        match dir {
            Direction::Left => x == 0 || self.has_fence(Axis::Vertical, x - 1, y) || self.has_fence(
                Axis::Vertical,
                x - 1,
                y - 1,
            ),
            Direction::Right => x == 8 || self.has_fence(Axis::Vertical, x, y) || self.has_fence(
                Axis::Vertical,
                x,
                y - 1,
            ),
            Direction::Down => y == 8 || self.has_fence(Axis::Horizontal, x, y) || self.has_fence(
                Axis::Horizontal,
                x - 1,
                y,
            ),
            Direction::Up => y == 0 || self.has_fence(Axis::Horizontal, x, y - 1) || self.has_fence(
                Axis::Horizontal,
                x - 1,
                y - 1,
            ),
        }
    }

    /// Where the pawn of `player` lands when it moves in direction `dir`,
    /// with `second` as the side-step for a blocked jump.
    ///
    /// A free neighbouring square is entered. An occupied one is jumped
    /// over in a straight line where that step is open. Otherwise the pawn
    /// steps from the occupied square to the side named by `second`, which
    /// must be given, must not lie on the line of `dir`, and must be open.
    pub open spec fn destination(
        self,
        player: PlayerColor,
        dir: Direction,
        second: Option<Direction>,
    ) -> Result<(int, int), Fail> {
        let from = self.pawn(player);
        let mid = dir.step(from.0, from.1);
        if self.obstructed(from.0, from.1, dir) {
            Err(Fail::PathObstructed)
        } else if self.square(mid) is None {
            Ok(mid)
        } else if !self.obstructed(mid.0, mid.1, dir) {
            Ok(dir.step(mid.0, mid.1))
        } else {
            match second {
                None => Err(Fail::NoSecondary),
                Some(side) => if dir.parallel_to(side) {
                    Err(Fail::InvalidSecondary)
                } else if self.obstructed(mid.0, mid.1, side) {
                    Err(Fail::PathObstructed)
                } else {
                    Ok(side.step(mid.0, mid.1))
                },
            }
        }
    }

    /// The board after the pawn of `player` was taken from `from` and set
    /// on `to`.
    pub open spec fn with_pawn_moved(
        self,
        player: PlayerColor,
        from: (int, int),
        to: (int, int),
    ) -> BoardView {
        let cleared = self.squares.update(from.1, self.squares[from.1].update(from.0, None));
        let placed = cleared.update(to.1, cleared[to.1].update(to.0, Some(player)));
        BoardView {
            squares: placed,
            white_pawn: if player == PlayerColor::White {
                to
            } else {
                self.white_pawn
            },
            black_pawn: if player == PlayerColor::Black {
                to
            } else {
                self.black_pawn
            },
            ..self
        }
    }

    /// On a well-formed board every pawn move that resolves lands on a free
    /// square of the board other than the one the pawn left.
    pub proof fn lemma_destination_free(
        self,
        player: PlayerColor,
        dir: Direction,
        second: Option<Direction>,
    )
        requires
            self.wf(),
            self.destination(player, dir, second) is Ok,
        ensures
            on_board(self.destination(player, dir, second)->Ok_0),
            self.square(self.destination(player, dir, second)->Ok_0) is None,
            self.destination(player, dir, second)->Ok_0 != self.pawn(player),
    {
        let from = self.pawn(player);
        let mid = dir.step(from.0, from.1);
        let to = self.destination(player, dir, second)->Ok_0;
        assert(on_board(mid));
        assert(self.squares[from.1][from.0] is Some);
        if self.square(mid) is Some {
            assert(self.squares[mid.1][mid.0] is Some);
            assert(mid == self.pawn(player.opponent()));
            assert(on_board(to));
            assert(to != from);
            assert(to != mid);
            assert(self.squares[to.1][to.0] is None);
        }
    }

    /// Moving a pawn from its square to a free square of the board keeps
    /// the board well-formed.
    pub proof fn lemma_pawn_moved_wf(self, player: PlayerColor, to: (int, int))
        requires
            self.wf(),
            on_board(to),
            to != self.pawn(player.opponent()),
        ensures
            self.with_pawn_moved(player, self.pawn(player), to).wf(),
    {
        let from = self.pawn(player);
        let next = self.with_pawn_moved(player, from, to);
        assert forall|x: int, y: int| 0 <= x < 9 && 0 <= y < 9 implies #[trigger] next.squares[y][x]
            == (if (x, y) == next.white_pawn {
            Some(PlayerColor::White)
        } else if (x, y) == next.black_pawn {
            Some(PlayerColor::Black)
        } else {
            None
        }) by {
            assert(self.squares[y][x] == (if (x, y) == self.white_pawn {
                Some(PlayerColor::White)
            } else if (x, y) == self.black_pawn {
                Some(PlayerColor::Black)
            } else {
                None
            }));
        }
    }
}

impl Board {
    /// Whether the step from square `pos` in direction `dir` leaves the
    /// board or crosses a fence.
    pub fn is_obstructed(&self, pos: (usize, usize), dir: Direction) -> (r: bool)
        requires
            pos.0 < 9,
            pos.1 < 9,
        ensures
            r == self@.obstructed(pos.0 as int, pos.1 as int, dir),
    {
        let (x, y) = pos;
        match dir {
            Direction::Left => {
                x == 0 || y < 8 && self.fence_is(Axis::Vertical, x - 1, y) || y > 0
                    && self.fence_is(Axis::Vertical, x - 1, y - 1)
            },
            Direction::Right => {
                x == 8 || y < 8 && self.fence_is(Axis::Vertical, x, y) || y > 0 && self.fence_is(
                    Axis::Vertical,
                    x,
                    y - 1,
                )
            },
            Direction::Down => {
                y == 8 || x < 8 && self.fence_is(Axis::Horizontal, x, y) || x > 0 && self.fence_is(
                    Axis::Horizontal,
                    x - 1,
                    y,
                )
            },
            Direction::Up => {
                y == 0 || x < 8 && self.fence_is(Axis::Horizontal, x, y - 1) || x > 0
                    && self.fence_is(Axis::Horizontal, x - 1, y - 1)
            },
        }
    }

    /// Where the pawn of `pawn` lands when it moves in direction `dir`,
    /// with `second_dir` as the side-step for a blocked jump. The board is
    /// not changed.
    pub fn pawn_move_destination(
        &self,
        pawn: PlayerColor,
        dir: Direction,
        second_dir: Option<Direction>,
    ) -> (r: Result<(usize, usize), Fail>)
        requires
            self.wf(),
        ensures
            match r {
                Ok(to) => self@.destination(pawn, dir, second_dir) == Ok::<(int, int), Fail>(
                    (to.0 as int, to.1 as int),
                ),
                Err(e) => self@.destination(pawn, dir, second_dir) == Err::<(int, int), Fail>(e),
            },
    {
        let (x, y) = self.pawn_pos(pawn);
        if self.is_obstructed((x, y), dir) {
            return Err(Fail::PathObstructed);
        }
        let (x1, y1) = dir.offset((x, y));
        if self.squares[y1][x1].is_none() {
            return Ok((x1, y1));
        }
        if !self.is_obstructed((x1, y1), dir) {
            let (x2, y2) = dir.offset((x1, y1));
            return Ok((x2, y2));
        }
        let sec_dir = match second_dir {
            Some(sec_dir) => sec_dir,
            None => {
                return Err(Fail::NoSecondary);
            },
        };
        if dir.are_parallel(sec_dir) {
            return Err(Fail::InvalidSecondary);
        }
        if self.is_obstructed((x1, y1), sec_dir) {
            return Err(Fail::PathObstructed);
        }
        Ok(sec_dir.offset((x1, y1)))
    }

    /// Takes the pawn of `pawn` from `from` and sets it on `to`.
    pub(crate) fn move_pawn_unchecked(
        &mut self,
        pawn: PlayerColor,
        from: (usize, usize),
        to: (usize, usize),
    )
        requires
            from.0 < 9,
            from.1 < 9,
            to.0 < 9,
            to.1 < 9,
        ensures
            final(self)@ == old(self)@.with_pawn_moved(
                pawn,
                (from.0 as int, from.1 as int),
                (to.0 as int, to.1 as int),
            ),
    {
        let (xo, yo) = from;
        let (x, y) = to;
        self.squares[yo][xo] = None;
        self.squares[y][x] = Some(pawn);
        match pawn {
            PlayerColor::White => self.white_pawn = (x, y),
            PlayerColor::Black => self.black_pawn = (x, y),
        };
        proof {
            let want = old(self)@.with_pawn_moved(
                pawn,
                (from.0 as int, from.1 as int),
                (to.0 as int, to.1 as int),
            );
            assert forall|j: int| 0 <= j < 9 implies #[trigger] self@.squares[j]
                == want.squares[j] by {
                assert(self@.squares[j] =~= want.squares[j]);
            }
            assert(self@.squares =~= want.squares);
            assert(self@.fences =~= want.fences);
            assert(self@.legal_fence_places =~= want.legal_fence_places);
        }
    }

    /// Takes the pawn of `pawn` from `to` and sets it back on `from`.
    pub(crate) fn unmove_pawn_unchecked(
        &mut self,
        pawn: PlayerColor,
        from: (usize, usize),
        to: (usize, usize),
    )
        requires
            from.0 < 9,
            from.1 < 9,
            to.0 < 9,
            to.1 < 9,
        ensures
            final(self)@ == old(self)@.with_pawn_moved(
                pawn,
                (to.0 as int, to.1 as int),
                (from.0 as int, from.1 as int),
            ),
    {
        self.move_pawn_unchecked(pawn, to, from)
    }

    /// Resolves the move of `pawn` in direction `dir` and, where it
    /// resolves, makes it. A move that does not resolve leaves the board
    /// as it was.
    pub fn move_pawn(
        &mut self,
        pawn: PlayerColor,
        dir: Direction,
        second_dir: Option<Direction>,
    ) -> (r: Result<(), Fail>)
        requires
            old(self).wf(),
        ensures
            match r {
                Ok(()) => {
                    &&& old(self)@.destination(pawn, dir, second_dir) is Ok
                    &&& final(self)@ == old(self)@.with_pawn_moved(
                        pawn,
                        old(self)@.pawn(pawn),
                        old(self)@.destination(pawn, dir, second_dir)->Ok_0,
                    )
                    &&& final(self).wf()
                },
                Err(e) => {
                    &&& old(self)@.destination(pawn, dir, second_dir) == Err::<(int, int), Fail>(e)
                    &&& *final(self) == *old(self)
                },
            },
    {
        let from = self.pawn_pos(pawn);
        match self.pawn_move_destination(pawn, dir, second_dir) {
            Ok(to) => {
                proof {
                    self@.lemma_destination_free(pawn, dir, second_dir);
                    self@.lemma_pawn_moved_wf(pawn, (to.0 as int, to.1 as int));
                }
                self.move_pawn_unchecked(pawn, from, to);
                Ok(())
            },
            Err(e) => Err(e),
        }
    }
}

} // verus!
