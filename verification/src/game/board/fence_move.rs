//! Fence placement: the legality cache, the check of a placement, and
//! the search that decides whether both pawns can still win.

use vstd::prelude::*;
use vstd::set_lib::{lemma_int_range, lemma_len_subset, set_int_range};
use super::super::{Axis, Direction, PlayerColor};
use super::{on_board, on_fence_grid, Board, BoardView, FenceLegality};

verus! {

/// Why a fence placement was refused.
#[derive(Debug, Clone, Copy, PartialEq, Eq, Structural)]
pub enum Fail {
    /// The legality cache rules the cell out for this orientation.
    Collides,
    /// With the fence in place a pawn could no longer reach its goal row.
    NoPathRemaining,
    /// The player has no fence left to place.
    NoFencesRemaining,
}

impl BoardView {
    /// The board with `fence` written to cell `(x, y)` of the fence grid.
    pub open spec fn with_fence_grid(self, x: int, y: int, fence: Option<Axis>) -> BoardView {
        BoardView { fences: self.fences.update(y, self.fences[y].update(x, fence)), ..self }
    }

    /// The board with `legality` written to cell `(x, y)` of the cache.
    pub open spec fn with_legality(self, x: int, y: int, legality: FenceLegality) -> BoardView {
        BoardView {
            legal_fence_places: self.legal_fence_places.update(
                y,
                self.legal_fence_places[y].update(x, legality),
            ),
            ..self
        }
    }

    /// The board with the fence counter of `player` set to `n`.
    pub open spec fn with_fences_left(self, player: PlayerColor, n: nat) -> BoardView {
        match player {
            PlayerColor::White => BoardView { fences_left_for_white: n, ..self },
            PlayerColor::Black => BoardView { fences_left_for_black: n, ..self },
        }
    }

    /// The board after the cached legality of cell `(x, y)` was restricted
    /// for a fence of orientation `axis` beside it. A cell outside the grid
    /// changes nothing.
    pub open spec fn with_restriction(self, x: int, y: int, axis: Axis) -> BoardView {
        if on_fence_grid((x, y)) {
            self.with_legality(x, y, self.legality(x, y).restricted(axis))
        } else {
            self
        }
    }

    /// The board after `player` placed a fence of orientation `axis` on
    /// cell `(x, y)`: the fence stands on the grid, the player has one
    /// fence less, the cell admits no fence any more, and the two cells
    /// next to it along the fence are restricted.
    pub open spec fn with_fence_placed(
        self,
        player: PlayerColor,
        axis: Axis,
        x: int,
        y: int,
    ) -> BoardView {
        let placed = self.with_fence_grid(x, y, Some(axis)).with_fences_left(
            player,
            (self.fences_left(player) - 1) as nat,
        ).with_legality(x, y, FenceLegality::Neither);
        match axis {
            Axis::Horizontal => placed.with_restriction(x - 1, y, axis).with_restriction(
                x + 1,
                y,
                axis,
            ),
            Axis::Vertical => placed.with_restriction(x, y - 1, axis).with_restriction(
                x,
                y + 1,
                axis,
            ),
        }
    }

    /// `legality`, restricted for the fence on cell `(x, y)` if there is
    /// one.
    pub open spec fn restricted_by(self, legality: FenceLegality, x: int, y: int) -> FenceLegality {
        match self.fence(x, y) {
            Some(axis) => legality.restricted(axis),
            None => legality,
        }
    }

    /// The legality of cell `(x, y)` worked out from the fence grid alone:
    /// starting from `Any`, one restriction for each fence that stands on
    /// one of the up to four neighbouring cells.
    pub open spec fn recomputed_legality(self, x: int, y: int) -> FenceLegality {
        let left = self.restricted_by(FenceLegality::Any, x - 1, y);
        let up = self.restricted_by(left, x, y - 1);
        let right = self.restricted_by(up, x + 1, y);
        self.restricted_by(right, x, y + 1)
    }

    /// The board after the cached legality of cell `(x, y)` was worked out
    /// anew. A cell outside the grid changes nothing.
    pub open spec fn with_legality_recomputed(self, x: int, y: int) -> BoardView {
        if on_fence_grid((x, y)) {
            self.with_legality(x, y, self.recomputed_legality(x, y))
        } else {
            self
        }
    }

    /// The board after the fence that `player` placed on cell `(x, y)` was
    /// taken back: the cell is free, the player has one fence more, and
    /// the cache is worked out anew on the cell and on its up to four
    /// neighbours.
    pub open spec fn with_fence_removed(self, player: PlayerColor, x: int, y: int) -> BoardView {
        self.with_fence_grid(x, y, None).with_fences_left(
            player,
            self.fences_left(player) + 1,
        ).with_legality_recomputed(x, y).with_legality_recomputed(x - 1, y).with_legality_recomputed(
            x + 1,
            y,
        ).with_legality_recomputed(x, y - 1).with_legality_recomputed(x, y + 1)
    }

    /// The verdict on placing a fence of orientation `axis` on cell
    /// `(x, y)` for `player`: refused when the player has no fence left;
    /// else refused when the cell lies outside the grid or the cache rules
    /// the placement out; else refused when, with the fence on the grid,
    /// a pawn cannot reach its goal row.
    pub open spec fn fence_check(self, player: PlayerColor, axis: Axis, x: int, y: int) -> Result<
        (),
        Fail,
    > {
        if self.fences_left(player) == 0 {
            Err(Fail::NoFencesRemaining)
        } else if !on_fence_grid((x, y)) || !self.legality(x, y).allows(axis) {
            Err(Fail::Collides)
        } else if !self.with_fence_grid(x, y, Some(axis)).pawns_able_to_win() {
            Err(Fail::NoPathRemaining)
        } else {
            Ok(())
        }
    }
}

impl BoardView {
    /// Whether `other` differs from this board in the legality cache at
    /// most.
    pub open spec fn same_but_cache(self, other: BoardView) -> bool {
        &&& other.squares == self.squares
        &&& other.fences == self.fences
        &&& other.white_pawn == self.white_pawn
        &&& other.black_pawn == self.black_pawn
        &&& other.fences_left_for_white == self.fences_left_for_white
        &&& other.fences_left_for_black == self.fences_left_for_black
    }

    /// Writing one cell of the cache changes that cell and nothing else.
    pub proof fn lemma_with_legality(self, x: int, y: int, legality: FenceLegality)
        requires
            self.shaped(),
            on_fence_grid((x, y)),
        ensures
            self.with_legality(x, y, legality).shaped(),
            self.same_but_cache(self.with_legality(x, y, legality)),
            self.with_legality(x, y, legality).legality(x, y) == legality,
            forall|i: int, j: int|
                on_fence_grid((i, j)) && (i, j) != (x, y) ==> #[trigger] self.with_legality(
                    x,
                    y,
                    legality,
                ).legality(i, j) == self.legality(i, j),
    {
    }

    /// Restricting one cell of the cache changes that cell, if it lies on
    /// the grid, and nothing else.
    pub proof fn lemma_with_restriction(self, x: int, y: int, axis: Axis)
        requires
            self.shaped(),
        ensures
            self.with_restriction(x, y, axis).shaped(),
            self.same_but_cache(self.with_restriction(x, y, axis)),
            on_fence_grid((x, y)) ==> self.with_restriction(x, y, axis).legality(x, y)
                == self.legality(x, y).restricted(axis),
            forall|i: int, j: int|
                on_fence_grid((i, j)) && (i, j) != (x, y) ==> #[trigger] self.with_restriction(
                    x,
                    y,
                    axis,
                ).legality(i, j) == self.legality(i, j),
    {
        if on_fence_grid((x, y)) {
            self.lemma_with_legality(x, y, self.legality(x, y).restricted(axis));
        }
    }

    /// Working one cell of the cache out anew changes that cell, if it
    /// lies on the grid, and nothing else.
    pub proof fn lemma_with_legality_recomputed(self, x: int, y: int)
        requires
            self.shaped(),
        ensures
            self.with_legality_recomputed(x, y).shaped(),
            self.same_but_cache(self.with_legality_recomputed(x, y)),
            on_fence_grid((x, y)) ==> self.with_legality_recomputed(x, y).legality(x, y)
                == self.recomputed_legality(x, y),
            forall|i: int, j: int|
                on_fence_grid((i, j)) && (i, j) != (x, y)
                    ==> #[trigger] self.with_legality_recomputed(x, y).legality(i, j)
                    == self.legality(i, j),
            forall|i: int, j: int| #[trigger]
                self.with_legality_recomputed(x, y).recomputed_legality(i, j)
                    == self.recomputed_legality(i, j),
    {
        if on_fence_grid((x, y)) {
            self.lemma_with_legality(x, y, self.recomputed_legality(x, y));
        }
    }

    /// Writing one cell of the fence grid changes that cell and nothing
    /// else.
    pub proof fn lemma_with_fence_grid(self, x: int, y: int, fence: Option<Axis>)
        requires
            self.shaped(),
            on_fence_grid((x, y)),
        ensures
            self.with_fence_grid(x, y, fence).shaped(),
            self.with_fence_grid(x, y, fence).squares == self.squares,
            self.with_fence_grid(x, y, fence).legal_fence_places == self.legal_fence_places,
            self.with_fence_grid(x, y, fence).white_pawn == self.white_pawn,
            self.with_fence_grid(x, y, fence).black_pawn == self.black_pawn,
            self.with_fence_grid(x, y, fence).fences_left_for_white == self.fences_left_for_white,
            self.with_fence_grid(x, y, fence).fences_left_for_black == self.fences_left_for_black,
            self.with_fence_grid(x, y, fence).fence(x, y) == fence,
            forall|i: int, j: int|
                (i, j) != (x, y) ==> #[trigger] self.with_fence_grid(x, y, fence).fence(i, j)
                    == self.fence(i, j),
    {
    }

    /// What placing a fence changes: the cell of the fence grid, the
    /// player's counter, and the cache on the cell and on the two cells
    /// next to it along the fence.
    pub proof fn lemma_with_fence_placed(self, player: PlayerColor, axis: Axis, x: int, y: int)
        requires
            self.shaped(),
            on_fence_grid((x, y)),
        ensures
            ({
                let next = self.with_fence_placed(player, axis, x, y);
                let (dx, dy): (int, int) = if axis == Axis::Horizontal {
                    (1, 0)
                } else {
                    (0, 1)
                };
                &&& next.shaped()
                &&& next.squares == self.squares
                &&& next.white_pawn == self.white_pawn
                &&& next.black_pawn == self.black_pawn
                &&& next.fences == self.with_fence_grid(x, y, Some(axis)).fences
                &&& next.fences_left(player) == (self.fences_left(player) - 1) as nat
                &&& next.fences_left(player.opponent()) == self.fences_left(player.opponent())
                &&& next.legality(x, y) == FenceLegality::Neither
                &&& on_fence_grid((x - dx, y - dy)) ==> next.legality(x - dx, y - dy)
                    == self.legality(x - dx, y - dy).restricted(axis)
                &&& on_fence_grid((x + dx, y + dy)) ==> next.legality(x + dx, y + dy)
                    == self.legality(x + dx, y + dy).restricted(axis)
                &&& forall|i: int, j: int|
                    on_fence_grid((i, j)) && (i, j) != (x, y) && (i, j) != (x - dx, y - dy) && (
                    i,
                    j,
                    ) != (x + dx, y + dy) ==> #[trigger] next.legality(i, j) == self.legality(i, j)
            }),
    {
        let (dx, dy): (int, int) = if axis == Axis::Horizontal {
            (1, 0)
        } else {
            (0, 1)
        };
        let b0 = self.with_fence_grid(x, y, Some(axis));
        self.lemma_with_fence_grid(x, y, Some(axis));
        let b1 = b0.with_fences_left(player, (self.fences_left(player) - 1) as nat);
        let b2 = b1.with_legality(x, y, FenceLegality::Neither);
        b1.lemma_with_legality(x, y, FenceLegality::Neither);
        let b3 = b2.with_restriction(x - dx, y - dy, axis);
        b2.lemma_with_restriction(x - dx, y - dy, axis);
        let b4 = b3.with_restriction(x + dx, y + dy, axis);
        b3.lemma_with_restriction(x + dx, y + dy, axis);
        assert(b4 == self.with_fence_placed(player, axis, x, y));
    }

    /// What taking a fence back changes: the cell of the fence grid, the
    /// player's counter, and the cache on the cell and on its four
    /// neighbours, which afterwards holds what the fence grid gives.
    pub proof fn lemma_with_fence_removed(self, player: PlayerColor, x: int, y: int)
        requires
            self.shaped(),
            on_fence_grid((x, y)),
        ensures
            ({
                let next = self.with_fence_removed(player, x, y);
                &&& next.shaped()
                &&& next.squares == self.squares
                &&& next.white_pawn == self.white_pawn
                &&& next.black_pawn == self.black_pawn
                &&& next.fences == self.with_fence_grid(x, y, None).fences
                &&& next.fences_left(player) == self.fences_left(player) + 1
                &&& next.fences_left(player.opponent()) == self.fences_left(player.opponent())
                &&& forall|i: int, j: int|
                    on_fence_grid((i, j)) ==> #[trigger] next.legality(i, j) == (if (i == x && (j
                        - y == 1 || y - j == 1 || j == y)) || (j == y && (i - x == 1 || x - i
                        == 1)) {
                        next.recomputed_legality(i, j)
                    } else {
                        self.legality(i, j)
                    })
            }),
    {
        let b0 = self.with_fence_grid(x, y, None);
        self.lemma_with_fence_grid(x, y, None);
        let b1 = b0.with_fences_left(player, self.fences_left(player) + 1);
        assert forall|i: int, j: int| #[trigger]
            b1.recomputed_legality(i, j) == b0.recomputed_legality(i, j) by {}
        let b2 = b1.with_legality_recomputed(x, y);
        b1.lemma_with_legality_recomputed(x, y);
        let b3 = b2.with_legality_recomputed(x - 1, y);
        b2.lemma_with_legality_recomputed(x - 1, y);
        let b4 = b3.with_legality_recomputed(x + 1, y);
        b3.lemma_with_legality_recomputed(x + 1, y);
        let b5 = b4.with_legality_recomputed(x, y - 1);
        b4.lemma_with_legality_recomputed(x, y - 1);
        let b6 = b5.with_legality_recomputed(x, y + 1);
        b5.lemma_with_legality_recomputed(x, y + 1);
        assert(b6 == self.with_fence_removed(player, x, y));
        assert forall|i: int, j: int| on_fence_grid((i, j)) implies #[trigger] b6.legality(i, j)
            == (if (i == x && (j - y == 1 || y - j == 1 || j == y)) || (j == y && (i - x == 1 || x
            - i == 1)) {
            b6.recomputed_legality(i, j)
        } else {
            self.legality(i, j)
        }) by {
            assert(b1.legality(i, j) == self.legality(i, j));
            assert(b6.recomputed_legality(i, j) == b1.recomputed_legality(i, j));
            assert(b5.recomputed_legality(i, j) == b1.recomputed_legality(i, j));
            assert(b4.recomputed_legality(i, j) == b1.recomputed_legality(i, j));
            assert(b3.recomputed_legality(i, j) == b1.recomputed_legality(i, j));
            assert(b2.recomputed_legality(i, j) == b1.recomputed_legality(i, j));
        }
    }
}

/// Whether the search has put square `a` on its stack at some time.
spec fn marked(grid: [[bool; 9]; 9], a: (int, int)) -> bool {
    on_board(a) && grid[a.1][a.0]
}

/// Whether square `a` waits on the stack.
spec fn stacked(stack: Seq<(usize, usize)>, a: (int, int)) -> bool {
    exists|i: int| 0 <= i < stack.len() && (#[trigger] stack[i]).0 == a.0 && stack[i].1 == a.1
}

/// The place of `dir` in the order in which the search tries directions.
spec fn rank(dir: Direction) -> int {
    match dir {
        Direction::Down => 0,
        Direction::Left => 1,
        Direction::Right => 2,
        Direction::Up => 3,
    }
}

/// The number of a square, row by row.
spec fn square_number(a: (int, int)) -> int {
    a.1 * 9 + a.0
}

impl Board {
    /// Writes `legality` to cell `(x, y)` of the cache.
    fn set_legality(&mut self, x: usize, y: usize, legality: FenceLegality)
        requires
            x < 8,
            y < 8,
        ensures
            final(self)@ == old(self)@.with_legality(x as int, y as int, legality),
    {
        self.legal_fence_places[y][x] = legality;
        proof {
            let want = old(self)@.with_legality(x as int, y as int, legality);
            assert forall|j: int| 0 <= j < 8 implies #[trigger] self@.legal_fence_places[j]
                == want.legal_fence_places[j] by {
                assert(self@.legal_fence_places[j] =~= want.legal_fence_places[j]);
            }
            assert(self@.legal_fence_places =~= want.legal_fence_places);
            assert(self@.squares =~= want.squares);
            assert(self@.fences =~= want.fences);
        }
    }

    /// Writes `fence` to cell `(x, y)` of the fence grid.
    fn set_fence(&mut self, x: usize, y: usize, fence: Option<Axis>)
        requires
            x < 8,
            y < 8,
        ensures
            final(self)@ == old(self)@.with_fence_grid(x as int, y as int, fence),
    {
        self.fences[y][x] = fence;
        proof {
            let want = old(self)@.with_fence_grid(x as int, y as int, fence);
            assert forall|j: int| 0 <= j < 8 implies #[trigger] self@.fences[j]
                == want.fences[j] by {
                assert(self@.fences[j] =~= want.fences[j]);
            }
            assert(self@.fences =~= want.fences);
            assert(self@.squares =~= want.squares);
            assert(self@.legal_fence_places =~= want.legal_fence_places);
        }
    }

    /// Restricts the cached legality of cell `(x, y)` for a fence of
    /// orientation `axis` beside it.
    fn restrict_legality_at(&mut self, x: usize, y: usize, axis: Axis)
        requires
            x < 8,
            y < 8,
        ensures
            final(self)@ == old(self)@.with_restriction(x as int, y as int, axis),
    {
        let restricted = self.legal_fence_places[y][x].restrict(axis);
        self.set_legality(x, y, restricted);
    }

    /// Places a fence of orientation `axis` for `player` on cell `pos`
    /// and brings the legality cache up to date.
    pub(crate) fn move_fence_unchecked(&mut self, player: PlayerColor, axis: Axis, pos: (usize, usize))
        requires
            pos.0 < 8,
            pos.1 < 8,
            old(self)@.fences_left(player) > 0,
        ensures
            final(self)@ == old(self)@.with_fence_placed(
                player,
                axis,
                pos.0 as int,
                pos.1 as int,
            ),
    {
        let (x, y) = pos;
        self.set_fence(x, y, Some(axis));
        match player {
            PlayerColor::White => self.fences_left_for_white -= 1,
            PlayerColor::Black => self.fences_left_for_black -= 1,
        };
        self.set_legality(x, y, FenceLegality::Neither);
        match axis {
            Axis::Horizontal => {
                if x != 0 {
                    self.restrict_legality_at(x - 1, y, axis);
                }
                if x != 7 {
                    self.restrict_legality_at(x + 1, y, axis);
                }
            },
            Axis::Vertical => {
                if y != 0 {
                    self.restrict_legality_at(x, y - 1, axis);
                }
                if y != 7 {
                    self.restrict_legality_at(x, y + 1, axis);
                }
            },
        };
    }

    /// Takes the fence on cell `pos` back for `player` and works the
    /// legality cache out anew on the cell and on its neighbours.
    pub(crate) fn unmove_fence_unchecked(&mut self, player: PlayerColor, pos: (usize, usize))
        requires
            pos.0 < 8,
            pos.1 < 8,
            old(self)@.fences_left(player) < u32::MAX,
        ensures
            final(self)@ == old(self)@.with_fence_removed(player, pos.0 as int, pos.1 as int),
    {
        let (x, y) = pos;
        self.set_fence(x, y, None);
        match player {
            PlayerColor::White => self.fences_left_for_white += 1,
            PlayerColor::Black => self.fences_left_for_black += 1,
        };
        self.figure_correct_legality_at((x, y));
        if x != 0 {
            self.figure_correct_legality_at((x - 1, y));
        }
        if x != 7 {
            self.figure_correct_legality_at((x + 1, y));
        }
        if y != 0 {
            self.figure_correct_legality_at((x, y - 1));
        }
        if y != 7 {
            self.figure_correct_legality_at((x, y + 1));
        }
    }

    /// Works the cached legality of cell `pos` out from the fence grid:
    /// starting from `Any`, one restriction for each fence on a
    /// neighbouring cell.
    pub(crate) fn figure_correct_legality_at(&mut self, pos: (usize, usize))
        requires
            pos.0 < 8,
            pos.1 < 8,
        ensures
            final(self)@ == old(self)@.with_legality_recomputed(pos.0 as int, pos.1 as int),
    {
        let (x, y) = pos;
        let mut legality = FenceLegality::Any;
        if x > 0 {
            if let Some(f) = self.fences[y][x - 1] {
                legality = legality.restrict(f);
            }
        }
        if y > 0 {
            if let Some(f) = self.fences[y - 1][x] {
                legality = legality.restrict(f);
            }
        }
        if x < 7 {
            if let Some(f) = self.fences[y][x + 1] {
                legality = legality.restrict(f);
            }
        }
        if y < 7 {
            if let Some(f) = self.fences[y + 1][x] {
                legality = legality.restrict(f);
            }
        }
        self.set_legality(x, y, legality);
    }

    /// Decides whether `player` may place a fence of orientation `axis`
    /// on cell `pos`. A cell outside the grid is refused like one that
    /// the cache rules out. The board is not changed.
    pub fn is_fence_move_legal(&self, player: PlayerColor, axis: Axis, pos: (usize, usize)) -> (r:
        Result<(), Fail>)
        requires
            self.wf(),
        ensures
            r == self@.fence_check(player, axis, pos.0 as int, pos.1 as int),
            self@.fences_left(player) == 0 ==> r == Err::<(), _>(Fail::NoFencesRemaining),
            r is Ok ==> pos.0 < 8 && pos.1 < 8,
    {
        let (x, y) = pos;
        if self.fences_left(player) == 0 {
            return Err(Fail::NoFencesRemaining);
        }
        if x >= 8 || y >= 8 || !self.legal_fence_places[y][x].does_allow(axis) {
            return Err(Fail::Collides);
        }
        let mut clone = self.clone();
        clone.set_fence(x, y, Some(axis));
        if clone.are_pawns_able_to_win() {
            Ok(())
        } else {
            Err(Fail::NoPathRemaining)
        }
    }

    /// Whether both pawns can still reach their goal rows over open
    /// steps: White row 0, Black row 8.
    pub fn are_pawns_able_to_win(&self) -> (r: bool)
        requires
            on_board(self@.white_pawn),
            on_board(self@.black_pawn),
        ensures
            r == self@.pawns_able_to_win(),
    {
        self.can_reach_row(self.white_pawn, 0) && self.can_reach_row(self.black_pawn, 8)
    }

    /// Searches, depth first, for a walk from `pawn` to row `yl`.
    fn can_reach_row(&self, pawn: (usize, usize), yl: usize) -> (r: bool)
        requires
            pawn.0 < 9,
            pawn.1 < 9,
        ensures
            r == self@.reaches_row((pawn.0 as int, pawn.1 as int), yl as int),
    {
        let ghost start = (pawn.0 as int, pawn.1 as int);
        let ghost view = self@;
        let dirs = [Direction::Down, Direction::Left, Direction::Right, Direction::Up];
        let mut stack: Vec<(usize, usize)> = Vec::new();
        stack.push(pawn);
        let unmarked_row = [false; 9];
        let mut is_on_stack: [[bool; 9]; 9] = [unmarked_row; 9];
        is_on_stack[pawn.1][pawn.0] = true;
        let ghost mut seen: Set<int> = Set::empty().insert(square_number(start));
        let ghost mut trail: Map<(int, int), Seq<(int, int)>> = Map::empty().insert(
            start,
            seq![start],
        );
        proof {
            assert(stack@[0] == pawn);
            assert(view.path_between(seq![start], start, start));
            lemma_int_range(0, 81);
        }
        while stack.len() > 0
            invariant
                view == self@,
                start == (pawn.0 as int, pawn.1 as int),
                on_board(start),
                marked(is_on_stack, start),
                dirs[0] == Direction::Down,
                dirs[1] == Direction::Left,
                dirs[2] == Direction::Right,
                dirs[3] == Direction::Up,
                seen.finite(),
                seen.subset_of(set_int_range(0, 81)),
                set_int_range(0, 81).finite(),
                set_int_range(0, 81).len() == 81,
                forall|a: (int, int)|
                    on_board(a) && seen.contains(#[trigger] square_number(a)) ==> marked(
                        is_on_stack,
                        a,
                    ),
                forall|i: int|
                    0 <= i < stack.len() ==> marked(
                        is_on_stack,
                        ((#[trigger] stack[i]).0 as int, stack[i].1 as int),
                    ),
                forall|a: (int, int)| #[trigger]
                    marked(is_on_stack, a) ==> trail.contains_key(a) && view.path_between(
                        trail[a],
                        start,
                        a,
                    ),
                forall|a: (int, int)| #[trigger]
                    marked(is_on_stack, a) && !stacked(stack@, a) ==> a.1 != yl,
                forall|a: (int, int), dir: Direction|
                    marked(is_on_stack, a) && !stacked(stack@, a) && !#[trigger] view.obstructed(
                        a.0,
                        a.1,
                        dir,
                    ) ==> marked(is_on_stack, dir.step(a.0, a.1)),
            decreases 2 * (81 - seen.len()) + stack.len(),
        {
            proof {
                lemma_len_subset(seen, set_int_range(0, 81));
            }
            let ghost before = 2 * (81 - seen.len()) + stack.len();
            let ghost old_stack = stack@;
            let (x, y) = stack.pop().unwrap();
            let ghost cur = (x as int, y as int);
            proof {
                assert(old_stack[old_stack.len() - 1] == (x, y));
                assert(marked(is_on_stack, cur));
                assert forall|a: (int, int)| stacked(old_stack, a) && a != cur implies stacked(
                    stack@,
                    a,
                ) by {
                    let i = choose|i: int|
                        0 <= i < old_stack.len() && (#[trigger] old_stack[i]).0 == a.0
                            && old_stack[i].1 == a.1;
                    assert(stack@[i] == old_stack[i]);
                }
            }
            if y == yl {
                proof {
                    assert(view.is_path(trail[cur]));
                }
                return true;
            }
            for k in 0..4
                invariant
                    view == self@,
                    start == (pawn.0 as int, pawn.1 as int),
                    on_board(start),
                    marked(is_on_stack, start),
                    cur == (x as int, y as int),
                    marked(is_on_stack, cur),
                    cur.1 != yl,
                    dirs[0] == Direction::Down,
                    dirs[1] == Direction::Left,
                    dirs[2] == Direction::Right,
                    dirs[3] == Direction::Up,
                    seen.finite(),
                    seen.subset_of(set_int_range(0, 81)),
                    set_int_range(0, 81).finite(),
                    set_int_range(0, 81).len() == 81,
                    2 * (81 - seen.len()) + stack.len() < before,
                    forall|a: (int, int)|
                        on_board(a) && seen.contains(#[trigger] square_number(a)) ==> marked(
                            is_on_stack,
                            a,
                        ),
                    forall|i: int|
                        0 <= i < stack.len() ==> marked(
                            is_on_stack,
                            ((#[trigger] stack[i]).0 as int, stack[i].1 as int),
                        ),
                    forall|a: (int, int)| #[trigger]
                        marked(is_on_stack, a) ==> trail.contains_key(a) && view.path_between(
                            trail[a],
                            start,
                            a,
                        ),
                    forall|a: (int, int)| #[trigger]
                        marked(is_on_stack, a) && !stacked(stack@, a) ==> a.1 != yl,
                    forall|a: (int, int), dir: Direction|
                        marked(is_on_stack, a) && !stacked(stack@, a) && !#[trigger] view.obstructed(
                            a.0,
                            a.1,
                            dir,
                        ) ==> marked(is_on_stack, dir.step(a.0, a.1)) || (a == cur && rank(dir)
                            >= k),
            {
                let dir = dirs[k];
                assert(rank(dir) == k);
                if !self.is_obstructed((x, y), dir) {
                    let (x1, y1) = dir.offset((x, y));
                    let ghost next = (x1 as int, y1 as int);
                    if !is_on_stack[y1][x1] {
                        let ghost grid_before = is_on_stack;
                        let ghost stack_before = stack@;
                        stack.push((x1, y1));
                        is_on_stack[y1][x1] = true;
                        proof {
                            assert(!seen.contains(square_number(next)));
                            seen = seen.insert(square_number(next));
                            assert(view.linked(cur, next));
                            view.lemma_path_push(trail[cur], next);
                            trail = trail.insert(next, trail[cur].push(next));
                            assert forall|a: (int, int)| #[trigger]
                                marked(is_on_stack, a) implies a == next || marked(
                                grid_before,
                                a,
                            ) by {}
                            assert forall|a: (int, int)| marked(grid_before, a) implies marked(
                                is_on_stack,
                                a,
                            ) by {}
                            assert(stack@[stack@.len() - 1] == (x1, y1));
                            assert(stacked(stack@, next));
                            assert forall|a: (int, int)| stacked(stack_before, a) implies stacked(
                                stack@,
                                a,
                            ) by {
                                let i = choose|i: int|
                                    0 <= i < stack_before.len() && (#[trigger] stack_before[i]).0
                                        == a.0 && stack_before[i].1 == a.1;
                                assert(stack@[i] == stack_before[i]);
                            }
                            assert forall|a: (int, int)|
                                on_board(a) && seen.contains(
                                    #[trigger] square_number(a),
                                ) implies marked(is_on_stack, a) by {
                                if square_number(a) == square_number(next) {
                                    assert(a == next);
                                }
                            }
                        }
                    }
                }
            }
            proof {
                lemma_len_subset(seen, set_int_range(0, 81));
            }
        }
        proof {
            let region = Set::new(|a: (int, int)| marked(is_on_stack, a));
            assert(region.contains(start));
            assert forall|a: (int, int)| #[trigger] region.contains(a) implies on_board(a) && a.1
                != yl by {
                assert(!stacked(stack@, a));
            }
            assert forall|a: (int, int), dir: Direction|
                region.contains(a) && !#[trigger] view.obstructed(
                    a.0,
                    a.1,
                    dir,
                ) implies region.contains(dir.step(a.0, a.1)) by {
                assert(!stacked(stack@, a));
            }
            view.lemma_closed_region_blocks(region, yl as int, start);
        }
        false
    }
}

} // verus!
