//! What holds of validation, commit and rollback taken together.

use vstd::prelude::*;
use super::super::{Axis, Direction, PlayerColor};
use super::super::Move;
use super::{
    fence_move, on_board, on_fence_grid, pawn_move, BoardView, FenceLegality, LegalMoveView,
    MoveMakeFail,
};

verus! {

impl BoardView {
    /// A legal move leaves a well-formed board well-formed.
    pub proof fn lemma_committed_wf(self, mv: LegalMoveView, player: PlayerColor)
        requires
            self.wf(),
            self.is_legal(mv, player),
        ensures
            self.committed(mv, player).wf(),
    {
        self.lemma_legal_unfold(mv, player);
        match mv {
            LegalMoveView::MovePlayer { from, to } => {
                let (dir, second) = choose|dir: Direction, second: Option<Direction>| #[trigger]
                    self.destination(player, dir, second) == Ok::<_, pawn_move::Fail>(to);
                self.lemma_destination_free(player, dir, second);
                self.lemma_pawn_moved_wf(player, to);
            },
            LegalMoveView::PlaceFence { axis, cell } => {
                self.lemma_with_fence_placed(player, axis, cell.0, cell.1);
            },
        }
    }

    /// Taking back a move that can be taken back leaves a well-formed
    /// board well-formed.
    pub proof fn lemma_rolled_back_wf(self, mv: LegalMoveView, player: PlayerColor)
        requires
            self.wf(),
            self.can_roll_back(mv, player),
        ensures
            self.rolled_back(mv, player).wf(),
    {
        match mv {
            LegalMoveView::MovePlayer { from, to } => {
                self.lemma_pawn_moved_wf(player, from);
            },
            LegalMoveView::PlaceFence { axis, cell } => {
                self.lemma_with_fence_removed(player, cell.0, cell.1);
            },
        }
    }

    /// What the fences on the grid leave room for on cell `(x, y)`:
    /// nothing on a cell that holds a fence; otherwise a horizontal fence
    /// unless one stands on the cell to the left or right, and a vertical
    /// fence unless one stands on the cell above or below.
    pub open spec fn admitted(self, x: int, y: int) -> FenceLegality {
        let horizontal = !self.has_fence(Axis::Horizontal, x - 1, y) && !self.has_fence(
            Axis::Horizontal,
            x + 1,
            y,
        );
        let vertical = !self.has_fence(Axis::Vertical, x, y - 1) && !self.has_fence(
            Axis::Vertical,
            x,
            y + 1,
        );
        if self.fence(x, y) is Some {
            FenceLegality::Neither
        } else if horizontal && vertical {
            FenceLegality::Any
        } else if horizontal {
            FenceLegality::Horizontal
        } else if vertical {
            FenceLegality::Vertical
        } else {
            FenceLegality::Neither
        }
    }

    /// Whether the cache holds, for every cell, what the fences on the
    /// grid leave room for.
    pub open spec fn cache_faithful(self) -> bool {
        forall|x: int, y: int|
            on_fence_grid((x, y)) ==> #[trigger] self.legality(x, y) == self.admitted(x, y)
    }

    /// The cache of the opening board is faithful.
    pub proof fn lemma_initial_cache_faithful()
        ensures
            BoardView::initial().cache_faithful(),
    {
    }

    /// Making a legal move keeps the cache faithful: placing a fence
    /// brings the cache up to date, and a pawn move does not touch it.
    pub proof fn lemma_commit_keeps_cache_faithful(self, mv: LegalMoveView, player: PlayerColor)
        requires
            self.wf(),
            self.cache_faithful(),
            self.is_legal(mv, player),
        ensures
            self.committed(mv, player).cache_faithful(),
            mv matches LegalMoveView::PlaceFence { axis, cell } ==> self.fence(cell.0, cell.1)
                is None,
    {
        self.lemma_legal_unfold(mv, player);
        let next = self.committed(mv, player);
        match mv {
            LegalMoveView::MovePlayer { from, to } => {
                assert forall|x: int, y: int| on_fence_grid((x, y)) implies #[trigger] next.legality(
                    x,
                    y,
                ) == next.admitted(x, y) by {
                    assert(self.legality(x, y) == self.admitted(x, y));
                }
            },
            LegalMoveView::PlaceFence { axis, cell } => {
                let (cx, cy) = cell;
                self.lemma_with_fence_placed(player, axis, cx, cy);
                self.lemma_with_fence_grid(cx, cy, Some(axis));
                assert(self.legality(cx, cy) == self.admitted(cx, cy));
                assert forall|i: int, j: int| #[trigger]
                    next.fence(i, j) == self.with_fence_grid(cx, cy, Some(axis)).fence(i, j) by {}
                assert forall|x: int, y: int| on_fence_grid((x, y)) implies #[trigger] next.legality(
                    x,
                    y,
                ) == next.admitted(x, y) by {
                    assert(self.legality(x, y) == self.admitted(x, y));
                }
            },
        }
    }

    /// Whether the cached legality of cell `(x, y)` is what the fence grid
    /// gives when it is worked out anew. A cell outside the grid has no
    /// cache to disagree.
    pub open spec fn cache_settled_at(self, x: int, y: int) -> bool {
        on_fence_grid((x, y)) ==> self.legality(x, y) == self.recomputed_legality(x, y)
    }

    /// Whether the cache is settled on cell `(x, y)` and on its up to four
    /// neighbours.
    pub open spec fn cache_settled_around(self, x: int, y: int) -> bool {
        &&& self.cache_settled_at(x, y)
        &&& self.cache_settled_at(x - 1, y)
        &&& self.cache_settled_at(x + 1, y)
        &&& self.cache_settled_at(x, y - 1)
        &&& self.cache_settled_at(x, y + 1)
    }

    /// Whether taking `mv` back after making it can restore the board: a
    /// pawn move always can; a fence placement can when its cell is free
    /// and the cache is settled around it, because taking a fence back
    /// works the cache out anew there.
    pub open spec fn restorable(self, mv: LegalMoveView) -> bool {
        match mv {
            LegalMoveView::MovePlayer { from, to } => true,
            LegalMoveView::PlaceFence { axis, cell } => self.fence(cell.0, cell.1) is None
                && self.cache_settled_around(cell.0, cell.1),
        }
    }

    /// A move that was just made can be taken back.
    pub proof fn lemma_committed_can_roll_back(self, mv: LegalMoveView, player: PlayerColor)
        requires
            self.wf(),
            self.is_legal(mv, player),
        ensures
            self.committed(mv, player).can_roll_back(mv, player),
    {
        self.lemma_legal_unfold(mv, player);
        match mv {
            LegalMoveView::MovePlayer { from, to } => {
                let (dir, second) = choose|dir: Direction, second: Option<Direction>| #[trigger]
                    self.destination(player, dir, second) == Ok::<_, pawn_move::Fail>(to);
                self.lemma_destination_free(player, dir, second);
            },
            LegalMoveView::PlaceFence { axis, cell } => {
                self.lemma_with_fence_placed(player, axis, cell.0, cell.1);
                self.lemma_with_fence_grid(cell.0, cell.1, Some(axis));
            },
        }
    }

    /// Moving a pawn to a free square and back restores the board.
    proof fn lemma_pawn_round_trip(self, player: PlayerColor, to: (int, int))
        requires
            self.wf(),
            on_board(to),
            self.square(to) is None,
        ensures
            self.with_pawn_moved(player, self.pawn(player), to).with_pawn_moved(
                player,
                to,
                self.pawn(player),
            ) == self,
    {
        let from = self.pawn(player);
        let back = self.with_pawn_moved(player, from, to).with_pawn_moved(player, to, from);
        assert(self.squares[from.1][from.0] == Some(player));
        assert(self.squares[to.1][to.0] == None::<PlayerColor>);
        assert forall|y: int| 0 <= y < 9 implies #[trigger] back.squares[y] == self.squares[y] by {
            assert(back.squares[y] =~= self.squares[y]);
        }
        assert(back.squares =~= self.squares);
    }

    /// Placing a fence on a free cell around which the cache is settled,
    /// and taking it back, restores the board.
    proof fn lemma_fence_round_trip(self, player: PlayerColor, axis: Axis, x: int, y: int)
        requires
            self.shaped(),
            on_fence_grid((x, y)),
            self.fences_left(player) > 0,
            self.fence(x, y) is None,
            self.cache_settled_around(x, y),
        ensures
            self.with_fence_placed(player, axis, x, y).with_fence_removed(player, x, y) == self,
    {
        let next = self.with_fence_placed(player, axis, x, y);
        let back = next.with_fence_removed(player, x, y);
        self.lemma_with_fence_placed(player, axis, x, y);
        self.lemma_with_fence_grid(x, y, Some(axis));
        next.lemma_with_fence_removed(player, x, y);
        next.lemma_with_fence_grid(x, y, None);
        assert forall|i: int, j: int| back.fence(i, j) == self.fence(i, j) by {
            assert(back.fence(i, j) == next.with_fence_grid(x, y, None).fence(i, j));
            assert(next.fence(i, j) == self.with_fence_grid(x, y, Some(axis)).fence(i, j));
        }
        self.lemma_same_fences_same_grid(back);
        self.lemma_recomputed_reads_fences(back);
        assert forall|i: int, j: int| on_fence_grid((i, j)) implies back.legality(i, j)
            == self.legality(i, j) by {
            assert(back.recomputed_legality(i, j) == self.recomputed_legality(i, j));
        }
        self.lemma_same_legality_same_cache(back);
        assert(back.fences_left(player) == self.fences_left(player));
        assert(back.fences_left(player.opponent()) == self.fences_left(player.opponent()));
        assert(back.fences_left_for_white == self.fences_left_for_white);
        assert(back.fences_left_for_black == self.fences_left_for_black);
    }

    /// Two shaped boards that hold the same fence on every cell have the
    /// same fence grid.
    proof fn lemma_same_fences_same_grid(self, other: BoardView)
        requires
            self.shaped(),
            other.shaped(),
            forall|i: int, j: int| other.fence(i, j) == self.fence(i, j),
        ensures
            other.fences == self.fences,
    {
        assert forall|j: int| 0 <= j < 8 implies #[trigger] other.fences[j] == self.fences[j] by {
            assert forall|i: int| 0 <= i < 8 implies other.fences[j][i] == self.fences[j][i] by {
                assert(other.fence(i, j) == self.fence(i, j));
            }
            assert(other.fences[j] =~= self.fences[j]);
        }
        assert(other.fences =~= self.fences);
    }

    /// Two shaped boards that cache the same legality for every cell have
    /// the same cache.
    proof fn lemma_same_legality_same_cache(self, other: BoardView)
        requires
            self.shaped(),
            other.shaped(),
            forall|i: int, j: int|
                on_fence_grid((i, j)) ==> other.legality(i, j) == self.legality(i, j),
        ensures
            other.legal_fence_places == self.legal_fence_places,
    {
        assert forall|j: int| 0 <= j < 8 implies #[trigger] other.legal_fence_places[j]
            == self.legal_fence_places[j] by {
            assert forall|i: int| 0 <= i < 8 implies other.legal_fence_places[j][i]
                == self.legal_fence_places[j][i] by {
                assert(other.legality(i, j) == self.legality(i, j));
            }
            assert(other.legal_fence_places[j] =~= self.legal_fence_places[j]);
        }
        assert(other.legal_fence_places =~= self.legal_fence_places);
    }

    /// The legality worked out anew reads the fence grid alone.
    proof fn lemma_recomputed_reads_fences(self, other: BoardView)
        requires
            other.fences == self.fences,
        ensures
            forall|i: int, j: int| #[trigger]
                other.recomputed_legality(i, j) == self.recomputed_legality(i, j),
    {
    }

    /// Round trip: making a legal move and taking it back restores the
    /// board in every field — occupancy, fence grid, counters, pawn
    /// positions and legality cache — provided the move is restorable.
    pub proof fn lemma_commit_then_roll_back(self, mv: LegalMoveView, player: PlayerColor)
        requires
            self.wf(),
            self.is_legal(mv, player),
            self.restorable(mv),
        ensures
            self.committed(mv, player).rolled_back(mv, player) == self,
    {
        self.lemma_legal_unfold(mv, player);
        match mv {
            LegalMoveView::MovePlayer { from, to } => {
                let (dir, second) = choose|dir: Direction, second: Option<Direction>| #[trigger]
                    self.destination(player, dir, second) == Ok::<_, pawn_move::Fail>(to);
                self.lemma_destination_free(player, dir, second);
                self.lemma_pawn_round_trip(player, to);
            },
            LegalMoveView::PlaceFence { axis, cell } => {
                self.lemma_fence_round_trip(player, axis, cell.0, cell.1);
            },
        }
    }

    /// Where the round trip fails: if a legal fence placement is not
    /// restorable, making it and taking it back leaves a board that
    /// differs from the one before.
    pub proof fn lemma_round_trip_needs_restorable(self, mv: LegalMoveView, player: PlayerColor)
        requires
            self.wf(),
            self.is_legal(mv, player),
            !self.restorable(mv),
        ensures
            self.committed(mv, player).rolled_back(mv, player) != self,
    {
        self.lemma_legal_unfold(mv, player);
        let next = self.committed(mv, player);
        let back = next.rolled_back(mv, player);
        match mv {
            LegalMoveView::MovePlayer { from, to } => {},
            LegalMoveView::PlaceFence { axis, cell } => {
                let (x, y) = cell;
                self.lemma_with_fence_placed(player, axis, x, y);
                self.lemma_with_fence_grid(x, y, Some(axis));
                next.lemma_with_fence_removed(player, x, y);
                next.lemma_with_fence_grid(x, y, None);
                if self.fence(x, y) is Some {
                    assert(back.fence(x, y) is None);
                } else {
                    assert forall|i: int, j: int|
                        back.fence(i, j) == self.fence(i, j) by {}
                    assert forall|i: int, j: int| #[trigger]
                        back.recomputed_legality(i, j) == self.recomputed_legality(i, j) by {}
                    if !self.cache_settled_at(x, y) {
                        assert(back.legality(x, y) != self.legality(x, y));
                    } else if !self.cache_settled_at(x - 1, y) {
                        assert(back.legality(x - 1, y) != self.legality(x - 1, y));
                    } else if !self.cache_settled_at(x + 1, y) {
                        assert(back.legality(x + 1, y) != self.legality(x + 1, y));
                    } else if !self.cache_settled_at(x, y - 1) {
                        assert(back.legality(x, y - 1) != self.legality(x, y - 1));
                    } else {
                        assert(back.legality(x, y + 1) != self.legality(x, y + 1));
                    }
                }
            },
        }
    }

    /// A pawn move that resolves ends on a square from which the pawn
    /// could walk back to where it stood.
    pub proof fn lemma_destination_connected(
        self,
        player: PlayerColor,
        dir: Direction,
        second: Option<Direction>,
    )
        requires
            self.wf(),
            self.destination(player, dir, second) is Ok,
        ensures
            self.connected(self.destination(player, dir, second)->Ok_0, self.pawn(player)),
    {
        let from = self.pawn(player);
        let mid = dir.step(from.0, from.1);
        let to = self.destination(player, dir, second)->Ok_0;
        assert(self.linked(from, mid));
        self.lemma_linked_symmetric(from, mid);
        if to == mid {
            let p = seq![to, from];
            assert(self.path_between(p, to, from));
        } else {
            assert(self.linked(mid, to));
            self.lemma_linked_symmetric(mid, to);
            let p = seq![to, mid, from];
            assert(self.path_between(p, to, from));
        }
    }

    /// A square connected to one that reaches a row reaches that row too.
    pub proof fn lemma_reach_through(self, a: (int, int), b: (int, int), row: int)
        requires
            self.connected(a, b),
            self.reaches_row(b, row),
        ensures
            self.reaches_row(a, row),
    {
        let p = choose|p: Seq<(int, int)>| #[trigger] self.path_between(p, a, b);
        let q = choose|q: Seq<(int, int)>| #[trigger]
            self.is_path(q) && q[0] == b && q.last().1 == row;
        self.lemma_path_join(p, q);
        let r = p + q.drop_first();
        assert(self.is_path(r) && r[0] == a && r.last().1 == row);
    }

    /// Whether a square reaches a row is read from the fence grid alone.
    pub proof fn lemma_reach_depends_on_fences(self, other: BoardView, a: (int, int), row: int)
        requires
            self.fences == other.fences,
        ensures
            self.reaches_row(a, row) == other.reaches_row(a, row),
    {
        if self.reaches_row(a, row) {
            let p = choose|p: Seq<(int, int)>| #[trigger]
                self.is_path(p) && p[0] == a && p.last().1 == row;
            self.lemma_paths_depend_on_fences(other, p);
        }
        if other.reaches_row(a, row) {
            let p = choose|p: Seq<(int, int)>| #[trigger]
                other.is_path(p) && p[0] == a && p.last().1 == row;
            other.lemma_paths_depend_on_fences(self, p);
        }
    }

    /// Right after a legal fence placement both pawns can reach their
    /// goal rows.
    pub proof fn lemma_fence_commit_leaves_paths(self, mv: LegalMoveView, player: PlayerColor)
        requires
            self.wf(),
            self.is_legal(mv, player),
            mv is PlaceFence,
        ensures
            self.committed(mv, player).pawns_able_to_win(),
    {
        self.lemma_legal_unfold(mv, player);
        let (x, y) = mv->cell;
        let axis = mv->axis;
        let tried = self.with_fence_grid(x, y, Some(axis));
        let next = self.committed(mv, player);
        self.lemma_with_fence_placed(player, axis, x, y);
        tried.lemma_reach_depends_on_fences(next, self.white_pawn, 0);
        tried.lemma_reach_depends_on_fences(next, self.black_pawn, 8);
    }

    /// No legal move takes the last path from a pawn: if both pawns can
    /// reach their goal rows, they still can after any legal move.
    pub proof fn lemma_commit_keeps_paths(self, mv: LegalMoveView, player: PlayerColor)
        requires
            self.wf(),
            self.pawns_able_to_win(),
            self.is_legal(mv, player),
        ensures
            self.committed(mv, player).pawns_able_to_win(),
    {
        self.lemma_legal_unfold(mv, player);
        let next = self.committed(mv, player);
        match mv {
            LegalMoveView::MovePlayer { from, to } => {
                let (dir, second) = choose|dir: Direction, second: Option<Direction>| #[trigger]
                    self.destination(player, dir, second) == Ok::<_, pawn_move::Fail>(to);
                self.lemma_destination_connected(player, dir, second);
                self.lemma_reach_through(to, from, Self::goal_row(player));
                self.lemma_reach_depends_on_fences(next, to, Self::goal_row(player));
                let other = player.opponent();
                self.lemma_reach_depends_on_fences(
                    next,
                    self.pawn(other),
                    Self::goal_row(other),
                );
            },
            LegalMoveView::PlaceFence { axis, cell } => {
                self.lemma_fence_commit_leaves_paths(mv, player);
            },
        }
    }

    /// On the opening board both pawns can reach their goal rows: each
    /// walks straight down its column.
    pub proof fn lemma_initial_paths()
        ensures
            BoardView::initial().wf(),
            BoardView::initial().pawns_able_to_win(),
    {
        let b = BoardView::initial();
        let up = Seq::new(9, |i: int| (4int, 8 - i));
        assert forall|i: int| 0 <= i < up.len() - 1 implies b.linked(#[trigger] up[i], up[i + 1]) by {
            assert(b.open_step(up[i], up[i + 1], Direction::Up));
        }
        assert(b.is_path(up) && up[0] == b.white_pawn && up.last().1 == 0);
        let down = Seq::new(9, |i: int| (4int, i));
        assert forall|i: int| 0 <= i < down.len() - 1 implies b.linked(
            #[trigger] down[i],
            down[i + 1],
        ) by {
            assert(b.open_step(down[i], down[i + 1], Direction::Down));
        }
        assert(b.is_path(down) && down[0] == b.black_pawn && down.last().1 == 8);
    }

    /// Whether no choice of directions resolves to a pawn move of
    /// `player`.
    pub open spec fn pawn_stuck(self, player: PlayerColor) -> bool {
        forall|dir: Direction, second: Option<Direction>| #[trigger]
            self.destination(player, dir, second) is Err
    }

    /// While both pawns can reach their goal rows, a pawn that has not
    /// reached its own always has a legal move.
    pub proof fn lemma_player_can_move(self, player: PlayerColor)
        requires
            self.wf(),
            self.pawns_able_to_win(),
            self.pawn(player).1 != Self::goal_row(player),
        ensures
            !self.pawn_stuck(player),
            exists|mv: LegalMoveView| self.is_legal(mv, player),
    {
        let from = self.pawn(player);
        let other = player.opponent();
        let opp = self.pawn(other);
        if self.pawn_stuck(player) {
            assert forall|dir: Direction| !self.obstructed(from.0, from.1, dir) implies {
                &&& dir.step(from.0, from.1) == opp
                &&& forall|side: Direction|
                    side.step(opp.0, opp.1) != from ==> #[trigger] self.obstructed(
                        opp.0,
                        opp.1,
                        side,
                    )
            } by {
                let mid = dir.step(from.0, from.1);
                assert(self.destination(player, dir, None) is Err);
                assert(self.squares[mid.1][mid.0] is Some);
                assert(mid == opp);
                assert forall|side: Direction| side.step(opp.0, opp.1) != from implies #[trigger]
                    self.obstructed(opp.0, opp.1, side) by {
                    assert(self.destination(player, dir, Some(side)) is Err);
                }
            }
            let goal = Self::goal_row(player);
            if self.obstructed(from.0, from.1, Direction::Left) && self.obstructed(
                from.0,
                from.1,
                Direction::Right,
            ) && self.obstructed(from.0, from.1, Direction::Up) && self.obstructed(
                from.0,
                from.1,
                Direction::Down,
            ) {
                // The pawn cannot leave its square.
                let alone = Set::empty().insert(from);
                assert(self.closed_region(alone, goal));
                self.lemma_closed_region_blocks(alone, goal, from);
            } else {
                // The pawn can only step towards the opponent, who can only
                // step back: the two squares are cut off from one of the
                // goal rows.
                let pair = Set::empty().insert(from).insert(opp);
                if opp.1 != goal {
                    assert(self.closed_region(pair, goal));
                    self.lemma_closed_region_blocks(pair, goal, from);
                } else {
                    assert(self.closed_region(pair, Self::goal_row(other)));
                    self.lemma_closed_region_blocks(pair, Self::goal_row(other), opp);
                }
            }
            assert(false);
        }
        let (dir, second) = choose|dir: Direction, second: Option<Direction>|
            !(#[trigger] self.destination(player, dir, second) is Err);
        let mv = LegalMoveView::MovePlayer {
            from,
            to: self.destination(player, dir, second)->Ok_0,
        };
        self.lemma_legal_unfold(mv, player);
        assert(self.destination(player, dir, second) == Ok::<_, pawn_move::Fail>(mv->to));
        assert(self.is_legal(mv, player));
    }

    /// A player without fences has no legal fence placement: every legal
    /// move is a pawn move, and validation refuses every placement for
    /// want of fences.
    pub proof fn lemma_no_fences_no_placements(self, player: PlayerColor)
        requires
            self.fences_left(player) == 0,
        ensures
            forall|mv: LegalMoveView| #[trigger] self.is_legal(mv, player) ==> mv is MovePlayer,
            forall|axis: Axis, cell: (usize, usize)| #[trigger]
                self.validate(Move::PlaceFence(axis, cell), player) == Err::<LegalMoveView, _>(
                    MoveMakeFail::AddFenceMove(fence_move::Fail::NoFencesRemaining),
                ),
    {
        assert forall|mv: LegalMoveView| #[trigger] self.is_legal(mv, player) implies mv
            is MovePlayer by {
            self.lemma_legal_unfold(mv, player);
        }
    }

    /// What validation accepts is a legal move, and it accepts no move on
    /// less than this: a pawn move only with an open first step and, over
    /// an opponent whose far side is blocked, an open side-step across
    /// the line of travel; a fence placement only for a player who has a
    /// fence left, on a cell of the grid that the cache admits for the
    /// orientation, and with both pawns still able to reach their goal
    /// rows.
    pub proof fn lemma_validation_conditions(self, m: Move, player: PlayerColor)
        requires
            self.wf(),
            self.validate(m, player) is Ok,
        ensures
            self.is_legal(self.validate(m, player)->Ok_0, player),
            m.fits_board(),
            match m {
                Move::MovePlayer(dir, second) => {
                    let from = self.pawn(player);
                    let mid = dir.step(from.0, from.1);
                    &&& !self.obstructed(from.0, from.1, dir)
                    &&& self.square(mid) is Some && self.obstructed(mid.0, mid.1, dir) ==> {
                        &&& second is Some
                        &&& !dir.parallel_to(second->Some_0)
                        &&& !self.obstructed(mid.0, mid.1, second->Some_0)
                    }
                },
                Move::PlaceFence(axis, cell) => {
                    &&& self.fences_left(player) > 0
                    &&& self.legality(cell.0 as int, cell.1 as int).allows(axis)
                    &&& self.with_fence_grid(
                        cell.0 as int,
                        cell.1 as int,
                        Some(axis),
                    ).pawns_able_to_win()
                },
            },
    {
    }
}

} // verus!
