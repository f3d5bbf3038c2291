//! The board state, its mathematical model and the validated move type.

use vstd::prelude::*;
use super::{Axis, Direction, Move, PlayerColor};

pub mod fence_move;
pub mod move_generation;
pub mod pawn_move;
pub mod reachability;
pub mod rendering;
pub mod search_and_evaluation;
pub mod theorems;

verus! {

/// Which fence orientations a fence cell is still believed to admit.
#[derive(Debug, Clone, Copy, PartialEq, Eq, Structural)]
pub enum FenceLegality {
    Any,
    Horizontal,
    Vertical,
    Neither,
}

impl FenceLegality {
    /// The legality left after a fence of orientation `axis` was put on a
    /// neighbouring cell: only the other orientation can remain.
    pub open spec fn restricted(self, axis: Axis) -> FenceLegality {
        match (self, axis) {
            (FenceLegality::Horizontal, Axis::Vertical) => FenceLegality::Horizontal,
            (FenceLegality::Any, Axis::Vertical) => FenceLegality::Horizontal,
            (FenceLegality::Vertical, Axis::Horizontal) => FenceLegality::Vertical,
            (FenceLegality::Any, Axis::Horizontal) => FenceLegality::Vertical,
            _ => FenceLegality::Neither,
        }
    }

    /// Whether a fence of orientation `axis` is admitted.
    pub open spec fn allows(self, axis: Axis) -> bool {
        match (self, axis) {
            (FenceLegality::Any, _) => true,
            (FenceLegality::Horizontal, Axis::Horizontal) => true,
            (FenceLegality::Vertical, Axis::Vertical) => true,
            _ => false,
        }
    }

    /// Restrictions can be applied in any order, and a second one for
    /// the same orientation changes nothing.
    pub proof fn lemma_restrictions_commute(self, a: Axis, b: Axis)
        ensures
            self.restricted(a).restricted(b) == self.restricted(b).restricted(a),
            self.restricted(a).restricted(a) == self.restricted(a),
            !self.restricted(a).allows(a),
            self.restricted(a).allows(b) ==> self.allows(b),
    {
    }

    /// The legality left after a fence of orientation `axis` was put on a
    /// neighbouring cell.
    pub fn restrict(self, axis: Axis) -> (r: FenceLegality)
        ensures
            r == self.restricted(axis),
    {
        match (self, axis) {
            (FenceLegality::Horizontal, Axis::Vertical) => FenceLegality::Horizontal,
            (FenceLegality::Any, Axis::Vertical) => FenceLegality::Horizontal,
            (FenceLegality::Vertical, Axis::Horizontal) => FenceLegality::Vertical,
            (FenceLegality::Any, Axis::Horizontal) => FenceLegality::Vertical,
            _ => FenceLegality::Neither,
        }
    }

    /// Whether a fence of orientation `axis` is admitted.
    pub fn does_allow(self, axis: Axis) -> (r: bool)
        ensures
            r == self.allows(axis),
    {
        match (self, axis) {
            (FenceLegality::Any, _) => true,
            (FenceLegality::Horizontal, Axis::Horizontal) => true,
            (FenceLegality::Vertical, Axis::Vertical) => true,
            _ => false,
        }
    }
}

/// Whether `p` is one of the 81 pawn squares.
pub open spec fn on_board(p: (int, int)) -> bool {
    0 <= p.0 < 9 && 0 <= p.1 < 9
}

/// Whether `c` is one of the 64 fence cells.
pub open spec fn on_fence_grid(c: (int, int)) -> bool {
    0 <= c.0 < 8 && 0 <= c.1 < 8
}

/// The mathematical model of a [`Board`]: every grid is a sequence of rows,
/// indexed `[y][x]`.
pub struct BoardView {
    pub squares: Seq<Seq<Option<PlayerColor>>>,
    pub fences: Seq<Seq<Option<Axis>>>,
    pub legal_fence_places: Seq<Seq<FenceLegality>>,
    pub black_pawn: (int, int),
    pub white_pawn: (int, int),
    pub fences_left_for_white: nat,
    pub fences_left_for_black: nat,
}

impl BoardView {
    /// The grids have their fixed sizes.
    pub open spec fn shaped(self) -> bool {
        &&& self.squares.len() == 9
        &&& forall|y: int| 0 <= y < 9 ==> (#[trigger] self.squares[y]).len() == 9
        &&& self.fences.len() == 8
        &&& forall|y: int| 0 <= y < 8 ==> (#[trigger] self.fences[y]).len() == 8
        &&& self.legal_fence_places.len() == 8
        &&& forall|y: int| 0 <= y < 8 ==> (#[trigger] self.legal_fence_places[y]).len() == 8
    }

    /// What stands on square `p`.
    pub open spec fn square(self, p: (int, int)) -> Option<PlayerColor> {
        self.squares[p.1][p.0]
    }

    /// The fence on cell `(x, y)`; cells outside the grid hold none.
    pub open spec fn fence(self, x: int, y: int) -> Option<Axis> {
        if 0 <= x < 8 && 0 <= y < 8 {
            self.fences[y][x]
        } else {
            None
        }
    }

    /// The cached legality of cell `(x, y)`.
    pub open spec fn legality(self, x: int, y: int) -> FenceLegality {
        self.legal_fence_places[y][x]
    }

    /// Where the pawn of `player` stands.
    pub open spec fn pawn(self, player: PlayerColor) -> (int, int) {
        match player {
            PlayerColor::White => self.white_pawn,
            PlayerColor::Black => self.black_pawn,
        }
    }

    /// How many fences `player` may still place.
    pub open spec fn fences_left(self, player: PlayerColor) -> nat {
        match player {
            PlayerColor::White => self.fences_left_for_white,
            PlayerColor::Black => self.fences_left_for_black,
        }
    }

    /// The row that `player` has to reach.
    pub open spec fn goal_row(player: PlayerColor) -> int {
        match player {
            PlayerColor::White => 0,
            PlayerColor::Black => 8,
        }
    }

    /// The state invariant: the grids are shaped, both pawns stand on
    /// different squares of the board, the occupancy grid shows exactly
    /// these two pawns, and no player holds more than ten fences.
    pub open spec fn wf(self) -> bool {
        &&& self.shaped()
        &&& on_board(self.white_pawn)
        &&& on_board(self.black_pawn)
        &&& self.white_pawn != self.black_pawn
        &&& forall|x: int, y: int|
            0 <= x < 9 && 0 <= y < 9 ==> #[trigger] self.squares[y][x] == (if (x, y)
                == self.white_pawn {
                Some(PlayerColor::White)
            } else if (x, y) == self.black_pawn {
                Some(PlayerColor::Black)
            } else {
                None
            })
        &&& self.fences_left_for_white <= 10
        &&& self.fences_left_for_black <= 10
    }

    /// The winner, if a pawn stands on its goal row.
    pub open spec fn winner(self) -> Option<PlayerColor> {
        if self.white_pawn.1 == 0 {
            Some(PlayerColor::White)
        } else if self.black_pawn.1 == 8 {
            Some(PlayerColor::Black)
        } else {
            None
        }
    }

    /// The opening position.
    pub open spec fn initial() -> BoardView {
        BoardView {
            squares: Seq::new(
                9,
                |y: int|
                    Seq::new(
                        9,
                        |x: int|
                            if x == 4 && y == 0 {
                                Some(PlayerColor::Black)
                            } else if x == 4 && y == 8 {
                                Some(PlayerColor::White)
                            } else {
                                None
                            },
                    ),
            ),
            fences: Seq::new(8, |y: int| Seq::new(8, |x: int| None)),
            legal_fence_places: Seq::new(8, |y: int| Seq::new(8, |x: int| FenceLegality::Any)),
            black_pawn: (4, 0),
            white_pawn: (4, 8),
            fences_left_for_white: 10,
            fences_left_for_black: 10,
        }
    }
}

/// The game state: occupancy grid, fence grid, the cache of fence
/// legalities, both pawn positions and both fence counters.
#[derive(Debug, PartialEq, Eq)]
pub struct Board {
    squares: [[Option<PlayerColor>; 9]; 9],
    fences: [[Option<Axis>; 8]; 8],
    legal_fence_places: [[FenceLegality; 8]; 8],
    black_pawn: (usize, usize),
    white_pawn: (usize, usize),
    fences_left_for_white: u32,
    fences_left_for_black: u32,
}

impl View for Board {
    type V = BoardView;

    closed spec fn view(&self) -> BoardView {
        BoardView {
            squares: Seq::new(9, |y: int| self.squares[y]@),
            fences: Seq::new(8, |y: int| self.fences[y]@),
            legal_fence_places: Seq::new(8, |y: int| self.legal_fence_places[y]@),
            black_pawn: (self.black_pawn.0 as int, self.black_pawn.1 as int),
            white_pawn: (self.white_pawn.0 as int, self.white_pawn.1 as int),
            fences_left_for_white: self.fences_left_for_white as nat,
            fences_left_for_black: self.fences_left_for_black as nat,
        }
    }
}

impl Board {
    /// The state invariant of the board, stated on its model.
    pub open spec fn wf(&self) -> bool {
        self@.wf()
    }

    /// A board is determined by its model: boards with equal models are
    /// equal in every field.
    pub proof fn lemma_view_injective(a: &Board, b: &Board)
        requires
            a@ == b@,
        ensures
            *a == *b,
    {
        assert forall|y: int| 0 <= y < 9 implies a.squares[y] == b.squares[y] by {
            assert(a@.squares[y] == b@.squares[y]);
            assert(a.squares[y] =~= b.squares[y]);
        }
        assert(a.squares =~= b.squares);
        assert forall|y: int| 0 <= y < 8 implies a.fences[y] == b.fences[y] by {
            assert(a@.fences[y] == b@.fences[y]);
            assert(a.fences[y] =~= b.fences[y]);
        }
        assert(a.fences =~= b.fences);
        assert forall|y: int| 0 <= y < 8 implies a.legal_fence_places[y]
            == b.legal_fence_places[y] by {
            assert(a@.legal_fence_places[y] == b@.legal_fence_places[y]);
            assert(a.legal_fence_places[y] =~= b.legal_fence_places[y]);
        }
        assert(a.legal_fence_places =~= b.legal_fence_places);
    }

    /// The winner, once a pawn stands on its goal row: White on row 0,
    /// Black on row 8.
    pub fn is_game_won(&self) -> (r: Option<PlayerColor>)
        ensures
            r == self@.winner(),
    {
        if self.white_pawn.1 == 0 {
            Some(PlayerColor::White)
        } else if self.black_pawn.1 == 8 {
            Some(PlayerColor::Black)
        } else {
            None
        }
    }

    /// What stands on the square `(x, y)`.
    pub fn square(&self, x: usize, y: usize) -> (r: Option<PlayerColor>)
        requires
            x < 9,
            y < 9,
        ensures
            r == self@.square((x as int, y as int)),
    {
        self.squares[y][x]
    }

    /// The fence on the fence cell `(x, y)`.
    pub fn fence(&self, x: usize, y: usize) -> (r: Option<Axis>)
        requires
            x < 8,
            y < 8,
        ensures
            r == self@.fence(x as int, y as int),
    {
        self.fences[y][x]
    }

    /// Whether the fence cell `(x, y)` holds a fence of orientation `axis`.
    pub(crate) fn fence_is(&self, axis: Axis, x: usize, y: usize) -> (r: bool)
        requires
            x < 8,
            y < 8,
        ensures
            r == self@.has_fence(axis, x as int, y as int),
    {
        match self.fences[y][x] {
            Some(a) => a == axis,
            None => false,
        }
    }

    /// The cached legality of the fence cell `(x, y)`.
    pub(crate) fn legality_at(&self, x: usize, y: usize) -> (r: FenceLegality)
        requires
            x < 8,
            y < 8,
        ensures
            r == self@.legality(x as int, y as int),
    {
        self.legal_fence_places[y][x]
    }

    /// How many fences `player` may still place.
    pub fn fences_left(&self, player: PlayerColor) -> (r: u32)
        ensures
            r == self@.fences_left(player),
    {
        match player {
            PlayerColor::White => self.fences_left_for_white,
            PlayerColor::Black => self.fences_left_for_black,
        }
    }

    /// Where the pawn of `player` stands.
    pub fn pawn_pos(&self, player: PlayerColor) -> (r: (usize, usize))
        ensures
            (r.0 as int, r.1 as int) == self@.pawn(player),
    {
        match player {
            PlayerColor::White => self.white_pawn,
            PlayerColor::Black => self.black_pawn,
        }
    }
}

impl Clone for Board {
    /// An independent copy of the board.
    fn clone(&self) -> (r: Board)
        ensures
            r == *self,
    {
        Board {
            squares: self.squares,
            fences: self.fences,
            legal_fence_places: self.legal_fence_places,
            black_pawn: self.black_pawn,
            white_pawn: self.white_pawn,
            fences_left_for_white: self.fences_left_for_white,
            fences_left_for_black: self.fences_left_for_black,
        }
    }
}

impl Default for Board {
    /// The opening position: pawns on the middle squares of the two outer
    /// rows, no fences, ten fences for each player. Both pawns can reach
    /// their goal rows.
    fn default() -> (r: Board)
        ensures
            r@ == BoardView::initial(),
            r.wf(),
            r@.pawns_able_to_win(),
            r@.cache_faithful(),
    {
        proof {
            BoardView::lemma_initial_paths();
            BoardView::lemma_initial_cache_faithful();
        }
        let empty: [Option<PlayerColor>; 9] = [None, None, None, None, None, None, None, None, None];
        let mut squares: [[Option<PlayerColor>; 9]; 9] = [
            empty,
            empty,
            empty,
            empty,
            empty,
            empty,
            empty,
            empty,
            empty,
        ];
        squares[0][4] = Some(PlayerColor::Black);
        squares[8][4] = Some(PlayerColor::White);
        let free: [Option<Axis>; 8] = [None, None, None, None, None, None, None, None];
        let legality_row: [FenceLegality; 8] = [FenceLegality::Any; 8];
        let r = Board {
            squares,
            fences: [free, free, free, free, free, free, free, free],
            legal_fence_places: [legality_row; 8],
            black_pawn: (4, 0),
            white_pawn: (4, 8),
            fences_left_for_black: 10,
            fences_left_for_white: 10,
        };
        proof {
            assert forall|y: int| 0 <= y < 9 implies #[trigger] r@.squares[y]
                == BoardView::initial().squares[y] by {
                assert(r@.squares[y] =~= BoardView::initial().squares[y]);
            }
            assert(r@.squares =~= BoardView::initial().squares);
            assert forall|y: int| 0 <= y < 8 implies #[trigger] r@.fences[y]
                == BoardView::initial().fences[y] by {
                assert(r@.fences[y] =~= BoardView::initial().fences[y]);
            }
            assert(r@.fences =~= BoardView::initial().fences);
            assert forall|y: int| 0 <= y < 8 implies #[trigger] r@.legal_fence_places[y]
                == BoardView::initial().legal_fence_places[y] by {
                assert(r@.legal_fence_places[y] =~= BoardView::initial().legal_fence_places[y]);
            }
            assert(r@.legal_fence_places =~= BoardView::initial().legal_fence_places);
        }
        r
    }
}

/// Why a move was refused.
#[derive(Debug, Clone, Copy, PartialEq, Eq)]
pub enum MoveMakeFail {
    AddFenceMove(fence_move::Fail),
    PawnMoveFail(pawn_move::Fail),
}

/// What a validated move holds.
#[derive(Debug, Clone, Copy, PartialEq, Eq)]
enum Lmi {
    MovePlayer((usize, usize), (usize, usize)),
    PlaceFence(Axis, (usize, usize)),
}

/// A move that was validated against a board. Only validation and move
/// generation make one.
#[derive(Debug, Clone, Copy, PartialEq, Eq)]
pub struct LegalMove(Lmi);

/// The mathematical model of a [`LegalMove`].
pub enum LegalMoveView {
    /// The pawn goes from `from` to `to`.
    MovePlayer { from: (int, int), to: (int, int) },
    /// A fence of orientation `axis` is placed on the fence cell `cell`.
    PlaceFence { axis: Axis, cell: (int, int) },
}

impl View for LegalMove {
    type V = LegalMoveView;

    closed spec fn view(&self) -> LegalMoveView {
        match self.0 {
            Lmi::MovePlayer(from, to) => LegalMoveView::MovePlayer {
                from: (from.0 as int, from.1 as int),
                to: (to.0 as int, to.1 as int),
            },
            Lmi::PlaceFence(axis, cell) => LegalMoveView::PlaceFence {
                axis,
                cell: (cell.0 as int, cell.1 as int),
            },
        }
    }
}

impl LegalMove {
    /// The validated move of a pawn from `from` to `to`.
    pub(crate) fn pawn_step(from: (usize, usize), to: (usize, usize)) -> (r: LegalMove)
        ensures
            r@ == (LegalMoveView::MovePlayer {
                from: (from.0 as int, from.1 as int),
                to: (to.0 as int, to.1 as int),
            }),
    {
        LegalMove(Lmi::MovePlayer(from, to))
    }

    /// The validated placement of a fence of orientation `axis` on `cell`.
    pub(crate) fn fence_placement(axis: Axis, cell: (usize, usize)) -> (r: LegalMove)
        ensures
            r@ == (LegalMoveView::PlaceFence { axis, cell: (cell.0 as int, cell.1 as int) }),
    {
        LegalMove(Lmi::PlaceFence(axis, cell))
    }

    /// The origin and the destination, if this is a pawn move.
    pub fn as_pawn_move(&self) -> (r: Option<((usize, usize), (usize, usize))>)
        ensures
            match r {
                Some((from, to)) => self@ == (LegalMoveView::MovePlayer {
                    from: (from.0 as int, from.1 as int),
                    to: (to.0 as int, to.1 as int),
                }),
                None => self@ is PlaceFence,
            },
    {
        match self.0 {
            Lmi::MovePlayer(from, to) => Some((from, to)),
            Lmi::PlaceFence(_, _) => None,
        }
    }

    /// The orientation and the cell, if this is a fence placement.
    pub fn as_fence_placement(&self) -> (r: Option<(Axis, (usize, usize))>)
        ensures
            match r {
                Some((axis, cell)) => self@ == (LegalMoveView::PlaceFence {
                    axis,
                    cell: (cell.0 as int, cell.1 as int),
                }),
                None => self@ is MovePlayer,
            },
    {
        match self.0 {
            Lmi::MovePlayer(_, _) => None,
            Lmi::PlaceFence(axis, cell) => Some((axis, cell)),
        }
    }
}

impl BoardView {
    /// What validation makes of the move `m` asked for by `player`: the
    /// pawn move with its origin and resolved destination, the fence
    /// placement as asked, or the reason for refusing. A fence cell
    /// outside the grid is refused: for want of fences where the player
    /// has none left, as a collision otherwise.
    pub open spec fn validate(self, m: Move, player: PlayerColor) -> Result<
        LegalMoveView,
        MoveMakeFail,
    > {
        match m {
            Move::MovePlayer(dir, second) => match self.destination(player, dir, second) {
                Ok(to) => Ok(LegalMoveView::MovePlayer { from: self.pawn(player), to }),
                Err(e) => Err(MoveMakeFail::PawnMoveFail(e)),
            },
            Move::PlaceFence(axis, cell) => match self.fence_check(
                player,
                axis,
                cell.0 as int,
                cell.1 as int,
            ) {
                Ok(_) => Ok(LegalMoveView::PlaceFence { axis, cell: (cell.0 as int, cell.1 as int) }),
                Err(e) => Err(MoveMakeFail::AddFenceMove(e)),
            },
        }
    }

    /// Whether `mv` is what validation makes of some move that `player`
    /// may ask for on this board.
    pub open spec fn is_legal(self, mv: LegalMoveView, player: PlayerColor) -> bool {
        exists|m: Move| #[trigger] self.validate(m, player) == Ok::<_, MoveMakeFail>(mv)
    }

    /// The board after `player` made the move `mv`.
    pub open spec fn committed(self, mv: LegalMoveView, player: PlayerColor) -> BoardView {
        match mv {
            LegalMoveView::MovePlayer { from, to } => self.with_pawn_moved(player, from, to),
            LegalMoveView::PlaceFence { axis, cell } => self.with_fence_placed(
                player,
                axis,
                cell.0,
                cell.1,
            ),
        }
    }

    /// The board after the move `mv` of `player` was taken back.
    pub open spec fn rolled_back(self, mv: LegalMoveView, player: PlayerColor) -> BoardView {
        match mv {
            LegalMoveView::MovePlayer { from, to } => self.with_pawn_moved(player, to, from),
            LegalMoveView::PlaceFence { axis, cell } => self.with_fence_removed(
                player,
                cell.0,
                cell.1,
            ),
        }
    }

    /// Whether the board looks as it does right after `player` made the
    /// move `mv`: the pawn stands on the destination and the origin is a
    /// free square of the board, or the fence stands on its cell and the
    /// player is short of at least one fence.
    pub open spec fn can_roll_back(self, mv: LegalMoveView, player: PlayerColor) -> bool {
        match mv {
            LegalMoveView::MovePlayer { from, to } => {
                &&& on_board(from)
                &&& self.pawn(player) == to
                &&& self.square(from) is None
            },
            LegalMoveView::PlaceFence { axis, cell } => {
                &&& on_fence_grid(cell)
                &&& self.has_fence(axis, cell.0, cell.1)
                &&& self.fences_left(player) < 10
            },
        }
    }

    /// What a legal move is, case by case: a pawn move starts on the
    /// player's square and ends where some choice of directions resolves
    /// to; a fence placement names a cell of the grid and passes the
    /// fence check.
    pub proof fn lemma_legal_unfold(self, mv: LegalMoveView, player: PlayerColor)
        ensures
            self.is_legal(mv, player) <==> match mv {
                LegalMoveView::MovePlayer { from, to } => from == self.pawn(player) && exists|
                    dir: Direction,
                    second: Option<Direction>,
                | #[trigger] self.destination(player, dir, second) == Ok::<_, pawn_move::Fail>(to),
                LegalMoveView::PlaceFence { axis, cell } => on_fence_grid(cell) && self.fence_check(
                    player,
                    axis,
                    cell.0,
                    cell.1,
                ) is Ok,
            },
    {
        if self.is_legal(mv, player) {
            let m = choose|m: Move| #[trigger]
                self.validate(m, player) == Ok::<_, MoveMakeFail>(mv);
            match m {
                Move::MovePlayer(dir, second) => {
                    assert(self.destination(player, dir, second) == Ok::<_, pawn_move::Fail>(
                        mv->to,
                    ));
                },
                Move::PlaceFence(axis, cell) => {},
            }
        }
        match mv {
            LegalMoveView::MovePlayer { from, to } => {
                if from == self.pawn(player) && exists|dir: Direction, second: Option<Direction>| #[trigger]
                    self.destination(player, dir, second) == Ok::<_, pawn_move::Fail>(to) {
                    let (dir, second) = choose|dir: Direction, second: Option<Direction>| #[trigger]
                        self.destination(player, dir, second) == Ok::<_, pawn_move::Fail>(to);
                    let m = Move::MovePlayer(dir, second);
                    assert(self.validate(m, player) == Ok::<_, MoveMakeFail>(mv));
                }
            },
            LegalMoveView::PlaceFence { axis, cell } => {
                if on_fence_grid(cell) && self.fence_check(player, axis, cell.0, cell.1) is Ok {
                    let m = Move::PlaceFence(axis, (cell.0 as usize, cell.1 as usize));
                    assert(self.validate(m, player) == Ok::<_, MoveMakeFail>(mv));
                }
            },
        }
    }
}

impl Board {
    /// Makes the validated move `mv` of `player`. The move can be taken
    /// back at once, which restores the board where the move is
    /// restorable. After a fence placement both pawns can reach their
    /// goal rows, and a pawn move keeps them able to. A faithful cache
    /// stays faithful.
    pub fn make_legal_move(&mut self, mv: LegalMove, player: PlayerColor)
        requires
            old(self).wf(),
            old(self)@.is_legal(mv@, player),
        ensures
            final(self)@ == old(self)@.committed(mv@, player),
            final(self).wf(),
            final(self)@.can_roll_back(mv@, player),
            old(self)@.restorable(mv@) ==> final(self)@.rolled_back(mv@, player) == old(self)@,
            mv@ is PlaceFence || old(self)@.pawns_able_to_win() ==> final(self)@.pawns_able_to_win(),
            old(self)@.cache_faithful() ==> final(self)@.cache_faithful(),
    {
        proof {
            self@.lemma_legal_unfold(mv@, player);
            self@.lemma_committed_wf(mv@, player);
            self@.lemma_committed_can_roll_back(mv@, player);
            if self@.restorable(mv@) {
                self@.lemma_commit_then_roll_back(mv@, player);
            }
            if self@.cache_faithful() {
                self@.lemma_commit_keeps_cache_faithful(mv@, player);
            }
            if mv@ is PlaceFence {
                self@.lemma_fence_commit_leaves_paths(mv@, player);
            } else if self@.pawns_able_to_win() {
                self@.lemma_commit_keeps_paths(mv@, player);
            }
        }
        match mv {
            LegalMove(Lmi::MovePlayer(orig_pos, pos)) => {
                proof {
                    let (dir, second) = choose|dir: Direction, second: Option<Direction>| #[trigger]
                        self@.destination(player, dir, second) == Ok::<_, pawn_move::Fail>(
                            (pos.0 as int, pos.1 as int),
                        );
                    self@.lemma_destination_free(player, dir, second);
                }
                self.move_pawn_unchecked(player, orig_pos, pos)
            },
            LegalMove(Lmi::PlaceFence(axis, pos)) => self.move_fence_unchecked(player, axis, pos),
        }
    }

    /// Takes the move `mv` of `player` back. The board must be as the
    /// move left it.
    ///
    /// Taking a fence back works the cache out anew on the cell and on
    /// its neighbours, from the fences that stand beside each of them.
    /// Where the placement was not restorable the cache then differs from
    /// what it was: it may rule out a placement that collides with
    /// nothing, and it may admit one on a neighbouring cell that still
    /// holds a fence, which validation then accepts and a commit writes
    /// over the fence there.
    pub fn unmake_legal_move(&mut self, mv: LegalMove, player: PlayerColor)
        requires
            old(self).wf(),
            old(self)@.can_roll_back(mv@, player),
        ensures
            final(self)@ == old(self)@.rolled_back(mv@, player),
            final(self).wf(),
    {
        proof {
            self@.lemma_rolled_back_wf(mv@, player);
        }
        match mv {
            LegalMove(Lmi::MovePlayer(orig_pos, pos)) => {
                self.unmove_pawn_unchecked(player, orig_pos, pos)
            },
            LegalMove(Lmi::PlaceFence(_axis, pos)) => self.unmove_fence_unchecked(player, pos),
        }
    }

    /// Validates the move `m` asked for by `player`: every move gets a
    /// validated move or an error. The board is not changed.
    pub fn make_move_legal(&self, m: Move, player: PlayerColor) -> (r: Result<
        LegalMove,
        MoveMakeFail,
    >)
        requires
            self.wf(),
        ensures
            match r {
                Ok(mv) => self@.validate(m, player) == Ok::<_, MoveMakeFail>(mv@),
                Err(e) => self@.validate(m, player) == Err::<LegalMoveView, _>(e),
            },
            r matches Ok(mv) ==> self@.is_legal(mv@, player) && m.fits_board(),
            !m.fits_board() ==> r == Err::<LegalMove, _>(
                MoveMakeFail::AddFenceMove(
                    if self@.fences_left(player) == 0 {
                        fence_move::Fail::NoFencesRemaining
                    } else {
                        fence_move::Fail::Collides
                    },
                ),
            ),
    {
        match m {
            Move::MovePlayer(dir, second_dir) => {
                match self.pawn_move_destination(player, dir, second_dir) {
                    Ok(to) => Ok(LegalMove(Lmi::MovePlayer(self.pawn_pos(player), to))),
                    Err(e) => Err(MoveMakeFail::PawnMoveFail(e)),
                }
            },
            Move::PlaceFence(axis, pos) => {
                match self.is_fence_move_legal(player, axis, pos) {
                    Ok(_) => Ok(LegalMove(Lmi::PlaceFence(axis, pos))),
                    Err(e) => Err(MoveMakeFail::AddFenceMove(e)),
                }
            },
        }
    }
}

/// Accepts the types that can be sent to and shared between threads and
/// moved freely.
pub fn is_nicely_send<T: Sized + Send + Sync + Unpin>() {
}

} // verus!
