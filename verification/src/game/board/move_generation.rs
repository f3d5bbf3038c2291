//! The enumeration of every legal move of a player.

use vstd::prelude::*;
use super::super::{Axis, Direction, PlayerColor};
use super::{on_board, on_fence_grid, pawn_move, Board, BoardView, LegalMove, LegalMoveView};

verus! {

/// The models of a sequence of validated moves.
pub open spec fn move_views(moves: Seq<LegalMove>) -> Seq<LegalMoveView> {
    Seq::new(moves.len(), |i: int| moves[i]@)
}

/// The place of `dir` in the order in which pawn moves are generated.
spec fn order(dir: Direction) -> int {
    match dir {
        Direction::Left => 0,
        Direction::Right => 1,
        Direction::Up => 2,
        Direction::Down => 3,
    }
}

/// Whether fence cell `cell` comes before cell `(x, y)`, row by row.
spec fn done(cell: (int, int), x: int, y: int) -> bool {
    cell.1 < y || (cell.1 == y && cell.0 < x)
}

/// Whether `mv` is a legal move of `player` that generation has dealt
/// with once it has finished the first `k` directions and the fence cells
/// before `(x, y)`.
spec fn handled(view: BoardView, player: PlayerColor, mv: LegalMoveView, k: int, x: int, y: int) -> bool {
    match mv {
        LegalMoveView::MovePlayer { from, to } => from == view.pawn(player) && exists|
            dir: Direction,
            second: Option<Direction>,
        |
            order(dir) < k && #[trigger] view.destination(player, dir, second) == Ok::<
                _,
                pawn_move::Fail,
            >(to),
        LegalMoveView::PlaceFence { axis, cell } => on_fence_grid(cell) && done(cell, x, y)
            && view.fence_check(player, axis, cell.0, cell.1) is Ok,
    }
}

/// Whether `vs` holds, each once, the moves that generation has dealt
/// with so far.
spec fn collected(view: BoardView, player: PlayerColor, vs: Seq<LegalMoveView>, k: int, x: int, y: int) -> bool {
    &&& vs.no_duplicates()
    &&& forall|mv: LegalMoveView| #[trigger] vs.contains(mv) <==> handled(view, player, mv, k, x, y)
}

/// Adding one move to the sequence adds its model to the models.
proof fn lemma_views_push(moves: Seq<LegalMove>, mv: LegalMove)
    ensures
        move_views(moves.push(mv)) == move_views(moves).push(mv@),
{
    assert(move_views(moves.push(mv)) =~= move_views(moves).push(mv@));
}

/// A sequence without duplicates stays so when a new value is added, and
/// then holds that value and what it held before.
proof fn lemma_push_new(vs: Seq<LegalMoveView>, mv: LegalMoveView)
    requires
        vs.no_duplicates(),
        !vs.contains(mv),
    ensures
        vs.push(mv).no_duplicates(),
        forall|other: LegalMoveView| #[trigger]
            vs.push(mv).contains(other) <==> (other == mv || vs.contains(other)),
{
    let ws = vs.push(mv);
    assert forall|i: int, j: int| 0 <= i < ws.len() && 0 <= j < ws.len() && i != j implies ws[i]
        != ws[j] by {
        if i < vs.len() {
            assert(vs.contains(vs[i]));
        }
        if j < vs.len() {
            assert(vs.contains(vs[j]));
        }
    }
    assert forall|other: LegalMoveView| #[trigger]
        ws.contains(other) <==> (other == mv || vs.contains(other)) by {
        if ws.contains(other) {
            let i = choose|i: int| 0 <= i < ws.len() && ws[i] == other;
            if i < vs.len() {
                assert(vs[i] == other);
            }
        }
        if vs.contains(other) {
            let i = choose|i: int| 0 <= i < vs.len() && vs[i] == other;
            assert(ws[i] == other);
        }
        assert(ws[vs.len() as int] == mv);
    }
}

impl BoardView {
    /// Pawn moves that start in different directions end on different
    /// squares.
    pub proof fn lemma_directions_part_targets(
        self,
        player: PlayerColor,
        d1: Direction,
        s1: Option<Direction>,
        d2: Direction,
        s2: Option<Direction>,
    )
        requires
            self.wf(),
            d1 != d2,
            self.destination(player, d1, s1) is Ok,
            self.destination(player, d2, s2) is Ok,
        ensures
            self.destination(player, d1, s1) != self.destination(player, d2, s2),
    {
        let from = self.pawn(player);
        let m1 = d1.step(from.0, from.1);
        let m2 = d2.step(from.0, from.1);
        assert(on_board(m1) && on_board(m2));
        assert(m1 != m2);
        assert(self.squares[m1.1][m1.0] is Some ==> m1 == self.pawn(player.opponent()));
        assert(self.squares[m2.1][m2.0] is Some ==> m2 == self.pawn(player.opponent()));
    }

    /// Where a pawn move lands does not depend on the side-step named,
    /// unless the jump over the opponent is blocked.
    pub proof fn lemma_second_ignored(
        self,
        player: PlayerColor,
        dir: Direction,
        second: Option<Direction>,
    )
        requires
            self.destination(player, dir, None) != Err::<(int, int), _>(
                pawn_move::Fail::NoSecondary,
            ),
        ensures
            self.destination(player, dir, second) == self.destination(player, dir, None),
    {
    }
}

impl Board {
    /// Adds the side-step of `player` over `dir` and then `side` to
    /// `moves`, if it resolves.
    fn push_side_step(
        &self,
        player: PlayerColor,
        from: (usize, usize),
        dir: Direction,
        side: Direction,
        moves: &mut Vec<LegalMove>,
    )
        requires
            self.wf(),
            (from.0 as int, from.1 as int) == self@.pawn(player),
        ensures
            match self@.destination(player, dir, Some(side)) {
                Ok(to) => move_views(final(moves)@) == move_views(old(moves)@).push(
                    LegalMoveView::MovePlayer { from: self@.pawn(player), to },
                ),
                Err(_) => final(moves)@ == old(moves)@,
            },
    {
        match self.pawn_move_destination(player, dir, Some(side)) {
            Ok(to) => {
                let mv = LegalMove::pawn_step(from, to);
                proof {
                    lemma_views_push(moves@, mv);
                }
                moves.push(mv);
            },
            Err(_) => {},
        }
    }

    /// Adds the placement of a fence of orientation `axis` on cell
    /// `(x, y)` to `moves`, if it is legal for `player`.
    fn push_fence_if_legal(
        &self,
        player: PlayerColor,
        axis: Axis,
        x: usize,
        y: usize,
        moves: &mut Vec<LegalMove>,
    )
        requires
            self.wf(),
            x < 8,
            y < 8,
        ensures
            match self@.fence_check(player, axis, x as int, y as int) {
                Ok(_) => move_views(final(moves)@) == move_views(old(moves)@).push(
                    LegalMoveView::PlaceFence { axis, cell: (x as int, y as int) },
                ),
                Err(_) => final(moves)@ == old(moves)@,
            },
    {
        if self.legality_at(x, y).does_allow(axis) && self.is_fence_move_legal(
            player,
            axis,
            (x, y),
        ).is_ok() {
            let mv = LegalMove::fence_placement(axis, (x, y));
            proof {
                lemma_views_push(moves@, mv);
            }
            moves.push(mv);
        }
    }

    /// Every legal move of `player`, each once: the pawn moves first, by
    /// direction, then the fence placements, cell by cell. Each of them is
    /// what validation makes of some move, and a player without fences
    /// gets pawn moves only.
    pub fn legal_moves(&self, player: PlayerColor) -> (moves: Vec<LegalMove>)
        requires
            self.wf(),
        ensures
            move_views(moves@).no_duplicates(),
            forall|mv: LegalMoveView| #[trigger]
                move_views(moves@).contains(mv) <==> self@.is_legal(mv, player),
            forall|i: int| 0 <= i < moves.len() ==> self@.is_legal(#[trigger] moves[i]@, player),
            self@.fences_left(player) == 0 ==> forall|i: int|
                0 <= i < moves.len() ==> #[trigger] moves[i]@ is MovePlayer,
    {
        let mut moves: Vec<LegalMove> = Vec::new();
        let ghost view = self@;
        let player_pos = self.pawn_pos(player);
        let dirs = [Direction::Left, Direction::Right, Direction::Up, Direction::Down];
        proof {
            assert(move_views(moves@) =~= Seq::empty());
        }
        for k in 0..4
            invariant
                self.wf(),
                view == self@,
                (player_pos.0 as int, player_pos.1 as int) == view.pawn(player),
                dirs[0] == Direction::Left,
                dirs[1] == Direction::Right,
                dirs[2] == Direction::Up,
                dirs[3] == Direction::Down,
                collected(view, player, move_views(moves@), k as int, 0, 0),
        {
            let dir = dirs[k];
            let ghost before = move_views(moves@);
            assert(order(dir) == k);
            match self.pawn_move_destination(player, dir, None) {
                Ok(to) => {
                    let mv = LegalMove::pawn_step(player_pos, to);
                    proof {
                        lemma_views_push(moves@, mv);
                        if before.contains(mv@) {
                            let (d, s) = choose|d: Direction, s: Option<Direction>|
                                order(d) < k && #[trigger] view.destination(player, d, s) == Ok::<
                                    _,
                                    pawn_move::Fail,
                                >((to.0 as int, to.1 as int));
                            view.lemma_directions_part_targets(player, d, s, dir, None);
                        }
                        lemma_push_new(before, mv@);
                    }
                    moves.push(mv);
                },
                Err(pawn_move::Fail::NoSecondary) => {
                    let sides = dir.perpendiculars();
                    self.push_side_step(player, player_pos, dir, sides[0], &mut moves);
                    let ghost between = move_views(moves@);
                    self.push_side_step(player, player_pos, dir, sides[1], &mut moves);
                    proof {
                        let first = view.destination(player, dir, Some(sides[0]));
                        let second = view.destination(player, dir, Some(sides[1]));
                        if first is Ok {
                            let mv = LegalMoveView::MovePlayer {
                                from: view.pawn(player),
                                to: first->Ok_0,
                            };
                            if before.contains(mv) {
                                let (d, s) = choose|d: Direction, s: Option<Direction>|
                                    order(d) < k && #[trigger] view.destination(player, d, s)
                                        == Ok::<_, pawn_move::Fail>(first->Ok_0);
                                view.lemma_directions_part_targets(
                                    player,
                                    d,
                                    s,
                                    dir,
                                    Some(sides[0]),
                                );
                            }
                            lemma_push_new(before, mv);
                        }
                        if second is Ok {
                            let mv = LegalMoveView::MovePlayer {
                                from: view.pawn(player),
                                to: second->Ok_0,
                            };
                            if before.contains(mv) {
                                let (d, s) = choose|d: Direction, s: Option<Direction>|
                                    order(d) < k && #[trigger] view.destination(player, d, s)
                                        == Ok::<_, pawn_move::Fail>(second->Ok_0);
                                view.lemma_directions_part_targets(
                                    player,
                                    d,
                                    s,
                                    dir,
                                    Some(sides[1]),
                                );
                            }
                            lemma_push_new(between, mv);
                        }
                    }
                },
                Err(_) => {},
            }
            proof {
                let after = move_views(moves@);
                assert forall|mv: LegalMoveView| #[trigger] after.contains(mv) <==> handled(
                    view,
                    player,
                    mv,
                    k + 1,
                    0,
                    0,
                ) by {
                    match mv {
                        LegalMoveView::MovePlayer { from, to } => {
                            if handled(view, player, mv, k + 1, 0, 0) {
                                let (d, s) = choose|d: Direction, s: Option<Direction>|
                                    order(d) < k + 1 && #[trigger] view.destination(player, d, s)
                                        == Ok::<_, pawn_move::Fail>(to);
                                if order(d) < k {
                                    assert(handled(view, player, mv, k as int, 0, 0));
                                } else {
                                    assert(d == dir);
                                    if view.destination(player, dir, None) != Err::<(int, int), _>(
                                        pawn_move::Fail::NoSecondary,
                                    ) {
                                        view.lemma_second_ignored(player, dir, s);
                                    }
                                }
                            }
                            if after.contains(mv) && !before.contains(mv) {
                                assert(view.destination(player, dir, None) is Ok
                                    || view.destination(player, dir, None) == Err::<(int, int), _>(
                                    pawn_move::Fail::NoSecondary,
                                ));
                            }
                            if before.contains(mv) {
                                assert(handled(view, player, mv, k as int, 0, 0));
                                let (d, s) = choose|d: Direction, s: Option<Direction>|
                                    order(d) < k && #[trigger] view.destination(player, d, s)
                                        == Ok::<_, pawn_move::Fail>(to);
                                assert(order(d) < k + 1);
                            }
                        },
                        LegalMoveView::PlaceFence { axis, cell } => {
                            assert(!handled(view, player, mv, k as int, 0, 0));
                        },
                    }
                }
            }
        }
        for y in 0..8
            invariant
                self.wf(),
                view == self@,
                collected(view, player, move_views(moves@), 4, 0, y as int),
        {
            for x in 0..8
                invariant
                    self.wf(),
                    view == self@,
                    y < 8,
                    collected(view, player, move_views(moves@), 4, x as int, y as int),
            {
                let ghost before = move_views(moves@);
                self.push_fence_if_legal(player, Axis::Horizontal, x, y, &mut moves);
                let ghost between = move_views(moves@);
                self.push_fence_if_legal(player, Axis::Vertical, x, y, &mut moves);
                proof {
                    let h = LegalMoveView::PlaceFence {
                        axis: Axis::Horizontal,
                        cell: (x as int, y as int),
                    };
                    let v = LegalMoveView::PlaceFence {
                        axis: Axis::Vertical,
                        cell: (x as int, y as int),
                    };
                    assert(!handled(view, player, h, 4, x as int, y as int));
                    assert(!handled(view, player, v, 4, x as int, y as int));
                    if view.fence_check(player, Axis::Horizontal, x as int, y as int) is Ok {
                        lemma_push_new(before, h);
                    }
                    if view.fence_check(player, Axis::Vertical, x as int, y as int) is Ok {
                        lemma_push_new(between, v);
                    }
                    let after = move_views(moves@);
                    assert forall|mv: LegalMoveView| #[trigger] after.contains(mv) <==> handled(
                        view,
                        player,
                        mv,
                        4,
                        x + 1,
                        y as int,
                    ) by {
                        match mv {
                            LegalMoveView::MovePlayer { from, to } => {
                                assert(handled(view, player, mv, 4, x + 1, y as int) == handled(
                                    view,
                                    player,
                                    mv,
                                    4,
                                    x as int,
                                    y as int,
                                ));
                            },
                            LegalMoveView::PlaceFence { axis, cell } => {
                                if cell == (x as int, y as int) {
                                    assert(mv == h || mv == v);
                                }
                            },
                        }
                    }
                }
            }
            proof {
                let vs = move_views(moves@);
                assert forall|mv: LegalMoveView| #[trigger] vs.contains(mv) <==> handled(
                    view,
                    player,
                    mv,
                    4,
                    0,
                    y + 1,
                ) by {
                    assert(vs.contains(mv) <==> handled(view, player, mv, 4, 8, y as int));
                }
            }
        }
        proof {
            let vs = move_views(moves@);
            assert forall|mv: LegalMoveView| #[trigger] vs.contains(mv) <==> view.is_legal(
                mv,
                player,
            ) by {
                view.lemma_legal_unfold(mv, player);
                assert(vs.contains(mv) <==> handled(view, player, mv, 4, 0, 8));
                match mv {
                    LegalMoveView::MovePlayer { from, to } => {
                        if view.is_legal(mv, player) {
                            let (d, s) = choose|d: Direction, s: Option<Direction>| #[trigger]
                                view.destination(player, d, s) == Ok::<_, pawn_move::Fail>(to);
                            assert(order(d) < 4);
                        }
                    },
                    LegalMoveView::PlaceFence { axis, cell } => {},
                }
            }
            assert forall|i: int| 0 <= i < moves.len() implies view.is_legal(
                #[trigger] moves[i]@,
                player,
            ) by {
                assert(vs[i] == moves[i]@);
                assert(vs.contains(moves[i]@));
            }
            if view.fences_left(player) == 0 {
                view.lemma_no_fences_no_placements(player);
            }
        }
        moves
    }
}

} // verus!
