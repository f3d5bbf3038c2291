//! Paths over open steps, and what it means for a pawn to be able to
//! reach its goal row.

use vstd::prelude::*;
use super::super::{Direction, PlayerColor};
use super::{on_board, BoardView};

verus! {

impl BoardView {
    /// Whether the step from `a` in direction `dir` is open and ends on `b`.
    pub open spec fn open_step(self, a: (int, int), b: (int, int), dir: Direction) -> bool {
        !self.obstructed(a.0, a.1, dir) && dir.step(a.0, a.1) == b
    }

    /// Whether a pawn on square `a` of the board can step onto `b`.
    pub open spec fn linked(self, a: (int, int), b: (int, int)) -> bool {
        on_board(a) && (self.open_step(a, b, Direction::Left) || self.open_step(
            a,
            b,
            Direction::Right,
        ) || self.open_step(a, b, Direction::Up) || self.open_step(a, b, Direction::Down))
    }

    /// Whether `p` is a walk over the board: it starts on a square of the
    /// board and each square is one open step from the one before.
    pub open spec fn is_path(self, p: Seq<(int, int)>) -> bool {
        &&& p.len() >= 1
        &&& on_board(p[0])
        &&& forall|i: int| 0 <= i < p.len() - 1 ==> self.linked(#[trigger] p[i], p[i + 1])
    }

    /// Whether `p` is a walk from `a` to `b`.
    pub open spec fn path_between(self, p: Seq<(int, int)>, a: (int, int), b: (int, int)) -> bool {
        self.is_path(p) && p[0] == a && p.last() == b
    }

    /// Whether some walk leads from `a` to `b`.
    pub open spec fn connected(self, a: (int, int), b: (int, int)) -> bool {
        exists|p: Seq<(int, int)>| #[trigger] self.path_between(p, a, b)
    }

    /// Whether some walk leads from `from` to a square of row `row`.
    pub open spec fn reaches_row(self, from: (int, int), row: int) -> bool {
        exists|p: Seq<(int, int)>| #[trigger] self.is_path(p) && p[0] == from && p.last().1 == row
    }

    /// Whether the pawn of `player` can still reach its goal row.
    pub open spec fn can_win(self, player: PlayerColor) -> bool {
        self.reaches_row(self.pawn(player), Self::goal_row(player))
    }

    /// Whether both pawns can still reach their goal rows: White row 0,
    /// Black row 8.
    pub open spec fn pawns_able_to_win(self) -> bool {
        self.can_win(PlayerColor::White) && self.can_win(PlayerColor::Black)
    }

    /// Whether `region` is a set of squares of the board, none of them in
    /// row `row`, that no open step leaves.
    pub open spec fn closed_region(self, region: Set<(int, int)>, row: int) -> bool {
        &&& forall|a: (int, int)| #[trigger] region.contains(a) ==> on_board(a) && a.1 != row
        &&& forall|a: (int, int), dir: Direction|
            region.contains(a) && !#[trigger] self.obstructed(a.0, a.1, dir) ==> region.contains(
                dir.step(a.0, a.1),
            )
    }

    /// A walk can be continued by one open step.
    pub proof fn lemma_path_push(self, p: Seq<(int, int)>, b: (int, int))
        requires
            self.is_path(p),
            self.linked(p.last(), b),
        ensures
            self.is_path(p.push(b)),
            p.push(b)[0] == p[0],
            p.push(b).last() == b,
    {
        let q = p.push(b);
        assert forall|i: int| 0 <= i < q.len() - 1 implies self.linked(#[trigger] q[i], q[i + 1]) by {
            if i < p.len() - 1 {
                assert(self.linked(p[i], p[i + 1]));
            }
        }
    }

    /// Two walks, the second starting where the first ends, make one walk.
    pub proof fn lemma_path_join(self, p: Seq<(int, int)>, q: Seq<(int, int)>)
        requires
            self.is_path(p),
            self.is_path(q),
            p.last() == q[0],
        ensures
            self.is_path(p + q.drop_first()),
            (p + q.drop_first())[0] == p[0],
            (p + q.drop_first()).last() == q.last(),
    {
        let r = p + q.drop_first();
        assert forall|i: int| 0 <= i < r.len() - 1 implies self.linked(#[trigger] r[i], r[i + 1]) by {
            if i < p.len() - 1 {
                assert(self.linked(p[i], p[i + 1]));
            } else {
                let j = i - (p.len() - 1);
                assert(self.linked(q[j], q[j + 1]));
                assert(r[i + 1] == q[j + 1]);
                assert(r[i] == q[j]);
            }
        }
    }

    /// A walk that starts inside a closed region never leaves it.
    pub proof fn lemma_path_stays_in_region(
        self,
        region: Set<(int, int)>,
        row: int,
        p: Seq<(int, int)>,
        i: int,
    )
        requires
            self.closed_region(region, row),
            self.is_path(p),
            region.contains(p[0]),
            0 <= i < p.len(),
        ensures
            region.contains(p[i]),
            p[i].1 != row,
        decreases i,
    {
        if i > 0 {
            self.lemma_path_stays_in_region(region, row, p, i - 1);
            let a = p[i - 1];
            assert(self.linked(a, p[i - 1 + 1]));
            assert(region.contains(a));
        }
    }

    /// From inside a closed region that avoids row `row`, no walk reaches
    /// that row.
    pub proof fn lemma_closed_region_blocks(self, region: Set<(int, int)>, row: int, from: (int, int))
        requires
            self.closed_region(region, row),
            region.contains(from),
        ensures
            !self.reaches_row(from, row),
    {
        if self.reaches_row(from, row) {
            let p = choose|p: Seq<(int, int)>| #[trigger]
                self.is_path(p) && p[0] == from && p.last().1 == row;
            self.lemma_path_stays_in_region(region, row, p, p.len() - 1);
        }
    }

    /// An open step can be walked back: fences block both ways.
    pub proof fn lemma_linked_symmetric(self, a: (int, int), b: (int, int))
        requires
            self.linked(a, b),
        ensures
            self.linked(b, a),
    {
    }

    /// Reachability of squares reads the fences only.
    pub proof fn lemma_paths_depend_on_fences(self, other: BoardView, p: Seq<(int, int)>)
        requires
            self.fences == other.fences,
            self.is_path(p),
        ensures
            other.is_path(p),
    {
        assert forall|i: int| 0 <= i < p.len() - 1 implies other.linked(#[trigger] p[i], p[i + 1]) by {
            assert(self.linked(p[i], p[i + 1]));
        }
    }
}

} // verus!
