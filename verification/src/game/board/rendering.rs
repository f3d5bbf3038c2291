//! The board as text, for a terminal: squares in a frame, fences drawn
//! heavy and red on the lines between them, fence counters below.

use vstd::prelude::*;
use vstd::string::StringExecFns;
use super::super::{Axis, PlayerColor};
use super::{Board, BoardView};

verus! {

/// The decimal digit `d` as text.
pub open spec fn digit_text(d: int) -> Seq<char> {
    if d == 0 {
        "0"@
    } else if d == 1 {
        "1"@
    } else if d == 2 {
        "2"@
    } else if d == 3 {
        "3"@
    } else if d == 4 {
        "4"@
    } else if d == 5 {
        "5"@
    } else if d == 6 {
        "6"@
    } else if d == 7 {
        "7"@
    } else if d == 8 {
        "8"@
    } else {
        "9"@
    }
}

/// A fence counter of at most ten as text, two characters wide and
/// aligned to the right.
pub open spec fn counter_text(n: int) -> Seq<char> {
    if n < 10 {
        " "@ + digit_text(n)
    } else {
        "10"@
    }
}

impl BoardView {
    /// The three characters that show square `(x, y)`.
    pub open spec fn square_text(self, x: int, y: int) -> Seq<char> {
        match self.square((x, y)) {
            Some(PlayerColor::White) => " W "@,
            Some(PlayerColor::Black) => " B "@,
            None => "   "@,
        }
    }

    /// The bar to the right of square `(x, y)`: heavy and red where a
    /// vertical fence runs along it, and never so at the right rim.
    pub open spec fn bar_text(self, x: int, y: int) -> Seq<char> {
        if x != 8 && (self.has_fence(Axis::Vertical, x, y) || self.has_fence(
            Axis::Vertical,
            x,
            y - 1,
        )) {
            "\x1b[31m┃\x1b[0m"@
        } else {
            "│"@
        }
    }

    /// The line of squares of row `y`, up to and without column `n`.
    pub open spec fn row_text(self, y: int, n: int) -> Seq<char>
        decreases n,
    {
        if n <= 0 {
            "   │"@
        } else {
            self.row_text(y, n - 1) + self.square_text(n - 1, y) + self.bar_text(n - 1, y)
        }
    }

    /// The stretch of line under square `(x, y)`: heavy where a horizontal
    /// fence begins or ends under it.
    pub open spec fn side_text(self, x: int, y: int) -> Seq<char> {
        if self.has_fence(Axis::Horizontal, x, y) {
            "\x1b[31m━━━"@
        } else if self.has_fence(Axis::Horizontal, x - 1, y) {
            "━━━\x1b[0m"@
        } else {
            "───"@
        }
    }

    /// The crossing to the lower right of square `(x, y)`, which shows the
    /// middle of the fence on cell `(x, y)`.
    pub open spec fn corner_text(self, x: int, y: int) -> Seq<char> {
        if x == 8 {
            "┤"@
        } else {
            match self.fence(x, y) {
                Some(Axis::Vertical) => "\x1b[31m┃\x1b[0m"@,
                Some(Axis::Horizontal) => "━"@,
                None => "┼"@,
            }
        }
    }

    /// The line under row `y`, labelled with the number of the row, up to
    /// and without column `n`.
    pub open spec fn rule_text(self, y: int, n: int) -> Seq<char>
        decreases n,
    {
        if n <= 0 {
            " "@ + digit_text(y + 1) + "─┼"@
        } else {
            self.rule_text(y, n - 1) + self.side_text(n - 1, y) + self.corner_text(n - 1, y)
        }
    }

    /// The top of the frame and the first `n` rows, each but the last
    /// with the line under it.
    pub open spec fn rows_text(self, n: int) -> Seq<char>
        decreases n,
    {
        if n <= 0 {
            "   ╭───┬───┬───┬───┬───┬───┬───┬───┬───╮\n"@
        } else if n - 1 < 8 {
            self.rows_text(n - 1) + self.row_text(n - 1, 9) + "\n"@ + self.rule_text(n - 1, 9)
                + "\n"@
        } else {
            self.rows_text(n - 1) + self.row_text(n - 1, 9) + "\n"@
        }
    }

    /// The whole picture: the nine rows in their frame, the column
    /// letters, an empty line, and the fence counters.
    pub open spec fn rendered(self) -> Seq<char> {
        self.rows_text(9) + "   ╰───┼───┼───┼───┼───┼───┼───┼───┼───╯\n"@
            + "       A   B   C   D   E   F   G   H    \n"@ + "\n"@ + "   White - "@
            + counter_text(self.fences_left_for_white as int) + " fences │ Black - "@
            + counter_text(self.fences_left_for_black as int) + " fences\n"@
    }
}

/// The decimal digit `d` as text.
fn digit_str(d: usize) -> (r: &'static str)
    requires
        d <= 9,
    ensures
        r@ == digit_text(d as int),
{
    if d == 0 {
        "0"
    } else if d == 1 {
        "1"
    } else if d == 2 {
        "2"
    } else if d == 3 {
        "3"
    } else if d == 4 {
        "4"
    } else if d == 5 {
        "5"
    } else if d == 6 {
        "6"
    } else if d == 7 {
        "7"
    } else if d == 8 {
        "8"
    } else {
        "9"
    }
}

/// Adds a fence counter of at most ten to `text`, two characters wide.
fn append_counter(text: &mut String, n: u32)
    requires
        n <= 10,
    ensures
        final(text)@ == old(text)@ + counter_text(n as int),
{
    if n < 10 {
        let mut padded = String::new();
        padded.append(" ");
        padded.append(digit_str(n as usize));
        assert(padded@ =~= " "@ + digit_text(n as int));
        text.append(padded.as_str());
    } else {
        text.append("10");
    }
}

impl Board {
    /// The line of squares of row `y`.
    fn render_row(&self, y: usize) -> (line: String)
        requires
            y < 9,
        ensures
            line@ == self@.row_text(y as int, 9),
    {
        let mut line = String::new();
        line.append("   │");
        assert(line@ =~= self@.row_text(y as int, 0));
        for x in 0..9
            invariant
                y < 9,
                line@ == self@.row_text(y as int, x as int),
        {
            let square = match self.square(x, y) {
                Some(PlayerColor::White) => " W ",
                Some(PlayerColor::Black) => " B ",
                None => "   ",
            };
            let fenced = x != 8 && (y < 8 && self.fence_is(Axis::Vertical, x, y) || y > 0
                && self.fence_is(Axis::Vertical, x, y - 1));
            let bar = if fenced {
                "\x1b[31m┃\x1b[0m"
            } else {
                "│"
            };
            line.append(square);
            line.append(bar);
        }
        line
    }

    /// The line under row `y`.
    fn render_rule(&self, y: usize) -> (line: String)
        requires
            y < 8,
        ensures
            line@ == self@.rule_text(y as int, 9),
    {
        let mut line = String::new();
        line.append(" ");
        line.append(digit_str(y + 1));
        line.append("─┼");
        assert(line@ =~= self@.rule_text(y as int, 0));
        for x in 0..9
            invariant
                y < 8,
                line@ == self@.rule_text(y as int, x as int),
        {
            let side = if x < 8 && self.fence_is(Axis::Horizontal, x, y) {
                "\x1b[31m━━━"
            } else if x > 0 && self.fence_is(Axis::Horizontal, x - 1, y) {
                "━━━\x1b[0m"
            } else {
                "───"
            };
            let corner = if x == 8 {
                "┤"
            } else {
                match self.fence(x, y) {
                    Some(Axis::Vertical) => "\x1b[31m┃\x1b[0m",
                    Some(Axis::Horizontal) => "━",
                    None => "┼",
                }
            };
            line.append(side);
            line.append(corner);
        }
        line
    }

    /// The board as text: the squares with the pawns as `W` and `B` in a
    /// frame, fences heavy and red on the lines between the squares, the
    /// rows numbered on the left, the columns lettered below, and under
    /// them how many fences each player has left.
    pub fn render(&self) -> (text: String)
        requires
            self.wf(),
        ensures
            text@ == self@.rendered(),
    {
        let mut text = String::new();
        text.append("   ╭───┬───┬───┬───┬───┬───┬───┬───┬───╮\n");
        assert(text@ =~= self@.rows_text(0));
        for y in 0..9
            invariant
                text@ == self@.rows_text(y as int),
        {
            let row = self.render_row(y);
            text.append(row.as_str());
            text.append("\n");
            if y < 8 {
                let rule = self.render_rule(y);
                text.append(rule.as_str());
                text.append("\n");
            }
        }
        text.append("   ╰───┼───┼───┼───┼───┼───┼───┼───┼───╯\n");
        text.append("       A   B   C   D   E   F   G   H    \n");
        text.append("\n");
        text.append("   White - ");
        append_counter(&mut text, self.fences_left(PlayerColor::White));
        text.append(" fences │ Black - ");
        append_counter(&mut text, self.fences_left(PlayerColor::Black));
        text.append(" fences\n");
        text
    }
}

} // verus!
