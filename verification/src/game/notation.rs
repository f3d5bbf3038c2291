//! The notation in which a player types a move: `w`, `a`, `s`, `d` for
//! a pawn move, with a second key for the side-step, or an orientation
//! key with a column letter and a row digit for a fence.

use vstd::prelude::*;
use vstd::std_specs::convert::TryFromSpecImpl;
use vstd::string::StrSliceExecFns;
use super::{Axis, Direction, Move, TryIntoMoveError};

verus! {

/// What `char::to_lowercase` yields for `c`: its lower-case mapping.
pub uninterp spec fn lowercase_of(c: char) -> Seq<char>;

/// Collects what `char::to_lowercase` yields for `c`. The mapping is the
/// one that the standard library takes from the Unicode tables; it is
/// named here, not written out.
#[verifier::external_body]
fn to_lowercase(c: char) -> (lowered: Vec<char>)
    ensures
        lowered@ == lowercase_of(c),
{
    c.to_lowercase().collect()
}

/// The direction that a key stands for: `w` up, `a` left, `s` down, `d`
/// right.
pub open spec fn direction_of(c: char) -> Option<Direction> {
    if c == 'w' {
        Some(Direction::Up)
    } else if c == 'a' {
        Some(Direction::Left)
    } else if c == 's' {
        Some(Direction::Down)
    } else if c == 'd' {
        Some(Direction::Right)
    } else {
        None
    }
}

/// The orientation that a key stands for: `-` or `h` horizontal, `|` or
/// `v` vertical.
pub open spec fn axis_of(c: char) -> Option<Axis> {
    if c == '-' || c == 'h' {
        Some(Axis::Horizontal)
    } else if c == '|' || c == 'v' {
        Some(Axis::Vertical)
    } else {
        None
    }
}

/// Reads a key as a direction.
fn direction_for(c: char) -> (r: Option<Direction>)
    ensures
        r == direction_of(c),
{
    if c == 'w' {
        Some(Direction::Up)
    } else if c == 'a' {
        Some(Direction::Left)
    } else if c == 's' {
        Some(Direction::Down)
    } else if c == 'd' {
        Some(Direction::Right)
    } else {
        None
    }
}

/// Reads a key as an orientation.
fn axis_for(c: char) -> (r: Option<Axis>)
    ensures
        r == axis_of(c),
{
    if c == '-' || c == 'h' {
        Some(Axis::Horizontal)
    } else if c == '|' || c == 'v' {
        Some(Axis::Vertical)
    } else {
        None
    }
}

impl Move {
    /// What a text reads as, given `head`, its first character in lower
    /// case.
    ///
    /// An empty text ends too early. A direction key may be followed by
    /// one more direction key, which is not lowered. An orientation key
    /// is followed by a column letter `a` to `h` and a row digit `1` to
    /// `8`, which name a cell of the 8×8 fence grid. Anything after that,
    /// and any other character, is not recognised.
    pub open spec fn parse(head: Option<char>, text: Seq<char>) -> Result<Move, TryIntoMoveError> {
        if text.len() == 0 {
            Err(TryIntoMoveError::UnexpectedEndOfString)
        } else if head is None {
            Err(TryIntoMoveError::UnrecognizedChar)
        } else if direction_of(head->Some_0) is Some {
            if text.len() == 1 {
                Ok(Move::MovePlayer(direction_of(head->Some_0)->Some_0, None))
            } else if direction_of(text[1]) is None || text.len() > 2 {
                Err(TryIntoMoveError::UnrecognizedChar)
            } else {
                Ok(Move::MovePlayer(direction_of(head->Some_0)->Some_0, direction_of(text[1])))
            }
        } else if axis_of(head->Some_0) is Some {
            if text.len() < 3 {
                Err(TryIntoMoveError::UnexpectedEndOfString)
            } else if !('a' <= text[1] <= 'h') || !('1' <= text[2] <= '8') || text.len() > 3 {
                Err(TryIntoMoveError::UnrecognizedChar)
            } else {
                Ok(
                    Move::PlaceFence(
                        axis_of(head->Some_0)->Some_0,
                        (
                            (text[1] as int - 'a' as int) as usize,
                            (text[2] as int - '1' as int) as usize,
                        ),
                    ),
                )
            }
        } else {
            Err(TryIntoMoveError::UnrecognizedChar)
        }
    }

    /// The first character of what `c` becomes in lower case, if there is
    /// one.
    pub open spec fn lowered_head(c: char) -> Option<char> {
        if lowercase_of(c).len() == 0 {
            None
        } else {
            Some(lowercase_of(c)[0])
        }
    }

    /// A move that is read names a cell of the fence grid, whatever the
    /// first character is lowered to.
    pub proof fn lemma_parsed_fits_board(head: Option<char>, text: Seq<char>)
        ensures
            Self::parse(head, text) matches Ok(m) ==> m.fits_board(),
            Self::parse_text(text) matches Ok(m) ==> m.fits_board(),
    {
    }

    /// What a text reads as: it is parsed with its first character
    /// lowered.
    pub open spec fn parse_text(text: Seq<char>) -> Result<Move, TryIntoMoveError> {
        if text.len() == 0 {
            Err(TryIntoMoveError::UnexpectedEndOfString)
        } else {
            Self::parse(Self::lowered_head(text[0]), text)
        }
    }

    /// Reads `text` as a move, given `head`, its first character in
    /// lower case. A fence placement that is read names a cell of the
    /// fence grid.
    pub fn parse_lowered(head: Option<char>, text: &str) -> (r: Result<Move, TryIntoMoveError>)
        ensures
            r == Self::parse(head, text@),
            r matches Ok(m) ==> m.fits_board(),
    {
        let len = text.unicode_len();
        if len == 0 {
            return Err(TryIntoMoveError::UnexpectedEndOfString);
        }
        let c = match head {
            Some(c) => c,
            None => {
                return Err(TryIntoMoveError::UnrecognizedChar);
            },
        };
        if let Some(dir) = direction_for(c) {
            if len == 1 {
                return Ok(Move::MovePlayer(dir, None));
            }
            let second_dir = direction_for(text.get_char(1));
            if second_dir.is_none() || len > 2 {
                return Err(TryIntoMoveError::UnrecognizedChar);
            }
            Ok(Move::MovePlayer(dir, second_dir))
        } else if let Some(axis) = axis_for(c) {
            if len < 3 {
                return Err(TryIntoMoveError::UnexpectedEndOfString);
            }
            let x_c = text.get_char(1);
            let y_c = text.get_char(2);
            if !('a' <= x_c && x_c <= 'h') || !('1' <= y_c && y_c <= '8') || len > 3 {
                return Err(TryIntoMoveError::UnrecognizedChar);
            }
            let x = (x_c as u32 - 'a' as u32) as usize;
            let y = (y_c as u32 - '1' as u32) as usize;
            Ok(Move::PlaceFence(axis, (x, y)))
        } else {
            Err(TryIntoMoveError::UnrecognizedChar)
        }
    }
}

impl TryFrom<String> for Move {
    type Error = TryIntoMoveError;

    /// Reads a text as a move. A fence placement that is read names a
    /// cell of the fence grid.
    fn try_from(value: String) -> (r: Result<Move, TryIntoMoveError>)
        ensures
            r matches Ok(m) ==> m.fits_board(),
    {
        let text = value.as_str();
        if text.unicode_len() == 0 {
            return Err(TryIntoMoveError::UnexpectedEndOfString);
        }
        let lowered = to_lowercase(text.get_char(0));
        let head = if lowered.len() == 0 {
            None
        } else {
            Some(lowered[0])
        };
        Move::parse_lowered(head, text)
    }
}

impl TryFromSpecImpl<String> for Move {
    open spec fn obeys_try_from_spec() -> bool {
        true
    }

    open spec fn try_from_spec(value: String) -> Result<Move, TryIntoMoveError> {
        Move::parse_text(value@)
    }
}

} // verus!
