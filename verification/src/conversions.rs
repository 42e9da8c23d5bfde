//! Conversions between the types of the board and plain integers.

use crate::types::{Color, Position, TurnColor};
use vstd::prelude::*;
use vstd::std_specs::convert::FromSpecImpl;

verus! {

impl From<(usize, usize)> for Position {
    /// The square at a row and a column.
    fn from(other: (usize, usize)) -> (r: Position)
        ensures
            r.row == other.0,
            r.col == other.1,
    {
        Position { row: other.0, col: other.1 }
    }
}

impl FromSpecImpl<(usize, usize)> for Position {
    open spec fn obeys_from_spec() -> bool {
        true
    }

    open spec fn from_spec(other: (usize, usize)) -> Position {
        Position { row: other.0, col: other.1 }
    }
}

impl From<&(usize, usize)> for Position {
    /// The square at a row and a column.
    fn from(other: &(usize, usize)) -> (r: Position)
        ensures
            r.row == other.0,
            r.col == other.1,
    {
        Position { row: other.0, col: other.1 }
    }
}

impl FromSpecImpl<&(usize, usize)> for Position {
    open spec fn obeys_from_spec() -> bool {
        true
    }

    open spec fn from_spec(other: &(usize, usize)) -> Position {
        Position { row: other.0, col: other.1 }
    }
}

impl From<Position> for (usize, usize) {
    /// The row and the column of a square.
    fn from(other: Position) -> (r: (usize, usize))
        ensures
            r == (other.row, other.col),
    {
        (other.row, other.col)
    }
}

impl FromSpecImpl<Position> for (usize, usize) {
    open spec fn obeys_from_spec() -> bool {
        true
    }

    open spec fn from_spec(other: Position) -> (usize, usize) {
        (other.row, other.col)
    }
}

impl From<&Position> for (usize, usize) {
    /// The row and the column of a square.
    fn from(other: &Position) -> (r: (usize, usize))
        ensures
            r == (other.row, other.col),
    {
        (other.row, other.col)
    }
}

impl FromSpecImpl<&Position> for (usize, usize) {
    open spec fn obeys_from_spec() -> bool {
        true
    }

    open spec fn from_spec(other: &Position) -> (usize, usize) {
        (other.row, other.col)
    }
}

impl From<TurnColor> for usize {
    /// The place of a player in every per-player quadruple.
    fn from(other: TurnColor) -> (r: usize)
        ensures
            r == other.ordinal(),
    {
        match other {
            TurnColor::Red => 0,
            TurnColor::Blue => 1,
            TurnColor::Yellow => 2,
            TurnColor::Green => 3,
        }
    }
}

impl FromSpecImpl<TurnColor> for usize {
    open spec fn obeys_from_spec() -> bool {
        true
    }

    open spec fn from_spec(other: TurnColor) -> usize {
        other.ordinal() as usize
    }
}

impl From<&TurnColor> for usize {
    /// The place of a player in every per-player quadruple.
    fn from(other: &TurnColor) -> (r: usize)
        ensures
            r == other.ordinal(),
    {
        match other {
            TurnColor::Red => 0,
            TurnColor::Blue => 1,
            TurnColor::Yellow => 2,
            TurnColor::Green => 3,
        }
    }
}

impl FromSpecImpl<&TurnColor> for usize {
    open spec fn obeys_from_spec() -> bool {
        true
    }

    open spec fn from_spec(other: &TurnColor) -> usize {
        other.ordinal() as usize
    }
}

/// The colour of the player at a place of a quadruple; the dead colour
/// without memory for any other number.
pub open spec fn color_at(index: usize) -> Color {
    if index == 0 {
        Color::Turn(TurnColor::Red)
    } else if index == 1 {
        Color::Turn(TurnColor::Blue)
    } else if index == 2 {
        Color::Turn(TurnColor::Yellow)
    } else if index == 3 {
        Color::Turn(TurnColor::Green)
    } else {
        Color::Dead(None)
    }
}

impl From<usize> for Color {
    /// The colour of the player at a place of a quadruple; the dead colour
    /// without memory for any other number.
    fn from(index: usize) -> (r: Color)
        ensures
            r == color_at(index),
    {
        if index == 0 {
            Color::Turn(TurnColor::Red)
        } else if index == 1 {
            Color::Turn(TurnColor::Blue)
        } else if index == 2 {
            Color::Turn(TurnColor::Yellow)
        } else if index == 3 {
            Color::Turn(TurnColor::Green)
        } else {
            Color::Dead(None)
        }
    }
}

impl FromSpecImpl<usize> for Color {
    open spec fn obeys_from_spec() -> bool {
        true
    }

    open spec fn from_spec(index: usize) -> Color {
        color_at(index)
    }
}

/// The place of a player comes back as the colour of that player.
pub proof fn lemma_ordinal_color(t: TurnColor)
    ensures
        color_at(t.ordinal() as usize) == Color::Turn(t),
{
}

} // verus!
