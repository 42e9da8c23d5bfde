//! The codec of pieces and colours: `X` for a wall, otherwise a colour prefix
//! (`r`, `b`, `y`, `g`, `d`, `dr`, `db`, `dy`, `dg`) and one character for the shape.

use crate::text::{chars_of, string_of};
use crate::types::{Color, Piece, TurnColor};
use std::str::FromStr;
use vstd::prelude::*;

verus! {

/// Why a token does not name a piece.
#[derive(Clone, Copy, Debug, PartialEq, Eq, Hash)]
pub enum PieceParseError {
    /// The first character is none of `r`, `b`, `y`, `g` and `d`.
    BadColor(char),
    /// The token has this many characters, which is too few or too many for
    /// its colour prefix and one shape.
    BadSize(usize),
}

/// The player that a lower-case colour letter stands for.
pub open spec fn turn_of_letter(c: char) -> Option<TurnColor> {
    if c == 'r' {
        Some(TurnColor::Red)
    } else if c == 'b' {
        Some(TurnColor::Blue)
    } else if c == 'y' {
        Some(TurnColor::Yellow)
    } else if c == 'g' {
        Some(TurnColor::Green)
    } else {
        None
    }
}

/// The lower-case letter of a player, as used in front of a piece.
pub open spec fn letter_of_turn(t: TurnColor) -> char {
    match t {
        TurnColor::Red => 'r',
        TurnColor::Blue => 'b',
        TurnColor::Yellow => 'y',
        TurnColor::Green => 'g',
    }
}

/// The upper-case letter of a player, as used for the turn.
pub open spec fn turn_text(t: TurnColor) -> Seq<char> {
    match t {
        TurnColor::Red => seq!['R'],
        TurnColor::Blue => seq!['B'],
        TurnColor::Yellow => seq!['Y'],
        TurnColor::Green => seq!['G'],
    }
}

/// The player that remembers a dead piece, read from the second character of
/// a token that starts with `d`.
pub open spec fn remembered_turn(s: Seq<char>) -> Option<TurnColor> {
    if s.len() >= 2 && s[0] == 'd' {
        turn_of_letter(s[1])
    } else {
        None
    }
}

/// The colour that the start of a token names, if it names one.
pub open spec fn color_of_prefix(s: Seq<char>) -> Option<Color>
    recommends
        s.len() > 0,
{
    if s[0] == 'd' {
        Some(Color::Dead(remembered_turn(s)))
    } else {
        match turn_of_letter(s[0]) {
            Some(t) => Some(Color::Turn(t)),
            None => None,
        }
    }
}

/// The piece that a token names, or the reason why it names none.
///
/// The empty token names no piece: an empty square is written as part of a
/// run, never as a token of its own.
pub open spec fn parse_piece(s: Seq<char>) -> Result<Piece, PieceParseError> {
    if s =~= seq!['X'] {
        Ok(Piece::Wall)
    } else if s.len() == 0 {
        Err(PieceParseError::BadSize(0))
    } else {
        let prefix: int = if remembered_turn(s) is Some {
            2
        } else {
            1
        };
        match color_of_prefix(s) {
            None => Err(PieceParseError::BadColor(s[0])),
            Some(color) => if s.len() == prefix + 1 {
                Ok(Piece::Normal(color, s[prefix]))
            } else {
                Err(PieceParseError::BadSize(s.len() as usize))
            },
        }
    }
}

/// The prefix that names a colour.
pub open spec fn color_text(c: Color) -> Seq<char> {
    match c {
        Color::Turn(t) => seq![letter_of_turn(t)],
        Color::Dead(None) => seq!['d'],
        Color::Dead(Some(t)) => seq!['d', letter_of_turn(t)],
    }
}

/// The token of a piece; the empty text for an empty square.
pub open spec fn piece_text(p: Piece) -> Seq<char> {
    match p {
        Piece::Empty => Seq::empty(),
        Piece::Wall => seq!['X'],
        Piece::Normal(c, shape) => color_text(c).push(shape),
    }
}

/// Whether a piece can be told from its token: it is not an empty square, and
/// a dead piece that remembers no player does not have a colour letter for its
/// shape (`dr` would read as a dead red piece that lacks its shape).
pub open spec fn piece_readable(p: Piece) -> bool {
    match p {
        Piece::Empty => false,
        Piece::Wall => true,
        Piece::Normal(Color::Dead(None), shape) => turn_of_letter(shape) is None,
        Piece::Normal(_, _) => true,
    }
}

/// Writing a piece that can be told from its token and reading the token
/// again gives the piece back.
pub proof fn lemma_piece_round_trip(p: Piece)
    requires
        piece_readable(p),
    ensures
        parse_piece(piece_text(p)) == Ok::<Piece, PieceParseError>(p),
{
    let s = piece_text(p);
    match p {
        Piece::Empty => {},
        Piece::Wall => {},
        Piece::Normal(c, shape) => {
            assert(s.len() == color_text(c).len() + 1);
            assert(s[s.len() - 1] == shape);
            match c {
                Color::Turn(t) => {
                    assert(s[0] == letter_of_turn(t));
                },
                Color::Dead(None) => {
                    assert(s[0] == 'd');
                    assert(s[1] == shape);
                },
                Color::Dead(Some(t)) => {
                    assert(s[0] == 'd');
                    assert(s[1] == letter_of_turn(t));
                },
            }
        },
    }
}

/// The player that a lower-case colour letter stands for.
pub fn read_turn_letter(c: char) -> (r: Option<TurnColor>)
    ensures
        r == turn_of_letter(c),
{
    if c == 'r' {
        Some(TurnColor::Red)
    } else if c == 'b' {
        Some(TurnColor::Blue)
    } else if c == 'y' {
        Some(TurnColor::Yellow)
    } else if c == 'g' {
        Some(TurnColor::Green)
    } else {
        None
    }
}

/// Reads a piece from its token.
pub fn read_piece(s: &[char]) -> (r: Result<Piece, PieceParseError>)
    ensures
        r == parse_piece(s@),
{
    let len = s.len();
    if len == 1 && s[0] == 'X' {
        assert(s@ =~= seq!['X']);
        return Ok(Piece::Wall);
    }
    if len == 0 {
        return Err(PieceParseError::BadSize(0));
    }
    let first = s[0];
    let remembered: Option<TurnColor> = if first == 'd' && len >= 2 {
        read_turn_letter(s[1])
    } else {
        None
    };
    let color = if first == 'd' {
        Color::Dead(remembered)
    } else {
        match read_turn_letter(first) {
            Some(t) => Color::Turn(t),
            None => {
                return Err(PieceParseError::BadColor(first));
            },
        }
    };
    let prefix: usize = if remembered.is_some() {
        2
    } else {
        1
    };
    if len == prefix + 1 {
        Ok(Piece::Normal(color, s[prefix]))
    } else {
        Err(PieceParseError::BadSize(len))
    }
}

/// Appends the lower-case letter of a player to `out`.
pub fn write_turn_letter(out: &mut Vec<char>, t: TurnColor)
    ensures
        final(out)@ == old(out)@.push(letter_of_turn(t)),
{
    let c = match t {
        TurnColor::Red => 'r',
        TurnColor::Blue => 'b',
        TurnColor::Yellow => 'y',
        TurnColor::Green => 'g',
    };
    out.push(c);
}

/// Appends the prefix of a colour to `out`.
pub fn write_color(out: &mut Vec<char>, c: Color)
    ensures
        final(out)@ == old(out)@ + color_text(c),
{
    match c {
        Color::Turn(t) => {
            write_turn_letter(out, t);
        },
        Color::Dead(None) => {
            out.push('d');
        },
        Color::Dead(Some(t)) => {
            out.push('d');
            write_turn_letter(out, t);
        },
    }
    assert(out@ =~= old(out)@ + color_text(c));
}

/// Appends the token of a piece to `out`; nothing for an empty square.
pub fn write_piece(out: &mut Vec<char>, p: &Piece)
    ensures
        final(out)@ == old(out)@ + piece_text(*p),
{
    match p {
        Piece::Empty => {},
        Piece::Wall => {
            out.push('X');
        },
        Piece::Normal(c, shape) => {
            write_color(out, *c);
            out.push(*shape);
        },
    }
    assert(out@ =~= old(out)@ + piece_text(*p));
}

/// Appends the upper-case letter of a player to `out`.
pub fn write_turn(out: &mut Vec<char>, t: TurnColor)
    ensures
        final(out)@ == old(out)@ + turn_text(t),
{
    let c = match t {
        TurnColor::Red => 'R',
        TurnColor::Blue => 'B',
        TurnColor::Yellow => 'Y',
        TurnColor::Green => 'G',
    };
    out.push(c);
    assert(out@ =~= old(out)@ + turn_text(t));
}

impl TurnColor {
    /// The upper-case letter of the player: `R`, `B`, `Y` or `G`.
    pub fn to_string(&self) -> (r: String)
        ensures
            r@ == turn_text(*self),
    {
        let mut out: Vec<char> = Vec::new();
        write_turn(&mut out, *self);
        string_of(out.as_slice())
    }
}

impl Color {
    /// The prefix that names the colour in front of a piece.
    pub fn to_string(&self) -> (r: String)
        ensures
            r@ == color_text(*self),
    {
        let mut out: Vec<char> = Vec::new();
        write_color(&mut out, *self);
        string_of(out.as_slice())
    }
}

impl FromStr for Piece {
    type Err = PieceParseError;

    /// Reads a piece from its token.
    fn from_str(small: &str) -> (r: Result<Piece, PieceParseError>)
        ensures
            r == parse_piece(small@),
    {
        let chars = chars_of(small);
        read_piece(chars.as_slice())
    }
}

impl Piece {
    /// The token of the piece; the empty string for an empty square.
    pub fn to_string(&self) -> (r: String)
        ensures
            r@ == piece_text(*self),
    {
        let mut out: Vec<char> = Vec::new();
        write_piece(&mut out, self);
        string_of(out.as_slice())
    }
}

} // verus!
