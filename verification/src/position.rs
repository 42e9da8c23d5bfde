//! The codec of squares: a file letter `a` to `n` followed by a rank `1` to `14`.

use crate::number::{decimal, lemma_parse_decimal, parse_number, parse_usize, push_decimal, NumberParseError};
use crate::text::{char_code, chars_of, string_of};
use crate::types::Position;
use std::str::FromStr;
use vstd::prelude::*;
use vstd::slice::slice_subrange;

verus! {

/// Why a piece of text does not name a square.
#[derive(PartialEq, Eq, Clone, Copy, Debug, Hash)]
pub enum PositionParseError {
    /// The first character is not a file letter `a` to `n`.
    ColumnInvalid(char),
    /// The rank is a number, but not one of 1 to 14.
    RowInvalid(usize),
    /// The text does not have two or three characters.
    BadSize(usize),
    /// What follows the file letter is not a number.
    RowNotNumber(NumberParseError),
}

/// The square that `s` names, or the reason why it names none.
pub open spec fn parse_position(s: Seq<char>) -> Result<Position, PositionParseError> {
    if s.len() < 2 || s.len() > 3 {
        Err(PositionParseError::BadSize(s.len() as usize))
    } else if !('a' <= s[0] <= 'n') {
        Err(PositionParseError::ColumnInvalid(s[0]))
    } else {
        match parse_number(s.skip(1), usize::MAX as nat) {
            Err(e) => Err(PositionParseError::RowNotNumber(e)),
            Ok(n) => if n == 0 || n > 14 {
                Err(PositionParseError::RowInvalid(n as usize))
            } else {
                Ok(Position { row: (n - 1) as usize, col: (s[0] as u32 - 'a' as u32) as usize })
            },
        }
    }
}

/// The name of a square of the board: its file letter, then its rank counted from one.
pub open spec fn position_text(p: Position) -> Seq<char> {
    seq![(p.col + 97) as char] + decimal((p.row + 1) as nat)
}

/// A number below a hundred has one or two digits.
pub proof fn lemma_decimal_short(n: nat)
    requires
        n < 100,
    ensures
        decimal(n).len() == if n < 10 {
            1nat
        } else {
            2nat
        },
{
    if n >= 10 {
        assert(decimal(n / 10).len() == 1);
    }
}

/// Every square that is read from text lies on the board.
pub proof fn lemma_parsed_position_on_board(s: Seq<char>)
    requires
        parse_position(s) is Ok,
    ensures
        parse_position(s)->Ok_0.on_board(),
{
}

/// Writing a square of the board and reading the text again gives the square back.
pub proof fn lemma_position_round_trip(p: Position)
    requires
        p.on_board(),
    ensures
        parse_position(position_text(p)) == Ok::<Position, PositionParseError>(p),
{
    let s = position_text(p);
    let n = (p.row + 1) as nat;
    lemma_decimal_short(n);
    lemma_parse_decimal(n, usize::MAX as nat);
    assert(s.skip(1) == decimal(n));
    assert(s[0] == (p.col + 97) as char);
}

impl FromStr for Position {
    type Err = PositionParseError;

    /// Reads a square from its name.
    fn from_str(small: &str) -> (r: Result<Position, PositionParseError>)
        ensures
            r == parse_position(small@),
    {
        let chars = chars_of(small);
        read_position(chars.as_slice())
    }
}

impl Position {
    /// The name of the square, or `None` for a square that is not on the board.
    pub fn to_string(&self) -> (r: Option<String>)
        ensures
            r is Some <==> self.on_board(),
            r is Some ==> r->0@ == position_text(*self),
    {
        let mut out: Vec<char> = Vec::new();
        if write_position(&mut out, self) {
            Some(string_of(out.as_slice()))
        } else {
            None
        }
    }
}

/// Reads a square from its name.
pub fn read_position(s: &[char]) -> (r: Result<Position, PositionParseError>)
    ensures
        r == parse_position(s@),
{
    let len = s.len();
    if len < 2 || len > 3 {
        return Err(PositionParseError::BadSize(len));
    }
    let letter = s[0];
    let code: u32 = char_code(letter);
    if code < 97 || code > 110 {
        return Err(PositionParseError::ColumnInvalid(letter));
    }
    let col: usize = (code - 97) as usize;
    let rest = slice_subrange(s, 1, len);
    assert(rest@ == s@.skip(1));
    match parse_usize(rest) {
        Err(e) => Err(PositionParseError::RowNotNumber(e)),
        Ok(row) => {
            if row == 0 || row > 14 {
                Err(PositionParseError::RowInvalid(row))
            } else {
                Ok(Position { row: row - 1, col })
            }
        },
    }
}

/// Appends the name of `p` to `out` if `p` lies on the board, and says
/// whether it did; `out` is left as it was otherwise.
pub fn write_position(out: &mut Vec<char>, p: &Position) -> (ok: bool)
    ensures
        ok == p.on_board(),
        ok ==> final(out)@ == old(out)@ + position_text(*p),
        !ok ==> final(out)@ == old(out)@,
{
    if p.row >= 14 || p.col >= 14 {
        return false;
    }
    let letter: char = (p.col as u8 + 97) as char;
    out.push(letter);
    push_decimal(out, (p.row + 1) as u64);
    assert(out@ == old(out)@ + position_text(*p));
    true
}

} // verus!
