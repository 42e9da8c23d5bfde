//! The codec of a whole board: the metadata, the last dash, the grid.
//!
//! The standard starting position is written
//! ```text
//!     R-0,0,0,0-1,1,1,1-1,1,1,1-0,0,0,0-0-
//!     3,yR,yN,yB,yK,yQ,yB,yN,yR,3/
//!     3,yP,yP,yP,yP,yP,yP,yP,yP,3/
//!     14/
//!     bR,bP,10,gP,gR/
//!     bN,bP,10,gP,gN/
//!     bB,bP,10,gP,gB/
//!     bK,bP,10,gP,gQ/
//!     bQ,bP,10,gP,gK/
//!     bB,bP,10,gP,gB/
//!     bN,bP,10,gP,gN/
//!     bR,bP,10,gP,gR/
//!     14/
//!     3,rP,rP,rP,rP,rP,rP,rP,rP,3/
//!     3,rR,rN,rB,rQ,rK,rB,rN,rR,3
//! ```
//! without the indentation.

use crate::grid::{grid_text, parse_grid, read_grid, write_grid, BoardFault, BoardParseError};
use crate::meta::{
    block_text, header_sections, header_text, parse_header, read_header, write_bits, write_points,
};
use crate::number::push_decimal;
use crate::piece::write_turn;
use crate::tag_text::{extra_writable, write_extra};
use crate::text::{chars_of, join_text, last_index, push_chars, rfind_char, string_of, texts};
use crate::types::{Board, BoardView};
use std::str::FromStr;
use vstd::prelude::*;
use vstd::slice::slice_subrange;

verus! {

/// The model of what reading a board gives.
pub open spec fn board_outcome(r: Result<Board, BoardParseError>) -> Result<BoardView, BoardFault> {
    match r {
        Ok(b) => Ok(b@),
        Err(e) => Err(e@),
    }
}

/// The board that a text states.
///
/// The last dash of the text parts the metadata from the grid. A fault of
/// the metadata is reported as `BadMetaData`, and before any fault of the grid.
pub open spec fn parse_board(s: Seq<char>) -> Result<BoardView, BoardFault> {
    let dash = last_index(s, '-');
    if dash < 0 {
        Err(BoardFault::NoDash)
    } else {
        match parse_header(s.take(dash)) {
            Err(e) => Err(BoardFault::BadMetaData(e)),
            Ok(b) => match parse_grid(s.skip(dash + 1)) {
                Err(e) => Err(e),
                Ok(grid) => Ok(BoardView { board: grid, ..b }),
            },
        }
    }
}

/// The text of a board: the metadata, then the grid.
pub open spec fn board_text(b: BoardView) -> Seq<char> {
    header_text(b) + grid_text(b.board)
}

/// Whether the board can be written: every square that its options name
/// lies on the board.
pub open spec fn board_writable(b: BoardView) -> bool {
    extra_writable(b.extra_options)
}

/// Reads a board.
pub fn read_board(s: &[char]) -> (r: Result<Board, BoardParseError>)
    ensures
        board_outcome(r) == parse_board(s@),
{
    let n = s.len();
    let dash = match rfind_char(s, '-') {
        Some(dash) => dash,
        None => {
            return Err(BoardParseError::NoDash);
        },
    };
    let meta = slice_subrange(s, 0, dash);
    let body = slice_subrange(s, dash + 1, n);
    assert(meta@ == s@.take(dash as int));
    assert(body@ == s@.skip(dash + 1));
    let mut board = match read_header(meta) {
        Ok(board) => board,
        Err(e) => {
            return Err(BoardParseError::BadMetaData(e));
        },
    };
    let grid = match read_grid(body) {
        Ok(grid) => grid,
        Err(e) => {
            return Err(e);
        },
    };
    board.board = grid;
    Ok(board)
}

/// Appends the metadata of a board, each section followed by a dash, if
/// every square that its options name lies on the board, and says whether it did.
pub fn write_header(out: &mut Vec<char>, board: &Board) -> (ok: bool)
    ensures
        ok == board_writable(board@),
        ok ==> final(out)@ == old(out)@ + header_text(board@),
        !ok ==> final(out)@ == old(out)@,
{
    let mut sections: Vec<Vec<char>> = Vec::new();
    let mut turn: Vec<char> = Vec::new();
    write_turn(&mut turn, board.turn);
    let mut dead: Vec<char> = Vec::new();
    write_bits(&mut dead, &board.dead);
    let mut king: Vec<char> = Vec::new();
    write_bits(&mut king, &board.castling_king);
    let mut queen: Vec<char> = Vec::new();
    write_bits(&mut queen, &board.castling_queen);
    let mut points: Vec<char> = Vec::new();
    write_points(&mut points, &board.points);
    let mut ply: Vec<char> = Vec::new();
    push_decimal(&mut ply, board.draw_ply as u64);
    let mut block: Vec<char> = Vec::new();
    block.push('{');
    if !write_extra(&mut block, &board.extra_options) {
        return false;
    }
    block.push('}');
    assert(block@ =~= block_text(board@.extra_options));
    let ghost six = seq![turn@, dead@, king@, queen@, points@, ply@];
    let ghost block_view = block@;
    sections.push(turn);
    sections.push(dead);
    sections.push(king);
    sections.push(queen);
    sections.push(points);
    sections.push(ply);
    assert(texts(sections@) =~= six);
    if !board.extra_options.is_default() {
        sections.push(block);
        assert(texts(sections@) =~= six.push(block_view));
    }
    assert(texts(sections@) =~= header_sections(board@));
    let joined = join_text(&sections, '-');
    push_chars(out, joined.as_slice());
    out.push('-');
    assert(out@ =~= old(out)@ + header_text(board@));
    true
}

/// Appends the text of a board if every square that its options name lies on
/// the board, and says whether it did.
pub fn write_board(out: &mut Vec<char>, board: &Board) -> (ok: bool)
    ensures
        ok == board_writable(board@),
        ok ==> final(out)@ == old(out)@ + board_text(board@),
        !ok ==> final(out)@ == old(out)@,
{
    if !write_header(out, board) {
        return false;
    }
    write_grid(out, &board.board);
    assert(out@ =~= old(out)@ + board_text(board@));
    true
}

impl FromStr for Board {
    type Err = BoardParseError;

    /// Reads a board from its text.
    fn from_str(fen: &str) -> (r: Result<Board, BoardParseError>)
        ensures
            board_outcome(r) == parse_board(fen@),
    {
        let chars = chars_of(fen);
        read_board(chars.as_slice())
    }
}

impl Board {
    /// The text of the board, or `None` if its options name a square that
    /// is not on the board.
    pub fn to_string(&self) -> (r: Option<String>)
        ensures
            r is Some <==> board_writable(self@),
            r is Some ==> r->0@ == board_text(self@),
    {
        let mut out: Vec<char> = Vec::new();
        if write_board(&mut out, self) {
            Some(string_of(out.as_slice()))
        } else {
            None
        }
    }
}

} // verus!
