//! What each fault says to a reader.

use crate::grid::{BoardFault, BoardParseError, BoardSize};
use crate::number::{decimal, push_decimal, NumberParseError};
use crate::piece::PieceParseError;
use crate::position::PositionParseError;
use crate::tags::{MetaDataFault, MetaDataParseError};
use crate::text::{chars_of, push_chars, push_text, string_of};
use vstd::prelude::*;

verus! {

/// What a fault of a number says.
pub open spec fn number_fault_text(e: NumberParseError) -> Seq<char> {
    match e {
        NumberParseError::Empty => "cannot parse integer from empty string"@,
        NumberParseError::InvalidDigit => "invalid digit found in string"@,
        NumberParseError::PosOverflow => "number too large to fit in target type"@,
    }
}

/// What a fault of a square says.
pub open spec fn position_fault_text(e: PositionParseError) -> Seq<char> {
    match e {
        PositionParseError::ColumnInvalid(c) => "'"@ + seq![c]
            + "' is not a valid column. Valid columns are 'a'-'n'"@,
        PositionParseError::RowInvalid(n) => "'"@ + decimal(n as nat)
            + "' is not a valid row. Valid rows are 1-14"@,
        PositionParseError::BadSize(n) => "All positions are between 2-3 characters long; This position is "@
            + decimal(n as nat) + " characters long"@,
        PositionParseError::RowNotNumber(x) => "Row failed to parse as a number because "@
            + number_fault_text(x),
    }
}

/// What a fault of a piece says.
pub open spec fn piece_fault_text(e: PieceParseError) -> Seq<char> {
    match e {
        PieceParseError::BadColor(c) => "Bad Color '"@ + seq![c]
            + "'. Only 'r', 'b', 'y', 'g', and 'd' are valid colors."@,
        PieceParseError::BadSize(n) => "Bad Size "@ + decimal(n as nat)
            + ". Pieces like \"X\" , \"rK\" or \"drK\" are the only valid types. Longer strings are generally invalid and empty string is purposly left out."@,
    }
}

/// What a fault of the metadata says.
pub open spec fn meta_fault_text(e: MetaDataFault) -> Seq<char> {
    match e {
        MetaDataFault::BadDash => "There should be either 6 or 7 dashes in the metadata"@,
        MetaDataFault::BadCurly => "There should be only two curly braces and they should only be present if there are tagged values"@,
        MetaDataFault::BadQuote => "All tags should be surrounded by single quotes"@,
        MetaDataFault::BadColon => "Colons should separate tag keys and values"@,
        MetaDataFault::BadParen => "Parens should be balanced and only occur within "@,
        MetaDataFault::BadColor => "Only 'R', 'G', 'Y', or 'B' are valid turn colors"@,
        MetaDataFault::BadComma => "Commas should separate arrays and extra tags"@,
        MetaDataFault::RepeatedTag => "Some tag occurred twice"@,
        MetaDataFault::BadBoolean => "Only true and false are valid boolean values"@,
        MetaDataFault::UnknownTag(label) => "Tag '"@ + label + "' is not expected"@,
        MetaDataFault::BadPosition(x) => "Somewhere a Position was expected it failed to parse because of "@
            + position_fault_text(x),
        MetaDataFault::BadNumber(x) => "Somewhere a number was expected it failed to parse becauses of "@
            + number_fault_text(x),
    }
}

/// Where a segment stands: `(row,col)`.
pub open spec fn place_text(row: usize, col: usize) -> Seq<char> {
    "("@ + decimal(row as nat) + ","@ + decimal(col as nat) + ")"@
}

/// What a fault of a board says.
pub open spec fn board_fault_text(e: BoardFault) -> Seq<char> {
    match e {
        BoardFault::NoDash => "No '-' was found in the fen. Fen4's should start with metadata about castling, turn, and more."@,
        BoardFault::BadMetaData(x) => "Something went wrong with metadata parsing: "@
            + meta_fault_text(x),
        BoardFault::BadBoardSize(BoardSize::TooManyColumns, row) => "Too many columns in row "@
            + decimal(row as nat) + "."@,
        BoardFault::BadBoardSize(BoardSize::TooFewColumns, row) => "Not enough columns in row "@
            + decimal(row as nat) + "."@,
        BoardFault::BadBoardSize(BoardSize::TooManyRows, _) => "Too many rows overall. Make sure there is not a leading or trailing '/'"@,
        BoardFault::BadBoardSize(BoardSize::TooFewRows, row) => decimal(row as nat)
            + " too few rows overall. Make sure there is not a missing row."@,
        BoardFault::EmptySegment(row, col) => "Segment at "@ + place_text(row, col)
            + " is empty which is not valid."@,
        BoardFault::BadSegmentNumber(row, col, x) => "Segment at "@ + place_text(row, col)
            + " starts with a digit but cannot be parsed as a number because of "@
            + number_fault_text(x),
        BoardFault::BadSegmentPiece(row, col, x) => "Segment at "@ + place_text(row, col)
            + " cannot be parsed as piece because of "@ + piece_fault_text(x),
    }
}

/// Appends what a fault of a number says.
pub fn write_number_fault(out: &mut Vec<char>, e: &NumberParseError)
    ensures
        final(out)@ == old(out)@ + number_fault_text(*e),
{
    match e {
        NumberParseError::Empty => push_text(out, "cannot parse integer from empty string"),
        NumberParseError::InvalidDigit => push_text(out, "invalid digit found in string"),
        NumberParseError::PosOverflow => push_text(out, "number too large to fit in target type"),
    }
}

/// Appends what a fault of a square says.
pub fn write_position_fault(out: &mut Vec<char>, e: &PositionParseError)
    ensures
        final(out)@ == old(out)@ + position_fault_text(*e),
{
    match e {
        PositionParseError::ColumnInvalid(c) => {
            push_text(out, "'");
            out.push(*c);
            push_text(out, "' is not a valid column. Valid columns are 'a'-'n'");
        },
        PositionParseError::RowInvalid(n) => {
            push_text(out, "'");
            push_decimal(out, *n as u64);
            push_text(out, "' is not a valid row. Valid rows are 1-14");
        },
        PositionParseError::BadSize(n) => {
            push_text(
                out,
                "All positions are between 2-3 characters long; This position is ",
            );
            push_decimal(out, *n as u64);
            push_text(out, " characters long");
        },
        PositionParseError::RowNotNumber(x) => {
            push_text(out, "Row failed to parse as a number because ");
            write_number_fault(out, x);
        },
    }
    assert(out@ =~= old(out)@ + position_fault_text(*e));
}

/// Appends what a fault of a piece says.
pub fn write_piece_fault(out: &mut Vec<char>, e: &PieceParseError)
    ensures
        final(out)@ == old(out)@ + piece_fault_text(*e),
{
    match e {
        PieceParseError::BadColor(c) => {
            push_text(out, "Bad Color '");
            out.push(*c);
            push_text(out, "'. Only 'r', 'b', 'y', 'g', and 'd' are valid colors.");
        },
        PieceParseError::BadSize(n) => {
            push_text(out, "Bad Size ");
            push_decimal(out, *n as u64);
            push_text(
                out,
                ". Pieces like \"X\" , \"rK\" or \"drK\" are the only valid types. Longer strings are generally invalid and empty string is purposly left out.",
            );
        },
    }
    assert(out@ =~= old(out)@ + piece_fault_text(*e));
}

/// Appends what a fault of the metadata says.
pub fn write_meta_fault(out: &mut Vec<char>, e: &MetaDataParseError)
    ensures
        final(out)@ == old(out)@ + meta_fault_text(e@),
{
    match e {
        MetaDataParseError::BadDash => push_text(
            out,
            "There should be either 6 or 7 dashes in the metadata",
        ),
        MetaDataParseError::BadCurly => push_text(
            out,
            "There should be only two curly braces and they should only be present if there are tagged values",
        ),
        MetaDataParseError::BadQuote => push_text(
            out,
            "All tags should be surrounded by single quotes",
        ),
        MetaDataParseError::BadColon => push_text(out, "Colons should separate tag keys and values"),
        MetaDataParseError::BadParen => push_text(
            out,
            "Parens should be balanced and only occur within ",
        ),
        MetaDataParseError::BadColor => push_text(
            out,
            "Only 'R', 'G', 'Y', or 'B' are valid turn colors",
        ),
        MetaDataParseError::BadComma => push_text(
            out,
            "Commas should separate arrays and extra tags",
        ),
        MetaDataParseError::RepeatedTag => push_text(out, "Some tag occurred twice"),
        MetaDataParseError::BadBoolean => push_text(
            out,
            "Only true and false are valid boolean values",
        ),
        MetaDataParseError::UnknownTag(label) => {
            push_text(out, "Tag '");
            let chars = chars_of(label.as_str());
            push_chars(out, chars.as_slice());
            push_text(out, "' is not expected");
        },
        MetaDataParseError::BadPosition(x) => {
            push_text(out, "Somewhere a Position was expected it failed to parse because of ");
            write_position_fault(out, x);
        },
        MetaDataParseError::BadNumber(x) => {
            push_text(out, "Somewhere a number was expected it failed to parse becauses of ");
            write_number_fault(out, x);
        },
    }
    assert(out@ =~= old(out)@ + meta_fault_text(e@));
}

/// Appends where a segment stands.
pub fn write_place(out: &mut Vec<char>, row: usize, col: usize)
    ensures
        final(out)@ == old(out)@ + place_text(row, col),
{
    push_text(out, "(");
    push_decimal(out, row as u64);
    push_text(out, ",");
    push_decimal(out, col as u64);
    push_text(out, ")");
    assert(out@ =~= old(out)@ + place_text(row, col));
}

/// Appends what a fault of a board says.
pub fn write_board_fault(out: &mut Vec<char>, e: &BoardParseError)
    ensures
        final(out)@ == old(out)@ + board_fault_text(e@),
{
    match e {
        BoardParseError::NoDash => push_text(
            out,
            "No '-' was found in the fen. Fen4's should start with metadata about castling, turn, and more.",
        ),
        BoardParseError::BadMetaData(x) => {
            push_text(out, "Something went wrong with metadata parsing: ");
            write_meta_fault(out, x);
        },
        BoardParseError::BadBoardSize(size, row) => match size {
            BoardSize::TooManyColumns => {
                push_text(out, "Too many columns in row ");
                push_decimal(out, *row as u64);
                push_text(out, ".");
            },
            BoardSize::TooFewColumns => {
                push_text(out, "Not enough columns in row ");
                push_decimal(out, *row as u64);
                push_text(out, ".");
            },
            BoardSize::TooManyRows => push_text(
                out,
                "Too many rows overall. Make sure there is not a leading or trailing '/'",
            ),
            BoardSize::TooFewRows => {
                push_decimal(out, *row as u64);
                push_text(out, " too few rows overall. Make sure there is not a missing row.");
            },
        },
        BoardParseError::EmptySegment(row, col) => {
            push_text(out, "Segment at ");
            write_place(out, *row, *col);
            push_text(out, " is empty which is not valid.");
        },
        BoardParseError::BadSegmentNumber(row, col, x) => {
            push_text(out, "Segment at ");
            write_place(out, *row, *col);
            push_text(out, " starts with a digit but cannot be parsed as a number because of ");
            write_number_fault(out, x);
        },
        BoardParseError::BadSegmentPiece(row, col, x) => {
            push_text(out, "Segment at ");
            write_place(out, *row, *col);
            push_text(out, " cannot be parsed as piece because of ");
            write_piece_fault(out, x);
        },
    }
    assert(out@ =~= old(out)@ + board_fault_text(e@));
}

impl NumberParseError {
    /// What the fault says.
    pub fn to_string(&self) -> (r: String)
        ensures
            r@ == number_fault_text(*self),
    {
        let mut out: Vec<char> = Vec::new();
        write_number_fault(&mut out, self);
        string_of(out.as_slice())
    }
}

impl PositionParseError {
    /// What the fault says.
    pub fn to_string(&self) -> (r: String)
        ensures
            r@ == position_fault_text(*self),
    {
        let mut out: Vec<char> = Vec::new();
        write_position_fault(&mut out, self);
        string_of(out.as_slice())
    }
}

impl PieceParseError {
    /// What the fault says.
    pub fn to_string(&self) -> (r: String)
        ensures
            r@ == piece_fault_text(*self),
    {
        let mut out: Vec<char> = Vec::new();
        write_piece_fault(&mut out, self);
        string_of(out.as_slice())
    }
}

impl MetaDataParseError {
    /// What the fault says.
    pub fn to_string(&self) -> (r: String)
        ensures
            r@ == meta_fault_text(self@),
    {
        let mut out: Vec<char> = Vec::new();
        write_meta_fault(&mut out, self);
        string_of(out.as_slice())
    }
}

impl BoardParseError {
    /// What the fault says.
    pub fn to_string(&self) -> (r: String)
        ensures
            r@ == board_fault_text(self@),
    {
        let mut out: Vec<char> = Vec::new();
        write_board_fault(&mut out, self);
        string_of(out.as_slice())
    }
}

} // verus!
