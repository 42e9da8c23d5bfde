//! The codec of the grid: fourteen rows from rank 14 down to rank 1 with `/`
//! between them, each row a list of pieces and of run lengths of empty
//! squares with commas between them.

use crate::number::{
    decimal, digit_of, is_digit, parse_number, parse_usize, push_decimal, NumberParseError,
};
use crate::piece::{parse_piece, piece_text, read_piece, write_piece, PieceParseError};
use crate::tags::{MetaDataFault, MetaDataParseError};
use crate::text::{join, join_text, push_chars, split, split_text, texts, trim, trim_text, views};
use crate::types::{grid_view, new_grid, Piece};
use vstd::prelude::*;

verus! {

/// In what way a grid has the wrong size.
#[derive(Clone, Copy, Debug, PartialEq, Eq)]
pub enum BoardSize {
    TooManyColumns,
    TooFewColumns,
    TooManyRows,
    TooFewRows,
}

/// Why a piece of text is not a board.
///
/// Rows and columns count from zero; row 0 is rank 1, the last line of the text.
#[derive(Clone, Debug, PartialEq, Eq)]
pub enum BoardParseError {
    /// The text has no dash, so no metadata.
    NoDash,
    /// The metadata in front of the grid is faulty.
    BadMetaData(MetaDataParseError),
    /// The grid has the wrong size. Too many or too few columns come with the
    /// row that has them, too few rows with the number of rows that are missing.
    BadBoardSize(BoardSize, usize),
    /// The segment at this row and column is empty.
    EmptySegment(usize, usize),
    /// The segment at this row and column starts with a digit and is no number.
    BadSegmentNumber(usize, usize, NumberParseError),
    /// The segment at this row and column names no piece.
    BadSegmentPiece(usize, usize, PieceParseError),
}

/// The mathematical model of [`BoardParseError`].
pub enum BoardFault {
    NoDash,
    BadMetaData(MetaDataFault),
    BadBoardSize(BoardSize, usize),
    EmptySegment(usize, usize),
    BadSegmentNumber(usize, usize, NumberParseError),
    BadSegmentPiece(usize, usize, PieceParseError),
}

impl View for BoardParseError {
    type V = BoardFault;

    open spec fn view(&self) -> BoardFault {
        match self {
            BoardParseError::NoDash => BoardFault::NoDash,
            BoardParseError::BadMetaData(e) => BoardFault::BadMetaData(e@),
            BoardParseError::BadBoardSize(size, row) => BoardFault::BadBoardSize(*size, *row),
            BoardParseError::EmptySegment(row, col) => BoardFault::EmptySegment(*row, *col),
            BoardParseError::BadSegmentNumber(row, col, e) => BoardFault::BadSegmentNumber(
                *row,
                *col,
                *e,
            ),
            BoardParseError::BadSegmentPiece(row, col, e) => BoardFault::BadSegmentPiece(
                *row,
                *col,
                *e,
            ),
        }
    }
}

/// `n` empty squares.
pub open spec fn empties(n: nat) -> Seq<Piece> {
    Seq::new(n, |i: int| Piece::Empty)
}

/// The squares of a row after one more segment, `cells` being the squares
/// that the segments before it gave.
///
/// A segment is read without the whitespace around it. One that starts with
/// a digit is a number of empty squares, any other is one piece. A segment in
/// a row that is full, and a run that does not fit the row, is one column too many.
pub open spec fn parse_segment(seg: Seq<char>, row: usize, cells: Seq<Piece>) -> Result<
    Seq<Piece>,
    BoardFault,
> {
    let t = trim(seg);
    let col = cells.len() as usize;
    if cells.len() >= 14 {
        Err(BoardFault::BadBoardSize(BoardSize::TooManyColumns, row))
    } else if t.len() == 0 {
        Err(BoardFault::EmptySegment(row, col))
    } else if is_digit(t[0]) {
        match parse_number(t, usize::MAX as nat) {
            Err(e) => Err(BoardFault::BadSegmentNumber(row, col, e)),
            Ok(n) => if n > 14 - cells.len() {
                Err(BoardFault::BadBoardSize(BoardSize::TooManyColumns, row))
            } else {
                Ok(cells + empties(n))
            },
        }
    } else {
        match parse_piece(t) {
            Err(e) => Err(BoardFault::BadSegmentPiece(row, col, e)),
            Ok(p) => Ok(cells.push(p)),
        }
    }
}

/// The squares of a row after the segments `segs`, read from the left.
pub open spec fn parse_segments(segs: Seq<Seq<char>>, row: usize, cells: Seq<Piece>) -> Result<
    Seq<Piece>,
    BoardFault,
>
    decreases segs.len(),
{
    if segs.len() == 0 {
        Ok(cells)
    } else {
        match parse_segment(segs[0], row, cells) {
            Err(e) => Err(e),
            Ok(more) => parse_segments(segs.skip(1), row, more),
        }
    }
}

/// The fourteen squares of the row that a line states.
pub open spec fn parse_row(line: Seq<char>, row: usize) -> Result<Seq<Piece>, BoardFault> {
    match parse_segments(split(line, ','), row, Seq::empty()) {
        Err(e) => Err(e),
        Ok(cells) => if cells.len() < 14 {
            Err(BoardFault::BadBoardSize(BoardSize::TooFewColumns, row))
        } else {
            Ok(cells)
        },
    }
}

/// The grid that the rows `done`, rank 14 first, make: rank 1 first.
pub open spec fn stack_rows(done: Seq<Seq<Piece>>) -> Seq<Seq<Piece>> {
    Seq::new(14, |r: int| done[13 - r])
}

/// The grid after the lines `lines`, `done` being the rows that the lines
/// before them gave, rank 14 first.
pub open spec fn parse_rows(lines: Seq<Seq<char>>, done: Seq<Seq<Piece>>) -> Result<
    Seq<Seq<Piece>>,
    BoardFault,
>
    decreases lines.len(),
{
    if lines.len() == 0 {
        if done.len() < 14 {
            Err(BoardFault::BadBoardSize(BoardSize::TooFewRows, (14 - done.len()) as usize))
        } else {
            Ok(stack_rows(done))
        }
    } else if done.len() >= 14 {
        Err(BoardFault::BadBoardSize(BoardSize::TooManyRows, 0))
    } else {
        match parse_row(lines[0], (13 - done.len()) as usize) {
            Err(e) => Err(e),
            Ok(cells) => parse_rows(lines.skip(1), done.push(cells)),
        }
    }
}

/// The grid that the text behind the metadata states: fourteen rows of
/// fourteen squares, rank 1 first.
pub open spec fn parse_grid(s: Seq<char>) -> Result<Seq<Seq<Piece>>, BoardFault> {
    parse_rows(split(s, '/'), Seq::empty())
}

/// How many squares at the start of `cells` are empty.
pub open spec fn empty_run(cells: Seq<Piece>) -> nat
    decreases cells.len(),
{
    if cells.len() == 0 || !(cells[0] is Empty) {
        0
    } else {
        (1 + empty_run(cells.skip(1))) as nat
    }
}

/// The tokens of a row: a piece for each square that is not empty, and for
/// each longest run of empty squares its length.
pub open spec fn row_tokens(cells: Seq<Piece>) -> Seq<Seq<char>>
    decreases cells.len(),
    via row_tokens_decreases
{
    if cells.len() == 0 {
        Seq::empty()
    } else if cells[0] is Empty {
        let n = empty_run(cells);
        seq![decimal(n)] + row_tokens(cells.skip(n as int))
    } else {
        seq![piece_text(cells[0])] + row_tokens(cells.skip(1))
    }
}

#[via_fn]
proof fn row_tokens_decreases(cells: Seq<Piece>) {
    if cells.len() > 0 && cells[0] is Empty {
        lemma_empty_run(cells);
    }
}

/// The tokens of a row with commas between them.
pub open spec fn row_text(cells: Seq<Piece>) -> Seq<char> {
    join(row_tokens(cells), ',')
}

/// The lines of a grid, rank 14 first: a newline, then the row.
pub open spec fn grid_lines(grid: Seq<Seq<Piece>>) -> Seq<Seq<char>> {
    Seq::new(14, |i: int| seq!['\n'] + row_text(grid[13 - i]))
}

/// The text of a grid behind the metadata: every row on a new line, rank 14
/// first, with `/` at the end of every line but the last.
pub open spec fn grid_text(grid: Seq<Seq<Piece>>) -> Seq<char> {
    join(grid_lines(grid), '/')
}

/// What `empty_run` returns: a length within bounds, with empty squares
/// before it and a square that is not empty at it, if there is one.
pub proof fn lemma_empty_run(cells: Seq<Piece>)
    ensures
        empty_run(cells) <= cells.len(),
        forall|j: int| 0 <= j < empty_run(cells) ==> cells[j] is Empty,
        empty_run(cells) < cells.len() ==> !(cells[empty_run(cells) as int] is Empty),
        cells.len() > 0 && cells[0] is Empty ==> empty_run(cells) >= 1,
    decreases cells.len(),
{
    if !(cells.len() == 0 || !(cells[0] is Empty)) {
        let t = cells.skip(1);
        lemma_empty_run(t);
        assert forall|j: int| 0 <= j < empty_run(cells) implies cells[j] is Empty by {
            if j > 0 {
                assert(t[j - 1] == cells[j]);
            }
        }
    }
}

/// `k` is the length of the empty run once the squares before it are empty
/// and the square at it is not.
pub proof fn lemma_empty_run_is(cells: Seq<Piece>, k: int)
    requires
        0 <= k <= cells.len(),
        forall|j: int| 0 <= j < k ==> cells[j] is Empty,
        k < cells.len() ==> !(cells[k] is Empty),
    ensures
        empty_run(cells) == k,
    decreases cells.len(),
{
    if k > 0 {
        let t = cells.skip(1);
        assert forall|j: int| 0 <= j < k - 1 implies t[j] is Empty by {
            assert(t[j] == cells[j + 1]);
        }
        lemma_empty_run_is(t, k - 1);
    }
}

/// The model of what reading a row gives.
pub open spec fn row_outcome(r: Result<[Piece; 14], BoardParseError>) -> Result<
    Seq<Piece>,
    BoardFault,
> {
    match r {
        Ok(cells) => Ok(cells@),
        Err(e) => Err(e@),
    }
}

/// The model of what reading a grid gives.
pub open spec fn grid_outcome(r: Result<[[Piece; 14]; 14], BoardParseError>) -> Result<
    Seq<Seq<Piece>>,
    BoardFault,
> {
    match r {
        Ok(grid) => Ok(grid_view(grid)),
        Err(e) => Err(e@),
    }
}

/// Reads the fourteen squares of a row from its line.
pub fn read_row(line: &[char], row: usize) -> (r: Result<[Piece; 14], BoardParseError>)
    ensures
        row_outcome(r) == parse_row(line@, row),
{
    let segs = split_text(line, ',');
    let e = Piece::Empty;
    let mut cells: [Piece; 14] = [e, e, e, e, e, e, e, e, e, e, e, e, e, e];
    let mut col: usize = 0;
    let mut k: usize = 0;
    assert(views(segs@).skip(0) =~= views(segs@));
    assert(cells@.take(0) =~= Seq::<Piece>::empty());
    while k < segs.len()
        invariant
            k <= segs@.len(),
            col <= 14,
            views(segs@) == split(line@, ','),
            forall|c: int| col <= c < 14 ==> cells@[c] == Piece::Empty,
            parse_segments(views(segs@).skip(k as int), row, cells@.take(col as int))
                == parse_segments(split(line@, ','), row, Seq::empty()),
        decreases segs@.len() - k,
    {
        let ghost all = views(segs@);
        let ghost before = cells@.take(col as int);
        assert(all.skip(k as int)[0] == segs@[k as int]@);
        assert(all.skip(k as int).skip(1) =~= all.skip(k + 1));
        if col >= 14 {
            return Err(BoardParseError::BadBoardSize(BoardSize::TooManyColumns, row));
        }
        let t = trim_text(segs[k]);
        if t.len() == 0 {
            return Err(BoardParseError::EmptySegment(row, col));
        }
        match digit_of(t[0]) {
            Some(_) => {
                match parse_usize(t) {
                    Err(e) => {
                        return Err(BoardParseError::BadSegmentNumber(row, col, e));
                    },
                    Ok(n) => {
                        if n > 14 - col {
                            return Err(
                                BoardParseError::BadBoardSize(BoardSize::TooManyColumns, row),
                            );
                        }
                        assert(cells@.take(col + n) =~= before + empties(n as nat));
                        col = col + n;
                    },
                }
            },
            None => {
                match read_piece(t) {
                    Err(e) => {
                        return Err(BoardParseError::BadSegmentPiece(row, col, e));
                    },
                    Ok(p) => {
                        cells[col] = p;
                        assert(cells@.take(col + 1) =~= before.push(p));
                        col = col + 1;
                    },
                }
            },
        }
        k += 1;
    }
    if col < 14 {
        return Err(BoardParseError::BadBoardSize(BoardSize::TooFewColumns, row));
    }
    assert(cells@.take(14) =~= cells@);
    Ok(cells)
}

/// Reads a grid from the text behind the metadata.
pub fn read_grid(s: &[char]) -> (r: Result<[[Piece; 14]; 14], BoardParseError>)
    ensures
        grid_outcome(r) == parse_grid(s@),
{
    let lines = split_text(s, '/');
    let mut grid = new_grid();
    let mut row: usize = 14;
    let mut i: usize = 0;
    let ghost mut done: Seq<Seq<Piece>> = Seq::empty();
    assert(views(lines@).skip(0) =~= views(lines@));
    while i < lines.len()
        invariant
            i <= lines@.len(),
            row <= 14,
            done.len() == 14 - row,
            views(lines@) == split(s@, '/'),
            forall|j: int| 0 <= j < done.len() ==> done[j] == grid_view(grid)[13 - j],
            parse_rows(views(lines@).skip(i as int), done) == parse_grid(s@),
        decreases lines@.len() - i,
    {
        let ghost all = views(lines@);
        assert(all.skip(i as int)[0] == lines@[i as int]@);
        assert(all.skip(i as int).skip(1) =~= all.skip(i + 1));
        if row == 0 {
            return Err(BoardParseError::BadBoardSize(BoardSize::TooManyRows, 0));
        }
        row = row - 1;
        let cells = match read_row(lines[i], row) {
            Ok(cells) => cells,
            Err(e) => {
                return Err(e);
            },
        };
        grid[row] = cells;
        proof {
            let grown = done.push(cells@);
            assert forall|j: int| 0 <= j < grown.len() implies grown[j] == grid_view(grid)[13
                - j] by {}
            done = grown;
        }
        i += 1;
    }
    if row != 0 {
        return Err(BoardParseError::BadBoardSize(BoardSize::TooFewRows, row));
    }
    assert(grid_view(grid) =~= stack_rows(done));
    Ok(grid)
}

/// How many squares of `cells` from `from` on are empty.
fn count_empty(cells: &[Piece; 14], from: usize) -> (n: usize)
    requires
        from <= 14,
    ensures
        n == empty_run(cells@.skip(from as int)),
        from + n <= 14,
{
    let mut to: usize = from;
    while to < 14 && cells[to].is_empty()
        invariant
            from <= to <= 14,
            forall|j: int| from <= j < to ==> cells@[j] is Empty,
        decreases 14 - to,
    {
        to += 1;
    }
    proof {
        lemma_empty_run_is(cells@.skip(from as int), to - from);
    }
    to - from
}

/// Appends the tokens of a row with commas between them.
pub fn write_row(out: &mut Vec<char>, cells: &[Piece; 14])
    ensures
        final(out)@ == old(out)@ + row_text(cells@),
{
    let mut tokens: Vec<Vec<char>> = Vec::new();
    let mut c: usize = 0;
    assert(cells@.skip(0) =~= cells@);
    assert(texts(tokens@) + row_tokens(cells@) =~= row_tokens(cells@));
    while c < 14
        invariant
            c <= 14,
            texts(tokens@) + row_tokens(cells@.skip(c as int)) == row_tokens(cells@),
        decreases 14 - c,
    {
        let ghost rest = cells@.skip(c as int);
        let ghost before = texts(tokens@);
        let mut token: Vec<char> = Vec::new();
        let step: usize = if cells[c].is_empty() {
            let n = count_empty(cells, c);
            proof {
                lemma_empty_run(rest);
            }
            push_decimal(&mut token, n as u64);
            n
        } else {
            write_piece(&mut token, &cells[c]);
            1
        };
        assert(token@ =~= row_tokens(rest)[0]);
        assert(rest.skip(step as int) =~= cells@.skip(c + step));
        tokens.push(token);
        assert(texts(tokens@) =~= before.push(token@));
        assert(before.push(token@) + row_tokens(rest.skip(step as int)) =~= before + row_tokens(
            rest,
        ));
        c = c + step;
    }
    assert(row_tokens(cells@.skip(14)) =~= Seq::<Seq<char>>::empty());
    assert(texts(tokens@) =~= row_tokens(cells@));
    let joined = join_text(&tokens, ',');
    push_chars(out, joined.as_slice());
}

/// Appends the text of a grid: every row on a new line, rank 14 first, with
/// `/` at the end of every line but the last.
pub fn write_grid(out: &mut Vec<char>, grid: &[[Piece; 14]; 14])
    ensures
        final(out)@ == old(out)@ + grid_text(grid_view(*grid)),
{
    let mut lines: Vec<Vec<char>> = Vec::new();
    let mut i: usize = 0;
    while i < 14
        invariant
            i <= 14,
            lines@.len() == i,
            forall|j: int| 0 <= j < i ==> lines@[j]@ == grid_lines(grid_view(*grid))[j],
        decreases 14 - i,
    {
        let mut line: Vec<char> = Vec::new();
        line.push('\n');
        write_row(&mut line, &grid[13 - i]);
        assert(line@ =~= seq!['\n'] + row_text(grid_view(*grid)[13 - i]));
        lines.push(line);
        i += 1;
    }
    assert(texts(lines@) =~= grid_lines(grid_view(*grid)));
    let joined = join_text(&lines, '/');
    push_chars(out, joined.as_slice());
}

} // verus!
