//! Laws of the grid codec: which grids come out of reading, and that writing
//! such a grid and reading the text again gives the grid back.

use crate::grid::{
    empties, empty_run, grid_lines, grid_text, lemma_empty_run, parse_grid, parse_row, parse_rows,
    parse_segment, parse_segments, row_text, row_tokens, stack_rows, BoardFault, BoardSize,
};
use crate::number::{decimal, is_digit, lemma_decimal_digits, lemma_parse_decimal, parse_number};
use crate::piece::{
    color_text, lemma_piece_round_trip, parse_piece, piece_readable, piece_text, PieceParseError,
};
use crate::splitting::{
    all_lack, lacks, lemma_join_lacks, lemma_lacks_concat, lemma_split_join, lemma_split_parts,
    lemma_trim, lemma_trim_clean,
};
use crate::text::{is_whitespace, join, split, trim};
use crate::types::Piece;
use vstd::prelude::*;

verus! {

/// Whether a character can stand for the shape of a piece in a grid: it is
/// no whitespace and none of the characters that part the text.
pub open spec fn shape_legible(shape: char) -> bool {
    !is_whitespace(shape) && shape != ',' && shape != '/' && shape != '-'
}

/// Whether a square reads back as it was written.
pub open spec fn piece_legible(p: Piece) -> bool {
    match p {
        Piece::Empty => true,
        Piece::Wall => true,
        Piece::Normal(_, shape) => piece_readable(p) && shape_legible(shape),
    }
}

/// Whether every square of `cells` reads back as it was written.
pub open spec fn cells_legible(cells: Seq<Piece>) -> bool {
    forall|i: int| 0 <= i < cells.len() ==> piece_legible(#[trigger] cells[i])
}

/// Whether a grid reads back as it was written: fourteen rows of fourteen
/// squares that do.
pub open spec fn grid_legible(grid: Seq<Seq<Piece>>) -> bool {
    &&& grid.len() == 14
    &&& forall|r: int| 0 <= r < 14 ==> (#[trigger] grid[r]).len() == 14 && cells_legible(grid[r])
}

/// Whether a token stands for itself as a segment of a row of a grid.
pub open spec fn token_clean(t: Seq<char>) -> bool {
    &&& t.len() > 0
    &&& !is_whitespace(t[0])
    &&& !is_whitespace(t.last())
    &&& lacks(t, ',')
    &&& lacks(t, '/')
    &&& lacks(t, '-')
}

/// The digits of a number make a clean token that starts with a digit.
pub proof fn lemma_decimal_token(n: nat)
    ensures
        token_clean(decimal(n)),
        is_digit(decimal(n)[0]),
{
    lemma_decimal_digits(n);
    let t = decimal(n);
    assert(is_digit(t[0]));
    assert(is_digit(t[t.len() - 1]));
    assert forall|i: int| 0 <= i < t.len() implies t[i] != ',' && t[i] != '/' && t[i] != '-' by {
        assert(is_digit(t[i]));
    }
}

/// The token of a piece that reads back is clean and starts with no digit.
pub proof fn lemma_piece_token(p: Piece)
    requires
        piece_legible(p),
        !(p is Empty),
    ensures
        token_clean(piece_text(p)),
        !is_digit(piece_text(p)[0]),
        parse_piece(piece_text(p)) == Ok::<Piece, PieceParseError>(p),
{
    lemma_piece_round_trip(p);
    let t = piece_text(p);
    match p {
        Piece::Empty => {},
        Piece::Wall => {},
        Piece::Normal(c, shape) => {
            let prefix = color_text(c);
            assert(t == prefix.push(shape));
            assert(t.last() == shape);
            assert(t[0] == prefix[0]);
            assert forall|i: int| 0 <= i < t.len() implies t[i] != ',' && t[i] != '/' && t[i]
                != '-' by {
                if i < prefix.len() {
                    assert(t[i] == prefix[i]);
                }
            }
        },
    }
}

/// The tokens of a row whose squares read back are clean, and there is one
/// unless the row has no square.
pub proof fn lemma_row_tokens_clean(cells: Seq<Piece>)
    requires
        cells_legible(cells),
    ensures
        forall|i: int| 0 <= i < row_tokens(cells).len() ==> token_clean(#[trigger] row_tokens(cells)[i]),
        cells.len() > 0 ==> row_tokens(cells).len() > 0,
    decreases cells.len(),
{
    if cells.len() == 0 {
    } else {
        let (head, step) = if cells[0] is Empty {
            let n = empty_run(cells);
            lemma_empty_run(cells);
            lemma_decimal_token(n);
            (decimal(n), n as int)
        } else {
            lemma_piece_token(cells[0]);
            (piece_text(cells[0]), 1int)
        };
        let rest = cells.skip(step);
        assert forall|i: int| 0 <= i < rest.len() implies piece_legible(#[trigger] rest[i]) by {
            assert(rest[i] == cells[i + step]);
        }
        lemma_row_tokens_clean(rest);
        let tokens = row_tokens(cells);
        assert(tokens =~= seq![head] + row_tokens(rest));
        assert forall|i: int| 0 <= i < tokens.len() implies token_clean(#[trigger] tokens[i]) by {
            if i > 0 {
                assert(tokens[i] == row_tokens(rest)[i - 1]);
            }
        }
    }
}

/// Segments that are the tokens of a row, but for whitespace around them,
/// read back as the squares of the row.
pub proof fn lemma_segments_round_trip(
    cells: Seq<Piece>,
    segs: Seq<Seq<char>>,
    row: usize,
    before: Seq<Piece>,
)
    requires
        cells_legible(cells),
        before.len() + cells.len() <= 14,
        segs.len() == row_tokens(cells).len(),
        forall|i: int| 0 <= i < segs.len() ==> trim(#[trigger] segs[i]) == row_tokens(cells)[i],
    ensures
        parse_segments(segs, row, before) == Ok::<Seq<Piece>, BoardFault>(before + cells),
    decreases cells.len(),
{
    if cells.len() == 0 {
        assert(before + cells =~= before);
    } else {
        let tokens = row_tokens(cells);
        let step: int = if cells[0] is Empty {
            empty_run(cells) as int
        } else {
            1
        };
        let rest = cells.skip(step);
        let more: Seq<Piece> = if cells[0] is Empty {
            before + empties(step as nat)
        } else {
            before.push(cells[0])
        };
        assert(tokens.len() > 0 && tokens.skip(1) =~= row_tokens(rest) && 1 <= step <= cells.len()
            && parse_segment(segs[0], row, before) == Ok::<Seq<Piece>, BoardFault>(more)) by {
            assert(trim(segs[0]) == tokens[0]);
            if cells[0] is Empty {
                let n = empty_run(cells);
                lemma_empty_run(cells);
                lemma_decimal_token(n);
                lemma_parse_decimal(n, usize::MAX as nat);
                assert(tokens =~= seq![decimal(n)] + row_tokens(rest));
            } else {
                lemma_piece_token(cells[0]);
                assert(tokens =~= seq![piece_text(cells[0])] + row_tokens(rest));
            }
        }
        assert(more + rest =~= before + cells) by {
            if cells[0] is Empty {
                lemma_empty_run(cells);
                assert forall|j: int| 0 <= j < step implies cells[j] == Piece::Empty by {
                    assert(cells[j] is Empty);
                }
            }
        }
        assert forall|i: int| 0 <= i < rest.len() implies piece_legible(#[trigger] rest[i]) by {
            assert(rest[i] == cells[i + step]);
        }
        let later = segs.skip(1);
        assert forall|i: int| 0 <= i < later.len() implies trim(#[trigger] later[i]) == row_tokens(
            rest,
        )[i] by {
            assert(later[i] == segs[i + 1]);
            assert(tokens.skip(1)[i] == tokens[i + 1]);
        }
        lemma_segments_round_trip(rest, later, row, more);
    }
}

/// A join with whitespace in front of it is the join of the parts with the
/// whitespace in front of the first.
pub proof fn lemma_join_behind_space(parts: Seq<Seq<char>>, sep: char, space: char)
    requires
        parts.len() > 0,
    ensures
        seq![space] + join(parts, sep) == join(parts.update(0, seq![space] + parts[0]), sep),
{
    let led = parts.update(0, seq![space] + parts[0]);
    if parts.len() == 1 {
        assert(join(led, sep) =~= seq![space] + join(parts, sep));
    } else {
        assert(led.skip(1) =~= parts.skip(1));
        assert(join(led, sep) =~= seq![space] + join(parts, sep));
    }
}

/// The line of a row whose squares read back: it reads back as the row, and
/// it holds neither `/` nor `-`.
pub proof fn lemma_row_round_trip(cells: Seq<Piece>, row: usize)
    requires
        cells.len() == 14,
        cells_legible(cells),
    ensures
        parse_row(seq!['\n'] + row_text(cells), row) == Ok::<Seq<Piece>, BoardFault>(cells),
        lacks(seq!['\n'] + row_text(cells), '/'),
        lacks(seq!['\n'] + row_text(cells), '-'),
{
    let tokens = row_tokens(cells);
    lemma_row_tokens_clean(cells);
    let led = tokens.update(0, seq!['\n'] + tokens[0]);
    let line = seq!['\n'] + row_text(cells);
    lemma_join_behind_space(tokens, ',', '\n');
    assert(line == join(led, ','));
    assert(token_clean(tokens[0]));
    assert forall|i: int| 0 <= i < led.len() implies lacks(#[trigger] led[i], ',') && lacks(
        led[i],
        '/',
    ) && lacks(led[i], '-') by {
        assert(token_clean(tokens[i]));
        if i == 0 {
            lemma_lacks_concat(seq!['\n'], tokens[0], ',');
            lemma_lacks_concat(seq!['\n'], tokens[0], '/');
            lemma_lacks_concat(seq!['\n'], tokens[0], '-');
        }
    }
    lemma_split_join(led, ',');
    lemma_join_lacks(led, ',', '/');
    lemma_join_lacks(led, ',', '-');
    assert forall|i: int| 0 <= i < led.len() implies trim(#[trigger] led[i]) == tokens[i] by {
        assert(token_clean(tokens[i]));
        lemma_trim_clean(tokens[i], '\n');
    }
    lemma_segments_round_trip(cells, led, row, Seq::empty());
    assert(Seq::<Piece>::empty() + cells =~= cells);
}

/// The rows of a grid from line `i` on read back.
pub proof fn lemma_rows_round_trip(grid: Seq<Seq<Piece>>, i: int)
    requires
        grid_legible(grid),
        0 <= i <= 14,
    ensures
        parse_rows(grid_lines(grid).skip(i), Seq::new(i as nat, |j: int| grid[13 - j])) == Ok::<
            Seq<Seq<Piece>>,
            BoardFault,
        >(grid),
    decreases 14 - i,
{
    let lines = grid_lines(grid);
    let done = Seq::new(i as nat, |j: int| grid[13 - j]);
    if i == 14 {
        assert(lines.skip(14).len() == 0);
        assert(stack_rows(done) =~= grid);
    } else {
        let left = lines.skip(i);
        assert(left[0] == seq!['\n'] + row_text(grid[13 - i]));
        lemma_row_round_trip(grid[13 - i], (13 - i) as usize);
        assert(left.skip(1) =~= lines.skip(i + 1));
        assert(done.push(grid[13 - i]) =~= Seq::new((i + 1) as nat, |j: int| grid[13 - j]));
        lemma_rows_round_trip(grid, i + 1);
    }
}

/// The text of a grid that reads back as it was written does so, and holds no dash.
pub proof fn lemma_grid_round_trip(grid: Seq<Seq<Piece>>)
    requires
        grid_legible(grid),
    ensures
        parse_grid(grid_text(grid)) == Ok::<Seq<Seq<Piece>>, BoardFault>(grid),
        lacks(grid_text(grid), '-'),
{
    let lines = grid_lines(grid);
    assert forall|i: int| 0 <= i < lines.len() implies lacks(#[trigger] lines[i], '/') && lacks(
        lines[i],
        '-',
    ) by {
        lemma_row_round_trip(grid[13 - i], 0);
    }
    lemma_split_join(lines, '/');
    lemma_join_lacks(lines, '/', '-');
    lemma_rows_round_trip(grid, 0);
    assert(lines.skip(0) =~= lines);
    assert(Seq::new(0, |j: int| grid[13 - j]) =~= Seq::<Seq<Piece>>::empty());
}

/// A piece read from a clean token reads back as it was written.
pub proof fn lemma_parsed_piece_legible(t: Seq<char>)
    requires
        parse_piece(t) is Ok,
        t.len() > 0,
        !is_whitespace(t.last()),
        lacks(t, ','),
        lacks(t, '/'),
        lacks(t, '-'),
    ensures
        piece_legible(parse_piece(t)->Ok_0),
{
    let p = parse_piece(t)->Ok_0;
    if p is Normal {
        assert(p->Normal_1 == t[t.len() - 1]);
    }
}

/// The squares that one more segment gives read back if those before it do.
pub proof fn lemma_parsed_segment_legible(seg: Seq<char>, row: usize, before: Seq<Piece>)
    requires
        cells_legible(before),
        lacks(seg, ','),
        lacks(seg, '/'),
        lacks(seg, '-'),
        parse_segment(seg, row, before) is Ok,
    ensures
        cells_legible(parse_segment(seg, row, before)->Ok_0),
        parse_segment(seg, row, before)->Ok_0.len() <= 14,
{
    let t = trim(seg);
    lemma_trim(seg);
    let more = parse_segment(seg, row, before)->Ok_0;
    if !is_digit(t[0]) {
        lemma_parsed_piece_legible(t);
    }
    assert forall|i: int| 0 <= i < more.len() implies piece_legible(#[trigger] more[i]) by {
        if i < before.len() {
            assert(more[i] == before[i]);
        }
    }
}

/// The squares that segments give read back if those before them do.
pub proof fn lemma_parsed_segments_legible(segs: Seq<Seq<char>>, row: usize, before: Seq<Piece>)
    requires
        cells_legible(before),
        before.len() <= 14,
        all_lack(segs, ','),
        all_lack(segs, '/'),
        all_lack(segs, '-'),
        parse_segments(segs, row, before) is Ok,
    ensures
        cells_legible(parse_segments(segs, row, before)->Ok_0),
        parse_segments(segs, row, before)->Ok_0.len() <= 14,
    decreases segs.len(),
{
    if segs.len() > 0 {
        assert(lacks(segs[0], ',') && lacks(segs[0], '/') && lacks(segs[0], '-'));
        lemma_parsed_segment_legible(segs[0], row, before);
        let more = parse_segment(segs[0], row, before)->Ok_0;
        let later = segs.skip(1);
        assert forall|i: int| 0 <= i < later.len() implies lacks(#[trigger] later[i], ',') && lacks(
            later[i],
            '/',
        ) && lacks(later[i], '-') by {
            assert(later[i] == segs[i + 1]);
        }
        lemma_parsed_segments_legible(later, row, more);
    }
}

/// A row that is read from a line without `/` and `-` has fourteen squares
/// that read back.
pub proof fn lemma_parsed_row_legible(line: Seq<char>, row: usize)
    requires
        lacks(line, '/'),
        lacks(line, '-'),
        parse_row(line, row) is Ok,
    ensures
        parse_row(line, row)->Ok_0.len() == 14,
        cells_legible(parse_row(line, row)->Ok_0),
{
    lemma_split_parts(line, ',');
    let segs = split(line, ',');
    assert(all_lack(segs, '/'));
    assert(all_lack(segs, '-'));
    lemma_parsed_segments_legible(segs, row, Seq::empty());
}

/// Whether each of `done` is a row of fourteen squares that read back.
pub open spec fn rows_legible(done: Seq<Seq<Piece>>) -> bool {
    forall|j: int| 0 <= j < done.len() ==> (#[trigger] done[j]).len() == 14 && cells_legible(done[j])
}

/// The grid that lines without dashes give reads back if the rows before do.
pub proof fn lemma_parsed_rows_legible(lines: Seq<Seq<char>>, done: Seq<Seq<Piece>>)
    requires
        rows_legible(done),
        all_lack(lines, '/'),
        all_lack(lines, '-'),
        parse_rows(lines, done) is Ok,
    ensures
        grid_legible(parse_rows(lines, done)->Ok_0),
    decreases lines.len(),
{
    if lines.len() == 0 {
        let grid = stack_rows(done);
        assert forall|r: int| 0 <= r < 14 implies (#[trigger] grid[r]).len() == 14
            && cells_legible(grid[r]) by {
            assert(grid[r] == done[13 - r]);
        }
    } else {
        let row = (13 - done.len()) as usize;
        assert(lacks(lines[0], '/') && lacks(lines[0], '-'));
        lemma_parsed_row_legible(lines[0], row);
        let cells = parse_row(lines[0], row)->Ok_0;
        let grown = done.push(cells);
        assert forall|j: int| 0 <= j < grown.len() implies (#[trigger] grown[j]).len() == 14
            && cells_legible(grown[j]) by {
            if j < done.len() {
                assert(grown[j] == done[j]);
            }
        }
        let later = lines.skip(1);
        assert forall|i: int| 0 <= i < later.len() implies lacks(#[trigger] later[i], '/') && lacks(
            later[i],
            '-',
        ) by {
            assert(later[i] == lines[i + 1]);
        }
        lemma_parsed_rows_legible(later, grown);
    }
}

/// A grid that is read from a text without dashes reads back as it was written.
pub proof fn lemma_parsed_grid_legible(s: Seq<char>)
    requires
        lacks(s, '-'),
        parse_grid(s) is Ok,
    ensures
        grid_legible(parse_grid(s)->Ok_0),
{
    lemma_split_parts(s, '/');
    assert(all_lack(split(s, '/'), '-'));
    lemma_parsed_rows_legible(split(s, '/'), Seq::empty());
}

/// How many columns a segment takes: the number it states, or one for a
/// piece. `None` for a segment that is empty, no number or no piece.
pub open spec fn segment_width(seg: Seq<char>) -> Option<nat> {
    let t = trim(seg);
    if t.len() == 0 {
        None
    } else if is_digit(t[0]) {
        match parse_number(t, usize::MAX as nat) {
            Ok(n) => Some(n),
            Err(_) => None,
        }
    } else {
        match parse_piece(t) {
            Ok(_) => Some(1),
            Err(_) => None,
        }
    }
}

/// Whether each of the segments is a number or a piece.
pub open spec fn segments_valid(segs: Seq<Seq<char>>) -> bool {
    forall|i: int| 0 <= i < segs.len() ==> segment_width(#[trigger] segs[i]) is Some
}

/// How many columns the segments take together.
pub open spec fn segments_width(segs: Seq<Seq<char>>) -> nat
    decreases segs.len(),
{
    if segs.len() == 0 {
        0
    } else {
        (match segment_width(segs[0]) {
            Some(n) => n,
            None => 0,
        }) + segments_width(segs.skip(1))
    }
}

/// Segments that are read without a fault are valid and give as many
/// squares as they take columns.
pub proof fn lemma_segments_fill(segs: Seq<Seq<char>>, row: usize, before: Seq<Piece>)
    requires
        parse_segments(segs, row, before) is Ok,
    ensures
        segments_valid(segs),
        parse_segments(segs, row, before)->Ok_0.len() == before.len() + segments_width(segs),
    decreases segs.len(),
{
    if segs.len() > 0 {
        let more = parse_segment(segs[0], row, before)->Ok_0;
        let later = segs.skip(1);
        lemma_segments_fill(later, row, more);
        assert forall|i: int| 0 <= i < segs.len() implies segment_width(#[trigger] segs[i])
            is Some by {
            if i > 0 {
                assert(segs[i] == later[i - 1]);
            }
        }
    }
}

/// Valid segments behind `before` squares: if they stay within fourteen
/// columns they give that many squares, or one column too many when a
/// segment stands behind a full row; if they do not, one column too many.
pub proof fn lemma_segments_width(segs: Seq<Seq<char>>, row: usize, before: Seq<Piece>)
    requires
        segments_valid(segs),
        before.len() <= 14,
    ensures
        ({
            let width = before.len() + segments_width(segs);
            let too_many = Err::<Seq<Piece>, BoardFault>(
                BoardFault::BadBoardSize(BoardSize::TooManyColumns, row),
            );
            match parse_segments(segs, row, before) {
                Ok(cells) => cells.len() == width && width <= 14,
                Err(e) => width >= 14 && parse_segments(segs, row, before) == too_many,
            }
        }),
    decreases segs.len(),
{
    if segs.len() > 0 {
        let later = segs.skip(1);
        assert(segment_width(segs[0]) is Some);
        assert forall|i: int| 0 <= i < later.len() implies segment_width(#[trigger] later[i])
            is Some by {
            assert(later[i] == segs[i + 1]);
        }
        match parse_segment(segs[0], row, before) {
            Ok(more) => {
                lemma_segments_width(later, row, more);
            },
            Err(_) => {},
        }
    }
}

/// The width of a row: a row that is read has taken exactly fourteen
/// columns; a line of valid segments that take fewer has too few columns, and
/// one whose segments take more has too many. Both faults name the row.
pub proof fn lemma_row_width(line: Seq<char>, row: usize)
    ensures
        ({
            let segs = split(line, ',');
            let width = segments_width(segs);
            &&& parse_row(line, row) is Ok ==> segments_valid(segs) && width == 14 && parse_row(
                line,
                row,
            )->Ok_0.len() == 14
            &&& segments_valid(segs) && width < 14 ==> parse_row(line, row) == Err::<
                Seq<Piece>,
                BoardFault,
            >(BoardFault::BadBoardSize(BoardSize::TooFewColumns, row))
            &&& segments_valid(segs) && width > 14 ==> parse_row(line, row) == Err::<
                Seq<Piece>,
                BoardFault,
            >(BoardFault::BadBoardSize(BoardSize::TooManyColumns, row))
        }),
{
    let segs = split(line, ',');
    let none = Seq::<Piece>::empty();
    if parse_segments(segs, row, none) is Ok {
        lemma_segments_fill(segs, row, none);
    }
    if segments_valid(segs) {
        lemma_segments_width(segs, row, none);
    }
}

} // verus!
