//! Laws of the standard starting position: its text is the embedded one.

use crate::board::{board_text, board_writable, parse_board};
use crate::board_laws::{board_legible, lemma_board_round_trip};
use crate::extra_laws::lemma_default_legible;
use crate::grid::{grid_lines, lemma_empty_run_is, row_text, row_tokens, BoardFault};
use crate::grid_laws::{cells_legible, piece_legible, shape_legible};
use crate::meta::{bits_text, header_sections, header_text, points_text};
use crate::number::decimal;
use crate::piece::piece_text;
use crate::text::{join, lemma_join_four};
use crate::types::{BoardView, Piece};
use crate::variant::{standard_rank, start_board, start_cell, start_grid, DEFAULT_FEN};
use vstd::prelude::*;

verus! {

/// The tokens of a row that starts with a run of `n` empty squares.
pub proof fn lemma_tokens_run(cells: Seq<Piece>, n: int)
    requires
        1 <= n <= cells.len(),
        forall|j: int| 0 <= j < n ==> cells[j] is Empty,
        n < cells.len() ==> !(cells[n] is Empty),
    ensures
        row_tokens(cells) == seq![decimal(n as nat)] + row_tokens(cells.skip(n)),
{
    lemma_empty_run_is(cells, n);
}

/// The tokens of a row that starts with a piece.
pub proof fn lemma_tokens_piece(cells: Seq<Piece>)
    requires
        cells.len() > 0,
        !(cells[0] is Empty),
    ensures
        row_tokens(cells) == seq![piece_text(cells[0])] + row_tokens(cells.skip(1)),
{
}

/// The tokens of a row with eight pieces between two runs of three empty squares.
pub proof fn lemma_flank_row(cells: Seq<Piece>)
    requires
        cells.len() == 14,
        forall|j: int| 0 <= j < 3 || 11 <= j < 14 ==> cells[j] is Empty,
        forall|j: int| 3 <= j < 11 ==> !(cells[j] is Empty),
    ensures
        row_tokens(cells) == seq![
            decimal(3),
            piece_text(cells[3]),
            piece_text(cells[4]),
            piece_text(cells[5]),
            piece_text(cells[6]),
            piece_text(cells[7]),
            piece_text(cells[8]),
            piece_text(cells[9]),
            piece_text(cells[10]),
            decimal(3),
        ],
{
    lemma_tokens_run(cells, 3);
    let c3 = cells.skip(3);
    lemma_tokens_piece(c3);
    let c4 = c3.skip(1);
    lemma_tokens_piece(c4);
    let c5 = c4.skip(1);
    lemma_tokens_piece(c5);
    let c6 = c5.skip(1);
    lemma_tokens_piece(c6);
    let c7 = c6.skip(1);
    lemma_tokens_piece(c7);
    let c8 = c7.skip(1);
    lemma_tokens_piece(c8);
    let c9 = c8.skip(1);
    lemma_tokens_piece(c9);
    let c10 = c9.skip(1);
    lemma_tokens_piece(c10);
    let c11 = c10.skip(1);
    lemma_tokens_run(c11, 3);
    assert(c11.skip(3).len() == 0);
    assert(row_tokens(c11.skip(3)) =~= Seq::<Seq<char>>::empty());
    assert(row_tokens(cells) =~= seq![
        decimal(3),
        piece_text(cells[3]),
        piece_text(cells[4]),
        piece_text(cells[5]),
        piece_text(cells[6]),
        piece_text(cells[7]),
        piece_text(cells[8]),
        piece_text(cells[9]),
        piece_text(cells[10]),
        decimal(3),
    ]);
}

/// The tokens of a row with two pieces on either side of ten empty squares.
pub proof fn lemma_side_row(cells: Seq<Piece>)
    requires
        cells.len() == 14,
        forall|j: int| 2 <= j < 12 ==> cells[j] is Empty,
        forall|j: int| 0 <= j < 2 || 12 <= j < 14 ==> !(cells[j] is Empty),
    ensures
        row_tokens(cells) == seq![
            piece_text(cells[0]),
            piece_text(cells[1]),
            decimal(10),
            piece_text(cells[12]),
            piece_text(cells[13]),
        ],
{
    lemma_tokens_piece(cells);
    let c1 = cells.skip(1);
    lemma_tokens_piece(c1);
    let c2 = c1.skip(1);
    lemma_tokens_run(c2, 10);
    let c12 = c2.skip(10);
    lemma_tokens_piece(c12);
    let c13 = c12.skip(1);
    lemma_tokens_piece(c13);
    assert(c13.skip(1).len() == 0);
    assert(row_tokens(c13.skip(1)) =~= Seq::<Seq<char>>::empty());
    assert(row_tokens(cells) =~= seq![
        piece_text(cells[0]),
        piece_text(cells[1]),
        decimal(10),
        piece_text(cells[12]),
        piece_text(cells[13]),
    ]);
}

/// The tokens of a row of empty squares.
pub proof fn lemma_empty_row(cells: Seq<Piece>)
    requires
        cells.len() == 14,
        forall|j: int| 0 <= j < 14 ==> cells[j] is Empty,
    ensures
        row_tokens(cells) == seq![decimal(14)],
{
    lemma_tokens_run(cells, 14);
    assert(cells.skip(14).len() == 0);
    assert(row_tokens(cells.skip(14)) =~= Seq::<Seq<char>>::empty());
    assert(row_tokens(cells) =~= seq![decimal(14)]);
}

/// The numbers of a standard row, in digits.
pub proof fn lemma_run_digits()
    ensures
        decimal(3) == seq!['3'],
        decimal(10) == seq!['1', '0'],
        decimal(14) == seq!['1', '4'],
{
    reveal_with_fuel(decimal, 3);
    assert(decimal(3) =~= seq!['3']);
    assert(decimal(10) =~= seq!['1', '0']);
    assert(decimal(14) =~= seq!['1', '4']);
}

/// The text of each row of the standard position.
pub open spec fn standard_row_text(r: int) -> Seq<char> {
    if r == 0 {
        "3,rR,rN,rB,rQ,rK,rB,rN,rR,3"@
    } else if r == 1 {
        "3,rP,rP,rP,rP,rP,rP,rP,rP,3"@
    } else if r == 2 {
        "14"@
    } else if r == 3 {
        "bR,bP,10,gP,gR"@
    } else if r == 4 {
        "bN,bP,10,gP,gN"@
    } else if r == 5 {
        "bB,bP,10,gP,gB"@
    } else if r == 6 {
        "bQ,bP,10,gP,gK"@
    } else if r == 7 {
        "bK,bP,10,gP,gQ"@
    } else if r == 8 {
        "bB,bP,10,gP,gB"@
    } else if r == 9 {
        "bN,bP,10,gP,gN"@
    } else if r == 10 {
        "bR,bP,10,gP,gR"@
    } else if r == 11 {
        "14"@
    } else if r == 12 {
        "3,yP,yP,yP,yP,yP,yP,yP,yP,3"@
    } else {
        "3,yR,yN,yB,yK,yQ,yB,yN,yR,3"@
    }
}

/// Each row of the standard position has the text that is embedded for it.
pub proof fn lemma_standard_row(r: int)
    requires
        0 <= r < 14,
    ensures
        row_text(start_grid(standard_rank())[r]) == standard_row_text(r),
{
    let cells = start_grid(standard_rank())[r];
    lemma_run_digits();
    reveal_with_fuel(join, 11);
    if r == 0 {
        lemma_flank_row(cells);
        reveal_strlit("3,rR,rN,rB,rQ,rK,rB,rN,rR,3");
        assert(row_text(cells) =~= "3,rR,rN,rB,rQ,rK,rB,rN,rR,3"@);
    } else if r == 1 {
        lemma_flank_row(cells);
        reveal_strlit("3,rP,rP,rP,rP,rP,rP,rP,rP,3");
        assert(row_text(cells) =~= "3,rP,rP,rP,rP,rP,rP,rP,rP,3"@);
    } else if r == 2 {
        lemma_empty_row(cells);
        reveal_strlit("14");
        assert(row_text(cells) =~= "14"@);
    } else if r == 3 {
        lemma_side_row(cells);
        reveal_strlit("bR,bP,10,gP,gR");
        assert(row_text(cells) =~= "bR,bP,10,gP,gR"@);
    } else if r == 4 {
        lemma_side_row(cells);
        reveal_strlit("bN,bP,10,gP,gN");
        assert(row_text(cells) =~= "bN,bP,10,gP,gN"@);
    } else if r == 5 {
        lemma_side_row(cells);
        reveal_strlit("bB,bP,10,gP,gB");
        assert(row_text(cells) =~= "bB,bP,10,gP,gB"@);
    } else if r == 6 {
        lemma_side_row(cells);
        reveal_strlit("bQ,bP,10,gP,gK");
        assert(row_text(cells) =~= "bQ,bP,10,gP,gK"@);
    } else if r == 7 {
        lemma_side_row(cells);
        reveal_strlit("bK,bP,10,gP,gQ");
        assert(row_text(cells) =~= "bK,bP,10,gP,gQ"@);
    } else if r == 8 {
        lemma_side_row(cells);
        reveal_strlit("bB,bP,10,gP,gB");
        assert(row_text(cells) =~= "bB,bP,10,gP,gB"@);
    } else if r == 9 {
        lemma_side_row(cells);
        reveal_strlit("bN,bP,10,gP,gN");
        assert(row_text(cells) =~= "bN,bP,10,gP,gN"@);
    } else if r == 10 {
        lemma_side_row(cells);
        reveal_strlit("bR,bP,10,gP,gR");
        assert(row_text(cells) =~= "bR,bP,10,gP,gR"@);
    } else if r == 11 {
        lemma_empty_row(cells);
        reveal_strlit("14");
        assert(row_text(cells) =~= "14"@);
    } else if r == 12 {
        lemma_flank_row(cells);
        reveal_strlit("3,yP,yP,yP,yP,yP,yP,yP,yP,3");
        assert(row_text(cells) =~= "3,yP,yP,yP,yP,yP,yP,yP,yP,3"@);
    } else {
        lemma_flank_row(cells);
        reveal_strlit("3,yR,yN,yB,yK,yQ,yB,yN,yR,3");
        assert(row_text(cells) =~= "3,yR,yN,yB,yK,yQ,yB,yN,yR,3"@);
    }
}

/// The metadata of the standard position.
pub proof fn lemma_standard_header()
    ensures
        header_text(start_board(standard_rank())) == "R-0,0,0,0-1,1,1,1-1,1,1,1-0,0,0,0-0-"@,
{
    let b = start_board(standard_rank());
    let zeros = seq!['0', ',', '0', ',', '0', ',', '0'];
    let ones = seq!['1', ',', '1', ',', '1', ',', '1'];
    lemma_join_four(seq!['0'], seq!['0'], seq!['0'], seq!['0'], ',');
    lemma_join_four(seq!['1'], seq!['1'], seq!['1'], seq!['1'], ',');
    assert(bits_text(b.dead) =~= zeros);
    assert(bits_text(b.castling_king) =~= ones);
    assert(bits_text(b.castling_queen) =~= ones);
    assert(decimal(0) =~= seq!['0']);
    assert(points_text(b.points) =~= zeros);
    let sections = header_sections(b);
    assert(sections =~= seq![seq!['R'], zeros, ones, ones, zeros, seq!['0']]);
    reveal_with_fuel(join, 7);
    reveal_strlit("R-0,0,0,0-1,1,1,1-1,1,1,1-0,0,0,0-0-");
    assert(header_text(b) =~= "R-0,0,0,0-1,1,1,1-1,1,1,1-0,0,0,0-0-"@);
}

/// The lines of the standard position: each row behind a newline.
pub proof fn lemma_standard_lines()
    ensures
        grid_lines(start_grid(standard_rank())) == Seq::new(
            14,
            |i: int| seq!['\n'] + standard_row_text(13 - i),
        ),
{
    let grid = start_grid(standard_rank());
    let lines = grid_lines(grid);
    assert forall|i: int| 0 <= i < 14 implies #[trigger] lines[i] == seq!['\n']
        + standard_row_text(13 - i) by {
        lemma_standard_row(13 - i);
    }
    assert(lines =~= Seq::new(14, |i: int| seq!['\n'] + standard_row_text(13 - i)));
}

/// Where line `i` of the embedded text starts: at its newline.
pub open spec fn line_start(i: int) -> int {
    if i == 0 {
        36
    } else if i == 1 {
        65
    } else if i == 2 {
        94
    } else if i == 3 {
        98
    } else if i == 4 {
        114
    } else if i == 5 {
        130
    } else if i == 6 {
        146
    } else if i == 7 {
        162
    } else if i == 8 {
        178
    } else if i == 9 {
        194
    } else if i == 10 {
        210
    } else if i == 11 {
        226
    } else if i == 12 {
        230
    } else if i == 13 {
        259
    } else {
        288
    }
}

/// Line `i` of the embedded text: a newline and the text of its row, and
/// behind it a `/` unless it is the last line.
pub proof fn lemma_embedded_line(i: int)
    requires
        0 <= i < 14,
    ensures
        DEFAULT_FEN@.subrange(line_start(i), line_start(i + 1) - 1) == seq!['\n']
            + standard_row_text(13 - i),
        i < 13 ==> DEFAULT_FEN@[line_start(i + 1) - 1] == '/',
        DEFAULT_FEN@.len() == line_start(14) - 1,
{
    let whole = DEFAULT_FEN@;
    reveal_strlit("R-0,0,0,0-1,1,1,1-1,1,1,1-0,0,0,0-0-
3,yR,yN,yB,yK,yQ,yB,yN,yR,3/
3,yP,yP,yP,yP,yP,yP,yP,yP,3/
14/
bR,bP,10,gP,gR/
bN,bP,10,gP,gN/
bB,bP,10,gP,gB/
bK,bP,10,gP,gQ/
bQ,bP,10,gP,gK/
bB,bP,10,gP,gB/
bN,bP,10,gP,gN/
bR,bP,10,gP,gR/
14/
3,rP,rP,rP,rP,rP,rP,rP,rP,3/
3,rR,rN,rB,rQ,rK,rB,rN,rR,3");
    if i == 0 {
        reveal_strlit("3,yR,yN,yB,yK,yQ,yB,yN,yR,3");
        assert(whole.subrange(36, 64) =~= seq!['\n'] + "3,yR,yN,yB,yK,yQ,yB,yN,yR,3"@);
    } else if i == 1 {
        reveal_strlit("3,yP,yP,yP,yP,yP,yP,yP,yP,3");
        assert(whole.subrange(65, 93) =~= seq!['\n'] + "3,yP,yP,yP,yP,yP,yP,yP,yP,3"@);
    } else if i == 2 {
        reveal_strlit("14");
        assert(whole.subrange(94, 97) =~= seq!['\n'] + "14"@);
    } else if i == 3 {
        reveal_strlit("bR,bP,10,gP,gR");
        assert(whole.subrange(98, 113) =~= seq!['\n'] + "bR,bP,10,gP,gR"@);
    } else if i == 4 {
        reveal_strlit("bN,bP,10,gP,gN");
        assert(whole.subrange(114, 129) =~= seq!['\n'] + "bN,bP,10,gP,gN"@);
    } else if i == 5 {
        reveal_strlit("bB,bP,10,gP,gB");
        assert(whole.subrange(130, 145) =~= seq!['\n'] + "bB,bP,10,gP,gB"@);
    } else if i == 6 {
        reveal_strlit("bK,bP,10,gP,gQ");
        assert(whole.subrange(146, 161) =~= seq!['\n'] + "bK,bP,10,gP,gQ"@);
    } else if i == 7 {
        reveal_strlit("bQ,bP,10,gP,gK");
        assert(whole.subrange(162, 177) =~= seq!['\n'] + "bQ,bP,10,gP,gK"@);
    } else if i == 8 {
        reveal_strlit("bB,bP,10,gP,gB");
        assert(whole.subrange(178, 193) =~= seq!['\n'] + "bB,bP,10,gP,gB"@);
    } else if i == 9 {
        reveal_strlit("bN,bP,10,gP,gN");
        assert(whole.subrange(194, 209) =~= seq!['\n'] + "bN,bP,10,gP,gN"@);
    } else if i == 10 {
        reveal_strlit("bR,bP,10,gP,gR");
        assert(whole.subrange(210, 225) =~= seq!['\n'] + "bR,bP,10,gP,gR"@);
    } else if i == 11 {
        reveal_strlit("14");
        assert(whole.subrange(226, 229) =~= seq!['\n'] + "14"@);
    } else if i == 12 {
        reveal_strlit("3,rP,rP,rP,rP,rP,rP,rP,rP,3");
        assert(whole.subrange(230, 258) =~= seq!['\n'] + "3,rP,rP,rP,rP,rP,rP,rP,rP,3"@);
    } else {
        reveal_strlit("3,rR,rN,rB,rQ,rK,rB,rN,rR,3");
        assert(whole.subrange(259, 287) =~= seq!['\n'] + "3,rR,rN,rB,rQ,rK,rB,rN,rR,3"@);
    }
}

/// The lines of the standard position from line `i` on, with `/` between
/// them, are the embedded text from the start of line `i` on.
pub proof fn lemma_embedded_lines(i: int)
    requires
        0 <= i < 14,
    ensures
        join(grid_lines(start_grid(standard_rank())).skip(i), '/') == DEFAULT_FEN@.skip(
            line_start(i),
        ),
    decreases 14 - i,
{
    let whole = DEFAULT_FEN@;
    let lines = grid_lines(start_grid(standard_rank()));
    let left = lines.skip(i);
    lemma_standard_lines();
    lemma_embedded_line(i);
    let from = line_start(i);
    let to = line_start(i + 1) - 1;
    assert(left[0] == whole.subrange(from, to));
    if i == 13 {
        assert(whole.skip(from) =~= whole.subrange(from, to));
    } else {
        lemma_embedded_line(i + 1);
        lemma_embedded_lines(i + 1);
        assert(left.skip(1) =~= lines.skip(i + 1));
        assert(whole.skip(from) =~= whole.subrange(from, to) + seq!['/'] + whole.skip(to + 1));
    }
}

/// The text of the standard starting position is the embedded one.
pub proof fn lemma_standard_text()
    ensures
        board_text(start_board(standard_rank())) == DEFAULT_FEN@,
{
    let b = start_board(standard_rank());
    let whole = DEFAULT_FEN@;
    lemma_standard_header();
    lemma_embedded_lines(0);
    lemma_embedded_line(0);
    assert(grid_lines(b.board).skip(0) =~= grid_lines(b.board));
    assert(whole.subrange(0, 36) =~= "R-0,0,0,0-1,1,1,1-1,1,1,1-0,0,0,0-0-"@) by {
        reveal_strlit("R-0,0,0,0-1,1,1,1-1,1,1,1-0,0,0,0-0-");
        reveal_strlit("R-0,0,0,0-1,1,1,1-1,1,1,1-0,0,0,0-0-
3,yR,yN,yB,yK,yQ,yB,yN,yR,3/
3,yP,yP,yP,yP,yP,yP,yP,yP,3/
14/
bR,bP,10,gP,gR/
bN,bP,10,gP,gN/
bB,bP,10,gP,gB/
bK,bP,10,gP,gQ/
bQ,bP,10,gP,gK/
bB,bP,10,gP,gB/
bN,bP,10,gP,gN/
bR,bP,10,gP,gR/
14/
3,rP,rP,rP,rP,rP,rP,rP,rP,3/
3,rR,rN,rB,rQ,rK,rB,rN,rR,3");
    }
    assert(whole =~= whole.subrange(0, 36) + whole.skip(36));
}

/// The starting position with a back rank of legible shapes reads back as
/// it is written.
pub proof fn lemma_start_legible(rank: Seq<char>)
    requires
        rank.len() == 8,
        forall|i: int| 0 <= i < 8 ==> shape_legible(#[trigger] rank[i]),
    ensures
        board_legible(start_board(rank)),
{
    let b = start_board(rank);
    lemma_default_legible();
    assert forall|r: int| 0 <= r < 14 implies (#[trigger] b.board[r]).len() == 14 && cells_legible(
        b.board[r],
    ) by {
        let cells = b.board[r];
        assert forall|c: int| 0 <= c < 14 implies piece_legible(#[trigger] cells[c]) by {
            assert(cells[c] == start_cell(rank, r, c));
            assert(shape_legible('P'));
            if 3 <= c <= 10 {
                assert(shape_legible(rank[c - 3]));
                assert(shape_legible(rank[10 - c]));
            }
            if 3 <= r <= 10 {
                assert(shape_legible(rank[r - 3]));
                assert(shape_legible(rank[10 - r]));
            }
        }
    }
}

/// The embedded text reads as the standard starting position, and the
/// standard starting position is written as the embedded text.
pub proof fn lemma_standard_reads()
    ensures
        parse_board(DEFAULT_FEN@) == Ok::<BoardView, BoardFault>(start_board(standard_rank())),
        board_text(start_board(standard_rank())) == DEFAULT_FEN@,
        board_writable(start_board(standard_rank())),
{
    let rank = standard_rank();
    assert forall|i: int| 0 <= i < 8 implies shape_legible(#[trigger] rank[i]) by {
        assert(i == 0 || i == 1 || i == 2 || i == 3 || i == 4 || i == 5 || i == 6 || i == 7);
    }
    lemma_start_legible(rank);
    lemma_board_round_trip(start_board(rank));
    lemma_standard_text();
}

} // verus!
