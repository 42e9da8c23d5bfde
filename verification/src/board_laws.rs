//! Laws of the board codec: a board that was read can be written, and the
//! text that is written for it reads back as the same board.

use crate::board::{board_text, board_writable, parse_board};
use crate::extra_laws::{
    extra_legible, lemma_block_round_trip, lemma_default_legible, lemma_parsed_extra_legible,
    lemma_stated_entries_empty,
};
use crate::grid::{grid_text, BoardFault};
use crate::grid_laws::{grid_legible, lemma_grid_round_trip, lemma_parsed_grid_legible};
use crate::meta::{
    bit_text, bits_text, header_sections, header_text, parse_bits, parse_header, parse_ply,
    parse_points, parse_turn, section,
};
use crate::meta_laws::{
    lemma_bits_round_trip, lemma_decimal_lacks, lemma_ply_round_trip, lemma_points_round_trip,
    lemma_turn_round_trip,
};
use crate::number::decimal;
use crate::splitting::{
    all_lack, lacks, lemma_join_lacks, lemma_lacks_concat, lemma_last_index_behind,
    lemma_split_join, lemma_split_parts,
};
use crate::tag_text::extra_text;
use crate::tags::{parse_extra, MetaDataFault};
use crate::text::{join, last_index, lemma_last_index, split};
use crate::types::{default_extra, empty_grid, BoardView, ExtraView};
use vstd::prelude::*;

verus! {

/// Whether the metadata of a board reads back as it was written: every
/// quadruple has four items and the options read back.
pub open spec fn header_legible(b: BoardView) -> bool {
    &&& b.dead.len() == 4
    &&& b.castling_king.len() == 4
    &&& b.castling_queen.len() == 4
    &&& b.points.len() == 4
    &&& extra_legible(b.extra_options)
}

/// Whether a board reads back as it was written: its metadata does, and its
/// grid does.
pub open spec fn board_legible(b: BoardView) -> bool {
    header_legible(b) && grid_legible(b.board)
}

/// The sections of metadata that reads back: none holds a dash, and each
/// reads back as its field.
pub proof fn lemma_sections(b: BoardView)
    requires
        header_legible(b),
    ensures
        all_lack(header_sections(b), '-'),
        header_sections(b).len() == if b.extra_options == default_extra() {
            6nat
        } else {
            7nat
        },
        parse_turn(header_sections(b)[0]) == Ok::<_, MetaDataFault>(b.turn),
        parse_bits(header_sections(b)[1]) == Ok::<_, MetaDataFault>(b.dead),
        parse_bits(header_sections(b)[2]) == Ok::<_, MetaDataFault>(b.castling_king),
        parse_bits(header_sections(b)[3]) == Ok::<_, MetaDataFault>(b.castling_queen),
        parse_points(header_sections(b)[4]) == Ok::<_, MetaDataFault>(b.points),
        parse_ply(header_sections(b)[5]) == Ok::<_, MetaDataFault>(b.draw_ply),
        b.extra_options != default_extra() ==> parse_extra(header_sections(b)[6]) == Ok::<
            _,
            MetaDataFault,
        >(b.extra_options),
{
    let sections = header_sections(b);
    lemma_turn_round_trip(b.turn);
    lemma_bits_round_trip(b.dead);
    lemma_bits_round_trip(b.castling_king);
    lemma_bits_round_trip(b.castling_queen);
    lemma_points_round_trip(b.points);
    lemma_ply_round_trip(b.draw_ply);
    if b.extra_options != default_extra() {
        lemma_block_round_trip(b.extra_options);
    }
    assert forall|i: int| 0 <= i < sections.len() implies lacks(#[trigger] sections[i], '-') by {
        assert(i == 0 || i == 1 || i == 2 || i == 3 || i == 4 || i == 5 || i == 6);
    }
}

/// The metadata of a board reads back as the board with nothing on its grid.
pub proof fn lemma_header_round_trip(b: BoardView)
    requires
        header_legible(b),
    ensures
        parse_header(join(header_sections(b), '-')) == Ok::<BoardView, MetaDataFault>(
            BoardView { board: empty_grid(), ..b },
        ),
{
    let sections = header_sections(b);
    lemma_sections(b);
    lemma_split_join(sections, '-');
    let sec = split(join(sections, '-'), '-');
    assert(sec == sections);
    assert(section(sec, 1, |t: Seq<char>| parse_bits(t)) == parse_bits(sec[1]));
    assert(section(sec, 2, |t: Seq<char>| parse_bits(t)) == parse_bits(sec[2]));
    assert(section(sec, 3, |t: Seq<char>| parse_bits(t)) == parse_bits(sec[3]));
    assert(section(sec, 4, |t: Seq<char>| parse_points(t)) == parse_points(sec[4]));
    assert(section(sec, 5, |t: Seq<char>| parse_ply(t)) == parse_ply(sec[5]));
}

/// Metadata that was read reads back as it was written.
pub proof fn lemma_parsed_header_legible(s: Seq<char>)
    requires
        parse_header(s) is Ok,
    ensures
        header_legible(parse_header(s)->Ok_0),
        parse_header(s)->Ok_0.board == empty_grid(),
{
    let sec = split(s, '-');
    lemma_split_parts(s, '-');
    assert(section(sec, 1, |t: Seq<char>| parse_bits(t)) is Ok);
    assert(section(sec, 2, |t: Seq<char>| parse_bits(t)) is Ok);
    assert(section(sec, 3, |t: Seq<char>| parse_bits(t)) is Ok);
    assert(section(sec, 4, |t: Seq<char>| parse_points(t)) is Ok);
    assert(section(sec, 5, |t: Seq<char>| parse_ply(t)) is Ok);
    if sec.len() > 6 {
        assert(lacks(sec[6], '-'));
        lemma_parsed_extra_legible(sec[6]);
    } else {
        lemma_default_legible();
    }
}

/// A board that was read reads back as it was written.
pub proof fn lemma_parsed_board_legible(s: Seq<char>)
    requires
        parse_board(s) is Ok,
    ensures
        board_legible(parse_board(s)->Ok_0),
{
    let dash = last_index(s, '-');
    lemma_last_index(s, '-');
    lemma_parsed_header_legible(s.take(dash));
    let body = s.skip(dash + 1);
    assert(lacks(body, '-')) by {
        assert forall|i: int| 0 <= i < body.len() implies body[i] != '-' by {
            assert(body[i] == s[dash + 1 + i]);
        }
    }
    lemma_parsed_grid_legible(body);
}

/// A board that reads back as it was written can be written, and its text
/// reads back as the board.
pub proof fn lemma_board_round_trip(b: BoardView)
    requires
        board_legible(b),
    ensures
        board_writable(b),
        parse_board(board_text(b)) == Ok::<BoardView, BoardFault>(b),
{
    let head = join(header_sections(b), '-');
    let body = grid_text(b.board);
    lemma_grid_round_trip(b.board);
    lemma_header_round_trip(b);
    lemma_last_index_behind(head, '-', body);
    assert(board_text(b) == head.push('-') + body);
}

/// Reading, writing and reading again: every board that is read from a text
/// can be written, and reading what is written gives the same board.
pub proof fn lemma_round_trip(text: Seq<char>)
    requires
        parse_board(text) is Ok,
    ensures
        board_writable(parse_board(text)->Ok_0),
        parse_board(board_text(parse_board(text)->Ok_0)) == parse_board(text),
{
    lemma_parsed_board_legible(text);
    lemma_board_round_trip(parse_board(text)->Ok_0);
}

/// Options that are all defaults are not written: the metadata has six
/// sections and holds no brace, and the entries of the options are empty.
pub proof fn lemma_defaults_unwritten(b: BoardView)
    requires
        b.extra_options == default_extra(),
    ensures
        header_sections(b).len() == 6,
        lacks(header_text(b), '{'),
        lacks(header_text(b), '}'),
        extra_text(b.extra_options).len() == 0,
{
    let sections = header_sections(b);
    lemma_sections_lack(b, '{');
    lemma_sections_lack(b, '}');
    lemma_join_lacks(sections, '-', '{');
    lemma_join_lacks(sections, '-', '}');
    lemma_lacks_concat(join(sections, '-'), seq!['-'], '{');
    lemma_lacks_concat(join(sections, '-'), seq!['-'], '}');
    assert(header_text(b) =~= join(sections, '-') + seq!['-']);
    lemma_stated_entries_empty(b.extra_options, 0, 12);
}

/// The six sections in front of the tag block hold no brace.
pub proof fn lemma_sections_lack(b: BoardView, c: char)
    requires
        b.extra_options == default_extra(),
        c == '{' || c == '}',
    ensures
        all_lack(header_sections(b), c),
{
    let sections = header_sections(b);
    lemma_bits_lack(b.dead, c);
    lemma_bits_lack(b.castling_king, c);
    lemma_bits_lack(b.castling_queen, c);
    let points = seq![
        decimal(b.points[0] as nat),
        decimal(b.points[1] as nat),
        decimal(b.points[2] as nat),
        decimal(b.points[3] as nat),
    ];
    assert forall|i: int| 0 <= i < 4 implies lacks(#[trigger] points[i], c) by {
        lemma_decimal_lacks(b.points[i] as nat, c);
    }
    lemma_join_lacks(points, ',', c);
    lemma_decimal_lacks(b.draw_ply as nat, c);
    assert forall|i: int| 0 <= i < sections.len() implies lacks(#[trigger] sections[i], c) by {
        assert(i == 0 || i == 1 || i == 2 || i == 3 || i == 4 || i == 5);
    }
}

/// Four truth values as `0` and `1` hold no brace.
pub proof fn lemma_bits_lack(q: Seq<bool>, c: char)
    requires
        c == '{' || c == '}',
    ensures
        lacks(bits_text(q), c),
{
    let parts = seq![
        bit_text(q[0]),
        bit_text(q[1]),
        bit_text(q[2]),
        bit_text(q[3]),
    ];
    assert forall|i: int| 0 <= i < 4 implies lacks(#[trigger] parts[i], c) by {
        assert(i == 0 || i == 1 || i == 2 || i == 3);
    }
    lemma_join_lacks(parts, ',', c);
}

/// The empty block is refused: metadata whose tag block is `{}` is not read.
pub proof fn lemma_empty_block_refused(s: Seq<char>)
    requires
        split(s, '-').len() > 6,
        split(s, '-')[6] == seq!['{', '}'],
    ensures
        parse_header(s) is Err,
        parse_extra(seq!['{', '}']) == Err::<ExtraView, MetaDataFault>(
            MetaDataFault::BadCurly,
        ),
{
}

} // verus!
