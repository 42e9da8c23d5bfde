//! The codec of the metadata: the sections between dashes in front of the grid.
//!
//! ```text
//!     v turn    v king          v points  v tag block, if any
//!     R-1,0,0,0-1,1,1,0-0,1,0,0-1,2,3,4-0-{'lives':(2,2,2,2)}
//!       ^ dead          ^ queen         ^ plies since the last pawn move or capture
//! ```

use crate::extra::read_extra;
use crate::number::{decimal, parse_number, parse_u16, parse_usize, push_decimal};
use crate::piece::turn_text;
use crate::tag_text::extra_text;
use crate::tags::{parse_extra, MetaDataFault, MetaDataParseError};
use crate::text::{chars_of, join, lemma_join_four, split, split_text, text_is, views};
use crate::types::{
    default_extra, empty_grid, new_grid, Board, BoardView, Extra, ExtraView, TurnColor,
};
use vstd::prelude::*;

verus! {

/// The model of what reading the metadata gives.
pub open spec fn meta_outcome(r: Result<Board, MetaDataParseError>) -> Result<
    BoardView,
    MetaDataFault,
> {
    match r {
        Ok(b) => Ok(b@),
        Err(x) => Err(x@),
    }
}

/// The player whose turn a section states.
pub open spec fn parse_turn(s: Seq<char>) -> Result<TurnColor, MetaDataFault> {
    if s == "R"@ {
        Ok(TurnColor::Red)
    } else if s == "B"@ {
        Ok(TurnColor::Blue)
    } else if s == "Y"@ {
        Ok(TurnColor::Yellow)
    } else if s == "G"@ {
        Ok(TurnColor::Green)
    } else {
        Err(MetaDataFault::BadColor)
    }
}

/// The truth value of `0` or `1`.
pub open spec fn parse_bit(s: Seq<char>) -> Option<bool> {
    if s == "0"@ {
        Some(false)
    } else if s == "1"@ {
        Some(true)
    } else {
        None
    }
}

/// Four truth values, each `0` or `1`, with commas between them.
pub open spec fn parse_bits(s: Seq<char>) -> Result<Seq<bool>, MetaDataFault> {
    let f = split(s, ',');
    if f.len() == 4 && parse_bit(f[0]) is Some && parse_bit(f[1]) is Some && parse_bit(f[2]) is Some
        && parse_bit(f[3]) is Some {
        Ok(seq![parse_bit(f[0])->0, parse_bit(f[1])->0, parse_bit(f[2])->0, parse_bit(f[3])->0])
    } else {
        Err(MetaDataFault::BadComma)
    }
}

/// A number of points.
pub open spec fn parse_point(s: Seq<char>) -> Result<u16, MetaDataFault> {
    match parse_number(s, u16::MAX as nat) {
        Ok(n) => Ok(n as u16),
        Err(e) => Err(MetaDataFault::BadNumber(e)),
    }
}

/// The fault of the first of the fields `f[0]` to `f[k - 1]` that is no
/// number of points.
pub open spec fn first_point_fault(f: Seq<Seq<char>>, k: int) -> Option<MetaDataFault>
    decreases k,
{
    if k <= 0 {
        None
    } else {
        match (first_point_fault(f, k - 1), parse_point(f[k - 1])) {
            (Some(x), _) => Some(x),
            (None, Err(x)) => Some(x),
            (None, Ok(_)) => None,
        }
    }
}

/// Four numbers of points with commas between them. The fields are read
/// from the left: a field among the first four that is no number is reported
/// before a wrong count of fields.
pub open spec fn parse_points(s: Seq<char>) -> Result<Seq<u16>, MetaDataFault> {
    let f = split(s, ',');
    let k = if f.len() < 4 {
        f.len() as int
    } else {
        4
    };
    match first_point_fault(f, k) {
        Some(x) => Err(x),
        None => if f.len() == 4 {
            Ok(
                seq![
                    parse_point(f[0])->Ok_0,
                    parse_point(f[1])->Ok_0,
                    parse_point(f[2])->Ok_0,
                    parse_point(f[3])->Ok_0,
                ],
            )
        } else {
            Err(MetaDataFault::BadComma)
        },
    }
}

/// The count of plies.
pub open spec fn parse_ply(s: Seq<char>) -> Result<usize, MetaDataFault> {
    match parse_number(s, usize::MAX as nat) {
        Ok(n) => Ok(n as usize),
        Err(e) => Err(MetaDataFault::BadNumber(e)),
    }
}

/// The section at place `i`, which has to be there.
pub open spec fn section<T>(
    sections: Seq<Seq<char>>,
    i: int,
    read: spec_fn(Seq<char>) -> Result<T, MetaDataFault>,
) -> Result<T, MetaDataFault> {
    if i < sections.len() {
        read(sections[i])
    } else {
        Err(MetaDataFault::BadDash)
    }
}

/// What the metadata states: a board with nothing on its grid.
///
/// The sections are read from the left and the first fault is reported. The
/// tag block may be missing; then the options have their defaults. A missing
/// section, and a section behind the tag block, is a `BadDash`.
pub open spec fn parse_header(s: Seq<char>) -> Result<BoardView, MetaDataFault> {
    let sec = split(s, '-');
    let extra = if sec.len() > 6 {
        parse_extra(sec[6])
    } else {
        Ok(default_extra())
    };
    let rest: Result<(), MetaDataFault> = if sec.len() > 7 {
        Err(MetaDataFault::BadDash)
    } else {
        Ok(())
    };
    match (
        parse_turn(sec[0]),
        section(sec, 1, |t: Seq<char>| parse_bits(t)),
        section(sec, 2, |t: Seq<char>| parse_bits(t)),
        section(sec, 3, |t: Seq<char>| parse_bits(t)),
        section(sec, 4, |t: Seq<char>| parse_points(t)),
        section(sec, 5, |t: Seq<char>| parse_ply(t)),
        extra,
        rest,
    ) {
        (Ok(turn), Ok(dead), Ok(king), Ok(queen), Ok(points), Ok(ply), Ok(extra), Ok(_)) => Ok(
            BoardView {
                turn,
                dead,
                castling_king: king,
                castling_queen: queen,
                points,
                draw_ply: ply,
                extra_options: extra,
                board: empty_grid(),
            },
        ),
        (Err(x), _, _, _, _, _, _, _) => Err(x),
        (_, Err(x), _, _, _, _, _, _) => Err(x),
        (_, _, Err(x), _, _, _, _, _) => Err(x),
        (_, _, _, Err(x), _, _, _, _) => Err(x),
        (_, _, _, _, Err(x), _, _, _) => Err(x),
        (_, _, _, _, _, Err(x), _, _) => Err(x),
        (_, _, _, _, _, _, Err(x), _) => Err(x),
        (_, _, _, _, _, _, _, Err(x)) => Err(x),
    }
}

/// `1` for true, `0` for false.
pub open spec fn bit_text(b: bool) -> Seq<char> {
    if b {
        seq!['1']
    } else {
        seq!['0']
    }
}

/// Four truth values as `0` and `1` with commas between them.
pub open spec fn bits_text(q: Seq<bool>) -> Seq<char> {
    join(seq![bit_text(q[0]), bit_text(q[1]), bit_text(q[2]), bit_text(q[3])], ',')
}

/// Four numbers of points with commas between them.
pub open spec fn points_text(q: Seq<u16>) -> Seq<char> {
    join(
        seq![
            decimal(q[0] as nat),
            decimal(q[1] as nat),
            decimal(q[2] as nat),
            decimal(q[3] as nat),
        ],
        ',',
    )
}

/// The tag block of the options, braces included.
pub open spec fn block_text(e: ExtraView) -> Seq<char> {
    seq!['{'] + extra_text(e) + seq!['}']
}

/// The sections of the metadata of `b`: six, and the tag block as the
/// seventh unless every option has its default.
pub open spec fn header_sections(b: BoardView) -> Seq<Seq<char>> {
    let six = seq![
        turn_text(b.turn),
        bits_text(b.dead),
        bits_text(b.castling_king),
        bits_text(b.castling_queen),
        points_text(b.points),
        decimal(b.draw_ply as nat),
    ];
    if b.extra_options == default_extra() {
        six
    } else {
        six.push(block_text(b.extra_options))
    }
}

/// The metadata of `b`: its sections, each followed by a dash.
pub open spec fn header_text(b: BoardView) -> Seq<char> {
    join(header_sections(b), '-').push('-')
}

/// Reads the truth value of `0` or `1`.
pub fn read_bit(s: &[char]) -> (r: Option<bool>)
    ensures
        r == parse_bit(s@),
{
    if text_is(s, "0") {
        Some(false)
    } else if text_is(s, "1") {
        Some(true)
    } else {
        None
    }
}

/// Reads four truth values, each `0` or `1`, with commas between them.
pub fn read_bits(s: &[char]) -> (r: Result<[bool; 4], MetaDataParseError>)
    ensures
        match r {
            Ok(q) => parse_bits(s@) == Ok::<Seq<bool>, MetaDataFault>(q@),
            Err(e) => parse_bits(s@) == Err::<Seq<bool>, MetaDataFault>(e@),
        },
{
    let fields = split_text(s, ',');
    if fields.len() != 4 {
        return Err(MetaDataParseError::BadComma);
    }
    assert(views(fields@)[0] == fields@[0]@);
    assert(views(fields@)[1] == fields@[1]@);
    assert(views(fields@)[2] == fields@[2]@);
    assert(views(fields@)[3] == fields@[3]@);
    let a = match read_bit(fields[0]) {
        Some(b) => b,
        None => {
            return Err(MetaDataParseError::BadComma);
        },
    };
    let b = match read_bit(fields[1]) {
        Some(b) => b,
        None => {
            return Err(MetaDataParseError::BadComma);
        },
    };
    let c = match read_bit(fields[2]) {
        Some(b) => b,
        None => {
            return Err(MetaDataParseError::BadComma);
        },
    };
    let d = match read_bit(fields[3]) {
        Some(b) => b,
        None => {
            return Err(MetaDataParseError::BadComma);
        },
    };
    let q = [a, b, c, d];
    assert(q@ =~= seq![a, b, c, d]);
    Ok(q)
}

/// Reads four numbers of points with commas between them.
pub fn read_points(s: &[char]) -> (r: Result<[u16; 4], MetaDataParseError>)
    ensures
        match r {
            Ok(q) => parse_points(s@) == Ok::<Seq<u16>, MetaDataFault>(q@),
            Err(e) => parse_points(s@) == Err::<Seq<u16>, MetaDataFault>(e@),
        },
{
    let fields = split_text(s, ',');
    let ghost f = split(s@, ',');
    let mut q: [u16; 4] = [0, 0, 0, 0];
    let mut i: usize = 0;
    while i < fields.len() && i < 4
        invariant
            i <= 4,
            i <= fields@.len(),
            views(fields@) == f,
            f == split(s@, ','),
            first_point_fault(f, i as int) is None,
            forall|j: int| 0 <= j < i ==> parse_point(f[j]) == Ok::<u16, MetaDataFault>(q@[j]),
        decreases 4 - i,
    {
        assert(views(fields@)[i as int] == fields@[i as int]@);
        match parse_u16(fields[i]) {
            Ok(v) => {
                q[i] = v;
            },
            Err(e) => {
                proof {
                    let k = if f.len() < 4 {
                        f.len() as int
                    } else {
                        4
                    };
                    assert(f[i as int] == fields@[i as int]@);
                    assert(parse_point(f[i as int]) == Err::<u16, MetaDataFault>(
                        MetaDataFault::BadNumber(e),
                    ));
                    assert(first_point_fault(f, i as int + 1) == Some(MetaDataFault::BadNumber(e)));
                    lemma_point_fault_stays(f, i as int + 1, k);
                }
                return Err(MetaDataParseError::BadNumber(e));
            },
        }
        i += 1;
    }
    if fields.len() != 4 {
        return Err(MetaDataParseError::BadComma);
    }
    assert(q@ =~= seq![
        parse_point(f[0])->Ok_0,
        parse_point(f[1])->Ok_0,
        parse_point(f[2])->Ok_0,
        parse_point(f[3])->Ok_0,
    ]);
    Ok(q)
}

/// A fault among the first fields is still the first fault when more fields
/// are looked at.
pub proof fn lemma_point_fault_stays(f: Seq<Seq<char>>, i: int, k: int)
    requires
        0 <= i <= k,
        first_point_fault(f, i) is Some,
    ensures
        first_point_fault(f, k) == first_point_fault(f, i),
    decreases k - i,
{
    if i < k {
        lemma_point_fault_stays(f, i, k - 1);
    }
}

/// Reads the player whose turn it is.
pub fn read_turn(s: &[char]) -> (r: Result<TurnColor, MetaDataParseError>)
    ensures
        match r {
            Ok(t) => parse_turn(s@) == Ok::<TurnColor, MetaDataFault>(t),
            Err(e) => parse_turn(s@) == Err::<TurnColor, MetaDataFault>(e@),
        },
{
    if text_is(s, "R") {
        Ok(TurnColor::Red)
    } else if text_is(s, "B") {
        Ok(TurnColor::Blue)
    } else if text_is(s, "Y") {
        Ok(TurnColor::Yellow)
    } else if text_is(s, "G") {
        Ok(TurnColor::Green)
    } else {
        Err(MetaDataParseError::BadColor)
    }
}

/// Reads the metadata, without the dash that ends it, into a board with
/// nothing on its grid.
pub fn read_header(s: &[char]) -> (r: Result<Board, MetaDataParseError>)
    ensures
        meta_outcome(r) == parse_header(s@),
{
    let sec = split_text(s, '-');
    let ghost want = split(s@, '-');
    let n = sec.len();
    assert forall|i: int| 0 <= i < n implies want[i] == #[trigger] sec@[i]@ by {
        assert(views(sec@)[i] == sec@[i]@);
    }
    let turn = match read_turn(sec[0]) {
        Ok(t) => t,
        Err(e) => {
            return Err(e);
        },
    };
    if n < 2 {
        return Err(MetaDataParseError::BadDash);
    }
    let dead = match read_bits(sec[1]) {
        Ok(q) => q,
        Err(e) => {
            return Err(e);
        },
    };
    if n < 3 {
        return Err(MetaDataParseError::BadDash);
    }
    let castling_king = match read_bits(sec[2]) {
        Ok(q) => q,
        Err(e) => {
            return Err(e);
        },
    };
    if n < 4 {
        return Err(MetaDataParseError::BadDash);
    }
    let castling_queen = match read_bits(sec[3]) {
        Ok(q) => q,
        Err(e) => {
            return Err(e);
        },
    };
    if n < 5 {
        return Err(MetaDataParseError::BadDash);
    }
    let points = match read_points(sec[4]) {
        Ok(q) => q,
        Err(e) => {
            return Err(e);
        },
    };
    if n < 6 {
        return Err(MetaDataParseError::BadDash);
    }
    let draw_ply = match parse_usize(sec[5]) {
        Ok(v) => v,
        Err(e) => {
            return Err(MetaDataParseError::BadNumber(e));
        },
    };
    let extra_options = if n > 6 {
        match read_extra(sec[6]) {
            Ok(x) => x,
            Err(e) => {
                return Err(e);
            },
        }
    } else {
        Extra::default()
    };
    if n > 7 {
        return Err(MetaDataParseError::BadDash);
    }
    Ok(
        Board {
            turn,
            dead,
            castling_king,
            castling_queen,
            points,
            draw_ply,
            extra_options,
            board: new_grid(),
        },
    )
}

/// Turns `0,1,1,0` into `[false, true, true, false]`.
pub fn fen4_castle_helper(four_digits: &str) -> (r: Result<[bool; 4], MetaDataParseError>)
    ensures
        match r {
            Ok(q) => parse_bits(four_digits@) == Ok::<Seq<bool>, MetaDataFault>(q@),
            Err(e) => parse_bits(four_digits@) == Err::<Seq<bool>, MetaDataFault>(e@),
        },
{
    let chars = chars_of(four_digits);
    read_bits(chars.as_slice())
}

/// Turns `0,1,2,3` into `[0, 1, 2, 3]`.
pub fn fen4_point_helper(four_digits: &str) -> (r: Result<[u16; 4], MetaDataParseError>)
    ensures
        match r {
            Ok(q) => parse_points(four_digits@) == Ok::<Seq<u16>, MetaDataFault>(q@),
            Err(e) => parse_points(four_digits@) == Err::<Seq<u16>, MetaDataFault>(e@),
        },
{
    let chars = chars_of(four_digits);
    read_points(chars.as_slice())
}

/// Reads the metadata, without the dash that ends it, into a board with
/// nothing on its grid.
pub fn parse_meta(meta_data: &str) -> (r: Result<Board, MetaDataParseError>)
    ensures
        meta_outcome(r) == parse_header(meta_data@),
{
    let chars = chars_of(meta_data);
    read_header(chars.as_slice())
}

/// Appends `1` for true, `0` for false.
pub fn write_bit(out: &mut Vec<char>, b: bool)
    ensures
        final(out)@ == old(out)@ + bit_text(b),
{
    if b {
        out.push('1');
    } else {
        out.push('0');
    }
    assert(out@ =~= old(out)@ + bit_text(b));
}

/// Appends four truth values as `0` and `1` with commas between them.
pub fn write_bits(out: &mut Vec<char>, q: &[bool; 4])
    ensures
        final(out)@ == old(out)@ + bits_text(q@),
{
    write_bit(out, q[0]);
    out.push(',');
    write_bit(out, q[1]);
    out.push(',');
    write_bit(out, q[2]);
    out.push(',');
    write_bit(out, q[3]);
    proof {
        lemma_join_four(bit_text(q@[0]), bit_text(q@[1]), bit_text(q@[2]), bit_text(q@[3]), ',');
        assert(out@ =~= old(out)@ + bits_text(q@));
    }
}

/// Appends four numbers of points with commas between them.
pub fn write_points(out: &mut Vec<char>, q: &[u16; 4])
    ensures
        final(out)@ == old(out)@ + points_text(q@),
{
    push_decimal(out, q[0] as u64);
    out.push(',');
    push_decimal(out, q[1] as u64);
    out.push(',');
    push_decimal(out, q[2] as u64);
    out.push(',');
    push_decimal(out, q[3] as u64);
    proof {
        lemma_join_four(
            decimal(q@[0] as nat),
            decimal(q@[1] as nat),
            decimal(q@[2] as nat),
            decimal(q@[3] as nat),
            ',',
        );
        assert(out@ =~= old(out)@ + points_text(q@));
    }
}

} // verus!
