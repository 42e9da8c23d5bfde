use fen4::meta::{fen4_castle_helper, fen4_point_helper, parse_meta};
use fen4::{Extra, MetaDataParseError, NumberParseError, Piece, TurnColor};

#[test]
fn four_truth_values() {
    assert_eq!(
        fen4_castle_helper("0,1,1,0"),
        Ok([false, true, true, false])
    );
    assert_eq!(fen4_castle_helper("1,1,1,1"), Ok([true, true, true, true]));
    assert_eq!(
        fen4_castle_helper("0,0,0,0"),
        Ok([false, false, false, false])
    );
}

#[test]
fn truth_values_of_wrong_count_or_kind() {
    assert_eq!(
        fen4_castle_helper("0,1,1"),
        Err(MetaDataParseError::BadComma)
    );
    assert_eq!(
        fen4_castle_helper("0,1,1,0,1"),
        Err(MetaDataParseError::BadComma)
    );
    assert_eq!(
        fen4_castle_helper("0,1,1,2"),
        Err(MetaDataParseError::BadComma)
    );
    assert_eq!(
        fen4_castle_helper("0,1,,0"),
        Err(MetaDataParseError::BadComma)
    );
    assert_eq!(
        fen4_castle_helper("true,false,true,false"),
        Err(MetaDataParseError::BadComma)
    );
    assert_eq!(fen4_castle_helper(""), Err(MetaDataParseError::BadComma));
}

#[test]
fn four_numbers_of_points() {
    assert_eq!(fen4_point_helper("0,1,2,3"), Ok([0, 1, 2, 3]));
    assert_eq!(
        fen4_point_helper("65535,0,007,+9"),
        Ok([65535, 0, 7, 9])
    );
}

#[test]
fn points_of_wrong_count_or_kind() {
    assert_eq!(
        fen4_point_helper("0,1,2"),
        Err(MetaDataParseError::BadComma)
    );
    assert_eq!(
        fen4_point_helper("0,1,2,3,4"),
        Err(MetaDataParseError::BadComma)
    );
    assert_eq!(
        fen4_point_helper("0,1,2,3,x"),
        Err(MetaDataParseError::BadComma)
    );
    assert_eq!(
        fen4_point_helper("0,x,2,3"),
        Err(MetaDataParseError::BadNumber(
            NumberParseError::InvalidDigit
        ))
    );
    assert_eq!(
        fen4_point_helper("0,x,2"),
        Err(MetaDataParseError::BadNumber(
            NumberParseError::InvalidDigit
        ))
    );
    assert_eq!(
        fen4_point_helper("65536,0,0,0"),
        Err(MetaDataParseError::BadNumber(
            NumberParseError::PosOverflow
        ))
    );
    assert_eq!(
        fen4_point_helper(""),
        Err(MetaDataParseError::BadNumber(NumberParseError::Empty))
    );
}

#[test]
fn metadata_without_a_block() {
    let board = parse_meta("B-1,0,0,1-1,1,0,0-0,1,0,1-10,20,30,40-17").unwrap();
    assert_eq!(board.turn, TurnColor::Blue);
    assert_eq!(board.dead, [true, false, false, true]);
    assert_eq!(board.castling_king, [true, true, false, false]);
    assert_eq!(board.castling_queen, [false, true, false, true]);
    assert_eq!(board.points, [10, 20, 30, 40]);
    assert_eq!(board.draw_ply, 17);
    assert_eq!(board.extra_options, Extra::default());
    for row in board.board.iter() {
        for square in row.iter() {
            assert_eq!(*square, Piece::Empty);
        }
    }
}

#[test]
fn metadata_with_a_block() {
    let board = parse_meta("G-0,0,0,0-0,0,0,0-0,0,0,0-0,0,0,0-3-{'lives':(2,2,2,2)}").unwrap();
    assert_eq!(board.turn, TurnColor::Green);
    assert_eq!(board.draw_ply, 3);
    assert_eq!(board.extra_options.lives, Some([2, 2, 2, 2]));
}

#[test]
fn every_turn_letter() {
    let rest = "-0,0,0,0-0,0,0,0-0,0,0,0-0,0,0,0-0";
    assert_eq!(
        parse_meta(&format!("R{}", rest)).unwrap().turn,
        TurnColor::Red
    );
    assert_eq!(
        parse_meta(&format!("B{}", rest)).unwrap().turn,
        TurnColor::Blue
    );
    assert_eq!(
        parse_meta(&format!("Y{}", rest)).unwrap().turn,
        TurnColor::Yellow
    );
    assert_eq!(
        parse_meta(&format!("G{}", rest)).unwrap().turn,
        TurnColor::Green
    );
}

#[test]
fn metadata_with_bad_turn() {
    let rest = "-0,0,0,0-0,0,0,0-0,0,0,0-0,0,0,0-0";
    assert_eq!(
        parse_meta(&format!("r{}", rest)),
        Err(MetaDataParseError::BadColor)
    );
    assert_eq!(
        parse_meta(&format!("RB{}", rest)),
        Err(MetaDataParseError::BadColor)
    );
    assert_eq!(parse_meta(rest), Err(MetaDataParseError::BadColor));
    assert_eq!(parse_meta(""), Err(MetaDataParseError::BadColor));
}

#[test]
fn metadata_with_missing_or_spare_sections() {
    assert_eq!(parse_meta("R"), Err(MetaDataParseError::BadDash));
    assert_eq!(parse_meta("R-0,0,0,0"), Err(MetaDataParseError::BadDash));
    assert_eq!(
        parse_meta("R-0,0,0,0-0,0,0,0-0,0,0,0-0,0,0,0"),
        Err(MetaDataParseError::BadDash)
    );
    assert_eq!(
        parse_meta("R-0,0,0,0-0,0,0,0-0,0,0,0-0,0,0,0-0-{'std2pc':true}-x"),
        Err(MetaDataParseError::BadDash)
    );
    assert_eq!(
        parse_meta("R-0,0,0,0-0,0,0,0-0,0,0,0-0,0,0,0-0-{'std2pc':true}-"),
        Err(MetaDataParseError::BadDash)
    );
}

#[test]
fn metadata_faults_are_reported_from_the_left() {
    assert_eq!(
        parse_meta("Q-0,0,0-x"),
        Err(MetaDataParseError::BadColor)
    );
    assert_eq!(
        parse_meta("R-0,0,0-x"),
        Err(MetaDataParseError::BadComma)
    );
    assert_eq!(
        parse_meta("R-0,0,0,0-0,0,0,0-0,0,0,0-0,0,0,0-x-{}"),
        Err(MetaDataParseError::BadNumber(
            NumberParseError::InvalidDigit
        ))
    );
    assert_eq!(
        parse_meta("R-0,0,0,0-0,0,0,0-0,0,0,0-0,0,0,0-0-{}-x"),
        Err(MetaDataParseError::BadCurly)
    );
}

#[test]
fn metadata_with_empty_block_is_refused() {
    assert_eq!(
        parse_meta("R-0,0,0,0-0,0,0,0-0,0,0,0-0,0,0,0-0-{}"),
        Err(MetaDataParseError::BadCurly)
    );
    assert_eq!(
        parse_meta("R-0,0,0,0-0,0,0,0-0,0,0,0-0,0,0,0-0-"),
        Err(MetaDataParseError::BadCurly)
    );
}
