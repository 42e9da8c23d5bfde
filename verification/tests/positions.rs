use fen4::{NumberParseError, Position, PositionParseError};

#[test]
fn position_round_trip_on_every_square() {
    for row in 0..14 {
        for col in 0..14 {
            let position = Position { row, col };
            let text = position.to_string().unwrap();
            assert_eq!(text.parse::<Position>(), Ok(position));
        }
    }
}

#[test]
fn position_names() {
    assert_eq!(Position { row: 3, col: 0 }.to_string().unwrap(), "a4");
    assert_eq!(Position { row: 0, col: 0 }.to_string().unwrap(), "a1");
    assert_eq!(Position { row: 13, col: 13 }.to_string().unwrap(), "n14");
    assert_eq!(Position { row: 9, col: 3 }.to_string().unwrap(), "d10");
    assert_eq!("a4".parse::<Position>(), Ok(Position { row: 3, col: 0 }));
    assert_eq!("n14".parse::<Position>(), Ok(Position { row: 13, col: 13 }));
    assert_eq!("j3".parse::<Position>(), Ok(Position { row: 2, col: 9 }));
}

#[test]
fn position_off_the_board_is_not_written() {
    assert_eq!(Position { row: 14, col: 0 }.to_string(), None);
    assert_eq!(Position { row: 0, col: 14 }.to_string(), None);
    assert_eq!(Position { row: 14, col: 14 }.to_string(), None);
    assert_eq!(
        Position {
            row: usize::MAX,
            col: usize::MAX
        }
        .to_string(),
        None
    );
}

#[test]
fn position_of_wrong_size() {
    assert_eq!("".parse::<Position>(), Err(PositionParseError::BadSize(0)));
    assert_eq!("a".parse::<Position>(), Err(PositionParseError::BadSize(1)));
    assert_eq!(
        "a100".parse::<Position>(),
        Err(PositionParseError::BadSize(4))
    );
}

#[test]
fn position_with_bad_column() {
    assert_eq!(
        "o4".parse::<Position>(),
        Err(PositionParseError::ColumnInvalid('o'))
    );
    assert_eq!(
        "A4".parse::<Position>(),
        Err(PositionParseError::ColumnInvalid('A'))
    );
    assert_eq!(
        "44".parse::<Position>(),
        Err(PositionParseError::ColumnInvalid('4'))
    );
}

#[test]
fn position_with_bad_row() {
    assert_eq!(
        "a0".parse::<Position>(),
        Err(PositionParseError::RowInvalid(0))
    );
    assert_eq!(
        "a15".parse::<Position>(),
        Err(PositionParseError::RowInvalid(15))
    );
    assert_eq!(
        "a99".parse::<Position>(),
        Err(PositionParseError::RowInvalid(99))
    );
}

#[test]
fn position_with_row_that_is_no_number() {
    assert_eq!(
        "ax".parse::<Position>(),
        Err(PositionParseError::RowNotNumber(
            NumberParseError::InvalidDigit
        ))
    );
    assert_eq!(
        "a1x".parse::<Position>(),
        Err(PositionParseError::RowNotNumber(
            NumberParseError::InvalidDigit
        ))
    );
    assert_eq!(
        "a+".parse::<Position>(),
        Err(PositionParseError::RowNotNumber(
            NumberParseError::InvalidDigit
        ))
    );
}

#[test]
fn position_row_may_carry_a_plus() {
    assert_eq!("a+5".parse::<Position>(), Ok(Position { row: 4, col: 0 }));
}

#[test]
fn position_from_a_pair_and_back() {
    let position = Position::from((3, 7));
    assert_eq!(position, Position { row: 3, col: 7 });
    assert_eq!(Position::from(&(3, 7)), position);
    let pair: (usize, usize) = position.into();
    assert_eq!(pair, (3, 7));
    let pair: (usize, usize) = (&position).into();
    assert_eq!(pair, (3, 7));
}
