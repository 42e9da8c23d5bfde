use fen4::{
    BoardParseError, BoardSize, MetaDataParseError, NumberParseError, PieceParseError,
    PositionParseError,
};

#[test]
fn messages_of_number_faults() {
    assert_eq!(
        NumberParseError::Empty.to_string(),
        "cannot parse integer from empty string"
    );
    assert_eq!(
        NumberParseError::InvalidDigit.to_string(),
        "invalid digit found in string"
    );
    assert_eq!(
        NumberParseError::PosOverflow.to_string(),
        "number too large to fit in target type"
    );
}

#[test]
fn messages_of_number_faults_like_the_standard_library() {
    assert_eq!(
        NumberParseError::Empty.to_string(),
        "".parse::<usize>().unwrap_err().to_string()
    );
    assert_eq!(
        NumberParseError::InvalidDigit.to_string(),
        "x".parse::<usize>().unwrap_err().to_string()
    );
    assert_eq!(
        NumberParseError::PosOverflow.to_string(),
        "256".parse::<u8>().unwrap_err().to_string()
    );
}

#[test]
fn messages_of_position_faults() {
    assert_eq!(
        PositionParseError::ColumnInvalid('z').to_string(),
        "'z' is not a valid column. Valid columns are 'a'-'n'"
    );
    assert_eq!(
        PositionParseError::RowInvalid(15).to_string(),
        "'15' is not a valid row. Valid rows are 1-14"
    );
    assert_eq!(
        PositionParseError::BadSize(4).to_string(),
        "All positions are between 2-3 characters long; This position is 4 characters long"
    );
    assert_eq!(
        PositionParseError::RowNotNumber(NumberParseError::InvalidDigit).to_string(),
        "Row failed to parse as a number because invalid digit found in string"
    );
}

#[test]
fn messages_of_piece_faults() {
    assert_eq!(
        PieceParseError::BadColor('z').to_string(),
        "Bad Color 'z'. Only 'r', 'b', 'y', 'g', and 'd' are valid colors."
    );
    assert_eq!(
        PieceParseError::BadSize(3).to_string(),
        "Bad Size 3. Pieces like \"X\" , \"rK\" or \"drK\" are the only valid types. Longer strings are generally invalid and empty string is purposly left out."
    );
}

#[test]
fn messages_of_metadata_faults() {
    assert_eq!(
        MetaDataParseError::BadDash.to_string(),
        "There should be either 6 or 7 dashes in the metadata"
    );
    assert_eq!(
        MetaDataParseError::BadCurly.to_string(),
        "There should be only two curly braces and they should only be present if there are tagged values"
    );
    assert_eq!(
        MetaDataParseError::BadQuote.to_string(),
        "All tags should be surrounded by single quotes"
    );
    assert_eq!(
        MetaDataParseError::BadColon.to_string(),
        "Colons should separate tag keys and values"
    );
    assert_eq!(
        MetaDataParseError::BadParen.to_string(),
        "Parens should be balanced and only occur within "
    );
    assert_eq!(
        MetaDataParseError::BadColor.to_string(),
        "Only 'R', 'G', 'Y', or 'B' are valid turn colors"
    );
    assert_eq!(
        MetaDataParseError::BadComma.to_string(),
        "Commas should separate arrays and extra tags"
    );
    assert_eq!(
        MetaDataParseError::RepeatedTag.to_string(),
        "Some tag occurred twice"
    );
    assert_eq!(
        MetaDataParseError::BadBoolean.to_string(),
        "Only true and false are valid boolean values"
    );
    assert_eq!(
        MetaDataParseError::UnknownTag(String::from("bogus")).to_string(),
        "Tag 'bogus' is not expected"
    );
    assert_eq!(
        MetaDataParseError::BadPosition(PositionParseError::RowInvalid(0)).to_string(),
        "Somewhere a Position was expected it failed to parse because of '0' is not a valid row. Valid rows are 1-14"
    );
    assert_eq!(
        MetaDataParseError::BadNumber(NumberParseError::Empty).to_string(),
        "Somewhere a number was expected it failed to parse becauses of cannot parse integer from empty string"
    );
}

#[test]
fn messages_of_board_faults() {
    assert_eq!(
        BoardParseError::NoDash.to_string(),
        "No '-' was found in the fen. Fen4's should start with metadata about castling, turn, and more."
    );
    assert_eq!(
        BoardParseError::BadMetaData(MetaDataParseError::RepeatedTag).to_string(),
        "Something went wrong with metadata parsing: Some tag occurred twice"
    );
    assert_eq!(
        BoardParseError::BadBoardSize(BoardSize::TooManyColumns, 5).to_string(),
        "Too many columns in row 5."
    );
    assert_eq!(
        BoardParseError::BadBoardSize(BoardSize::TooFewColumns, 13).to_string(),
        "Not enough columns in row 13."
    );
    assert_eq!(
        BoardParseError::BadBoardSize(BoardSize::TooManyRows, 0).to_string(),
        "Too many rows overall. Make sure there is not a leading or trailing '/'"
    );
    assert_eq!(
        BoardParseError::BadBoardSize(BoardSize::TooFewRows, 2).to_string(),
        "2 too few rows overall. Make sure there is not a missing row."
    );
    assert_eq!(
        BoardParseError::EmptySegment(13, 3).to_string(),
        "Segment at (13,3) is empty which is not valid."
    );
    assert_eq!(
        BoardParseError::BadSegmentNumber(1, 0, NumberParseError::PosOverflow).to_string(),
        "Segment at (1,0) starts with a digit but cannot be parsed as a number because of number too large to fit in target type"
    );
    assert_eq!(
        BoardParseError::BadSegmentPiece(1, 12, PieceParseError::BadColor('+')).to_string(),
        "Segment at (1,12) cannot be parsed as piece because of Bad Color '+'. Only 'r', 'b', 'y', 'g', and 'd' are valid colors."
    );
}
