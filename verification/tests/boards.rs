use fen4::{
    Board, BoardParseError, BoardSize, Color, Extra, MetaDataParseError, NumberParseError, Piece,
    PieceParseError, Position, TurnColor, DEFAULT_FEN,
};

const HEADER: &str = "R-0,0,0,0-1,1,1,1-1,1,1,1-0,0,0,0-0-";

fn with_rows(rows: &[&str]) -> String {
    format!("{}{}", HEADER, rows.join("/"))
}

fn with_row_at(line: usize, row: &str) -> String {
    let mut rows = vec!["14"; 14];
    rows[line] = row;
    with_rows(&rows)
}

#[test]
fn plain_header_and_fourteen_rows() {
    let text = with_rows(&[
        "14",
        "14",
        "14",
        "3,rK,10",
        "14",
        "X,12,X",
        "14",
        "14",
        "14",
        "14",
        "14",
        "14",
        "14",
        "yQ,13",
    ]);
    let board: Board = text.parse().unwrap();
    assert_eq!(board.turn, TurnColor::Red);
    assert_eq!(board.dead, [false, false, false, false]);
    assert_eq!(board.castling_king, [true, true, true, true]);
    assert_eq!(board.castling_queen, [true, true, true, true]);
    assert_eq!(board.points, [0, 0, 0, 0]);
    assert_eq!(board.draw_ply, 0);
    assert_eq!(board.extra_options, Extra::default());
    assert_eq!(
        board.board[10][3],
        Piece::Normal(Color::Turn(TurnColor::Red), 'K')
    );
    assert_eq!(board.board[8][0], Piece::Wall);
    assert_eq!(board.board[8][13], Piece::Wall);
    assert_eq!(board.board[8][1], Piece::Empty);
    assert_eq!(
        board.board[0][0],
        Piece::Normal(Color::Turn(TurnColor::Yellow), 'Q')
    );
    assert_eq!(board.board[13][0], Piece::Empty);
}

#[test]
fn empty_board() {
    let text = "R-0,0,0,0-0,0,0,0-0,0,0,0-0,0,0,0-0-14/14/14/14/14/14/14/14/14/14/14/14/14/14";
    let board: Board = text.parse().unwrap();
    for row in board.board.iter() {
        for square in row.iter() {
            assert!(square.is_empty());
        }
    }
    assert_eq!(
        board.to_string().unwrap(),
        "R-0,0,0,0-0,0,0,0-0,0,0,0-0,0,0,0-0-\n14/\n14/\n14/\n14/\n14/\n14/\n14/\n14/\n14/\n14/\n14/\n14/\n14/\n14"
    );
}

#[test]
fn standard_position_reads_and_writes_as_its_text() {
    let board: Board = DEFAULT_FEN.parse().unwrap();
    assert_eq!(board, Board::default());
    assert_eq!(board.to_string().unwrap(), DEFAULT_FEN);
    assert_eq!(Board::default().to_string().unwrap(), DEFAULT_FEN);
}

#[test]
fn board_with_default_options_has_no_block() {
    let text = Board::default().to_string().unwrap();
    assert!(!text.contains('{'));
    assert!(!text.contains('}'));
    assert!(text.starts_with("R-0,0,0,0-1,1,1,1-1,1,1,1-0,0,0,0-0-\n"));
}

#[test]
fn board_with_options_has_a_block() {
    let mut board = Board::default();
    board.extra_options.pawnbaserank = 3;
    let text = board.to_string().unwrap();
    assert!(text.starts_with("R-0,0,0,0-1,1,1,1-1,1,1,1-0,0,0,0-0-{'pawnsBaseRank':3}-\n3,yR"));
    assert_eq!(text.parse::<Board>(), Ok(board));
}

#[test]
fn board_with_empty_block_is_refused() {
    let text = format!(
        "R-0,0,0,0-1,1,1,1-1,1,1,1-0,0,0,0-0-{{}}-{}",
        vec!["14"; 14].join("/")
    );
    assert_eq!(
        text.parse::<Board>(),
        Err(BoardParseError::BadMetaData(MetaDataParseError::BadCurly))
    );
}

#[test]
fn text_without_dash_is_refused() {
    assert_eq!("".parse::<Board>(), Err(BoardParseError::NoDash));
    assert_eq!("14/14".parse::<Board>(), Err(BoardParseError::NoDash));
}

#[test]
fn fault_of_the_metadata_is_wrapped() {
    let rows = vec!["14"; 14].join("/");
    assert_eq!(
        format!("Q-0,0,0,0-1,1,1,1-1,1,1,1-0,0,0,0-0-{}", rows).parse::<Board>(),
        Err(BoardParseError::BadMetaData(MetaDataParseError::BadColor))
    );
    assert_eq!(
        format!("R-0,0,0,0-1,1,1,1-1,1,1,1-0,0,0,0-{}", rows).parse::<Board>(),
        Err(BoardParseError::BadMetaData(MetaDataParseError::BadDash))
    );
    assert_eq!(
        format!("R-0,0,0,0-1,1,1,1-1,1,1,1-0,0,0,0-0-{{'bogus':1}}-{}", rows).parse::<Board>(),
        Err(BoardParseError::BadMetaData(
            MetaDataParseError::UnknownTag(String::from("bogus"))
        ))
    );
    assert_eq!(
        format!("R-0,0,0,0-1,1,1,1-1,1,1,1-0,0,0,0-x-{}", rows).parse::<Board>(),
        Err(BoardParseError::BadMetaData(MetaDataParseError::BadNumber(
            NumberParseError::InvalidDigit
        )))
    );
    assert_eq!(
        "-".parse::<Board>(),
        Err(BoardParseError::BadMetaData(MetaDataParseError::BadColor))
    );
}

#[test]
fn fault_of_the_metadata_comes_before_fault_of_the_grid() {
    assert_eq!(
        "Q-nonsense".parse::<Board>(),
        Err(BoardParseError::BadMetaData(MetaDataParseError::BadColor))
    );
}

#[test]
fn row_of_thirteen_columns_has_too_few() {
    assert_eq!(
        with_row_at(0, "13").parse::<Board>(),
        Err(BoardParseError::BadBoardSize(BoardSize::TooFewColumns, 13))
    );
    assert_eq!(
        with_row_at(8, "3,rK,9").parse::<Board>(),
        Err(BoardParseError::BadBoardSize(BoardSize::TooFewColumns, 5))
    );
    assert_eq!(
        with_row_at(13, "rK,rQ").parse::<Board>(),
        Err(BoardParseError::BadBoardSize(BoardSize::TooFewColumns, 0))
    );
    assert_eq!(
        with_row_at(4, "0").parse::<Board>(),
        Err(BoardParseError::BadBoardSize(BoardSize::TooFewColumns, 9))
    );
}

#[test]
fn row_of_fifteen_columns_has_too_many() {
    assert_eq!(
        with_row_at(0, "15").parse::<Board>(),
        Err(BoardParseError::BadBoardSize(
            BoardSize::TooManyColumns,
            13
        ))
    );
    assert_eq!(
        with_row_at(8, "3,rK,11").parse::<Board>(),
        Err(BoardParseError::BadBoardSize(BoardSize::TooManyColumns, 5))
    );
    assert_eq!(
        with_row_at(13, "14,rK").parse::<Board>(),
        Err(BoardParseError::BadBoardSize(BoardSize::TooManyColumns, 0))
    );
    assert_eq!(
        with_row_at(13, "3,rP,rP,rP,rP,rP,rP,rP,rP,4").parse::<Board>(),
        Err(BoardParseError::BadBoardSize(BoardSize::TooManyColumns, 0))
    );
    assert_eq!(
        with_row_at(2, "1,18446744073709551615").parse::<Board>(),
        Err(BoardParseError::BadBoardSize(
            BoardSize::TooManyColumns,
            11
        ))
    );
}

#[test]
fn segment_behind_a_full_row_is_one_too_many() {
    assert_eq!(
        with_row_at(13, "14,0").parse::<Board>(),
        Err(BoardParseError::BadBoardSize(BoardSize::TooManyColumns, 0))
    );
    assert_eq!(
        with_row_at(13, "14,").parse::<Board>(),
        Err(BoardParseError::BadBoardSize(BoardSize::TooManyColumns, 0))
    );
}

#[test]
fn run_of_no_squares_is_read() {
    let board: Board = with_row_at(13, "0,7,0,rK,0,6").parse().unwrap();
    assert_eq!(
        board.board[0][7],
        Piece::Normal(Color::Turn(TurnColor::Red), 'K')
    );
}

#[test]
fn too_many_rows() {
    let rows = vec!["14"; 15];
    assert_eq!(
        with_rows(&rows).parse::<Board>(),
        Err(BoardParseError::BadBoardSize(BoardSize::TooManyRows, 0))
    );
    let mut rows = vec!["14"; 14];
    rows.push("");
    assert_eq!(
        with_rows(&rows).parse::<Board>(),
        Err(BoardParseError::BadBoardSize(BoardSize::TooManyRows, 0))
    );
}

#[test]
fn too_few_rows() {
    let rows = vec!["14"; 13];
    assert_eq!(
        with_rows(&rows).parse::<Board>(),
        Err(BoardParseError::BadBoardSize(BoardSize::TooFewRows, 1))
    );
    let rows = vec!["14"; 4];
    assert_eq!(
        with_rows(&rows).parse::<Board>(),
        Err(BoardParseError::BadBoardSize(BoardSize::TooFewRows, 10))
    );
}

#[test]
fn empty_segment_is_refused_with_its_place() {
    assert_eq!(
        with_row_at(0, "3,,11").parse::<Board>(),
        Err(BoardParseError::EmptySegment(13, 3))
    );
    assert_eq!(
        with_row_at(6, ",14").parse::<Board>(),
        Err(BoardParseError::EmptySegment(7, 0))
    );
    assert_eq!(
        with_row_at(13, "13,").parse::<Board>(),
        Err(BoardParseError::EmptySegment(0, 13))
    );
    assert_eq!(
        with_row_at(13, "5, \n ,9").parse::<Board>(),
        Err(BoardParseError::EmptySegment(0, 5))
    );
    assert_eq!(
        HEADER.parse::<Board>(),
        Err(BoardParseError::EmptySegment(13, 0))
    );
}

#[test]
fn segment_that_starts_with_a_digit_and_is_no_number() {
    assert_eq!(
        with_row_at(0, "1x,13").parse::<Board>(),
        Err(BoardParseError::BadSegmentNumber(
            13,
            0,
            NumberParseError::InvalidDigit
        ))
    );
    assert_eq!(
        with_row_at(3, "2,99999999999999999999999").parse::<Board>(),
        Err(BoardParseError::BadSegmentNumber(
            10,
            2,
            NumberParseError::PosOverflow
        ))
    );
}

#[test]
fn segment_that_names_no_piece() {
    assert_eq!(
        with_row_at(0, "4,zK,9").parse::<Board>(),
        Err(BoardParseError::BadSegmentPiece(
            13,
            4,
            PieceParseError::BadColor('z')
        ))
    );
    assert_eq!(
        with_row_at(12, "rKx,13").parse::<Board>(),
        Err(BoardParseError::BadSegmentPiece(
            1,
            0,
            PieceParseError::BadSize(3)
        ))
    );
    assert_eq!(
        with_row_at(12, "+5,9").parse::<Board>(),
        Err(BoardParseError::BadSegmentPiece(
            1,
            0,
            PieceParseError::BadColor('+')
        ))
    );
}

#[test]
fn first_fault_of_the_grid_is_reported() {
    let mut rows = vec!["14"; 15];
    rows[3] = "zK,13";
    assert_eq!(
        with_rows(&rows).parse::<Board>(),
        Err(BoardParseError::BadSegmentPiece(
            10,
            0,
            PieceParseError::BadColor('z')
        ))
    );
}

#[test]
fn whitespace_around_segments_is_dropped() {
    let text = with_rows(&[
        " 14 ",
        "\n14",
        "14\n",
        "\t3 , rK ,10",
        "14",
        "14",
        "14",
        "14",
        "14",
        "14",
        "14",
        "14",
        "14",
        "\u{a0}14\u{3000}",
    ]);
    let board: Board = text.parse().unwrap();
    assert_eq!(
        board.board[10][3],
        Piece::Normal(Color::Turn(TurnColor::Red), 'K')
    );
}

#[test]
fn board_reads_back_as_it_was_written() {
    let mut board = Board::chess960(123);
    board.turn = TurnColor::Yellow;
    board.dead = [false, true, false, false];
    board.castling_king = [true, false, true, false];
    board.castling_queen = [false, false, true, true];
    board.points = [0, 65535, 17, 3];
    board.draw_ply = 49;
    board.extra_options.royal[0] = Some(Position { row: 0, col: 7 });
    board.extra_options.lives = Some([3, 3, 0, 3]);
    board.extra_options.resigned = [false, true, false, false];
    board.extra_options.zombie_type[1] = String::from("muncher");
    board.extra_options.enpassant[2] =
        Some((Position { row: 11, col: 5 }, Position { row: 10, col: 5 }));
    board.extra_options.uniquify = 94403;
    board.extra_options.std2pc = true;
    board.extra_options.game_over = String::from("Green checkmated Blue!");
    board.board[6][6] = Piece::Wall;
    board.board[7][7] = Piece::Normal(Color::Dead(None), 'K');
    board.board[7][8] = Piece::Normal(Color::Dead(Some(TurnColor::Blue)), 'β');
    board.board[13][13] = Piece::Normal(Color::Turn(TurnColor::Green), '{');
    let text = board.to_string().unwrap();
    assert_eq!(text.parse::<Board>(), Ok(board));
}

#[test]
fn board_that_was_read_is_written_and_read_again() {
    let text = "Y-1,0,0,0-1,1,1,0-0,1,0,0-1,2,3,4-12-{'std2pc':true,'lives':(2,2,2,2)}-\
14/14/14/14/1,dK,drQ,11/14/X,X,X,11/14/14/14/14/14/14/13,gW";
    let board: Board = text.parse().unwrap();
    let written = board.to_string().unwrap();
    assert_eq!(
        written,
        "Y-1,0,0,0-1,1,1,0-0,1,0,0-1,2,3,4-12-{'lives':(2,2,2,2),'std2pc':true}-\n\
14/\n14/\n14/\n14/\n1,dK,drQ,11/\n14/\nX,X,X,11/\n14/\n14/\n14/\n14/\n14/\n14/\n13,gW"
    );
    assert_eq!(written.parse::<Board>(), Ok(board));
}

#[test]
fn board_with_a_square_off_the_board_is_not_written() {
    let mut board = Board::default();
    board.extra_options.royal[3] = Some(Position { row: 3, col: 14 });
    assert_eq!(board.to_string(), None);
}
