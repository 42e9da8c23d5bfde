use fen4::{Board, Color, Piece, TurnColor};

fn back_rank(board: &Board) -> String {
    let mut rank = String::new();
    for col in 3..11 {
        match board.board[0][col] {
            Piece::Normal(Color::Turn(TurnColor::Red), shape) => rank.push(shape),
            _ => panic!("no red piece on the back rank"),
        }
    }
    rank
}

#[test]
fn known_back_ranks() {
    assert_eq!(back_rank(&Board::chess960(519)), "RNBQKBNR");
    assert_eq!(back_rank(&Board::chess960(1)), "BBQNNRKR");
    assert_eq!(back_rank(&Board::chess960(960)), "RKRNNQBB");
    assert_eq!(back_rank(&Board::chess960(2)), "BQNBNRKR");
    assert_eq!(back_rank(&Board::chess960(17)), "BBNQNRKR");
    assert_eq!(back_rank(&Board::chess960(97)), "BBQNRNKR");
}

#[test]
fn numbers_wrap_around_after_960() {
    assert_eq!(Board::chess960(0), Board::chess960(960));
    assert_eq!(Board::chess960(961), Board::chess960(1));
    assert_eq!(Board::chess960(1479), Board::chess960(519));
    assert_eq!(Board::chess960(1920), Board::chess960(960));
    assert_eq!(Board::chess960(65535), Board::chess960(65535 % 960));
}

#[test]
fn every_variant_is_a_legal_start() {
    let mut seen = std::collections::HashSet::new();
    for n in 1..=960 {
        let rank = back_rank(&Board::chess960(n));
        let squares: Vec<char> = rank.chars().collect();
        let mut sorted = squares.clone();
        sorted.sort();
        assert_eq!(sorted, vec!['B', 'B', 'K', 'N', 'N', 'Q', 'R', 'R']);
        let bishops: Vec<usize> = (0..8).filter(|&i| squares[i] == 'B').collect();
        assert_ne!(bishops[0] % 2, bishops[1] % 2);
        let rooks: Vec<usize> = (0..8).filter(|&i| squares[i] == 'R').collect();
        let king = squares.iter().position(|&c| c == 'K').unwrap();
        assert!(rooks[0] < king && king < rooks[1]);
        assert!(seen.insert(rank));
    }
    assert_eq!(seen.len(), 960);
}

#[test]
fn every_player_has_the_same_back_rank() {
    let board = Board::chess960(300);
    let rank: Vec<char> = back_rank(&board).chars().collect();
    for i in 0..8 {
        assert_eq!(
            board.board[0][i + 3],
            Piece::Normal(Color::Turn(TurnColor::Red), rank[i])
        );
        assert_eq!(
            board.board[i + 3][0],
            Piece::Normal(Color::Turn(TurnColor::Blue), rank[i])
        );
        assert_eq!(
            board.board[13][10 - i],
            Piece::Normal(Color::Turn(TurnColor::Yellow), rank[i])
        );
        assert_eq!(
            board.board[10 - i][13],
            Piece::Normal(Color::Turn(TurnColor::Green), rank[i])
        );
        assert_eq!(
            board.board[1][i + 3],
            Piece::Normal(Color::Turn(TurnColor::Red), 'P')
        );
        assert_eq!(
            board.board[i + 3][1],
            Piece::Normal(Color::Turn(TurnColor::Blue), 'P')
        );
        assert_eq!(
            board.board[12][i + 3],
            Piece::Normal(Color::Turn(TurnColor::Yellow), 'P')
        );
        assert_eq!(
            board.board[i + 3][12],
            Piece::Normal(Color::Turn(TurnColor::Green), 'P')
        );
    }
    let pieces = board
        .board
        .iter()
        .flatten()
        .filter(|square| square.is_piece())
        .count();
    assert_eq!(pieces, 64);
}

#[test]
fn variants_differ_from_the_standard_only_on_the_back_ranks() {
    let standard = Board::default();
    let variant = Board::chess960(1);
    assert_eq!(variant.turn, standard.turn);
    assert_eq!(variant.dead, standard.dead);
    assert_eq!(variant.castling_king, standard.castling_king);
    assert_eq!(variant.castling_queen, standard.castling_queen);
    assert_eq!(variant.points, standard.points);
    assert_eq!(variant.draw_ply, standard.draw_ply);
    assert_eq!(variant.extra_options, standard.extra_options);
    for row in 1..13 {
        for col in 1..13 {
            assert_eq!(variant.board[row][col], standard.board[row][col]);
        }
    }
}

#[test]
fn every_variant_reads_back_as_it_is_written() {
    for n in 1..=960 {
        let board = Board::chess960(n);
        let text = board.to_string().unwrap();
        assert_eq!(text.parse::<Board>(), Ok(board));
    }
}
