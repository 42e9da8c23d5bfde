use fen4::{Color, Piece, PieceParseError, TurnColor};

#[test]
fn malformed_piece_tokens() {
    assert_eq!("".parse::<Piece>(), Err(PieceParseError::BadSize(0)));
    assert_eq!("rKx".parse::<Piece>(), Err(PieceParseError::BadSize(3)));
    assert_eq!("zK".parse::<Piece>(), Err(PieceParseError::BadColor('z')));
}

#[test]
fn piece_tokens_of_wrong_length() {
    assert_eq!("r".parse::<Piece>(), Err(PieceParseError::BadSize(1)));
    assert_eq!("d".parse::<Piece>(), Err(PieceParseError::BadSize(1)));
    assert_eq!("dr".parse::<Piece>(), Err(PieceParseError::BadSize(2)));
    assert_eq!("drKx".parse::<Piece>(), Err(PieceParseError::BadSize(4)));
    assert_eq!("rKxy".parse::<Piece>(), Err(PieceParseError::BadSize(4)));
    assert_eq!("dKx".parse::<Piece>(), Err(PieceParseError::BadSize(3)));
}

#[test]
fn piece_tokens_with_bad_color() {
    assert_eq!("Xa".parse::<Piece>(), Err(PieceParseError::BadColor('X')));
    assert_eq!("RK".parse::<Piece>(), Err(PieceParseError::BadColor('R')));
    assert_eq!("1".parse::<Piece>(), Err(PieceParseError::BadColor('1')));
}

#[test]
fn piece_tokens_read() {
    assert_eq!("X".parse::<Piece>(), Ok(Piece::Wall));
    assert_eq!(
        "rK".parse::<Piece>(),
        Ok(Piece::Normal(Color::Turn(TurnColor::Red), 'K'))
    );
    assert_eq!(
        "bQ".parse::<Piece>(),
        Ok(Piece::Normal(Color::Turn(TurnColor::Blue), 'Q'))
    );
    assert_eq!(
        "yβ".parse::<Piece>(),
        Ok(Piece::Normal(Color::Turn(TurnColor::Yellow), 'β'))
    );
    assert_eq!(
        "gP".parse::<Piece>(),
        Ok(Piece::Normal(Color::Turn(TurnColor::Green), 'P'))
    );
    assert_eq!(
        "dK".parse::<Piece>(),
        Ok(Piece::Normal(Color::Dead(None), 'K'))
    );
    assert_eq!(
        "drK".parse::<Piece>(),
        Ok(Piece::Normal(Color::Dead(Some(TurnColor::Red)), 'K'))
    );
    assert_eq!(
        "dgr".parse::<Piece>(),
        Ok(Piece::Normal(Color::Dead(Some(TurnColor::Green)), 'r'))
    );
    assert_eq!(
        "rX".parse::<Piece>(),
        Ok(Piece::Normal(Color::Turn(TurnColor::Red), 'X'))
    );
}

#[test]
fn piece_tokens_written() {
    assert_eq!(Piece::Empty.to_string(), "");
    assert_eq!(Piece::Wall.to_string(), "X");
    assert_eq!(
        Piece::Normal(Color::Turn(TurnColor::Red), 'K').to_string(),
        "rK"
    );
    assert_eq!(
        Piece::Normal(Color::Dead(Some(TurnColor::Green)), 'Q').to_string(),
        "dgQ"
    );
    assert_eq!(Piece::Normal(Color::Dead(None), 'δ').to_string(), "dδ");
}

#[test]
fn piece_round_trip() {
    let colors = [
        Color::Turn(TurnColor::Red),
        Color::Turn(TurnColor::Blue),
        Color::Turn(TurnColor::Yellow),
        Color::Turn(TurnColor::Green),
        Color::Dead(None),
        Color::Dead(Some(TurnColor::Red)),
        Color::Dead(Some(TurnColor::Blue)),
        Color::Dead(Some(TurnColor::Yellow)),
        Color::Dead(Some(TurnColor::Green)),
    ];
    for color in colors {
        for shape in ['K', 'Q', 'P', 'α', '7', 'x', 'd'] {
            let piece = Piece::Normal(color, shape);
            assert_eq!(piece.to_string().parse::<Piece>(), Ok(piece));
        }
    }
    assert_eq!(Piece::Wall.to_string().parse::<Piece>(), Ok(Piece::Wall));
}

#[test]
fn color_prefixes() {
    assert_eq!(Color::Turn(TurnColor::Red).to_string(), "r");
    assert_eq!(Color::Turn(TurnColor::Blue).to_string(), "b");
    assert_eq!(Color::Turn(TurnColor::Yellow).to_string(), "y");
    assert_eq!(Color::Turn(TurnColor::Green).to_string(), "g");
    assert_eq!(Color::Dead(None).to_string(), "d");
    assert_eq!(Color::Dead(Some(TurnColor::Red)).to_string(), "dr");
    assert_eq!(Color::Dead(Some(TurnColor::Blue)).to_string(), "db");
    assert_eq!(Color::Dead(Some(TurnColor::Yellow)).to_string(), "dy");
    assert_eq!(Color::Dead(Some(TurnColor::Green)).to_string(), "dg");
}

#[test]
fn turn_letters() {
    assert_eq!(TurnColor::Red.to_string(), "R");
    assert_eq!(TurnColor::Blue.to_string(), "B");
    assert_eq!(TurnColor::Yellow.to_string(), "Y");
    assert_eq!(TurnColor::Green.to_string(), "G");
}

#[test]
fn turns_go_round_clockwise() {
    assert_eq!(TurnColor::Red.next(), TurnColor::Blue);
    assert_eq!(TurnColor::Blue.next(), TurnColor::Yellow);
    assert_eq!(TurnColor::Yellow.next(), TurnColor::Green);
    assert_eq!(TurnColor::Green.next(), TurnColor::Red);
    assert_eq!(TurnColor::Red.next().next().next().next(), TurnColor::Red);
}

#[test]
fn turn_ordinals_and_colors() {
    assert_eq!(usize::from(TurnColor::Red), 0);
    assert_eq!(usize::from(TurnColor::Blue), 1);
    assert_eq!(usize::from(&TurnColor::Yellow), 2);
    assert_eq!(usize::from(&TurnColor::Green), 3);
    assert_eq!(Color::from(0), Color::Turn(TurnColor::Red));
    assert_eq!(Color::from(1), Color::Turn(TurnColor::Blue));
    assert_eq!(Color::from(2), Color::Turn(TurnColor::Yellow));
    assert_eq!(Color::from(3), Color::Turn(TurnColor::Green));
    assert_eq!(Color::from(4), Color::Dead(None));
    assert_eq!(Color::from(usize::MAX), Color::Dead(None));
}

#[test]
fn kinds_of_squares() {
    let king = Piece::Normal(Color::Turn(TurnColor::Red), 'K');
    assert!(king.is_piece());
    assert!(!king.is_empty());
    assert!(!Piece::Wall.is_piece());
    assert!(!Piece::Wall.is_empty());
    assert!(Piece::Empty.is_empty());
    assert!(!Piece::Empty.is_piece());
    assert_eq!(Piece::default(), Piece::Empty);
    assert!(Color::Dead(None).is_dead());
    assert!(Color::Dead(Some(TurnColor::Blue)).is_dead());
    assert!(!Color::Turn(TurnColor::Blue).is_dead());
}
