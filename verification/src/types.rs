//! The values that the notation describes: squares, colours, pieces, the
//! tagged options and the board itself, each with its mathematical model.

use vstd::prelude::*;

verus! {

/// A square of the board, e.g. `a4`.
///
/// Both `row` and `col` count from zero and are below 14 on every square that
/// the codec produces.
#[derive(PartialEq, Eq, Structural, Clone, Copy, Debug, Hash)]
pub struct Position {
    pub row: usize,
    pub col: usize,
}

impl Position {
    /// Whether the square lies on the 14 by 14 board.
    pub open spec fn on_board(self) -> bool {
        self.row < 14 && self.col < 14
    }
}

/// A player, and so a turn. The order is clockwise.
#[derive(Debug, PartialEq, Eq, Structural, PartialOrd, Ord, Clone, Copy, Hash)]
pub enum TurnColor {
    Red,
    Blue,
    Yellow,
    Green,
}

impl TurnColor {
    /// The player who moves after `self`.
    pub open spec fn successor(self) -> TurnColor {
        match self {
            TurnColor::Red => TurnColor::Blue,
            TurnColor::Blue => TurnColor::Yellow,
            TurnColor::Yellow => TurnColor::Green,
            TurnColor::Green => TurnColor::Red,
        }
    }

    /// The place of the player in every per-player quadruple.
    pub open spec fn ordinal(self) -> nat {
        match self {
            TurnColor::Red => 0,
            TurnColor::Blue => 1,
            TurnColor::Yellow => 2,
            TurnColor::Green => 3,
        }
    }

    /// Rotates through the players clockwise: red, blue, yellow, green, red.
    pub fn next(&self) -> (r: Self)
        ensures
            r == self.successor(),
            r.ordinal() == (self.ordinal() + 1) % 4,
    {
        match self {
            TurnColor::Red => TurnColor::Blue,
            TurnColor::Blue => TurnColor::Yellow,
            TurnColor::Yellow => TurnColor::Green,
            TurnColor::Green => TurnColor::Red,
        }
    }
}

/// The colour of a piece: that of a living player, or dead, with or without
/// the memory of the player it belonged to.
#[derive(Debug, PartialEq, Eq, Structural, Clone, Copy, Hash)]
pub enum Color {
    Turn(TurnColor),
    Dead(Option<TurnColor>),
}

impl Color {
    /// Whether the colour is one of the dead ones.
    pub fn is_dead(self) -> (r: bool)
        ensures
            r == (self is Dead),
    {
        match self {
            Color::Dead(_) => true,
            _ => false,
        }
    }
}

/// What stands on a square. A piece is named by the character that the
/// notation uses for it, so every fairy piece has a place.
#[derive(Debug, PartialEq, Eq, Structural, Clone, Copy, Hash)]
pub enum Piece {
    Empty,
    Wall,
    Normal(Color, char),
}

impl Default for Piece {
    fn default() -> (r: Self)
        ensures
            r == Piece::Empty,
    {
        Piece::Empty
    }
}

impl Piece {
    /// Whether the square holds a coloured piece.
    pub fn is_piece(&self) -> (r: bool)
        ensures
            r == (*self is Normal),
    {
        match self {
            Piece::Normal(_, _) => true,
            _ => false,
        }
    }

    /// Whether the square holds nothing.
    pub fn is_empty(&self) -> (r: bool)
        ensures
            r == (*self is Empty),
    {
        match self {
            Piece::Empty => true,
            _ => false,
        }
    }
}

/// The options that a game carries only when a rule variant needs them.
///
/// Every quadruple is in the order red, blue, yellow, green.
#[derive(Debug, PartialEq, Eq, Clone, Hash)]
pub struct Extra {
    /// The square that counts as each player's king.
    pub royal: [Option<Position>; 4],
    /// The lives left to each player in the N-check variant.
    pub lives: Option<[usize; 4]>,
    pub resigned: [bool; 4],
    pub flagged: [bool; 4],
    pub stalemated: [bool; 4],
    pub zombie_immune: [bool; 4],
    pub zombie_type: [String; 4],
    /// For each player the square on which a pawn can be taken in passing,
    /// and the square from which the pawn is then removed.
    pub enpassant: [Option<(Position, Position)>; 4],
    /// The rank from which pawns may advance two squares; 2 unless stated.
    pub pawnbaserank: usize,
    pub uniquify: usize,
    pub std2pc: bool,
    /// The message shown at the end of a game; empty unless stated.
    pub game_over: String,
}

/// The mathematical model of [`Extra`].
pub struct ExtraView {
    pub royal: Seq<Option<Position>>,
    pub lives: Option<Seq<usize>>,
    pub resigned: Seq<bool>,
    pub flagged: Seq<bool>,
    pub stalemated: Seq<bool>,
    pub zombie_immune: Seq<bool>,
    pub zombie_type: Seq<Seq<char>>,
    pub enpassant: Seq<Option<(Position, Position)>>,
    pub pawnbaserank: usize,
    pub uniquify: usize,
    pub std2pc: bool,
    pub game_over: Seq<char>,
}

/// Four times the same value.
pub open spec fn four<T>(x: T) -> Seq<T> {
    seq![x, x, x, x]
}

/// The options of a game that states none.
pub open spec fn default_extra() -> ExtraView {
    ExtraView {
        royal: four(None),
        lives: None,
        resigned: four(false),
        flagged: four(false),
        stalemated: four(false),
        zombie_immune: four(false),
        zombie_type: four(Seq::empty()),
        enpassant: four(None),
        pawnbaserank: 2,
        uniquify: 0,
        std2pc: false,
        game_over: Seq::empty(),
    }
}

impl View for Extra {
    type V = ExtraView;

    open spec fn view(&self) -> ExtraView {
        ExtraView {
            royal: self.royal@,
            lives: match self.lives {
                Some(l) => Some(l@),
                None => None,
            },
            resigned: self.resigned@,
            flagged: self.flagged@,
            stalemated: self.stalemated@,
            zombie_immune: self.zombie_immune@,
            zombie_type: Seq::new(4, |i: int| self.zombie_type[i]@),
            enpassant: self.enpassant@,
            pawnbaserank: self.pawnbaserank,
            uniquify: self.uniquify,
            std2pc: self.std2pc,
            game_over: self.game_over@,
        }
    }
}

impl Default for Extra {
    fn default() -> (r: Self)
        ensures
            r@ == default_extra(),
    {
        let r = Extra {
            royal: [None, None, None, None],
            lives: None,
            resigned: [false, false, false, false],
            flagged: [false, false, false, false],
            stalemated: [false, false, false, false],
            zombie_immune: [false, false, false, false],
            zombie_type: [String::new(), String::new(), String::new(), String::new()],
            enpassant: [None, None, None, None],
            pawnbaserank: 2,
            uniquify: 0,
            std2pc: false,
            game_over: String::new(),
        };
        proof {
            let d = default_extra();
            assert(r@.royal =~= d.royal);
            assert(r@.resigned =~= d.resigned);
            assert(r@.flagged =~= d.flagged);
            assert(r@.stalemated =~= d.stalemated);
            assert(r@.zombie_immune =~= d.zombie_immune);
            assert(r@.zombie_type =~= d.zombie_type);
            assert(r@.enpassant =~= d.enpassant);
        }
        r
    }
}

/// A position of a four-player game: the header of the notation and the
/// 14 by 14 grid below it.
///
/// `board[0]` is rank 1, the rank nearest to red; `board[r][0]` is file `a`.
#[derive(Debug, PartialEq, Eq, Clone, Hash)]
pub struct Board {
    pub turn: TurnColor,
    pub dead: [bool; 4],
    pub castling_king: [bool; 4],
    pub castling_queen: [bool; 4],
    pub points: [u16; 4],
    /// Plies since the last pawn move or capture.
    pub draw_ply: usize,
    pub extra_options: Extra,
    pub board: [[Piece; 14]; 14],
}

/// The mathematical model of [`Board`].
pub struct BoardView {
    pub turn: TurnColor,
    pub dead: Seq<bool>,
    pub castling_king: Seq<bool>,
    pub castling_queen: Seq<bool>,
    pub points: Seq<u16>,
    pub draw_ply: usize,
    pub extra_options: ExtraView,
    pub board: Seq<Seq<Piece>>,
}

/// The model of a grid: 14 rows of 14 squares, rank 1 first.
pub open spec fn grid_view(grid: [[Piece; 14]; 14]) -> Seq<Seq<Piece>> {
    Seq::new(14, |r: int| grid[r]@)
}

/// A grid with nothing on it.
pub open spec fn empty_grid() -> Seq<Seq<Piece>> {
    Seq::new(14, |r: int| Seq::new(14, |c: int| Piece::Empty))
}

impl View for Board {
    type V = BoardView;

    open spec fn view(&self) -> BoardView {
        BoardView {
            turn: self.turn,
            dead: self.dead@,
            castling_king: self.castling_king@,
            castling_queen: self.castling_queen@,
            points: self.points@,
            draw_ply: self.draw_ply,
            extra_options: self.extra_options@,
            board: grid_view(self.board),
        }
    }
}

/// A grid with nothing on it.
pub fn new_grid() -> (grid: [[Piece; 14]; 14])
    ensures
        grid_view(grid) == empty_grid(),
{
    let e = Piece::Empty;
    let row = [e, e, e, e, e, e, e, e, e, e, e, e, e, e];
    let grid = [row, row, row, row, row, row, row, row, row, row, row, row, row, row];
    assert(grid_view(grid) =~= empty_grid()) by {
        assert forall|r: int| 0 <= r < 14 implies #[trigger] grid_view(grid)[r] =~= empty_grid()[r] by {
            assert(grid[r] == row);
        }
    }
    grid
}

} // verus!
