//! Starting positions: the standard one, and the 960 that differ from it in
//! the order of the pieces on the back ranks.

use crate::board::read_board;
use crate::standard_laws::lemma_standard_reads;
use crate::text::chars_of;
use crate::types::{default_extra, Board, BoardView, Color, Piece, TurnColor};
use crate::variant_laws::{lemma_back_rank_legal, rank_legal};
use vstd::prelude::*;

verus! {

/// The text of the standard starting position.
pub const DEFAULT_FEN: &'static str = "R-0,0,0,0-1,1,1,1-1,1,1,1-0,0,0,0-0-
3,yR,yN,yB,yK,yQ,yB,yN,yR,3/
3,yP,yP,yP,yP,yP,yP,yP,yP,3/
14/
bR,bP,10,gP,gR/
bN,bP,10,gP,gN/
bB,bP,10,gP,gB/
bK,bP,10,gP,gQ/
bQ,bP,10,gP,gK/
bB,bP,10,gP,gB/
bN,bP,10,gP,gN/
bR,bP,10,gP,gR/
14/
3,rP,rP,rP,rP,rP,rP,rP,rP,3/
3,rR,rN,rB,rQ,rK,rB,rN,rR,3";

/// The mark of a square of a back rank on which no piece stands yet.
pub const FREE: char = ' ';

/// The index of the first free square of `rank`, from index `from` on, that
/// has `skip` free squares between `from` and itself, or the length of
/// `rank` if there is none.
pub open spec fn free_from(rank: Seq<char>, from: int, skip: nat) -> int
    decreases rank.len() - from,
{
    if from >= rank.len() {
        rank.len() as int
    } else if rank[from] != FREE {
        free_from(rank, from + 1, skip)
    } else if skip == 0 {
        from
    } else {
        free_from(rank, from + 1, (skip - 1) as nat)
    }
}

/// The index of the free square of `rank` that has `skip` free squares in
/// front of it, or the length of `rank` if there is none.
pub open spec fn nth_free(rank: Seq<char>, skip: nat) -> int {
    free_from(rank, 0, skip)
}

/// `rank` with `piece` on the free square that has `skip` free squares in
/// front of it; `rank` itself if there is no such square.
pub open spec fn place(rank: Seq<char>, skip: nat, piece: char) -> Seq<char> {
    let at = nth_free(rank, skip);
    if 0 <= at < rank.len() {
        rank.update(at, piece)
    } else {
        rank
    }
}

/// The free squares that the two knights take, the second counted after the
/// first was placed: the ten ways to choose two of five squares.
pub open spec fn knight_slots(k: nat) -> (nat, nat) {
    if k == 0 {
        (0, 0)
    } else if k == 1 {
        (0, 1)
    } else if k == 2 {
        (0, 2)
    } else if k == 3 {
        (0, 3)
    } else if k == 4 {
        (1, 1)
    } else if k == 5 {
        (1, 2)
    } else if k == 6 {
        (1, 3)
    } else if k == 7 {
        (2, 2)
    } else if k == 8 {
        (2, 3)
    } else {
        (3, 3)
    }
}

/// A back rank on which nothing stands yet.
pub open spec fn free_rank() -> Seq<char> {
    Seq::new(8, |i: int| FREE)
}

/// The place of the starting position `n` among the 960, counted from zero.
/// Positions are numbered from 1; the numbers wrap around after 960.
pub open spec fn variant_index(n: u16) -> nat {
    ((n + 959) % 960) as nat
}

/// The back rank of the starting position `n`, from the left of its player.
///
/// The index is taken apart by 4, 4, 6 and 10: a bishop on one of the four
/// squares of odd index, a bishop on one of the four squares of even index,
/// the queen on one of the six squares left, the knights on two of the five
/// squares left, and on the last three a rook, the king and a rook.
pub open spec fn back_rank(n: u16) -> Seq<char> {
    let k = variant_index(n);
    let bishop1 = 2 * (k % 4) + 1;
    let bishop2 = 2 * ((k / 4) % 4);
    let queen = (k / 16) % 6;
    let knights = knight_slots(k / 96);
    let bishops = free_rank().update(bishop1 as int, 'B').update(bishop2 as int, 'B');
    let minor = place(place(place(bishops, queen, 'Q'), knights.0, 'N'), knights.1, 'N');
    place(place(place(minor, 0, 'R'), 0, 'K'), 0, 'R')
}

/// The back rank of the standard starting position.
pub open spec fn standard_rank() -> Seq<char> {
    seq!['R', 'N', 'B', 'Q', 'K', 'B', 'N', 'R']
}

/// What stands on the square at row `r` and column `c` at the start of a
/// game with the back rank `rank`.
///
/// Red has rows 0 and 1, yellow rows 13 and 12, blue columns 0 and 1, green
/// columns 13 and 12, each on the eight squares in the middle of its side.
/// Every player has `rank` from their own left to their own right: red and
/// blue along rising indices, yellow and green along falling ones.
pub open spec fn start_cell(rank: Seq<char>, r: int, c: int) -> Piece {
    let red = Color::Turn(TurnColor::Red);
    let blue = Color::Turn(TurnColor::Blue);
    let yellow = Color::Turn(TurnColor::Yellow);
    let green = Color::Turn(TurnColor::Green);
    if 3 <= c <= 10 && r == 0 {
        Piece::Normal(red, rank[c - 3])
    } else if 3 <= c <= 10 && r == 1 {
        Piece::Normal(red, 'P')
    } else if 3 <= c <= 10 && r == 12 {
        Piece::Normal(yellow, 'P')
    } else if 3 <= c <= 10 && r == 13 {
        Piece::Normal(yellow, rank[10 - c])
    } else if 3 <= r <= 10 && c == 0 {
        Piece::Normal(blue, rank[r - 3])
    } else if 3 <= r <= 10 && c == 1 {
        Piece::Normal(blue, 'P')
    } else if 3 <= r <= 10 && c == 12 {
        Piece::Normal(green, 'P')
    } else if 3 <= r <= 10 && c == 13 {
        Piece::Normal(green, rank[10 - r])
    } else {
        Piece::Empty
    }
}

/// The grid at the start of a game with the back rank `rank`.
pub open spec fn start_grid(rank: Seq<char>) -> Seq<Seq<Piece>> {
    Seq::new(14, |r: int| Seq::new(14, |c: int| start_cell(rank, r, c)))
}

/// The board at the start of a game with the back rank `rank`: red to move,
/// nobody dead, every castling right, no points, no options.
pub open spec fn start_board(rank: Seq<char>) -> BoardView {
    BoardView {
        turn: TurnColor::Red,
        dead: seq![false, false, false, false],
        castling_king: seq![true, true, true, true],
        castling_queen: seq![true, true, true, true],
        points: seq![0u16, 0u16, 0u16, 0u16],
        draw_ply: 0,
        extra_options: default_extra(),
        board: start_grid(rank),
    }
}

/// Starting position 519 is the standard one.
pub proof fn lemma_standard_is_519()
    ensures
        back_rank(519) == standard_rank(),
        start_board(back_rank(519)) == start_board(standard_rank()),
{
    reveal_with_fuel(free_from, 10);
    let f = FREE;
    let bishops = free_rank().update(5, 'B').update(2, 'B');
    assert(bishops =~= seq![f, f, 'B', f, f, 'B', f, f]);
    let q = place(bishops, 2, 'Q');
    assert(q =~= seq![f, f, 'B', 'Q', f, 'B', f, f]);
    let n1 = place(q, 1, 'N');
    assert(n1 =~= seq![f, 'N', 'B', 'Q', f, 'B', f, f]);
    let n2 = place(n1, 2, 'N');
    assert(n2 =~= seq![f, 'N', 'B', 'Q', f, 'B', 'N', f]);
    let r1 = place(n2, 0, 'R');
    assert(r1 =~= seq!['R', 'N', 'B', 'Q', f, 'B', 'N', f]);
    let k = place(r1, 0, 'K');
    assert(k =~= seq!['R', 'N', 'B', 'Q', 'K', 'B', 'N', f]);
    let r2 = place(k, 0, 'R');
    assert(r2 =~= standard_rank());
    assert(knight_slots(5) == (1nat, 2nat));
    assert(back_rank(519) == r2);
}

/// Starting position 1 has the bishops on the first two squares, then the
/// queen, the knights, a rook, the king and a rook.
pub proof fn lemma_first_variant()
    ensures
        back_rank(1) == seq!['B', 'B', 'Q', 'N', 'N', 'R', 'K', 'R'],
{
    reveal_with_fuel(free_from, 10);
    let f = FREE;
    let bishops = free_rank().update(1, 'B').update(0, 'B');
    assert(bishops =~= seq!['B', 'B', f, f, f, f, f, f]);
    let q = place(bishops, 0, 'Q');
    assert(q =~= seq!['B', 'B', 'Q', f, f, f, f, f]);
    let n1 = place(q, 0, 'N');
    assert(n1 =~= seq!['B', 'B', 'Q', 'N', f, f, f, f]);
    let n2 = place(n1, 0, 'N');
    assert(n2 =~= seq!['B', 'B', 'Q', 'N', 'N', f, f, f]);
    let r1 = place(n2, 0, 'R');
    assert(r1 =~= seq!['B', 'B', 'Q', 'N', 'N', 'R', f, f]);
    let k = place(r1, 0, 'K');
    assert(k =~= seq!['B', 'B', 'Q', 'N', 'N', 'R', 'K', f]);
    let r2 = place(k, 0, 'R');
    assert(r2 =~= seq!['B', 'B', 'Q', 'N', 'N', 'R', 'K', 'R']);
    assert(back_rank(1) == r2);
}

/// Puts `piece` on the free square of `rank` that has `skip` free squares in
/// front of it, if there is one.
pub fn put(rank: &mut [char; 8], skip: u32, piece: char)
    ensures
        final(rank)@ == place(old(rank)@, skip as nat, piece),
{
    let mut left: u32 = skip;
    let mut i: usize = 0;
    while i < 8
        invariant
            i <= 8,
            left <= skip,
            rank@ == old(rank)@,
            nth_free(rank@, skip as nat) == free_from(rank@, i as int, left as nat),
        decreases 8 - i,
    {
        if rank[i] == FREE {
            if left == 0 {
                rank[i] = piece;
                return ;
            }
            left = left - 1;
        }
        i += 1;
    }
}

/// The free squares that the two knights take.
pub fn knight_pair(k: u32) -> (r: (u32, u32))
    ensures
        (r.0 as nat, r.1 as nat) == knight_slots(k as nat),
        r.0 <= 3,
        r.1 <= 3,
{
    if k == 0 {
        (0, 0)
    } else if k == 1 {
        (0, 1)
    } else if k == 2 {
        (0, 2)
    } else if k == 3 {
        (0, 3)
    } else if k == 4 {
        (1, 1)
    } else if k == 5 {
        (1, 2)
    } else if k == 6 {
        (1, 3)
    } else if k == 7 {
        (2, 2)
    } else if k == 8 {
        (2, 3)
    } else {
        (3, 3)
    }
}

/// The back rank of the starting position `n`.
pub fn make_back_rank(n: u16) -> (rank: [char; 8])
    ensures
        rank@ == back_rank(n),
{
    let k: u32 = (n as u32 + 959) % 960;
    let bishop1: usize = (2 * (k % 4) + 1) as usize;
    let bishop2: usize = (2 * ((k / 4) % 4)) as usize;
    let queen: u32 = (k / 16) % 6;
    let knights = knight_pair(k / 96);
    let mut rank: [char; 8] = [FREE, FREE, FREE, FREE, FREE, FREE, FREE, FREE];
    assert(rank@ =~= free_rank());
    rank[bishop1] = 'B';
    rank[bishop2] = 'B';
    put(&mut rank, queen, 'Q');
    put(&mut rank, knights.0, 'N');
    put(&mut rank, knights.1, 'N');
    put(&mut rank, 0, 'R');
    put(&mut rank, 0, 'K');
    put(&mut rank, 0, 'R');
    rank
}

/// The place on the back rank of the square at row `r` and column `c`, if
/// the square is on the back rank of a player.
pub open spec fn rank_place(r: int, c: int) -> Option<int> {
    if 3 <= c <= 10 && r == 0 {
        Some(c - 3)
    } else if 3 <= c <= 10 && r == 13 {
        Some(10 - c)
    } else if 3 <= r <= 10 && c == 0 {
        Some(r - 3)
    } else if 3 <= r <= 10 && c == 13 {
        Some(10 - r)
    } else {
        None
    }
}

/// What stands on the square at row `r` and column `c` once the first `done`
/// places of the four back ranks of the standard position were given the
/// pieces of `rank`.
pub open spec fn mixed_cell(rank: Seq<char>, done: int, r: int, c: int) -> Piece {
    match rank_place(r, c) {
        Some(k) => if k < done {
            start_cell(rank, r, c)
        } else {
            start_cell(standard_rank(), r, c)
        },
        None => start_cell(standard_rank(), r, c),
    }
}

impl Default for Board {
    /// The standard starting position, read from [`DEFAULT_FEN`].
    fn default() -> (board: Board)
        ensures
            board@ == start_board(standard_rank()),
    {
        proof {
            lemma_standard_reads();
        }
        let chars = chars_of(DEFAULT_FEN);
        match read_board(chars.as_slice()) {
            Ok(board) => board,
            Err(_) => unreached(),
        }
    }
}

impl Board {
    /// The starting position `n` of the 960 that keep the bishops on squares
    /// of different colour and the king between the rooks. The numbers run
    /// from 1 to 960 and wrap around after that; 519 is the standard position.
    ///
    /// The position is the standard one with the four back ranks rearranged.
    pub fn chess960(n: u16) -> (board: Board)
        ensures
            board@ == start_board(back_rank(n)),
            rank_legal(back_rank(n)),
    {
        let rank = make_back_rank(n);
        let mut output = Board::default();
        let ghost start = output@;
        let mut i: usize = 0;
        assert forall|r: int, c: int| 0 <= r < 14 && 0 <= c < 14 implies #[trigger] output.board[r][c]
            == mixed_cell(rank@, 0, r, c) by {
            assert(output@.board[r][c] == output.board[r][c]);
        }
        while i < 8
            invariant
                i <= 8,
                rank@ == back_rank(n),
                start == start_board(standard_rank()),
                output@ == (BoardView { board: output@.board, ..start }),
                forall|r: int, c: int|
                    0 <= r < 14 && 0 <= c < 14 ==> #[trigger] output.board[r][c] == mixed_cell(
                        rank@,
                        i as int,
                        r,
                        c,
                    ),
            decreases 8 - i,
        {
            output.board[0][i + 3] = Piece::Normal(Color::Turn(TurnColor::Red), rank[i]);
            output.board[i + 3][0] = Piece::Normal(Color::Turn(TurnColor::Blue), rank[i]);
            output.board[13][10 - i] = Piece::Normal(Color::Turn(TurnColor::Yellow), rank[i]);
            output.board[10 - i][13] = Piece::Normal(Color::Turn(TurnColor::Green), rank[i]);
            i += 1;
        }
        proof {
            lemma_back_rank_legal(n);
            let want = start_grid(back_rank(n));
            assert(output@.board =~~= want) by {
                assert forall|r: int| 0 <= r < 14 implies #[trigger] output@.board[r] =~= want[r] by {
                    assert forall|c: int| 0 <= c < 14 implies output@.board[r][c] == want[r][c] by {
                        assert(output.board[r][c] == mixed_cell(rank@, 8, r, c));
                    }
                }
            }
        }
        output
    }
}

} // verus!
