//! Laws of the starting positions: every back rank is a legal one.

use crate::board::{board_text, board_writable, parse_board};
use crate::board_laws::{board_legible, lemma_board_round_trip};
use crate::grid::BoardFault;
use crate::grid_laws::shape_legible;
use crate::standard_laws::lemma_start_legible;
use crate::types::BoardView;
use crate::variant::{
    back_rank, free_from, free_rank, knight_slots, nth_free, place, start_board, variant_index,
    FREE,
};
use vstd::prelude::*;

verus! {

/// How often `c` stands on `rank` from index `from` on.
pub open spec fn count_from(rank: Seq<char>, from: int, c: char) -> nat
    decreases rank.len() - from,
{
    if from >= rank.len() {
        0
    } else if rank[from] == c {
        1 + count_from(rank, from + 1, c)
    } else {
        count_from(rank, from + 1, c)
    }
}

/// How often `c` stands on `rank`.
pub open spec fn count(rank: Seq<char>, c: char) -> nat {
    count_from(rank, 0, c)
}

/// Whether a back rank is one of the 960: a king, a queen, two rooks, two
/// knights and two bishops, the bishops on squares of different colour and
/// the king between the rooks.
pub open spec fn rank_legal(rank: Seq<char>) -> bool {
    &&& rank.len() == 8
    &&& count(rank, 'K') == 1
    &&& count(rank, 'Q') == 1
    &&& count(rank, 'R') == 2
    &&& count(rank, 'N') == 2
    &&& count(rank, 'B') == 2
    &&& exists|i: int, j: int|
        #![trigger rank[i], rank[j]]
        0 <= i < 8 && 0 <= j < 8 && rank[i] == 'B' && rank[j] == 'B' && i % 2 != j % 2
    &&& exists|i: int, j: int, k: int|
        #![trigger rank[i], rank[j], rank[k]]
        0 <= i < j < k < 8 && rank[i] == 'R' && rank[j] == 'K' && rank[k] == 'R'
}

/// What a piece on one square does to the counts: one less of what stood
/// there, one more of the piece.
pub proof fn lemma_count_update(rank: Seq<char>, from: int, at: int, piece: char, c: char)
    requires
        0 <= from,
        0 <= at < rank.len(),
    ensures
        count_from(rank.update(at, piece), from, c) == count_from(rank, from, c) + (if from <= at
            && piece == c {
            1int
        } else {
            0int
        }) - (if from <= at && rank[at] == c {
            1int
        } else {
            0int
        }),
    decreases rank.len() - from,
{
    if from < rank.len() {
        lemma_count_update(rank, from + 1, at, piece, c);
    }
}

/// The free square that has fewer free squares in front of it than there
/// are free squares: it is on the rank, it is free, and if it is the first
/// one, nothing in front of it is free.
pub proof fn lemma_free_from(rank: Seq<char>, from: int, skip: nat)
    requires
        0 <= from,
        skip < count_from(rank, from, FREE),
    ensures
        from <= free_from(rank, from, skip) < rank.len(),
        rank[free_from(rank, from, skip)] == FREE,
        skip == 0 ==> forall|j: int| from <= j < free_from(rank, from, skip) ==> rank[j] != FREE,
    decreases rank.len() - from,
{
    if from < rank.len() {
        if rank[from] != FREE {
            lemma_free_from(rank, from + 1, skip);
        } else if skip > 0 {
            lemma_free_from(rank, from + 1, (skip - 1) as nat);
        }
    }
}

/// A piece that is placed where there is room takes a free square: the rank
/// has one free square less and one more of the piece, and every square that
/// was taken is as it was.
pub proof fn lemma_place(rank: Seq<char>, skip: nat, piece: char)
    requires
        skip < count(rank, FREE),
        piece != FREE,
    ensures
        place(rank, skip, piece) == rank.update(nth_free(rank, skip), piece),
        0 <= nth_free(rank, skip) < rank.len(),
        rank[nth_free(rank, skip)] == FREE,
        place(rank, skip, piece).len() == rank.len(),
        count(place(rank, skip, piece), FREE) == count(rank, FREE) - 1,
        count(place(rank, skip, piece), piece) == count(rank, piece) + 1,
        forall|c: char|
            c != FREE && c != piece ==> #[trigger] count(place(rank, skip, piece), c) == count(
                rank,
                c,
            ),
        forall|j: int|
            0 <= j < rank.len() && rank[j] != FREE ==> #[trigger] place(rank, skip, piece)[j]
                == rank[j],
{
    lemma_free_from(rank, 0, skip);
    let at = nth_free(rank, skip);
    lemma_count_update(rank, 0, at, piece, FREE);
    lemma_count_update(rank, 0, at, piece, piece);
    assert forall|c: char| c != FREE && c != piece implies #[trigger] count(
        place(rank, skip, piece),
        c,
    ) == count(rank, c) by {
        lemma_count_update(rank, 0, at, piece, c);
    }
}

/// A piece that is placed on the first free square stands in front of every
/// square that is still free.
pub proof fn lemma_place_first(rank: Seq<char>, piece: char)
    requires
        0 < count(rank, FREE),
        piece != FREE,
    ensures
        forall|j: int|
            0 <= j <= nth_free(rank, 0) ==> #[trigger] place(rank, 0, piece)[j] != FREE,
{
    lemma_free_from(rank, 0, 0);
    lemma_place(rank, 0, piece);
}

/// The counts of a rank of eight free squares.
pub proof fn lemma_count_free()
    ensures
        count(free_rank(), FREE) == 8,
        forall|c: char| c != FREE ==> #[trigger] count(free_rank(), c) == 0,
{
    let rank = free_rank();
    reveal_with_fuel(count_from, 10);
    assert(count(rank, FREE) == 8);
    assert forall|c: char| c != FREE implies #[trigger] count(rank, c) == 0 by {
        assert(count_from(rank, 0, c) == 0);
    }
}

/// Every starting position has a legal back rank.
pub proof fn lemma_back_rank_legal(n: u16)
    ensures
        rank_legal(back_rank(n)),
{
    let k = variant_index(n);
    let bishop1 = (2 * (k % 4) + 1) as int;
    let bishop2 = (2 * ((k / 4) % 4)) as int;
    let queen = (k / 16) % 6;
    let knights = knight_slots(k / 96);
    assert(knights.0 <= 3 && knights.1 <= 3);
    let none = free_rank();
    lemma_count_free();
    let one = none.update(bishop1, 'B');
    let bishops = one.update(bishop2, 'B');
    assert(0 <= bishop1 < 8 && 0 <= bishop2 < 8 && bishop1 != bishop2);
    assert(none[bishop1] == FREE);
    assert(count(none, 'B') == 0 && count(none, 'Q') == 0 && count(none, 'N') == 0 && count(
        none,
        'R',
    ) == 0 && count(none, 'K') == 0);
    assert(count(one, FREE) == 7 && count(one, 'B') == 1 && count(one, 'Q') == 0 && count(one, 'N')
        == 0 && count(one, 'R') == 0 && count(one, 'K') == 0) by {
        lemma_count_update(none, 0, bishop1, 'B', FREE);
        lemma_count_update(none, 0, bishop1, 'B', 'B');
        lemma_count_update(none, 0, bishop1, 'B', 'Q');
        lemma_count_update(none, 0, bishop1, 'B', 'N');
        lemma_count_update(none, 0, bishop1, 'B', 'R');
        lemma_count_update(none, 0, bishop1, 'B', 'K');
    }
    assert(count(bishops, FREE) == 6 && count(bishops, 'B') == 2 && count(bishops, 'Q') == 0
        && count(bishops, 'N') == 0 && count(bishops, 'R') == 0 && count(bishops, 'K') == 0) by {
        assert(one[bishop2] == FREE);
        lemma_count_update(one, 0, bishop2, 'B', FREE);
        lemma_count_update(one, 0, bishop2, 'B', 'B');
        lemma_count_update(one, 0, bishop2, 'B', 'Q');
        lemma_count_update(one, 0, bishop2, 'B', 'N');
        lemma_count_update(one, 0, bishop2, 'B', 'R');
        lemma_count_update(one, 0, bishop2, 'B', 'K');
    }
    let q = place(bishops, queen, 'Q');
    lemma_place(bishops, queen, 'Q');
    let n1 = place(q, knights.0, 'N');
    lemma_place(q, knights.0, 'N');
    let n2 = place(n1, knights.1, 'N');
    lemma_place(n1, knights.1, 'N');
    let r1 = place(n2, 0, 'R');
    lemma_place(n2, 0, 'R');
    lemma_place_first(n2, 'R');
    let king = place(r1, 0, 'K');
    lemma_place(r1, 0, 'K');
    lemma_place_first(r1, 'K');
    let r2 = place(king, 0, 'R');
    lemma_place(king, 0, 'R');
    assert(r2 == back_rank(n));
    let f1 = nth_free(n2, 0);
    let f2 = nth_free(r1, 0);
    let f3 = nth_free(king, 0);
    assert(f1 < f2) by {
        assert(r1[f2] == FREE);
    }
    assert(f2 < f3) by {
        assert(king[f3] == FREE);
    }
    assert(r2[f1] == 'R' && r2[f2] == 'K' && r2[f3] == 'R') by {
        assert(r1[f1] == 'R');
        assert(king[f1] == r1[f1]);
        assert(r2[f1] == king[f1]);
        assert(king[f2] == 'K');
        assert(r2[f2] == king[f2]);
    }
    assert(r2[bishop1] == 'B' && r2[bishop2] == 'B') by {
        assert(bishops[bishop1] == 'B' && bishops[bishop2] == 'B');
        assert(q[bishop1] == 'B' && q[bishop2] == 'B');
        assert(n1[bishop1] == 'B' && n1[bishop2] == 'B');
        assert(n2[bishop1] == 'B' && n2[bishop2] == 'B');
        assert(r1[bishop1] == 'B' && r1[bishop2] == 'B');
        assert(king[bishop1] == 'B' && king[bishop2] == 'B');
    }
    assert(bishop1 % 2 != bishop2 % 2);
    assert(count(r2, 'B') == 2 && count(r2, 'Q') == 1 && count(r2, 'N') == 2 && count(r2, 'R') == 2
        && count(r2, 'K') == 1) by {
        assert(count(q, 'B') == 2 && count(q, 'Q') == 1 && count(q, 'N') == 0 && count(q, 'R') == 0
            && count(q, 'K') == 0);
        assert(count(n1, 'B') == 2 && count(n1, 'Q') == 1 && count(n1, 'N') == 1 && count(n1, 'R')
            == 0 && count(n1, 'K') == 0);
        assert(count(n2, 'B') == 2 && count(n2, 'Q') == 1 && count(n2, 'N') == 2 && count(n2, 'R')
            == 0 && count(n2, 'K') == 0);
        assert(count(r1, 'B') == 2 && count(r1, 'Q') == 1 && count(r1, 'N') == 2 && count(r1, 'R')
            == 1 && count(r1, 'K') == 0);
        assert(count(king, 'B') == 2 && count(king, 'Q') == 1 && count(king, 'N') == 2 && count(
            king,
            'R',
        ) == 1 && count(king, 'K') == 1);
    }
}

/// How many kings, queens, rooks, knights and bishops stand on `rank` from
/// index `from` on.
pub open spec fn pieces_from(rank: Seq<char>, from: int) -> nat {
    count_from(rank, from, 'K') + count_from(rank, from, 'Q') + count_from(rank, from, 'R')
        + count_from(rank, from, 'N') + count_from(rank, from, 'B')
}

/// A rank with as many pieces of the five kinds as it has squares has such
/// a piece on every square.
pub proof fn lemma_pieces_cover(rank: Seq<char>, from: int)
    requires
        0 <= from <= rank.len(),
    ensures
        pieces_from(rank, from) <= rank.len() - from,
        pieces_from(rank, from) == rank.len() - from ==> forall|j: int|
            from <= j < rank.len() ==> rank[j] == 'K' || rank[j] == 'Q' || rank[j] == 'R' || rank[j]
                == 'N' || rank[j] == 'B',
    decreases rank.len() - from,
{
    if from < rank.len() {
        lemma_pieces_cover(rank, from + 1);
    }
}

/// Every starting position reads back as it is written.
pub proof fn lemma_variant_round_trip(n: u16)
    ensures
        board_legible(start_board(back_rank(n))),
        board_writable(start_board(back_rank(n))),
        parse_board(board_text(start_board(back_rank(n)))) == Ok::<BoardView, BoardFault>(
            start_board(back_rank(n)),
        ),
{
    let rank = back_rank(n);
    lemma_back_rank_legal(n);
    lemma_pieces_cover(rank, 0);
    assert forall|i: int| 0 <= i < 8 implies shape_legible(#[trigger] rank[i]) by {
        assert(rank[i] == 'K' || rank[i] == 'Q' || rank[i] == 'R' || rank[i] == 'N' || rank[i]
            == 'B');
    }
    lemma_start_legible(rank);
    lemma_board_round_trip(start_board(rank));
}

} // verus!
