//! Laws of the metadata codec: each section reads back as it was written.

use crate::meta::{
    bit_text, bits_text, first_point_fault, parse_bit, parse_bits, parse_ply, parse_point,
    parse_points, parse_turn, points_text,
};
use crate::number::{decimal, is_digit, lemma_decimal_digits, lemma_parse_decimal};
use crate::piece::turn_text;
use crate::splitting::{all_lack, lacks, lemma_join_lacks, lemma_split_join};
use crate::tags::MetaDataFault;
use crate::types::TurnColor;
use vstd::prelude::*;

verus! {

/// The digits of a number hold nothing but digits.
pub proof fn lemma_decimal_lacks(n: nat, c: char)
    requires
        !is_digit(c),
    ensures
        lacks(decimal(n), c),
        decimal(n).len() > 0,
{
    lemma_decimal_digits(n);
    let t = decimal(n);
    assert forall|i: int| 0 <= i < t.len() implies t[i] != c by {
        assert(is_digit(t[i]));
    }
}

/// The letter of a turn reads back as the turn, and is no dash.
pub proof fn lemma_turn_round_trip(t: TurnColor)
    ensures
        parse_turn(turn_text(t)) == Ok::<TurnColor, MetaDataFault>(t),
        lacks(turn_text(t), '-'),
{
    reveal_strlit("R");
    reveal_strlit("B");
    reveal_strlit("Y");
    reveal_strlit("G");
    let s = turn_text(t);
    assert(s.len() == 1);
    match t {
        TurnColor::Red => {
            assert(s =~= "R"@);
        },
        TurnColor::Blue => {
            assert(s =~= "B"@);
            assert(s[0] != "R"@[0]);
        },
        TurnColor::Yellow => {
            assert(s =~= "Y"@);
            assert(s[0] != "R"@[0]);
            assert(s[0] != "B"@[0]);
        },
        TurnColor::Green => {
            assert(s =~= "G"@);
            assert(s[0] != "R"@[0]);
            assert(s[0] != "B"@[0]);
            assert(s[0] != "Y"@[0]);
        },
    }
}

/// The digit of a truth value reads back as the value, and is neither comma nor dash.
pub proof fn lemma_bit_round_trip(b: bool)
    ensures
        parse_bit(bit_text(b)) == Some(b),
        lacks(bit_text(b), ','),
        lacks(bit_text(b), '-'),
{
    reveal_strlit("0");
    reveal_strlit("1");
    let s = bit_text(b);
    if b {
        assert(s =~= "1"@);
        assert(s[0] != "0"@[0]);
    } else {
        assert(s =~= "0"@);
    }
}

/// Four truth values read back as they were written, and hold no dash.
pub proof fn lemma_bits_round_trip(q: Seq<bool>)
    requires
        q.len() == 4,
    ensures
        parse_bits(bits_text(q)) == Ok::<Seq<bool>, MetaDataFault>(q),
        lacks(bits_text(q), '-'),
{
    let parts = seq![bit_text(q[0]), bit_text(q[1]), bit_text(q[2]), bit_text(q[3])];
    lemma_bit_round_trip(q[0]);
    lemma_bit_round_trip(q[1]);
    lemma_bit_round_trip(q[2]);
    lemma_bit_round_trip(q[3]);
    assert(all_lack(parts, ','));
    assert(all_lack(parts, '-'));
    lemma_split_join(parts, ',');
    lemma_join_lacks(parts, ',', '-');
    assert(seq![q[0], q[1], q[2], q[3]] =~= q);
}

/// A number of points reads back as it was written.
pub proof fn lemma_point_round_trip(v: u16)
    ensures
        parse_point(decimal(v as nat)) == Ok::<u16, MetaDataFault>(v),
{
    lemma_parse_decimal(v as nat, u16::MAX as nat);
}

/// Four numbers of points read back as they were written, and hold no dash.
pub proof fn lemma_points_round_trip(q: Seq<u16>)
    requires
        q.len() == 4,
    ensures
        parse_points(points_text(q)) == Ok::<Seq<u16>, MetaDataFault>(q),
        lacks(points_text(q), '-'),
{
    let parts = seq![
        decimal(q[0] as nat),
        decimal(q[1] as nat),
        decimal(q[2] as nat),
        decimal(q[3] as nat),
    ];
    assert forall|i: int| 0 <= i < 4 implies lacks(#[trigger] parts[i], ',') && lacks(
        parts[i],
        '-',
    ) && parse_point(parts[i]) == Ok::<u16, MetaDataFault>(q[i]) by {
        lemma_decimal_lacks(q[i] as nat, ',');
        lemma_decimal_lacks(q[i] as nat, '-');
        lemma_point_round_trip(q[i]);
    }
    lemma_split_join(parts, ',');
    lemma_join_lacks(parts, ',', '-');
    assert(first_point_fault(parts, 4) is None) by {
        reveal_with_fuel(first_point_fault, 5);
        assert(parse_point(parts[0]) is Ok);
        assert(parse_point(parts[1]) is Ok);
        assert(parse_point(parts[2]) is Ok);
        assert(parse_point(parts[3]) is Ok);
    }
    assert(seq![q[0], q[1], q[2], q[3]] =~= q);
}

/// A count of plies reads back as it was written, and holds no dash.
pub proof fn lemma_ply_round_trip(n: usize)
    ensures
        parse_ply(decimal(n as nat)) == Ok::<usize, MetaDataFault>(n),
        lacks(decimal(n as nat), '-'),
{
    lemma_parse_decimal(n as nat, usize::MAX as nat);
    lemma_decimal_lacks(n as nat, '-');
}

} // verus!
