//! Laws of the values of a tag block: each kind of value reads back as it
//! was written, and the text of a value shows where it ends.

use crate::number::{decimal, is_digit, lemma_decimal_digits, lemma_parse_decimal};
use crate::position::{lemma_position_round_trip, position_text};
use crate::splitting::{
    all_lack, lacks, lemma_first_either_behind, lemma_first_index_behind, lemma_join_lacks,
    lemma_lacks_concat, lemma_split_join, lemma_unquote_quoted,
};
use crate::tag_text::{
    array_text, enpassant_item_text, flags_text, pair_writable, quoted, royal_item_text,
    square_writable, truth_text,
};
use crate::tags::{
    collect4, parse_array, parse_count, parse_enpassant, parse_enpassant_item, parse_flag_item,
    parse_flags, parse_lives, parse_names, parse_quoted, parse_royal, parse_royal_item,
    parse_truth, value_end, MetaDataFault,
};
use crate::text::{join, lemma_join_push, unquote};
use crate::types::Position;
use vstd::prelude::*;

verus! {

/// Whether `c` is none of the characters that end a value of a tag block or
/// part the metadata: not `,`, `)`, `}`, `-`, `:`, `(` or `'`.
pub open spec fn is_plain(c: char) -> bool {
    c != ',' && c != ')' && c != '}' && c != '-' && c != ':' && c != '(' && c != '\''
}

/// Whether every character of `t` is plain.
pub open spec fn all_plain(t: Seq<char>) -> bool {
    forall|i: int| 0 <= i < t.len() ==> is_plain(#[trigger] t[i])
}

/// Whether the text of a value shows where the value ends: a value in
/// parentheses has its only `)` at its end, any other holds no `,` and no `}`.
pub open spec fn value_bounded(v: Seq<char>) -> bool {
    &&& v.len() > 0
    &&& if v[0] == '(' {
        v.last() == ')' && lacks(v.drop_last(), ')')
    } else {
        lacks(v, ',') && lacks(v, '}')
    }
}

/// A bounded value in front of a comma or a closing brace ends where it ends.
pub proof fn lemma_value_end(v: Seq<char>, after: Seq<char>)
    requires
        value_bounded(v),
        after.len() > 0,
        after[0] == ',' || after[0] == '}',
    ensures
        value_end(v + after) == Some(v.len()),
        (v + after).take(v.len() as int) == v,
        (v + after).skip(v.len() as int) == after,
{
    let s = v + after;
    assert(s[0] == v[0]);
    assert(s.take(v.len() as int) =~= v);
    assert(s.skip(v.len() as int) =~= after);
    if v[0] == '(' {
        let inner = v.drop_last();
        assert(s =~= inner + seq![')'] + after);
        lemma_first_index_behind(inner, ')', after);
    } else {
        lemma_first_either_behind(v, after, ',', '}');
    }
}

/// A text of plain characters lacks each character that is not plain.
pub proof fn lemma_plain_lacks(t: Seq<char>, c: char)
    requires
        all_plain(t),
        !is_plain(c),
    ensures
        lacks(t, c),
{
    assert forall|i: int| 0 <= i < t.len() implies t[i] != c by {
        assert(is_plain(t[i]));
    }
}

/// The digits of a number are plain.
pub proof fn lemma_decimal_plain(n: nat)
    ensures
        all_plain(decimal(n)),
        decimal(n).len() > 0,
{
    lemma_decimal_digits(n);
    let t = decimal(n);
    assert forall|i: int| 0 <= i < t.len() implies is_plain(#[trigger] t[i]) by {
        assert(is_digit(t[i]));
    }
}

/// The name of a square of the board is plain.
pub proof fn lemma_position_plain(p: Position)
    requires
        p.on_board(),
    ensures
        all_plain(position_text(p)),
        position_text(p).len() >= 2,
{
    let t = position_text(p);
    let d = decimal((p.row + 1) as nat);
    lemma_decimal_plain((p.row + 1) as nat);
    assert forall|i: int| 0 <= i < t.len() implies is_plain(#[trigger] t[i]) by {
        if i > 0 {
            assert(t[i] == d[i - 1]);
        }
    }
}

/// The words for true and false are plain, and read back.
pub proof fn lemma_truth(b: bool)
    ensures
        all_plain(truth_text(b)),
        truth_text(b).len() > 0,
        parse_flag_item(truth_text(b)) == Ok::<bool, MetaDataFault>(b),
        parse_truth(truth_text(b)) == Ok::<bool, MetaDataFault>(b),
{
    reveal_strlit("true");
    reveal_strlit("false");
    let t = truth_text(b);
    assert("true"@[0] != "false"@[0]);
    if b {
        assert(t.len() == 4);
        assert forall|i: int| 0 <= i < t.len() implies is_plain(#[trigger] t[i]) by {
            assert(i == 0 || i == 1 || i == 2 || i == 3);
        }
    } else {
        assert(t.len() == 5);
        assert forall|i: int| 0 <= i < t.len() implies is_plain(#[trigger] t[i]) by {
            assert(i == 0 || i == 1 || i == 2 || i == 3 || i == 4);
        }
    }
}

/// A quoted text lacks what the text lacks, unless it is the quote.
pub proof fn lemma_quoted_lacks(t: Seq<char>, c: char)
    requires
        lacks(t, c),
        c != '\'',
    ensures
        lacks(quoted(t), c),
        unquote_of_quoted(t),
{
    lemma_lacks_concat(seq!['\''], t, c);
    lemma_lacks_concat(seq!['\''] + t, seq!['\''], c);
    lemma_unquote_quoted(t);
}

/// Whether taking the quotes off the quoted `t` gives `t`.
pub open spec fn unquote_of_quoted(t: Seq<char>) -> bool {
    unquote(quoted(t)) == Some(t) && quoted(t).len() == t.len() + 2 && quoted(t)[0]
        == '\''
}

/// A quadruple of items that hold no comma and no closing parenthesis reads
/// back as its items, and is bounded.
pub proof fn lemma_array_round_trip(items: Seq<Seq<char>>)
    requires
        items.len() == 4,
        all_lack(items, ','),
        all_lack(items, ')'),
    ensures
        parse_array(array_text(items)) == Ok::<Seq<Seq<char>>, MetaDataFault>(items),
        value_bounded(array_text(items)),
        all_lack(items, '-') ==> lacks(array_text(items), '-'),
{
    let inner = join(items, ',');
    let v = array_text(items);
    assert(v.subrange(1, v.len() - 1) =~= inner);
    assert(v.drop_last() =~= seq!['('] + inner);
    lemma_split_join(items, ',');
    lemma_join_lacks(items, ',', ')');
    lemma_lacks_concat(seq!['('], inner, ')');
    if all_lack(items, '-') {
        lemma_join_lacks(items, ',', '-');
        lemma_lacks_concat(seq!['('], inner, '-');
        lemma_lacks_concat(seq!['('] + inner, seq![')'], '-');
    }
}

/// An item of `royal` reads back as it was written.
pub proof fn lemma_royal_item(v: Option<Position>)
    requires
        square_writable(v),
    ensures
        parse_royal_item(royal_item_text(v)) == Ok::<Option<Position>, MetaDataFault>(v),
        lacks(royal_item_text(v), ','),
        lacks(royal_item_text(v), ')'),
        lacks(royal_item_text(v), '-'),
{
    let inner: Seq<char> = match v {
        None => Seq::empty(),
        Some(p) => position_text(p),
    };
    match v {
        None => {},
        Some(p) => {
            lemma_position_plain(p);
            lemma_position_round_trip(p);
            lemma_plain_lacks(inner, ',');
            lemma_plain_lacks(inner, ')');
            lemma_plain_lacks(inner, '-');
        },
    }
    lemma_quoted_lacks(inner, ',');
    lemma_quoted_lacks(inner, ')');
    lemma_quoted_lacks(inner, '-');
}

/// An item of `enPassant` reads back as it was written.
pub proof fn lemma_enpassant_item(v: Option<(Position, Position)>)
    requires
        pair_writable(v),
    ensures
        parse_enpassant_item(enpassant_item_text(v)) == Ok::<
            Option<(Position, Position)>,
            MetaDataFault,
        >(v),
        lacks(enpassant_item_text(v), ','),
        lacks(enpassant_item_text(v), ')'),
        lacks(enpassant_item_text(v), '-'),
{
    reveal(parse_enpassant_item);
    let inner: Seq<char> = match v {
        None => Seq::empty(),
        Some((a, b)) => position_text(a) + seq![':'] + position_text(b),
    };
    match v {
        None => {},
        Some((a, b)) => {
            let ta = position_text(a);
            let tb = position_text(b);
            lemma_position_plain(a);
            lemma_position_plain(b);
            lemma_position_round_trip(a);
            lemma_position_round_trip(b);
            let halves = seq![ta, tb];
            lemma_plain_lacks(ta, ':');
            lemma_plain_lacks(tb, ':');
            assert(all_lack(halves, ':'));
            assert(join(halves, ':') =~= inner) by {
                lemma_join_push(seq![ta], tb, ':');
                assert(seq![ta].push(tb) =~= halves);
            }
            lemma_split_join(halves, ':');
            lemma_plain_lacks(ta, ',');
            lemma_plain_lacks(tb, ',');
            lemma_plain_lacks(ta, ')');
            lemma_plain_lacks(tb, ')');
            lemma_plain_lacks(ta, '-');
            lemma_plain_lacks(tb, '-');
            lemma_lacks_concat(ta, seq![':'], ',');
            lemma_lacks_concat(ta + seq![':'], tb, ',');
            lemma_lacks_concat(ta, seq![':'], ')');
            lemma_lacks_concat(ta + seq![':'], tb, ')');
            lemma_lacks_concat(ta, seq![':'], '-');
            lemma_lacks_concat(ta + seq![':'], tb, '-');
        },
    }
    lemma_quoted_lacks(inner, ',');
    lemma_quoted_lacks(inner, ')');
    lemma_quoted_lacks(inner, '-');
}

/// A number reads back as it was written.
pub proof fn lemma_count(n: usize)
    ensures
        parse_count(decimal(n as nat)) == Ok::<usize, MetaDataFault>(n),
        all_plain(decimal(n as nat)),
        decimal(n as nat).len() > 0,
{
    lemma_parse_decimal(n as nat, usize::MAX as nat);
    lemma_decimal_plain(n as nat);
}

/// The value of `royal` reads back as it was written.
pub proof fn lemma_royal_round_trip(q: Seq<Option<Position>>)
    requires
        q.len() == 4,
        forall|i: int| 0 <= i < 4 ==> square_writable(#[trigger] q[i]),
    ensures
        ({
            let v = array_text(
                seq![
                    royal_item_text(q[0]),
                    royal_item_text(q[1]),
                    royal_item_text(q[2]),
                    royal_item_text(q[3]),
                ],
            );
            parse_royal(v) == Ok::<Seq<Option<Position>>, MetaDataFault>(q) && value_bounded(v)
                && lacks(v, '-')
        }),
{
    let items = seq![
        royal_item_text(q[0]),
        royal_item_text(q[1]),
        royal_item_text(q[2]),
        royal_item_text(q[3]),
    ];
    assert forall|i: int| 0 <= i < 4 implies lacks(#[trigger] items[i], ',') && lacks(items[i], ')')
        && lacks(items[i], '-') && parse_royal_item(items[i]) == Ok::<
        Option<Position>,
        MetaDataFault,
    >(q[i]) by {
        assert(square_writable(q[i]));
        lemma_royal_item(q[i]);
    }
    lemma_array_round_trip(items);
    assert(seq![q[0], q[1], q[2], q[3]] =~= q);
}

/// The value of `enPassant` reads back as it was written.
pub proof fn lemma_enpassant_round_trip(q: Seq<Option<(Position, Position)>>)
    requires
        q.len() == 4,
        forall|i: int| 0 <= i < 4 ==> pair_writable(#[trigger] q[i]),
    ensures
        ({
            let v = array_text(
                seq![
                    enpassant_item_text(q[0]),
                    enpassant_item_text(q[1]),
                    enpassant_item_text(q[2]),
                    enpassant_item_text(q[3]),
                ],
            );
            parse_enpassant(v) == Ok::<Seq<Option<(Position, Position)>>, MetaDataFault>(q)
                && value_bounded(v) && lacks(v, '-')
        }),
{
    let items = seq![
        enpassant_item_text(q[0]),
        enpassant_item_text(q[1]),
        enpassant_item_text(q[2]),
        enpassant_item_text(q[3]),
    ];
    assert(pair_writable(q[0]) && pair_writable(q[1]) && pair_writable(q[2]) && pair_writable(
        q[3],
    ));
    lemma_enpassant_item(q[0]);
    lemma_enpassant_item(q[1]);
    lemma_enpassant_item(q[2]);
    lemma_enpassant_item(q[3]);
    assert(all_lack(items, ','));
    assert(all_lack(items, ')'));
    assert(all_lack(items, '-'));
    lemma_array_round_trip(items);
    let v = array_text(items);
    assert(parse_array(v) == Ok::<Seq<Seq<char>>, MetaDataFault>(items));
    assert(collect4(
        parse_enpassant_item(items[0]),
        parse_enpassant_item(items[1]),
        parse_enpassant_item(items[2]),
        parse_enpassant_item(items[3]),
    ) == Ok::<Seq<Option<(Position, Position)>>, MetaDataFault>(seq![q[0], q[1], q[2], q[3]]));
    assert(seq![q[0], q[1], q[2], q[3]] =~= q);
}

/// Four truth values in parentheses read back as they were written.
pub proof fn lemma_flags_round_trip(q: Seq<bool>)
    requires
        q.len() == 4,
    ensures
        ({
            let v = flags_text(q);
            parse_flags(v) == Ok::<Seq<bool>, MetaDataFault>(q) && value_bounded(v) && lacks(v, '-')
        }),
{
    let items = seq![truth_text(q[0]), truth_text(q[1]), truth_text(q[2]), truth_text(q[3])];
    assert forall|i: int| 0 <= i < 4 implies lacks(#[trigger] items[i], ',') && lacks(items[i], ')')
        && lacks(items[i], '-') && parse_flag_item(items[i]) == Ok::<bool, MetaDataFault>(
        q[i],
    ) by {
        lemma_truth(q[i]);
        lemma_plain_lacks(truth_text(q[i]), ',');
        lemma_plain_lacks(truth_text(q[i]), ')');
        lemma_plain_lacks(truth_text(q[i]), '-');
    }
    lemma_array_round_trip(items);
    assert(seq![q[0], q[1], q[2], q[3]] =~= q);
}

/// The value of `lives` reads back as it was written.
pub proof fn lemma_lives_round_trip(q: Seq<usize>)
    requires
        q.len() == 4,
    ensures
        ({
            let v = array_text(
                seq![
                    decimal(q[0] as nat),
                    decimal(q[1] as nat),
                    decimal(q[2] as nat),
                    decimal(q[3] as nat),
                ],
            );
            parse_lives(v) == Ok::<Seq<usize>, MetaDataFault>(q) && value_bounded(v) && lacks(
                v,
                '-',
            )
        }),
{
    let items = seq![
        decimal(q[0] as nat),
        decimal(q[1] as nat),
        decimal(q[2] as nat),
        decimal(q[3] as nat),
    ];
    assert forall|i: int| 0 <= i < 4 implies lacks(#[trigger] items[i], ',') && lacks(items[i], ')')
        && lacks(items[i], '-') && parse_count(items[i]) == Ok::<usize, MetaDataFault>(q[i]) by {
        lemma_count(q[i]);
        lemma_plain_lacks(decimal(q[i] as nat), ',');
        lemma_plain_lacks(decimal(q[i] as nat), ')');
        lemma_plain_lacks(decimal(q[i] as nat), '-');
    }
    lemma_array_round_trip(items);
    assert(seq![q[0], q[1], q[2], q[3]] =~= q);
}

/// Whether a name can stand in a quadruple: it holds no `,`, `)` or `-`.
pub open spec fn name_legible(t: Seq<char>) -> bool {
    lacks(t, ',') && lacks(t, ')') && lacks(t, '-')
}

/// Whether a message can stand as a value on its own: it holds no `,`, `}` or `-`.
pub open spec fn message_legible(t: Seq<char>) -> bool {
    lacks(t, ',') && lacks(t, '}') && lacks(t, '-')
}

/// The value of `zombieType` reads back as it was written.
pub proof fn lemma_names_round_trip(q: Seq<Seq<char>>)
    requires
        q.len() == 4,
        forall|i: int| 0 <= i < 4 ==> name_legible(#[trigger] q[i]),
    ensures
        ({
            let v = array_text(seq![quoted(q[0]), quoted(q[1]), quoted(q[2]), quoted(q[3])]);
            parse_names(v) == Ok::<Seq<Seq<char>>, MetaDataFault>(q) && value_bounded(v) && lacks(
                v,
                '-',
            )
        }),
{
    let items = seq![quoted(q[0]), quoted(q[1]), quoted(q[2]), quoted(q[3])];
    assert forall|i: int| 0 <= i < 4 implies lacks(#[trigger] items[i], ',') && lacks(items[i], ')')
        && lacks(items[i], '-') && parse_quoted(items[i]) == Ok::<Seq<char>, MetaDataFault>(
        q[i],
    ) by {
        assert(name_legible(q[i]));
        lemma_quoted_lacks(q[i], ',');
        lemma_quoted_lacks(q[i], ')');
        lemma_quoted_lacks(q[i], '-');
    }
    lemma_array_round_trip(items);
    assert(seq![q[0], q[1], q[2], q[3]] =~= q);
}

/// A message in quotes reads back as it was written.
pub proof fn lemma_message_round_trip(t: Seq<char>)
    requires
        message_legible(t),
    ensures
        parse_quoted(quoted(t)) == Ok::<Seq<char>, MetaDataFault>(t),
        value_bounded(quoted(t)),
        lacks(quoted(t), '-'),
{
    lemma_quoted_lacks(t, ',');
    lemma_quoted_lacks(t, '}');
    lemma_quoted_lacks(t, '-');
}

/// A number on its own reads back as it was written.
pub proof fn lemma_count_round_trip(n: usize)
    ensures
        parse_count(decimal(n as nat)) == Ok::<usize, MetaDataFault>(n),
        value_bounded(decimal(n as nat)),
        lacks(decimal(n as nat), '-'),
{
    lemma_count(n);
    let t = decimal(n as nat);
    lemma_plain_lacks(t, ',');
    lemma_plain_lacks(t, '}');
    lemma_plain_lacks(t, '-');
    assert(is_plain(t[0]));
}

/// A truth value on its own reads back as it was written.
pub proof fn lemma_truth_round_trip(b: bool)
    ensures
        parse_truth(truth_text(b)) == Ok::<bool, MetaDataFault>(b),
        value_bounded(truth_text(b)),
        lacks(truth_text(b), '-'),
{
    lemma_truth(b);
    let t = truth_text(b);
    lemma_plain_lacks(t, ',');
    lemma_plain_lacks(t, '}');
    lemma_plain_lacks(t, '-');
    assert(is_plain(t[0]));
}

} // verus!
