//! Laws of the tag block: which options come out of reading, and that
//! writing such options and reading the block again gives the options back.

use crate::meta::block_text;
use crate::splitting::{
    all_lack, lacks, lemma_first_index_behind, lemma_lacks_concat, lemma_lacks_subrange,
    lemma_split_parts, lemma_unquote_lacks,
};
use crate::tag_text::{
    entry_text, extra_text, is_stated, pair_writable, quoted, square_writable,
    stated_entries, tag_at, value_text,
};
use crate::tags::{
    apply_tag, label_of_tag, lemma_entry_rest, parse_array, parse_enpassant, parse_enpassant_item, parse_entries,
    parse_entry, parse_extra, parse_names, parse_quoted, parse_royal, parse_royal_item,
    tag_of_label, value_end, MetaDataFault, SeenTags, Tag,
};
use crate::text::{first_index, join, lemma_first_index, lemma_first_index_either, unquote};
use crate::types::{default_extra, ExtraView};
use crate::value_laws::{
    lemma_count_round_trip, lemma_enpassant_round_trip, lemma_flags_round_trip,
    lemma_lives_round_trip, lemma_message_round_trip, lemma_names_round_trip,
    lemma_quoted_lacks, lemma_royal_round_trip, lemma_truth_round_trip, lemma_value_end,
    message_legible, name_legible, value_bounded,
};
use vstd::prelude::*;

verus! {

/// Whether options read back as they were written: every quadruple has four
/// items, every square lies on the board, and no text holds a character
/// that would end its value or part the metadata.
pub open spec fn extra_legible(e: ExtraView) -> bool {
    &&& e.royal.len() == 4
    &&& forall|i: int| 0 <= i < 4 ==> square_writable(#[trigger] e.royal[i])
    &&& (e.lives is Some ==> e.lives->0.len() == 4)
    &&& e.resigned.len() == 4
    &&& e.flagged.len() == 4
    &&& e.stalemated.len() == 4
    &&& e.zombie_immune.len() == 4
    &&& e.zombie_type.len() == 4
    &&& forall|i: int| 0 <= i < 4 ==> name_legible(#[trigger] e.zombie_type[i])
    &&& e.enpassant.len() == 4
    &&& forall|i: int| 0 <= i < 4 ==> pair_writable(#[trigger] e.enpassant[i])
    &&& message_legible(e.game_over)
}

/// The options `cur` with the field `tag` taken from `e`.
pub open spec fn with_field(cur: ExtraView, tag: Tag, e: ExtraView) -> ExtraView {
    match tag {
        Tag::Royal => ExtraView { royal: e.royal, ..cur },
        Tag::Lives => ExtraView { lives: e.lives, ..cur },
        Tag::Resigned => ExtraView { resigned: e.resigned, ..cur },
        Tag::Flagged => ExtraView { flagged: e.flagged, ..cur },
        Tag::Stalemated => ExtraView { stalemated: e.stalemated, ..cur },
        Tag::ZombieImmune => ExtraView { zombie_immune: e.zombie_immune, ..cur },
        Tag::ZombieType => ExtraView { zombie_type: e.zombie_type, ..cur },
        Tag::EnPassant => ExtraView { enpassant: e.enpassant, ..cur },
        Tag::PawnsBaseRank => ExtraView { pawnbaserank: e.pawnbaserank, ..cur },
        Tag::Uniquify => ExtraView { uniquify: e.uniquify, ..cur },
        Tag::Std2pc => ExtraView { std2pc: e.std2pc, ..cur },
        Tag::GameOver => ExtraView { game_over: e.game_over, ..cur },
    }
}

/// The options that have the fields at the places below `k` from `e` and
/// the defaults for the others.
pub open spec fn settled(e: ExtraView, k: int) -> ExtraView {
    let d = default_extra();
    ExtraView {
        royal: if k > 0 { e.royal } else { d.royal },
        lives: if k > 1 { e.lives } else { d.lives },
        resigned: if k > 2 { e.resigned } else { d.resigned },
        flagged: if k > 3 { e.flagged } else { d.flagged },
        stalemated: if k > 4 { e.stalemated } else { d.stalemated },
        zombie_immune: if k > 5 { e.zombie_immune } else { d.zombie_immune },
        zombie_type: if k > 6 { e.zombie_type } else { d.zombie_type },
        enpassant: if k > 7 { e.enpassant } else { d.enpassant },
        pawnbaserank: if k > 8 { e.pawnbaserank } else { d.pawnbaserank },
        uniquify: if k > 9 { e.uniquify } else { d.uniquify },
        std2pc: if k > 10 { e.std2pc } else { d.std2pc },
        game_over: if k > 11 { e.game_over } else { d.game_over },
    }
}

/// Whether none of the fields from place `k` on was met.
pub open spec fn unseen_from(seen: SeenTags, k: int) -> bool {
    forall|j: int| k <= j < 12 ==> !seen.has(#[trigger] tag_at(j))
}

/// The label of a field names the field, and holds neither colon nor dash.
pub proof fn lemma_label(tag: Tag)
    ensures
        tag_of_label(label_of_tag(tag)) == Some(tag),
        lacks(label_of_tag(tag), ':'),
        lacks(label_of_tag(tag), '-'),
{
    reveal_strlit("royal");
    reveal_strlit("kingSquares");
    reveal_strlit("lives");
    reveal_strlit("resigned");
    reveal_strlit("flagged");
    reveal_strlit("stalemated");
    reveal_strlit("zombieImmune");
    reveal_strlit("zombieType");
    reveal_strlit("enPassant");
    reveal_strlit("pawnsBaseRank");
    reveal_strlit("pawnBaseRank");
    reveal_strlit("uniquify");
    reveal_strlit("std2pc");
    reveal_strlit("gameOver");
    let l = label_of_tag(tag);
    assert(l.len() <= 13);
    assert forall|i: int| 0 <= i < l.len() implies l[i] != ':' && l[i] != '-' by {
        assert(0 <= i <= 12);
    }
    match tag {
        Tag::Lives => {
            assert("lives"@[0] == 'l' && "royal"@[0] == 'r');
        },
        Tag::ZombieType => {
            assert("zombieType"@[0] == 'z' && "stalemated"@[0] == 's');
        },
        Tag::Uniquify => {
            assert("uniquify"@[0] == 'u' && "resigned"@[0] == 'r');
        },
        Tag::GameOver => {
            assert("gameOver"@[0] == 'g' && "resigned"@[0] == 'r' && "uniquify"@[0] == 'u');
        },
        _ => {},
    }
}

/// The value of a stated field reads back as the field, is bounded, and
/// holds no dash.
pub proof fn lemma_value_round_trip(cur: ExtraView, tag: Tag, e: ExtraView)
    requires
        extra_legible(e),
        is_stated(tag, e),
    ensures
        apply_tag(cur, tag, value_text(tag, e)) == Ok::<ExtraView, MetaDataFault>(
            with_field(cur, tag, e),
        ),
        value_bounded(value_text(tag, e)),
        lacks(value_text(tag, e), '-'),
{
    reveal(apply_tag);
    match tag {
        Tag::Royal => {
            lemma_royal_round_trip(e.royal);
        },
        Tag::Lives => {
            lemma_lives_round_trip(e.lives->0);
        },
        Tag::Resigned => {
            lemma_flags_round_trip(e.resigned);
        },
        Tag::Flagged => {
            lemma_flags_round_trip(e.flagged);
        },
        Tag::Stalemated => {
            lemma_flags_round_trip(e.stalemated);
        },
        Tag::ZombieImmune => {
            lemma_flags_round_trip(e.zombie_immune);
        },
        Tag::ZombieType => {
            lemma_names_round_trip(e.zombie_type);
        },
        Tag::EnPassant => {
            lemma_enpassant_round_trip(e.enpassant);
        },
        Tag::PawnsBaseRank => {
            lemma_count_round_trip(e.pawnbaserank);
        },
        Tag::Uniquify => {
            lemma_count_round_trip(e.uniquify);
        },
        Tag::Std2pc => {
            lemma_truth_round_trip(e.std2pc);
        },
        Tag::GameOver => {
            lemma_message_round_trip(e.game_over);
        },
    }
}

/// Whether a text starts like an entry: a colon, a quoted label in front of
/// it, and behind it a value that ends.
pub open spec fn entry_shaped(text: Seq<char>) -> bool {
    let colon = first_index(text, ':');
    &&& colon < text.len()
    &&& unquote(text.take(colon as int)) is Some
    &&& value_end(text.skip(colon as int + 1)) is Some
}

/// The label of a text that starts like an entry.
pub open spec fn entry_label(text: Seq<char>) -> Seq<char> {
    unquote(text.take(first_index(text, ':') as int))->0
}

/// A label that occurs a second time: an entry whose label names a field
/// that was met before is refused as a repetition, whatever its value.
pub proof fn lemma_repeated_tag(text: Seq<char>, e: ExtraView, seen: SeenTags)
    requires
        entry_shaped(text),
        tag_of_label(entry_label(text)) is Some,
        seen.has(tag_of_label(entry_label(text))->0),
    ensures
        parse_entries(text, e, seen) == Err::<ExtraView, MetaDataFault>(
            MetaDataFault::RepeatedTag,
        ),
{
    reveal(parse_entry);
}

/// A label that the notation does not know: an entry with such a label is
/// refused, and the fault carries the label as it was written.
pub proof fn lemma_unknown_tag(text: Seq<char>, e: ExtraView, seen: SeenTags)
    requires
        entry_shaped(text),
        tag_of_label(entry_label(text)) is None,
    ensures
        parse_entries(text, e, seen) == Err::<ExtraView, MetaDataFault>(
            MetaDataFault::UnknownTag(entry_label(text)),
        ),
{
    reveal(parse_entry);
}

/// A text that starts with a quoted label without colon, a colon and a
/// value that ends is shaped like an entry with that label.
pub proof fn lemma_entry_shape(label: Seq<char>, tail: Seq<char>)
    requires
        lacks(label, ':'),
        value_end(tail) is Some,
    ensures
        entry_shaped(quoted(label) + seq![':'] + tail),
        entry_label(quoted(label) + seq![':'] + tail) == label,
        (quoted(label) + seq![':'] + tail).skip(quoted(label).len() as int + 1) == tail,
{
    lemma_quoted_lacks(label, ':');
    lemma_first_index_behind(quoted(label), ':', tail);
}

/// A label that names a field holds no colon.
pub proof fn lemma_known_label(label: Seq<char>)
    requires
        tag_of_label(label) is Some,
    ensures
        lacks(label, ':'),
{
    reveal_strlit("royal");
    reveal_strlit("kingSquares");
    reveal_strlit("lives");
    reveal_strlit("resigned");
    reveal_strlit("flagged");
    reveal_strlit("stalemated");
    reveal_strlit("zombieImmune");
    reveal_strlit("zombieType");
    reveal_strlit("enPassant");
    reveal_strlit("pawnsBaseRank");
    reveal_strlit("pawnBaseRank");
    reveal_strlit("uniquify");
    reveal_strlit("std2pc");
    reveal_strlit("gameOver");
    assert(label.len() <= 13);
    assert forall|i: int| 0 <= i < label.len() implies label[i] != ':' by {
        assert(0 <= i <= 12);
    }
}

/// A block with an unknown label in its first entry is refused with the label.
pub proof fn lemma_block_unknown_tag(label: Seq<char>, tail: Seq<char>)
    requires
        lacks(label, ':'),
        tag_of_label(label) is None,
        value_end(tail) is Some,
        tail.len() > 0,
        tail.last() == '}',
    ensures
        parse_extra(seq!['{'] + quoted(label) + seq![':'] + tail) == Err::<
            ExtraView,
            MetaDataFault,
        >(MetaDataFault::UnknownTag(label)),
{
    let entry = quoted(label) + seq![':'] + tail;
    let block = seq!['{'] + quoted(label) + seq![':'] + tail;
    lemma_entry_shape(label, tail);
    assert(block.skip(1) =~= entry);
    assert(block.last() == tail.last());
    lemma_unknown_tag(entry, default_extra(), SeenTags::none());
}

/// An entry with the label of a field that was not met before, and with a
/// bounded value that the field takes, is read as that field in front of a
/// comma or a closing brace.
pub proof fn lemma_entry_reads(
    label: Seq<char>,
    value: Seq<char>,
    after: Seq<char>,
    cur: ExtraView,
    seen: SeenTags,
)
    requires
        tag_of_label(label) is Some,
        !seen.has(tag_of_label(label)->0),
        value_bounded(value),
        apply_tag(cur, tag_of_label(label)->0, value) is Ok,
        after.len() > 0,
        after[0] == ',' || after[0] == '}',
    ensures
        parse_entry(quoted(label) + seq![':'] + value + after, cur, seen) == Ok::<
            (ExtraView, Tag, Seq<char>),
            MetaDataFault,
        >((apply_tag(cur, tag_of_label(label)->0, value)->Ok_0, tag_of_label(label)->0, after)),
{
    reveal(parse_entry);
    let head = quoted(label);
    let text = head + seq![':'] + value + after;
    lemma_known_label(label);
    lemma_quoted_lacks(label, ':');
    assert(text =~= head + seq![':'] + (value + after));
    lemma_first_index_behind(head, ':', value + after);
    lemma_value_end(value, after);
}

/// The entry of a stated field in front of a comma or a closing brace reads
/// back as the field, and leaves what stands behind it.
pub proof fn lemma_entry_round_trip(
    cur: ExtraView,
    seen: SeenTags,
    tag: Tag,
    e: ExtraView,
    after: Seq<char>,
)
    requires
        extra_legible(e),
        is_stated(tag, e),
        !seen.has(tag),
        after.len() > 0,
        after[0] == ',' || after[0] == '}',
    ensures
        parse_entry(entry_text(tag, e) + after, cur, seen) == Ok::<
            (ExtraView, Tag, Seq<char>),
            MetaDataFault,
        >((with_field(cur, tag, e), tag, after)),
        lacks(entry_text(tag, e), '-'),
        entry_text(tag, e).len() > 0,
{
    let label = label_of_tag(tag);
    let value = value_text(tag, e);
    let head = quoted(label);
    lemma_label(tag);
    lemma_value_round_trip(cur, tag, e);
    lemma_entry_reads(label, value, after, cur, seen);
    assert(entry_text(tag, e) + after =~= head + seq![':'] + value + after);
    lemma_quoted_lacks(label, '-');
    lemma_lacks_concat(head, seq![':'], '-');
    lemma_lacks_concat(head + seq![':'], value, '-');
}

/// The stated entries from a place on: the entry at the place, if it is
/// stated, and the stated entries behind it.
pub proof fn lemma_stated_entries_front(e: ExtraView, lo: int, hi: int)
    requires
        lo < hi,
    ensures
        stated_entries(e, lo, hi) == if is_stated(tag_at(lo), e) {
            seq![entry_text(tag_at(lo), e)] + stated_entries(e, lo + 1, hi)
        } else {
            stated_entries(e, lo + 1, hi)
        },
    decreases hi - lo,
{
    if lo + 1 == hi {
        assert(stated_entries(e, lo, lo) =~= Seq::<Seq<char>>::empty());
        assert(stated_entries(e, hi, hi) =~= Seq::<Seq<char>>::empty());
        if is_stated(tag_at(lo), e) {
            assert(stated_entries(e, lo, hi) =~= seq![entry_text(tag_at(lo), e)]
                + stated_entries(e, lo + 1, hi));
        }
    } else {
        lemma_stated_entries_front(e, lo, hi - 1);
        let last = entry_text(tag_at(hi - 1), e);
        let first = entry_text(tag_at(lo), e);
        let mid = stated_entries(e, lo + 1, hi - 1);
        if is_stated(tag_at(hi - 1), e) {
            if is_stated(tag_at(lo), e) {
                assert((seq![first] + mid).push(last) =~= seq![first] + mid.push(last));
            }
        }
    }
}

/// The options in which every field from a place on has its default are
/// the options settled up to that place.
pub proof fn lemma_settled_rest(e: ExtraView, k: int)
    requires
        0 <= k <= 12,
        forall|j: int| k <= j < 12 ==> !is_stated(#[trigger] tag_at(j), e),
    ensures
        settled(e, k) == e,
{
    assert(k <= 0 ==> !is_stated(tag_at(0), e));
    assert(k <= 1 ==> !is_stated(tag_at(1), e));
    assert(k <= 2 ==> !is_stated(tag_at(2), e));
    assert(k <= 3 ==> !is_stated(tag_at(3), e));
    assert(k <= 4 ==> !is_stated(tag_at(4), e));
    assert(k <= 5 ==> !is_stated(tag_at(5), e));
    assert(k <= 6 ==> !is_stated(tag_at(6), e));
    assert(k <= 7 ==> !is_stated(tag_at(7), e));
    assert(k <= 8 ==> !is_stated(tag_at(8), e));
    assert(k <= 9 ==> !is_stated(tag_at(9), e));
    assert(k <= 10 ==> !is_stated(tag_at(10), e));
    assert(k <= 11 ==> !is_stated(tag_at(11), e));
}

/// No entry is stated from a place on exactly if every field from the place
/// on has its default.
pub proof fn lemma_stated_entries_empty(e: ExtraView, lo: int, hi: int)
    requires
        lo <= hi,
    ensures
        stated_entries(e, lo, hi).len() == 0 <==> forall|j: int|
            lo <= j < hi ==> !is_stated(#[trigger] tag_at(j), e),
    decreases hi - lo,
{
    if lo < hi {
        lemma_stated_entries_empty(e, lo, hi - 1);
        if stated_entries(e, lo, hi).len() == 0 {
            assert(!is_stated(tag_at(hi - 1), e));
        }
    }
}

/// The entries from a place on, followed by the closing brace, read back as
/// the options, once the fields below the place are settled.
pub proof fn lemma_entries_round_trip(e: ExtraView, k: int, seen: SeenTags)
    requires
        extra_legible(e),
        0 <= k < 12,
        unseen_from(seen, k),
        stated_entries(e, k, 12).len() > 0,
    ensures
        parse_entries(join(stated_entries(e, k, 12), ',').push('}'), settled(e, k), seen) == Ok::<
            ExtraView,
            MetaDataFault,
        >(e),
        lacks(join(stated_entries(e, k, 12), ','), '-'),
        join(stated_entries(e, k, 12), ',').len() > 0,
    decreases 12 - k,
{
    let tag = tag_at(k);
    let entries = stated_entries(e, k, 12);
    let later = stated_entries(e, k + 1, 12);
    lemma_stated_entries_front(e, k, 12);
    if !is_stated(tag, e) {
        assert(entries == later);
        assert(k + 1 < 12) by {
            if k + 1 == 12 {
                assert(later.len() == 0);
            }
        }
        assert(settled(e, k + 1) == settled(e, k));
        assert(unseen_from(seen, k + 1)) by {
            assert forall|j: int| k + 1 <= j < 12 implies !seen.has(#[trigger] tag_at(j)) by {}
        }
        lemma_entries_round_trip(e, k + 1, seen);
    } else {
        let entry = entry_text(tag, e);
        let cur = settled(e, k);
        assert(entries =~= seq![entry] + later);
        assert(!seen.has(tag_at(k)));
        assert(with_field(cur, tag, e) == settled(e, k + 1));
        let grown = seen.with(tag);
        assert(unseen_from(grown, k + 1)) by {
            assert forall|j: int| k + 1 <= j < 12 implies !grown.has(#[trigger] tag_at(j)) by {
                assert(!seen.has(tag_at(j)));
            }
        }
        if later.len() == 0 {
            let after = seq!['}'];
            lemma_entry_round_trip(cur, seen, tag, e, after);
            assert(join(entries, ',') =~= entry);
            assert(join(entries, ',').push('}') =~= entry + after);
            lemma_stated_entries_empty(e, k + 1, 12);
            lemma_settled_rest(e, k + 1);
        } else {
            let tail = join(later, ',').push('}');
            let after = seq![','] + tail;
            lemma_entry_round_trip(cur, seen, tag, e, after);
            lemma_entries_round_trip(e, k + 1, grown);
            assert(entries.skip(1) =~= later);
            assert(join(entries, ',') =~= entry + seq![','] + join(later, ','));
            assert(join(entries, ',').push('}') =~= entry + after);
            assert(after.skip(1) =~= tail);
            assert(!(after =~= seq!['}']));
            lemma_lacks_concat(entry, seq![','], '-');
            lemma_lacks_concat(entry + seq![','], join(later, ','), '-');
        }
    }
}

/// The block of options that read back does so, and holds no dash. Options
/// that are all defaults have no block.
pub proof fn lemma_block_round_trip(e: ExtraView)
    requires
        extra_legible(e),
        e != default_extra(),
    ensures
        parse_extra(block_text(e)) == Ok::<ExtraView, MetaDataFault>(e),
        lacks(block_text(e), '-'),
{
    let entries = stated_entries(e, 0, 12);
    lemma_stated_entries_empty(e, 0, 12);
    if entries.len() == 0 {
        lemma_settled_rest(e, 0);
        lemma_default_settled(e);
    }
    assert(unseen_from(SeenTags::none(), 0)) by {
        assert forall|j: int| 0 <= j < 12 implies !SeenTags::none().has(#[trigger] tag_at(j)) by {}
    }
    lemma_entries_round_trip(e, 0, SeenTags::none());
    lemma_default_settled(e);
    let inner = extra_text(e);
    let block = block_text(e);
    assert(block.skip(1) =~= inner.push('}'));
    assert(block.last() == '}');
    lemma_lacks_concat(seq!['{'], inner, '-');
    lemma_lacks_concat(seq!['{'] + inner, seq!['}'], '-');
}

/// The options settled up to no place are the defaults.
pub proof fn lemma_default_settled(e: ExtraView)
    ensures
        settled(e, 0) == default_extra(),
{
}

/// Whether a value was cut from a block as values are: one in parentheses
/// at its first `)`, any other in front of the first `,` or `}`.
pub open spec fn value_cut(v: Seq<char>) -> bool {
    if v.len() > 0 && v[0] == '(' {
        lacks(v.drop_last(), ')')
    } else {
        lacks(v, ',') && lacks(v, '}')
    }
}

/// The items of a quadruple that was read: four, none with a comma, and
/// none with a character that the text between the parentheses lacks.
pub proof fn lemma_parsed_array(value: Seq<char>)
    requires
        parse_array(value) is Ok,
    ensures
        parse_array(value)->Ok_0.len() == 4,
        all_lack(parse_array(value)->Ok_0, ','),
        forall|c: char|
            lacks(value.subrange(1, value.len() - 1), c) ==> #[trigger] all_lack(
                parse_array(value)->Ok_0,
                c,
            ),
{
    lemma_split_parts(value.subrange(1, value.len() - 1), ',');
}

/// A name that was read from a quadruple can stand in a quadruple.
pub proof fn lemma_parsed_names(value: Seq<char>)
    requires
        parse_names(value) is Ok,
        value_cut(value),
        lacks(value, '-'),
    ensures
        parse_names(value)->Ok_0.len() == 4,
        forall|i: int| 0 <= i < 4 ==> name_legible(#[trigger] parse_names(value)->Ok_0[i]),
{
    let items = parse_array(value)->Ok_0;
    let inner = value.subrange(1, value.len() - 1);
    let names = parse_names(value)->Ok_0;
    lemma_parsed_array(value);
    lemma_lacks_subrange(value, 1, value.len() - 1, '-');
    assert(inner =~= value.drop_last().subrange(1, value.len() - 1));
    lemma_lacks_subrange(value.drop_last(), 1, value.len() - 1, ')');
    assert(all_lack(items, ')'));
    assert(all_lack(items, '-'));
    assert forall|i: int| 0 <= i < 4 implies name_legible(#[trigger] names[i]) by {
        assert(lacks(items[i], ',') && lacks(items[i], ')') && lacks(items[i], '-'));
        assert(names[i] == parse_quoted(items[i])->Ok_0);
        lemma_unquote_lacks(items[i], ',');
        lemma_unquote_lacks(items[i], ')');
        lemma_unquote_lacks(items[i], '-');
    }
}

/// The squares of `royal` that were read lie on the board.
pub proof fn lemma_parsed_royal(value: Seq<char>)
    requires
        parse_royal(value) is Ok,
    ensures
        parse_royal(value)->Ok_0.len() == 4,
        forall|i: int| 0 <= i < 4 ==> square_writable(#[trigger] parse_royal(value)->Ok_0[i]),
{
    let items = parse_array(value)->Ok_0;
    let q = parse_royal(value)->Ok_0;
    assert forall|i: int| 0 <= i < 4 implies square_writable(#[trigger] q[i]) by {
        assert(q[i] == parse_royal_item(items[i])->Ok_0);
    }
}

/// The squares of `enPassant` that were read lie on the board.
pub proof fn lemma_parsed_enpassant(value: Seq<char>)
    requires
        parse_enpassant(value) is Ok,
    ensures
        parse_enpassant(value)->Ok_0.len() == 4,
        forall|i: int| 0 <= i < 4 ==> pair_writable(#[trigger] parse_enpassant(value)->Ok_0[i]),
{
    reveal(parse_enpassant_item);
    let items = parse_array(value)->Ok_0;
    let q = parse_enpassant(value)->Ok_0;
    assert forall|i: int| 0 <= i < 4 implies pair_writable(#[trigger] q[i]) by {
        assert(q[i] == parse_enpassant_item(items[i])->Ok_0);
    }
}

/// A message that was read as a value on its own can stand as one.
pub proof fn lemma_parsed_message(value: Seq<char>)
    requires
        parse_quoted(value) is Ok,
        value_cut(value),
        lacks(value, '-'),
    ensures
        message_legible(parse_quoted(value)->Ok_0),
{
    lemma_unquote_lacks(value, ',');
    lemma_unquote_lacks(value, '}');
    lemma_unquote_lacks(value, '-');
}

/// Options that read back still do after a field was set from a value that
/// was cut from a block without dashes.
pub proof fn lemma_applied_legible(cur: ExtraView, tag: Tag, value: Seq<char>)
    requires
        extra_legible(cur),
        value_cut(value),
        lacks(value, '-'),
        apply_tag(cur, tag, value) is Ok,
    ensures
        extra_legible(apply_tag(cur, tag, value)->Ok_0),
{
    reveal(apply_tag);
    match tag {
        Tag::Royal => {
            lemma_parsed_royal(value);
        },
        Tag::Lives => {},
        Tag::Resigned => {},
        Tag::Flagged => {},
        Tag::Stalemated => {},
        Tag::ZombieImmune => {},
        Tag::ZombieType => {
            lemma_parsed_names(value);
        },
        Tag::EnPassant => {
            lemma_parsed_enpassant(value);
        },
        Tag::PawnsBaseRank => {},
        Tag::Uniquify => {},
        Tag::Std2pc => {},
        Tag::GameOver => {
            lemma_parsed_message(value);
        },
    }
}

/// Options that read back still do after an entry was read from a text
/// without dashes, and what follows the entry holds no dash either.
pub proof fn lemma_parsed_entry(text: Seq<char>, cur: ExtraView, seen: SeenTags)
    requires
        extra_legible(cur),
        lacks(text, '-'),
        parse_entry(text, cur, seen) is Ok,
    ensures
        extra_legible(parse_entry(text, cur, seen)->Ok_0.0),
        lacks(parse_entry(text, cur, seen)->Ok_0.2, '-'),
{
    reveal(parse_entry);
    let colon = first_index(text, ':');
    let rest = text.skip(colon as int + 1);
    let end = value_end(rest)->0;
    let value = rest.take(end as int);
    let tag = tag_of_label(unquote(text.take(colon as int))->0)->0;
    lemma_first_index(rest, ')');
    lemma_first_index_either(rest, ',', '}');
    lemma_lacks_subrange(text, colon as int + 1, text.len() as int, '-');
    lemma_lacks_subrange(rest, 0, end as int, '-');
    lemma_lacks_subrange(rest, end as int, rest.len() as int, '-');
    assert(value_cut(value)) by {
        if rest.len() > 0 && rest[0] == '(' {
            let close = first_index(rest, ')');
            assert(value.drop_last() =~= rest.take(close as int));
            assert forall|j: int| 0 <= j < close implies rest.take(close as int)[j] != ')' by {}
        } else {
            assert forall|j: int| 0 <= j < end implies value[j] != ',' && value[j] != '}' by {
                assert(value[j] == rest[j]);
            }
            if value.len() > 0 {
                assert(value[0] == rest[0]);
            }
        }
    }
    lemma_applied_legible(cur, tag, value);
}

/// The options that the entries of a text without dashes give read back, if
/// the options before them do.
pub proof fn lemma_parsed_entries(text: Seq<char>, cur: ExtraView, seen: SeenTags)
    requires
        extra_legible(cur),
        lacks(text, '-'),
        parse_entries(text, cur, seen) is Ok,
    ensures
        extra_legible(parse_entries(text, cur, seen)->Ok_0),
    decreases text.len(),
{
    lemma_parsed_entry(text, cur, seen);
    lemma_entry_rest(text, cur, seen);
    let (e2, tag, after) = parse_entry(text, cur, seen)->Ok_0;
    if !(after =~= seq!['}']) {
        lemma_lacks_subrange(after, 1, after.len() as int, '-');
        lemma_parsed_entries(after.skip(1), e2, seen.with(tag));
    }
}

/// The defaults read back as they are written: as nothing.
pub proof fn lemma_default_legible()
    ensures
        extra_legible(default_extra()),
{
    let d = default_extra();
    assert forall|i: int| 0 <= i < 4 implies name_legible(#[trigger] d.zombie_type[i]) by {}
}

/// Options that were read from a block without dashes read back as they
/// were written.
pub proof fn lemma_parsed_extra_legible(s: Seq<char>)
    requires
        lacks(s, '-'),
        parse_extra(s) is Ok,
    ensures
        extra_legible(parse_extra(s)->Ok_0),
{
    lemma_default_legible();
    lemma_lacks_subrange(s, 1, s.len() as int, '-');
    lemma_parsed_entries(s.skip(1), default_extra(), SeenTags::none());
}

/// A block whose first two entries have labels of the same field is refused
/// as a repetition, if the value of the first is one that the field takes.
pub proof fn lemma_block_repeated_tag(
    first_label: Seq<char>,
    value: Seq<char>,
    second_label: Seq<char>,
    tail: Seq<char>,
)
    requires
        tag_of_label(first_label) is Some,
        tag_of_label(second_label) == tag_of_label(first_label),
        value_bounded(value),
        apply_tag(default_extra(), tag_of_label(first_label)->0, value) is Ok,
        value_end(tail) is Some,
        tail.len() > 0,
        tail.last() == '}',
    ensures
        parse_extra(
            seq!['{'] + quoted(first_label) + seq![':'] + value + seq![','] + quoted(second_label)
                + seq![':'] + tail,
        ) == Err::<ExtraView, MetaDataFault>(MetaDataFault::RepeatedTag),
{
    let tag = tag_of_label(first_label)->0;
    let second = quoted(second_label) + seq![':'] + tail;
    let after = seq![','] + second;
    let first = quoted(first_label) + seq![':'] + value + after;
    let block = seq!['{'] + quoted(first_label) + seq![':'] + value + seq![','] + quoted(
        second_label,
    ) + seq![':'] + tail;
    let none = SeenTags::none();
    let e2 = apply_tag(default_extra(), tag, value)->Ok_0;
    lemma_known_label(second_label);
    lemma_entry_shape(second_label, tail);
    lemma_entry_reads(first_label, value, after, default_extra(), none);
    assert(none.with(tag).has(tag));
    lemma_repeated_tag(second, e2, none.with(tag));
    assert(block.skip(1) =~= first);
    assert(block.last() == tail.last());
    assert(after.skip(1) =~= second);
    assert(after[0] == ',');
    assert(parse_entries(first, default_extra(), none) == parse_entries(
        second,
        e2,
        none.with(tag),
    ));
}

/// What a value does to options: it is read without regard to them, and
/// sets its field in them.
pub proof fn lemma_apply_sets_field(e: ExtraView, tag: Tag, value: Seq<char>)
    ensures
        apply_tag(e, tag, value) == match apply_tag(default_extra(), tag, value) {
            Ok(stated) => Ok::<ExtraView, MetaDataFault>(with_field(e, tag, stated)),
            Err(x) => Err::<ExtraView, MetaDataFault>(x),
        },
{
    reveal(apply_tag);
}

/// Two fields can be set in either order.
pub proof fn lemma_fields_commute(
    e: ExtraView,
    first: Tag,
    first_stated: ExtraView,
    second: Tag,
    second_stated: ExtraView,
)
    requires
        first != second,
    ensures
        with_field(with_field(e, first, first_stated), second, second_stated) == with_field(
            with_field(e, second, second_stated),
            first,
            first_stated,
        ),
{
}

/// Two values for different fields can be applied in either order.
pub proof fn lemma_apply_commutes(
    e: ExtraView,
    first: Tag,
    first_value: Seq<char>,
    second: Tag,
    second_value: Seq<char>,
)
    requires
        first != second,
        apply_tag(e, first, first_value) is Ok,
        apply_tag(e, second, second_value) is Ok,
    ensures
        apply_tag(apply_tag(e, first, first_value)->Ok_0, second, second_value) is Ok,
        apply_tag(apply_tag(e, first, first_value)->Ok_0, second, second_value) == apply_tag(
            apply_tag(e, second, second_value)->Ok_0,
            first,
            first_value,
        ),
{
    let e1 = apply_tag(e, first, first_value)->Ok_0;
    let e2 = apply_tag(e, second, second_value)->Ok_0;
    lemma_apply_sets_field(e, first, first_value);
    lemma_apply_sets_field(e, second, second_value);
    lemma_apply_sets_field(e1, second, second_value);
    lemma_apply_sets_field(e2, first, first_value);
    let s1 = apply_tag(default_extra(), first, first_value)->Ok_0;
    let s2 = apply_tag(default_extra(), second, second_value)->Ok_0;
    lemma_fields_commute(e, first, s1, second, s2);
}

/// The order of two entries does not matter: two entries for different
/// fields that were not met before, each with a value that its field takes,
/// give the same options whichever comes first.
pub proof fn lemma_entries_commute(
    first_label: Seq<char>,
    first_value: Seq<char>,
    second_label: Seq<char>,
    second_value: Seq<char>,
    after: Seq<char>,
    cur: ExtraView,
    seen: SeenTags,
)
    requires
        tag_of_label(first_label) is Some,
        tag_of_label(second_label) is Some,
        tag_of_label(first_label) != tag_of_label(second_label),
        !seen.has(tag_of_label(first_label)->0),
        !seen.has(tag_of_label(second_label)->0),
        value_bounded(first_value),
        value_bounded(second_value),
        apply_tag(cur, tag_of_label(first_label)->0, first_value) is Ok,
        apply_tag(cur, tag_of_label(second_label)->0, second_value) is Ok,
        after.len() > 0,
        after[0] == ',' || after[0] == '}',
    ensures
        parse_entries(
            quoted(first_label) + seq![':'] + first_value + seq![','] + quoted(second_label)
                + seq![':'] + second_value + after,
            cur,
            seen,
        ) == parse_entries(
            quoted(second_label) + seq![':'] + second_value + seq![','] + quoted(first_label)
                + seq![':'] + first_value + after,
            cur,
            seen,
        ),
{
    let t1 = tag_of_label(first_label)->0;
    let t2 = tag_of_label(second_label)->0;
    lemma_apply_commutes(cur, t1, first_value, t2, second_value);
    lemma_apply_commutes(cur, t2, second_value, t1, first_value);
    lemma_seen_commutes(seen, t1, t2);
    lemma_seen_commutes(seen, t2, t1);
    lemma_entry_pair(first_label, first_value, second_label, second_value, after, cur, seen);
    lemma_entry_pair(second_label, second_value, first_label, first_value, after, cur, seen);
}

/// Two fields can be met in either order, and meeting one does not make
/// another one met.
pub proof fn lemma_seen_commutes(seen: SeenTags, first: Tag, second: Tag)
    requires
        first != second,
    ensures
        seen.with(first).with(second) == seen.with(second).with(first),
        seen.with(first).has(second) == seen.has(second),
{
}

/// Two entries behind each other are read one after the other.
pub proof fn lemma_entry_pair(
    first_label: Seq<char>,
    first_value: Seq<char>,
    second_label: Seq<char>,
    second_value: Seq<char>,
    after: Seq<char>,
    cur: ExtraView,
    seen: SeenTags,
)
    requires
        tag_of_label(first_label) is Some,
        tag_of_label(second_label) is Some,
        !seen.has(tag_of_label(first_label)->0),
        !seen.with(tag_of_label(first_label)->0).has(tag_of_label(second_label)->0),
        value_bounded(first_value),
        value_bounded(second_value),
        apply_tag(cur, tag_of_label(first_label)->0, first_value) is Ok,
        apply_tag(
            apply_tag(cur, tag_of_label(first_label)->0, first_value)->Ok_0,
            tag_of_label(second_label)->0,
            second_value,
        ) is Ok,
        after.len() > 0,
        after[0] == ',' || after[0] == '}',
    ensures
        ({
            let t1 = tag_of_label(first_label)->0;
            let t2 = tag_of_label(second_label)->0;
            let both = apply_tag(apply_tag(cur, t1, first_value)->Ok_0, t2, second_value)->Ok_0;
            parse_entries(
                quoted(first_label) + seq![':'] + first_value + seq![','] + quoted(second_label)
                    + seq![':'] + second_value + after,
                cur,
                seen,
            ) == if after =~= seq!['}'] {
                Ok::<ExtraView, MetaDataFault>(both)
            } else if after[0] == ',' {
                parse_entries(after.skip(1), both, seen.with(t1).with(t2))
            } else {
                Err::<ExtraView, MetaDataFault>(MetaDataFault::BadComma)
            }
        }),
{
    let t1 = tag_of_label(first_label)->0;
    let t2 = tag_of_label(second_label)->0;
    let e1 = apply_tag(cur, t1, first_value)->Ok_0;
    let second = quoted(second_label) + seq![':'] + second_value + after;
    let rest = seq![','] + second;
    let text = quoted(first_label) + seq![':'] + first_value + seq![','] + quoted(second_label)
        + seq![':'] + second_value + after;
    let both = apply_tag(e1, t2, second_value)->Ok_0;
    lemma_entry_reads(first_label, first_value, rest, cur, seen);
    lemma_entry_reads(second_label, second_value, after, e1, seen.with(t1));
    assert(text =~= quoted(first_label) + seq![':'] + first_value + rest);
    assert(rest.skip(1) =~= second);
    assert(rest[0] == ',');
    assert(!(rest =~= seq!['}']));
    assert(parse_entries(text, cur, seen) == parse_entries(second, e1, seen.with(t1)));
    assert(parse_entry(second, e1, seen.with(t1)) == Ok::<
        (ExtraView, Tag, Seq<char>),
        MetaDataFault,
    >((both, t2, after)));
}

} // verus!
