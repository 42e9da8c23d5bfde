//! Reading the tag block of the metadata into [`Extra`].

use crate::number::parse_usize;
use crate::position::read_position;
use crate::tags::{
    apply_tag, parse_array, parse_count, parse_enpassant, parse_enpassant_item,
    parse_entries, parse_entry, parse_extra, parse_flag_item, parse_flags, parse_lives,
    parse_names, parse_quoted, parse_royal, parse_royal_item, parse_truth, tag_of_label,
    value_end, MetaDataFault, MetaDataParseError, SeenTags, Tag,
};
use crate::text::{
    chars_of, find_char, find_either, split, split_text, string_of, strip_quotes, text_is, views,
};
use crate::types::{Extra, ExtraView, Position};
use std::str::FromStr;
use vstd::prelude::*;
use vstd::slice::slice_subrange;

verus! {

/// The model of what reading a tag block gives.
pub open spec fn extra_outcome(r: Result<Extra, MetaDataParseError>) -> Result<
    ExtraView,
    MetaDataFault,
> {
    match r {
        Ok(e) => Ok(e@),
        Err(x) => Err(x@),
    }
}

/// The field that a label names.
pub fn read_tag(label: &[char]) -> (r: Option<Tag>)
    ensures
        r == tag_of_label(label@),
{
    if text_is(label, "royal") || text_is(label, "kingSquares") {
        Some(Tag::Royal)
    } else if text_is(label, "lives") {
        Some(Tag::Lives)
    } else if text_is(label, "resigned") {
        Some(Tag::Resigned)
    } else if text_is(label, "flagged") {
        Some(Tag::Flagged)
    } else if text_is(label, "stalemated") {
        Some(Tag::Stalemated)
    } else if text_is(label, "zombieImmune") {
        Some(Tag::ZombieImmune)
    } else if text_is(label, "zombieType") {
        Some(Tag::ZombieType)
    } else if text_is(label, "enPassant") {
        Some(Tag::EnPassant)
    } else if text_is(label, "pawnsBaseRank") || text_is(label, "pawnBaseRank") {
        Some(Tag::PawnsBaseRank)
    } else if text_is(label, "uniquify") {
        Some(Tag::Uniquify)
    } else if text_is(label, "std2pc") {
        Some(Tag::Std2pc)
    } else if text_is(label, "gameOver") {
        Some(Tag::GameOver)
    } else {
        None
    }
}

/// No label met yet.
pub fn seen_none() -> (r: SeenTags)
    ensures
        r == SeenTags::none(),
{
    SeenTags {
        royal: false,
        lives: false,
        resigned: false,
        flagged: false,
        stalemated: false,
        zombie_immune: false,
        zombie_type: false,
        enpassant: false,
        pawnbaserank: false,
        uniquify: false,
        std2pc: false,
        game_over: false,
    }
}

/// Whether `tag` was met.
pub fn seen_has(seen: &SeenTags, tag: Tag) -> (r: bool)
    ensures
        r == seen.has(tag),
{
    match tag {
        Tag::Royal => seen.royal,
        Tag::Lives => seen.lives,
        Tag::Resigned => seen.resigned,
        Tag::Flagged => seen.flagged,
        Tag::Stalemated => seen.stalemated,
        Tag::ZombieImmune => seen.zombie_immune,
        Tag::ZombieType => seen.zombie_type,
        Tag::EnPassant => seen.enpassant,
        Tag::PawnsBaseRank => seen.pawnbaserank,
        Tag::Uniquify => seen.uniquify,
        Tag::Std2pc => seen.std2pc,
        Tag::GameOver => seen.game_over,
    }
}

/// The same labels and `tag`.
pub fn seen_with(seen: SeenTags, tag: Tag) -> (r: SeenTags)
    ensures
        r == seen.with(tag),
{
    let mut r = seen;
    match tag {
        Tag::Royal => {
            r.royal = true;
        },
        Tag::Lives => {
            r.lives = true;
        },
        Tag::Resigned => {
            r.resigned = true;
        },
        Tag::Flagged => {
            r.flagged = true;
        },
        Tag::Stalemated => {
            r.stalemated = true;
        },
        Tag::ZombieImmune => {
            r.zombie_immune = true;
        },
        Tag::ZombieType => {
            r.zombie_type = true;
        },
        Tag::EnPassant => {
            r.enpassant = true;
        },
        Tag::PawnsBaseRank => {
            r.pawnbaserank = true;
        },
        Tag::Uniquify => {
            r.uniquify = true;
        },
        Tag::Std2pc => {
            r.std2pc = true;
        },
        Tag::GameOver => {
            r.game_over = true;
        },
    }
    r
}

/// The four items of a quadruple `(a,b,c,d)`.
pub fn split_array<'a>(array: &'a [char]) -> (r: Result<[&'a [char]; 4], MetaDataParseError>)
    ensures
        match r {
            Ok(items) => parse_array(array@) == Ok::<Seq<Seq<char>>, MetaDataFault>(
                seq![items[0]@, items[1]@, items[2]@, items[3]@],
            ),
            Err(e) => parse_array(array@) == Err::<Seq<Seq<char>>, MetaDataFault>(e@),
        },
{
    let n = array.len();
    if n < 2 || array[0] != '(' || array[n - 1] != ')' {
        return Err(MetaDataParseError::BadParen);
    }
    let parts = split_text(slice_subrange(array, 1, n - 1), ',');
    if parts.len() != 4 {
        return Err(MetaDataParseError::BadComma);
    }
    let items = [parts[0], parts[1], parts[2], parts[3]];
    proof {
        let want = split(array@.subrange(1, n - 1), ',');
        assert(views(parts@) == want);
        assert(views(parts@)[0] == parts@[0]@);
        assert(views(parts@)[1] == parts@[1]@);
        assert(views(parts@)[2] == parts@[2]@);
        assert(views(parts@)[3] == parts@[3]@);
        assert(want =~= seq![items[0]@, items[1]@, items[2]@, items[3]@]);
    }
    Ok(items)
}

/// An item of `royal`.
pub fn read_royal_item(item: &[char]) -> (r: Result<Option<Position>, MetaDataParseError>)
    ensures
        match r {
            Ok(v) => parse_royal_item(item@) == Ok::<Option<Position>, MetaDataFault>(v),
            Err(e) => parse_royal_item(item@) == Err::<Option<Position>, MetaDataFault>(e@),
        },
{
    match strip_quotes(item) {
        None => Err(MetaDataParseError::BadQuote),
        Some(t) => {
            if t.len() == 0 {
                Ok(None)
            } else {
                match read_position(t) {
                    Ok(p) => Ok(Some(p)),
                    Err(e) => Err(MetaDataParseError::BadPosition(e)),
                }
            }
        },
    }
}

/// An item of `enPassant`.
pub fn read_enpassant_item(item: &[char]) -> (r: Result<
    Option<(Position, Position)>,
    MetaDataParseError,
>)
    ensures
        match r {
            Ok(v) => parse_enpassant_item(item@) == Ok::<
                Option<(Position, Position)>,
                MetaDataFault,
            >(v),
            Err(e) => parse_enpassant_item(item@) == Err::<
                Option<(Position, Position)>,
                MetaDataFault,
            >(e@),
        },
{
    proof {
        reveal(parse_enpassant_item);
    }
    match strip_quotes(item) {
        None => Err(MetaDataParseError::BadQuote),
        Some(t) => {
            if t.len() == 0 {
                return Ok(None);
            }
            let halves = split_text(t, ':');
            if halves.len() != 2 {
                return Err(MetaDataParseError::BadColon);
            }
            assert(views(halves@)[0] == halves@[0]@);
            assert(views(halves@)[1] == halves@[1]@);
            let a = match read_position(halves[0]) {
                Ok(p) => p,
                Err(e) => {
                    return Err(MetaDataParseError::BadPosition(e));
                },
            };
            let b = match read_position(halves[1]) {
                Ok(p) => p,
                Err(e) => {
                    return Err(MetaDataParseError::BadPosition(e));
                },
            };
            Ok(Some((a, b)))
        },
    }
}

/// A truth value inside a quadruple.
pub fn read_flag_item(item: &[char]) -> (r: Result<bool, MetaDataParseError>)
    ensures
        match r {
            Ok(v) => parse_flag_item(item@) == Ok::<bool, MetaDataFault>(v),
            Err(e) => parse_flag_item(item@) == Err::<bool, MetaDataFault>(e@),
        },
{
    if text_is(item, "true") {
        Ok(true)
    } else if text_is(item, "false") || text_is(item, "null") {
        Ok(false)
    } else {
        Err(MetaDataParseError::BadBoolean)
    }
}

/// A truth value on its own.
pub fn read_truth(value: &[char]) -> (r: Result<bool, MetaDataParseError>)
    ensures
        match r {
            Ok(v) => parse_truth(value@) == Ok::<bool, MetaDataFault>(v),
            Err(e) => parse_truth(value@) == Err::<bool, MetaDataFault>(e@),
        },
{
    if text_is(value, "true") {
        Ok(true)
    } else if text_is(value, "false") {
        Ok(false)
    } else {
        Err(MetaDataParseError::BadBoolean)
    }
}

/// A number that fits a `usize`.
pub fn read_count(value: &[char]) -> (r: Result<usize, MetaDataParseError>)
    ensures
        match r {
            Ok(v) => parse_count(value@) == Ok::<usize, MetaDataFault>(v),
            Err(e) => parse_count(value@) == Err::<usize, MetaDataFault>(e@),
        },
{
    match parse_usize(value) {
        Ok(n) => Ok(n),
        Err(e) => Err(MetaDataParseError::BadNumber(e)),
    }
}

/// A text in single quotes.
pub fn read_quoted(value: &[char]) -> (r: Result<String, MetaDataParseError>)
    ensures
        match r {
            Ok(v) => parse_quoted(value@) == Ok::<Seq<char>, MetaDataFault>(v@),
            Err(e) => parse_quoted(value@) == Err::<Seq<char>, MetaDataFault>(e@),
        },
{
    match strip_quotes(value) {
        Some(t) => Ok(string_of(t)),
        None => Err(MetaDataParseError::BadQuote),
    }
}

/// The value of `royal`.
pub fn read_royal(value: &[char]) -> (r: Result<[Option<Position>; 4], MetaDataParseError>)
    ensures
        match r {
            Ok(q) => parse_royal(value@) == Ok::<Seq<Option<Position>>, MetaDataFault>(q@),
            Err(e) => parse_royal(value@) == Err::<Seq<Option<Position>>, MetaDataFault>(e@),
        },
{
    let items = match split_array(value) {
        Ok(items) => items,
        Err(e) => {
            return Err(e);
        },
    };
    let a = match read_royal_item(items[0]) {
        Ok(v) => v,
        Err(e) => {
            return Err(e);
        },
    };
    let b = match read_royal_item(items[1]) {
        Ok(v) => v,
        Err(e) => {
            return Err(e);
        },
    };
    let c = match read_royal_item(items[2]) {
        Ok(v) => v,
        Err(e) => {
            return Err(e);
        },
    };
    let d = match read_royal_item(items[3]) {
        Ok(v) => v,
        Err(e) => {
            return Err(e);
        },
    };
    let q = [a, b, c, d];
    assert(q@ =~= seq![a, b, c, d]);
    Ok(q)
}

/// The value of `enPassant`.
pub fn read_enpassant(value: &[char]) -> (r: Result<
    [Option<(Position, Position)>; 4],
    MetaDataParseError,
>)
    ensures
        match r {
            Ok(q) => parse_enpassant(value@) == Ok::<
                Seq<Option<(Position, Position)>>,
                MetaDataFault,
            >(q@),
            Err(e) => parse_enpassant(value@) == Err::<
                Seq<Option<(Position, Position)>>,
                MetaDataFault,
            >(e@),
        },
{
    let items = match split_array(value) {
        Ok(items) => items,
        Err(e) => {
            return Err(e);
        },
    };
    let a = match read_enpassant_item(items[0]) {
        Ok(v) => v,
        Err(e) => {
            return Err(e);
        },
    };
    let b = match read_enpassant_item(items[1]) {
        Ok(v) => v,
        Err(e) => {
            return Err(e);
        },
    };
    let c = match read_enpassant_item(items[2]) {
        Ok(v) => v,
        Err(e) => {
            return Err(e);
        },
    };
    let d = match read_enpassant_item(items[3]) {
        Ok(v) => v,
        Err(e) => {
            return Err(e);
        },
    };
    let q = [a, b, c, d];
    assert(q@ =~= seq![a, b, c, d]);
    Ok(q)
}

/// The value of `resigned`, `flagged`, `stalemated` or `zombieImmune`.
pub fn read_flags(value: &[char]) -> (r: Result<[bool; 4], MetaDataParseError>)
    ensures
        match r {
            Ok(q) => parse_flags(value@) == Ok::<Seq<bool>, MetaDataFault>(q@),
            Err(e) => parse_flags(value@) == Err::<Seq<bool>, MetaDataFault>(e@),
        },
{
    let items = match split_array(value) {
        Ok(items) => items,
        Err(e) => {
            return Err(e);
        },
    };
    let a = match read_flag_item(items[0]) {
        Ok(v) => v,
        Err(e) => {
            return Err(e);
        },
    };
    let b = match read_flag_item(items[1]) {
        Ok(v) => v,
        Err(e) => {
            return Err(e);
        },
    };
    let c = match read_flag_item(items[2]) {
        Ok(v) => v,
        Err(e) => {
            return Err(e);
        },
    };
    let d = match read_flag_item(items[3]) {
        Ok(v) => v,
        Err(e) => {
            return Err(e);
        },
    };
    let q = [a, b, c, d];
    assert(q@ =~= seq![a, b, c, d]);
    Ok(q)
}

/// The value of `lives`.
pub fn read_lives(value: &[char]) -> (r: Result<[usize; 4], MetaDataParseError>)
    ensures
        match r {
            Ok(q) => parse_lives(value@) == Ok::<Seq<usize>, MetaDataFault>(q@),
            Err(e) => parse_lives(value@) == Err::<Seq<usize>, MetaDataFault>(e@),
        },
{
    let items = match split_array(value) {
        Ok(items) => items,
        Err(e) => {
            return Err(e);
        },
    };
    let a = match read_count(items[0]) {
        Ok(v) => v,
        Err(e) => {
            return Err(e);
        },
    };
    let b = match read_count(items[1]) {
        Ok(v) => v,
        Err(e) => {
            return Err(e);
        },
    };
    let c = match read_count(items[2]) {
        Ok(v) => v,
        Err(e) => {
            return Err(e);
        },
    };
    let d = match read_count(items[3]) {
        Ok(v) => v,
        Err(e) => {
            return Err(e);
        },
    };
    let q = [a, b, c, d];
    assert(q@ =~= seq![a, b, c, d]);
    Ok(q)
}

/// The model of four strings.
pub open spec fn names_view(q: [String; 4]) -> Seq<Seq<char>> {
    Seq::new(4, |i: int| q[i]@)
}

/// The value of `zombieType`.
pub fn read_names(value: &[char]) -> (r: Result<[String; 4], MetaDataParseError>)
    ensures
        match r {
            Ok(q) => parse_names(value@) == Ok::<Seq<Seq<char>>, MetaDataFault>(names_view(q)),
            Err(e) => parse_names(value@) == Err::<Seq<Seq<char>>, MetaDataFault>(e@),
        },
{
    let items = match split_array(value) {
        Ok(items) => items,
        Err(e) => {
            return Err(e);
        },
    };
    let a = match read_quoted(items[0]) {
        Ok(v) => v,
        Err(e) => {
            return Err(e);
        },
    };
    let b = match read_quoted(items[1]) {
        Ok(v) => v,
        Err(e) => {
            return Err(e);
        },
    };
    let c = match read_quoted(items[2]) {
        Ok(v) => v,
        Err(e) => {
            return Err(e);
        },
    };
    let d = match read_quoted(items[3]) {
        Ok(v) => v,
        Err(e) => {
            return Err(e);
        },
    };
    let ghost want = seq![a@, b@, c@, d@];
    let q = [a, b, c, d];
    assert(names_view(q) =~= want);
    Ok(q)
}

/// The options `extra` with the field `tag` set to what `value` states.
pub fn apply(extra: Extra, tag: Tag, value: &[char]) -> (r: Result<Extra, MetaDataParseError>)
    ensures
        extra_outcome(r) == apply_tag(extra@, tag, value@),
{
    proof {
        reveal(apply_tag);
    }
    let mut extra = extra;
    match tag {
        Tag::Royal => match read_royal(value) {
            Ok(q) => {
                extra.royal = q;
            },
            Err(e) => {
                return Err(e);
            },
        },
        Tag::Lives => match read_lives(value) {
            Ok(q) => {
                extra.lives = Some(q);
            },
            Err(e) => {
                return Err(e);
            },
        },
        Tag::Resigned => match read_flags(value) {
            Ok(q) => {
                extra.resigned = q;
            },
            Err(e) => {
                return Err(e);
            },
        },
        Tag::Flagged => match read_flags(value) {
            Ok(q) => {
                extra.flagged = q;
            },
            Err(e) => {
                return Err(e);
            },
        },
        Tag::Stalemated => match read_flags(value) {
            Ok(q) => {
                extra.stalemated = q;
            },
            Err(e) => {
                return Err(e);
            },
        },
        Tag::ZombieImmune => match read_flags(value) {
            Ok(q) => {
                extra.zombie_immune = q;
            },
            Err(e) => {
                return Err(e);
            },
        },
        Tag::ZombieType => match read_names(value) {
            Ok(q) => {
                extra.zombie_type = q;
            },
            Err(e) => {
                return Err(e);
            },
        },
        Tag::EnPassant => match read_enpassant(value) {
            Ok(q) => {
                extra.enpassant = q;
            },
            Err(e) => {
                return Err(e);
            },
        },
        Tag::PawnsBaseRank => match read_count(value) {
            Ok(n) => {
                extra.pawnbaserank = n;
            },
            Err(e) => {
                return Err(e);
            },
        },
        Tag::Uniquify => match read_count(value) {
            Ok(n) => {
                extra.uniquify = n;
            },
            Err(e) => {
                return Err(e);
            },
        },
        Tag::Std2pc => match read_truth(value) {
            Ok(b) => {
                extra.std2pc = b;
            },
            Err(e) => {
                return Err(e);
            },
        },
        Tag::GameOver => match read_quoted(value) {
            Ok(t) => {
                extra.game_over = t;
            },
            Err(e) => {
                return Err(e);
            },
        },
    }
    Ok(extra)
}

/// Where the value at the start of `rest` ends.
pub fn find_value_end(rest: &[char]) -> (r: Option<usize>)
    ensures
        match r {
            Some(end) => value_end(rest@) == Some(end as nat) && end <= rest@.len(),
            None => value_end(rest@) is None,
        },
{
    if rest.len() > 0 && rest[0] == '(' {
        let close = find_char(rest, ')');
        if close < rest.len() {
            Some(close + 1)
        } else {
            None
        }
    } else {
        Some(find_either(rest, ',', '}'))
    }
}

/// Reads one entry from the start of `cur` into `extra`. Gives the options
/// with the entry's field set, the field, and how much of `cur` the entry took.
pub fn read_entry(cur: &[char], extra: Extra, seen: &SeenTags) -> (r: Result<
    (Extra, Tag, usize),
    MetaDataParseError,
>)
    ensures
        match r {
            Ok((e2, tag, used)) => used <= cur@.len() && parse_entry(cur@, extra@, *seen) == Ok::<
                (ExtraView, Tag, Seq<char>),
                MetaDataFault,
            >((e2@, tag, cur@.skip(used as int))),
            Err(x) => parse_entry(cur@, extra@, *seen) == Err::<
                (ExtraView, Tag, Seq<char>),
                MetaDataFault,
            >(x@),
        },
{
    proof {
        reveal(parse_entry);
    }
    let colon = find_char(cur, ':');
    if colon >= cur.len() {
        return Err(MetaDataParseError::BadColon);
    }
    let quoted = slice_subrange(cur, 0, colon);
    let rest = slice_subrange(cur, colon + 1, cur.len());
    assert(quoted@ == cur@.take(colon as int));
    assert(rest@ == cur@.skip(colon + 1));
    let label = match strip_quotes(quoted) {
        Some(label) => label,
        None => {
            return Err(MetaDataParseError::BadQuote);
        },
    };
    let end = match find_value_end(rest) {
        Some(end) => end,
        None => {
            return Err(MetaDataParseError::BadParen);
        },
    };
    let tag = match read_tag(label) {
        Some(tag) => tag,
        None => {
            return Err(MetaDataParseError::UnknownTag(string_of(label)));
        },
    };
    if seen_has(seen, tag) {
        return Err(MetaDataParseError::RepeatedTag);
    }
    let value = slice_subrange(rest, 0, end);
    assert(value@ == rest@.take(end as int));
    match apply(extra, tag, value) {
        Err(x) => Err(x),
        Ok(e2) => {
            assert(rest@.skip(end as int) == cur@.skip(colon + 1 + end));
            Ok((e2, tag, colon + 1 + end))
        },
    }
}

/// Reads a tag block, braces included.
pub fn read_extra(s: &[char]) -> (r: Result<Extra, MetaDataParseError>)
    ensures
        extra_outcome(r) == parse_extra(s@),
{
    let n = s.len();
    if n < 2 || s[0] != '{' || s[n - 1] != '}' || n == 2 {
        return Err(MetaDataParseError::BadCurly);
    }
    let mut extra = Extra::default();
    let mut seen = seen_none();
    let mut pos: usize = 1;
    loop
        invariant
            1 <= pos <= n,
            n == s@.len(),
            parse_entries(s@.skip(pos as int), extra@, seen) == parse_extra(s@),
        decreases n - pos,
    {
        let cur = slice_subrange(s, pos, n);
        assert(cur@ == s@.skip(pos as int));
        let (e2, tag, used) = match read_entry(cur, extra, &seen) {
            Ok(found) => found,
            Err(x) => {
                return Err(x);
            },
        };
        let after = slice_subrange(cur, used, cur.len());
        assert(after@ == cur@.skip(used as int));
        if after.len() == 1 && after[0] == '}' {
            assert(after@ =~= seq!['}']);
            return Ok(e2);
        }
        if after.len() == 0 || after[0] != ',' {
            return Err(MetaDataParseError::BadComma);
        }
        assert(after@.skip(1) == s@.skip(pos + used + 1));
        extra = e2;
        seen = seen_with(seen, tag);
        pos = pos + used + 1;
    }
}

impl FromStr for Extra {
    type Err = MetaDataParseError;

    /// Reads a tag block, braces included: `{'label':value,...}`.
    ///
    /// The labels may come in any order. A label that occurs twice, a label
    /// that the notation does not know, and the empty block `{}` are refused.
    fn from_str(tagged: &str) -> (r: Result<Extra, MetaDataParseError>)
        ensures
            extra_outcome(r) == parse_extra(tagged@),
    {
        let chars = chars_of(tagged);
        read_extra(chars.as_slice())
    }
}

} // verus!
