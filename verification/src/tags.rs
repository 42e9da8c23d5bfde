//! The grammar of the tag block: its labels, the values that each label
//! takes, and the errors of the metadata.
//!
//! A block is `{` entry (`,` entry)* `}` and an entry is `'label':value`.
//! This module states what a block means; the functions that read one are
//! in `extra`, those that write one in `tag_text`.

use crate::number::{parse_number, NumberParseError};
use crate::position::{parse_position, PositionParseError};
use crate::text::{
    first_index, first_index_either, lemma_first_index, lemma_first_index_either, split, unquote,
};
use crate::types::{default_extra, ExtraView, Position};
use vstd::prelude::*;

verus! {

/// Why a piece of text is not the metadata of a board.
#[derive(Clone, PartialEq, Eq, Debug)]
pub enum MetaDataParseError {
    /// A section between dashes is missing, or one is left over.
    BadDash,
    /// The tag block does not start with `{` or end with `}`, or it is `{}`.
    BadCurly,
    /// A label or a text value lacks its single quotes.
    BadQuote,
    /// An entry lacks the colon after its label, or the two squares of an
    /// en-passant value are not separated by exactly one colon.
    BadColon,
    /// A quadruple lacks its parentheses.
    BadParen,
    /// The turn is none of `R`, `B`, `Y` and `G`.
    BadColor,
    /// A quadruple does not have four items, or the text after a value is
    /// neither a comma nor the closing brace.
    BadComma,
    /// A label occurs a second time.
    RepeatedTag,
    /// A truth value is none of the accepted words.
    BadBoolean,
    /// The label is not one that the notation knows.
    UnknownTag(String),
    /// A square was expected.
    BadPosition(PositionParseError),
    /// A number was expected.
    BadNumber(NumberParseError),
}

/// The mathematical model of [`MetaDataParseError`].
pub enum MetaDataFault {
    BadDash,
    BadCurly,
    BadQuote,
    BadColon,
    BadParen,
    BadColor,
    BadComma,
    RepeatedTag,
    BadBoolean,
    UnknownTag(Seq<char>),
    BadPosition(PositionParseError),
    BadNumber(NumberParseError),
}

impl View for MetaDataParseError {
    type V = MetaDataFault;

    open spec fn view(&self) -> MetaDataFault {
        match self {
            MetaDataParseError::BadDash => MetaDataFault::BadDash,
            MetaDataParseError::BadCurly => MetaDataFault::BadCurly,
            MetaDataParseError::BadQuote => MetaDataFault::BadQuote,
            MetaDataParseError::BadColon => MetaDataFault::BadColon,
            MetaDataParseError::BadParen => MetaDataFault::BadParen,
            MetaDataParseError::BadColor => MetaDataFault::BadColor,
            MetaDataParseError::BadComma => MetaDataFault::BadComma,
            MetaDataParseError::RepeatedTag => MetaDataFault::RepeatedTag,
            MetaDataParseError::BadBoolean => MetaDataFault::BadBoolean,
            MetaDataParseError::UnknownTag(label) => MetaDataFault::UnknownTag(label@),
            MetaDataParseError::BadPosition(e) => MetaDataFault::BadPosition(*e),
            MetaDataParseError::BadNumber(e) => MetaDataFault::BadNumber(*e),
        }
    }
}

/// The fields of the options, in the order in which a block states them.
#[derive(Clone, Copy, PartialEq, Eq, Structural, Debug)]
pub enum Tag {
    Royal,
    Lives,
    Resigned,
    Flagged,
    Stalemated,
    ZombieImmune,
    ZombieType,
    EnPassant,
    PawnsBaseRank,
    Uniquify,
    Std2pc,
    GameOver,
}

/// The labels met so far in a block.
#[derive(Clone, Copy, Debug)]
pub struct SeenTags {
    pub royal: bool,
    pub lives: bool,
    pub resigned: bool,
    pub flagged: bool,
    pub stalemated: bool,
    pub zombie_immune: bool,
    pub zombie_type: bool,
    pub enpassant: bool,
    pub pawnbaserank: bool,
    pub uniquify: bool,
    pub std2pc: bool,
    pub game_over: bool,
}

impl SeenTags {
    /// No label met yet.
    pub open spec fn none() -> SeenTags {
        SeenTags {
            royal: false,
            lives: false,
            resigned: false,
            flagged: false,
            stalemated: false,
            zombie_immune: false,
            zombie_type: false,
            enpassant: false,
            pawnbaserank: false,
            uniquify: false,
            std2pc: false,
            game_over: false,
        }
    }

    /// Whether `tag` was met.
    pub open spec fn has(self, tag: Tag) -> bool {
        match tag {
            Tag::Royal => self.royal,
            Tag::Lives => self.lives,
            Tag::Resigned => self.resigned,
            Tag::Flagged => self.flagged,
            Tag::Stalemated => self.stalemated,
            Tag::ZombieImmune => self.zombie_immune,
            Tag::ZombieType => self.zombie_type,
            Tag::EnPassant => self.enpassant,
            Tag::PawnsBaseRank => self.pawnbaserank,
            Tag::Uniquify => self.uniquify,
            Tag::Std2pc => self.std2pc,
            Tag::GameOver => self.game_over,
        }
    }

    /// The same labels and `tag`.
    pub open spec fn with(self, tag: Tag) -> SeenTags {
        SeenTags {
            royal: self.royal || tag == Tag::Royal,
            lives: self.lives || tag == Tag::Lives,
            resigned: self.resigned || tag == Tag::Resigned,
            flagged: self.flagged || tag == Tag::Flagged,
            stalemated: self.stalemated || tag == Tag::Stalemated,
            zombie_immune: self.zombie_immune || tag == Tag::ZombieImmune,
            zombie_type: self.zombie_type || tag == Tag::ZombieType,
            enpassant: self.enpassant || tag == Tag::EnPassant,
            pawnbaserank: self.pawnbaserank || tag == Tag::PawnsBaseRank,
            uniquify: self.uniquify || tag == Tag::Uniquify,
            std2pc: self.std2pc || tag == Tag::Std2pc,
            game_over: self.game_over || tag == Tag::GameOver,
        }
    }
}

/// The field that a label names. `kingSquares` and `pawnBaseRank` are older
/// names of `royal` and `pawnsBaseRank`.
pub open spec fn tag_of_label(label: Seq<char>) -> Option<Tag> {
    if label == "royal"@ || label == "kingSquares"@ {
        Some(Tag::Royal)
    } else if label == "lives"@ {
        Some(Tag::Lives)
    } else if label == "resigned"@ {
        Some(Tag::Resigned)
    } else if label == "flagged"@ {
        Some(Tag::Flagged)
    } else if label == "stalemated"@ {
        Some(Tag::Stalemated)
    } else if label == "zombieImmune"@ {
        Some(Tag::ZombieImmune)
    } else if label == "zombieType"@ {
        Some(Tag::ZombieType)
    } else if label == "enPassant"@ {
        Some(Tag::EnPassant)
    } else if label == "pawnsBaseRank"@ || label == "pawnBaseRank"@ {
        Some(Tag::PawnsBaseRank)
    } else if label == "uniquify"@ {
        Some(Tag::Uniquify)
    } else if label == "std2pc"@ {
        Some(Tag::Std2pc)
    } else if label == "gameOver"@ {
        Some(Tag::GameOver)
    } else {
        None
    }
}

/// The label under which a field is written.
pub open spec fn label_of_tag(tag: Tag) -> Seq<char> {
    match tag {
        Tag::Royal => "royal"@,
        Tag::Lives => "lives"@,
        Tag::Resigned => "resigned"@,
        Tag::Flagged => "flagged"@,
        Tag::Stalemated => "stalemated"@,
        Tag::ZombieImmune => "zombieImmune"@,
        Tag::ZombieType => "zombieType"@,
        Tag::EnPassant => "enPassant"@,
        Tag::PawnsBaseRank => "pawnsBaseRank"@,
        Tag::Uniquify => "uniquify"@,
        Tag::Std2pc => "std2pc"@,
        Tag::GameOver => "gameOver"@,
    }
}

/// The four items of a quadruple `(a,b,c,d)`, as text.
pub open spec fn parse_array(value: Seq<char>) -> Result<Seq<Seq<char>>, MetaDataFault> {
    if value.len() < 2 || value[0] != '(' || value.last() != ')' {
        Err(MetaDataFault::BadParen)
    } else {
        let items = split(value.subrange(1, value.len() - 1), ',');
        if items.len() == 4 {
            Ok(items)
        } else {
            Err(MetaDataFault::BadComma)
        }
    }
}

/// Four results in a row: the first fault, or the four values.
pub open spec fn collect4<T>(
    a: Result<T, MetaDataFault>,
    b: Result<T, MetaDataFault>,
    c: Result<T, MetaDataFault>,
    d: Result<T, MetaDataFault>,
) -> Result<Seq<T>, MetaDataFault> {
    match (a, b, c, d) {
        (Ok(a), Ok(b), Ok(c), Ok(d)) => Ok(seq![a, b, c, d]),
        (Err(e), _, _, _) => Err(e),
        (_, Err(e), _, _) => Err(e),
        (_, _, Err(e), _) => Err(e),
        (_, _, _, Err(e)) => Err(e),
    }
}

/// An item of `royal`: a quoted square, or `''` for none.
pub open spec fn parse_royal_item(item: Seq<char>) -> Result<Option<Position>, MetaDataFault> {
    match unquote(item) {
        None => Err(MetaDataFault::BadQuote),
        Some(t) => if t.len() == 0 {
            Ok(None)
        } else {
            match parse_position(t) {
                Ok(p) => Ok(Some(p)),
                Err(e) => Err(MetaDataFault::BadPosition(e)),
            }
        },
    }
}

/// An item of `enPassant`: two squares with a colon between them, in quotes,
/// or `''` for none.
#[verifier::opaque]
pub open spec fn parse_enpassant_item(item: Seq<char>) -> Result<
    Option<(Position, Position)>,
    MetaDataFault,
> {
    match unquote(item) {
        None => Err(MetaDataFault::BadQuote),
        Some(t) => if t.len() == 0 {
            Ok(None)
        } else {
            let halves = split(t, ':');
            if halves.len() != 2 {
                Err(MetaDataFault::BadColon)
            } else {
                match (parse_position(halves[0]), parse_position(halves[1])) {
                    (Ok(a), Ok(b)) => Ok(Some((a, b))),
                    (Err(e), _) => Err(MetaDataFault::BadPosition(e)),
                    (_, Err(e)) => Err(MetaDataFault::BadPosition(e)),
                }
            }
        },
    }
}

/// A truth value inside a quadruple: `true`, `false`, or `null` for false.
pub open spec fn parse_flag_item(item: Seq<char>) -> Result<bool, MetaDataFault> {
    if item == "true"@ {
        Ok(true)
    } else if item == "false"@ || item == "null"@ {
        Ok(false)
    } else {
        Err(MetaDataFault::BadBoolean)
    }
}

/// A truth value on its own: `true` or `false`.
pub open spec fn parse_truth(value: Seq<char>) -> Result<bool, MetaDataFault> {
    if value == "true"@ {
        Ok(true)
    } else if value == "false"@ {
        Ok(false)
    } else {
        Err(MetaDataFault::BadBoolean)
    }
}

/// A number that fits a `usize`.
pub open spec fn parse_count(value: Seq<char>) -> Result<usize, MetaDataFault> {
    match parse_number(value, usize::MAX as nat) {
        Ok(n) => Ok(n as usize),
        Err(e) => Err(MetaDataFault::BadNumber(e)),
    }
}

/// A text in single quotes.
pub open spec fn parse_quoted(value: Seq<char>) -> Result<Seq<char>, MetaDataFault> {
    match unquote(value) {
        Some(t) => Ok(t),
        None => Err(MetaDataFault::BadQuote),
    }
}

/// The value of `royal`.
pub open spec fn parse_royal(value: Seq<char>) -> Result<Seq<Option<Position>>, MetaDataFault> {
    match parse_array(value) {
        Err(e) => Err(e),
        Ok(items) => collect4(
            parse_royal_item(items[0]),
            parse_royal_item(items[1]),
            parse_royal_item(items[2]),
            parse_royal_item(items[3]),
        ),
    }
}

/// The value of `enPassant`.
pub open spec fn parse_enpassant(value: Seq<char>) -> Result<
    Seq<Option<(Position, Position)>>,
    MetaDataFault,
> {
    match parse_array(value) {
        Err(e) => Err(e),
        Ok(items) => collect4(
            parse_enpassant_item(items[0]),
            parse_enpassant_item(items[1]),
            parse_enpassant_item(items[2]),
            parse_enpassant_item(items[3]),
        ),
    }
}

/// The value of `resigned`, `flagged`, `stalemated` or `zombieImmune`.
pub open spec fn parse_flags(value: Seq<char>) -> Result<Seq<bool>, MetaDataFault> {
    match parse_array(value) {
        Err(e) => Err(e),
        Ok(items) => collect4(
            parse_flag_item(items[0]),
            parse_flag_item(items[1]),
            parse_flag_item(items[2]),
            parse_flag_item(items[3]),
        ),
    }
}

/// The value of `lives`.
pub open spec fn parse_lives(value: Seq<char>) -> Result<Seq<usize>, MetaDataFault> {
    match parse_array(value) {
        Err(e) => Err(e),
        Ok(items) => collect4(
            parse_count(items[0]),
            parse_count(items[1]),
            parse_count(items[2]),
            parse_count(items[3]),
        ),
    }
}

/// The value of `zombieType`.
pub open spec fn parse_names(value: Seq<char>) -> Result<Seq<Seq<char>>, MetaDataFault> {
    match parse_array(value) {
        Err(e) => Err(e),
        Ok(items) => collect4(
            parse_quoted(items[0]),
            parse_quoted(items[1]),
            parse_quoted(items[2]),
            parse_quoted(items[3]),
        ),
    }
}

/// The options `e` with the field `tag` set to what `value` states.
#[verifier::opaque]
pub open spec fn apply_tag(e: ExtraView, tag: Tag, value: Seq<char>) -> Result<
    ExtraView,
    MetaDataFault,
> {
    match tag {
        Tag::Royal => match parse_royal(value) {
            Ok(q) => Ok(ExtraView { royal: q, ..e }),
            Err(x) => Err(x),
        },
        Tag::Lives => match parse_lives(value) {
            Ok(q) => Ok(ExtraView { lives: Some(q), ..e }),
            Err(x) => Err(x),
        },
        Tag::Resigned => match parse_flags(value) {
            Ok(q) => Ok(ExtraView { resigned: q, ..e }),
            Err(x) => Err(x),
        },
        Tag::Flagged => match parse_flags(value) {
            Ok(q) => Ok(ExtraView { flagged: q, ..e }),
            Err(x) => Err(x),
        },
        Tag::Stalemated => match parse_flags(value) {
            Ok(q) => Ok(ExtraView { stalemated: q, ..e }),
            Err(x) => Err(x),
        },
        Tag::ZombieImmune => match parse_flags(value) {
            Ok(q) => Ok(ExtraView { zombie_immune: q, ..e }),
            Err(x) => Err(x),
        },
        Tag::ZombieType => match parse_names(value) {
            Ok(q) => Ok(ExtraView { zombie_type: q, ..e }),
            Err(x) => Err(x),
        },
        Tag::EnPassant => match parse_enpassant(value) {
            Ok(q) => Ok(ExtraView { enpassant: q, ..e }),
            Err(x) => Err(x),
        },
        Tag::PawnsBaseRank => match parse_count(value) {
            Ok(n) => Ok(ExtraView { pawnbaserank: n, ..e }),
            Err(x) => Err(x),
        },
        Tag::Uniquify => match parse_count(value) {
            Ok(n) => Ok(ExtraView { uniquify: n, ..e }),
            Err(x) => Err(x),
        },
        Tag::Std2pc => match parse_truth(value) {
            Ok(b) => Ok(ExtraView { std2pc: b, ..e }),
            Err(x) => Err(x),
        },
        Tag::GameOver => match parse_quoted(value) {
            Ok(t) => Ok(ExtraView { game_over: t, ..e }),
            Err(x) => Err(x),
        },
    }
}

/// Where the value at the start of `rest` ends: behind the first `)` if it
/// opens with `(`, else in front of the first `,` or `}`. `None` if a
/// parenthesis is opened and never closed.
pub open spec fn value_end(rest: Seq<char>) -> Option<nat> {
    if rest.len() > 0 && rest[0] == '(' {
        let close = first_index(rest, ')');
        if close < rest.len() {
            Some(close + 1)
        } else {
            None
        }
    } else {
        Some(first_index_either(rest, ',', '}'))
    }
}

/// One entry read from the start of `cur`: what the options become, and the
/// text that follows the entry's value.
#[verifier::opaque]
pub open spec fn parse_entry(cur: Seq<char>, e: ExtraView, seen: SeenTags) -> Result<
    (ExtraView, Tag, Seq<char>),
    MetaDataFault,
> {
    let colon = first_index(cur, ':');
    if colon >= cur.len() {
        Err(MetaDataFault::BadColon)
    } else {
        let rest = cur.skip(colon as int + 1);
        match (unquote(cur.take(colon as int)), value_end(rest)) {
            (None, _) => Err(MetaDataFault::BadQuote),
            (Some(_), None) => Err(MetaDataFault::BadParen),
            (Some(label), Some(end)) => match tag_of_label(label) {
                None => Err(MetaDataFault::UnknownTag(label)),
                Some(tag) => if seen.has(tag) {
                    Err(MetaDataFault::RepeatedTag)
                } else {
                    match apply_tag(e, tag, rest.take(end as int)) {
                        Err(x) => Err(x),
                        Ok(e2) => Ok((e2, tag, rest.skip(end as int))),
                    }
                },
            },
        }
    }
}

/// The entries of a block from `cur` on, read one after the other into `e`.
/// `cur` is what is left of the block behind its opening brace.
pub open spec fn parse_entries(cur: Seq<char>, e: ExtraView, seen: SeenTags) -> Result<
    ExtraView,
    MetaDataFault,
>
    decreases cur.len(),
    via parse_entries_decreases
{
    match parse_entry(cur, e, seen) {
        Err(x) => Err(x),
        Ok((e2, tag, after)) => if after =~= seq!['}'] {
            Ok(e2)
        } else if after.len() > 0 && after[0] == ',' {
            parse_entries(after.skip(1), e2, seen.with(tag))
        } else {
            Err(MetaDataFault::BadComma)
        },
    }
}

#[via_fn]
proof fn parse_entries_decreases(cur: Seq<char>, e: ExtraView, seen: SeenTags) {
    lemma_entry_rest(cur, e, seen);
}

/// What follows an entry is shorter than the text that the entry was read from.
pub proof fn lemma_entry_rest(cur: Seq<char>, e: ExtraView, seen: SeenTags)
    ensures
        match parse_entry(cur, e, seen) {
            Ok((_, _, after)) => after.len() < cur.len() && after =~= cur.skip(
                cur.len() - after.len(),
            ),
            Err(_) => true,
        },
{
    reveal(parse_entry);
    let colon = first_index(cur, ':');
    if colon < cur.len() {
        let rest = cur.skip(colon as int + 1);
        lemma_first_index(rest, ')');
        lemma_first_index_either(rest, ',', '}');
    }
}

/// The options that a tag block states.
pub open spec fn parse_extra(s: Seq<char>) -> Result<ExtraView, MetaDataFault> {
    if s.len() < 2 || s[0] != '{' || s.last() != '}' || s.len() == 2 {
        Err(MetaDataFault::BadCurly)
    } else {
        parse_entries(s.skip(1), default_extra(), SeenTags::none())
    }
}

} // verus!
