//! Writing the options as the entries of a tag block.
//!
//! Only the fields that differ from their default are written, each once, in
//! the order of [`Tag`], whatever order a block that was read had them in.

use crate::number::{decimal, push_decimal};
use crate::position::{position_text, write_position};
use crate::tags::{label_of_tag, Tag};
use crate::text::{
    chars_of, join, join_text, lemma_join_four, push_chars, push_text, string_of, texts,
};
use crate::types::{default_extra, four, Extra, ExtraView, Position};
use vstd::prelude::*;

verus! {

/// `t` in single quotes.
pub open spec fn quoted(t: Seq<char>) -> Seq<char> {
    seq!['\''] + t + seq!['\'']
}

/// A quadruple: the items in parentheses with commas between them.
pub open spec fn array_text(items: Seq<Seq<char>>) -> Seq<char> {
    seq!['('] + join(items, ',') + seq![')']
}

/// An item of `royal`.
pub open spec fn royal_item_text(v: Option<Position>) -> Seq<char> {
    match v {
        None => quoted(Seq::empty()),
        Some(p) => quoted(position_text(p)),
    }
}

/// An item of `enPassant`.
pub open spec fn enpassant_item_text(v: Option<(Position, Position)>) -> Seq<char> {
    match v {
        None => quoted(Seq::empty()),
        Some((a, b)) => quoted(position_text(a) + seq![':'] + position_text(b)),
    }
}

/// A truth value.
pub open spec fn truth_text(b: bool) -> Seq<char> {
    if b {
        "true"@
    } else {
        "false"@
    }
}

/// Four truth values as a quadruple.
pub open spec fn flags_text(q: Seq<bool>) -> Seq<char> {
    array_text(seq![truth_text(q[0]), truth_text(q[1]), truth_text(q[2]), truth_text(q[3])])
}

/// The value of the field `tag` of `e`, as a block states it.
pub open spec fn value_text(tag: Tag, e: ExtraView) -> Seq<char> {
    match tag {
        Tag::Royal => array_text(
            seq![
                royal_item_text(e.royal[0]),
                royal_item_text(e.royal[1]),
                royal_item_text(e.royal[2]),
                royal_item_text(e.royal[3]),
            ],
        ),
        Tag::Lives => {
            let l = e.lives->0;
            array_text(
                seq![
                    decimal(l[0] as nat),
                    decimal(l[1] as nat),
                    decimal(l[2] as nat),
                    decimal(l[3] as nat),
                ],
            )
        },
        Tag::Resigned => flags_text(e.resigned),
        Tag::Flagged => flags_text(e.flagged),
        Tag::Stalemated => flags_text(e.stalemated),
        Tag::ZombieImmune => flags_text(e.zombie_immune),
        Tag::ZombieType => array_text(
            seq![
                quoted(e.zombie_type[0]),
                quoted(e.zombie_type[1]),
                quoted(e.zombie_type[2]),
                quoted(e.zombie_type[3]),
            ],
        ),
        Tag::EnPassant => array_text(
            seq![
                enpassant_item_text(e.enpassant[0]),
                enpassant_item_text(e.enpassant[1]),
                enpassant_item_text(e.enpassant[2]),
                enpassant_item_text(e.enpassant[3]),
            ],
        ),
        Tag::PawnsBaseRank => decimal(e.pawnbaserank as nat),
        Tag::Uniquify => decimal(e.uniquify as nat),
        Tag::Std2pc => truth_text(e.std2pc),
        Tag::GameOver => quoted(e.game_over),
    }
}

/// The entry of the field `tag` of `e`: the quoted label, a colon, the value.
pub open spec fn entry_text(tag: Tag, e: ExtraView) -> Seq<char> {
    quoted(label_of_tag(tag)) + seq![':'] + value_text(tag, e)
}

/// Whether the field `tag` of `e` differs from its default, so that a block
/// has to state it.
pub open spec fn is_stated(tag: Tag, e: ExtraView) -> bool {
    let d = default_extra();
    match tag {
        Tag::Royal => e.royal != d.royal,
        Tag::Lives => e.lives != d.lives,
        Tag::Resigned => e.resigned != d.resigned,
        Tag::Flagged => e.flagged != d.flagged,
        Tag::Stalemated => e.stalemated != d.stalemated,
        Tag::ZombieImmune => e.zombie_immune != d.zombie_immune,
        Tag::ZombieType => e.zombie_type != d.zombie_type,
        Tag::EnPassant => e.enpassant != d.enpassant,
        Tag::PawnsBaseRank => e.pawnbaserank != d.pawnbaserank,
        Tag::Uniquify => e.uniquify != d.uniquify,
        Tag::Std2pc => e.std2pc != d.std2pc,
        Tag::GameOver => e.game_over != d.game_over,
    }
}

/// The fields in the order in which they are written.
pub open spec fn tag_at(k: int) -> Tag {
    if k <= 0 {
        Tag::Royal
    } else if k == 1 {
        Tag::Lives
    } else if k == 2 {
        Tag::Resigned
    } else if k == 3 {
        Tag::Flagged
    } else if k == 4 {
        Tag::Stalemated
    } else if k == 5 {
        Tag::ZombieImmune
    } else if k == 6 {
        Tag::ZombieType
    } else if k == 7 {
        Tag::EnPassant
    } else if k == 8 {
        Tag::PawnsBaseRank
    } else if k == 9 {
        Tag::Uniquify
    } else if k == 10 {
        Tag::Std2pc
    } else {
        Tag::GameOver
    }
}

/// The entries of the fields from place `lo` up to, not including, place
/// `hi` that differ from their default, in order.
pub open spec fn stated_entries(e: ExtraView, lo: int, hi: int) -> Seq<Seq<char>>
    decreases hi - lo,
{
    if hi <= lo {
        Seq::empty()
    } else if is_stated(tag_at(hi - 1), e) {
        stated_entries(e, lo, hi - 1).push(entry_text(tag_at(hi - 1), e))
    } else {
        stated_entries(e, lo, hi - 1)
    }
}

/// The entries of `e` with commas between them, without the braces. Empty
/// when every field has its default.
pub open spec fn extra_text(e: ExtraView) -> Seq<char> {
    join(stated_entries(e, 0, 12), ',')
}

/// Whether a square that may be absent lies on the board if it is there.
pub open spec fn square_writable(v: Option<Position>) -> bool {
    match v {
        None => true,
        Some(p) => p.on_board(),
    }
}

/// Whether a pair of squares that may be absent lies on the board if it is there.
pub open spec fn pair_writable(v: Option<(Position, Position)>) -> bool {
    match v {
        None => true,
        Some((a, b)) => a.on_board() && b.on_board(),
    }
}

/// Whether every square that the options name lies on the board. Options
/// that name a square off the board cannot be written.
pub open spec fn extra_writable(e: ExtraView) -> bool {
    &&& square_writable(e.royal[0])
    &&& square_writable(e.royal[1])
    &&& square_writable(e.royal[2])
    &&& square_writable(e.royal[3])
    &&& pair_writable(e.enpassant[0])
    &&& pair_writable(e.enpassant[1])
    &&& pair_writable(e.enpassant[2])
    &&& pair_writable(e.enpassant[3])
}

/// The field at place `k` of the order in which fields are written.
pub fn tag_by_place(k: usize) -> (tag: Tag)
    ensures
        tag == tag_at(k as int),
{
    if k == 0 {
        Tag::Royal
    } else if k == 1 {
        Tag::Lives
    } else if k == 2 {
        Tag::Resigned
    } else if k == 3 {
        Tag::Flagged
    } else if k == 4 {
        Tag::Stalemated
    } else if k == 5 {
        Tag::ZombieImmune
    } else if k == 6 {
        Tag::ZombieType
    } else if k == 7 {
        Tag::EnPassant
    } else if k == 8 {
        Tag::PawnsBaseRank
    } else if k == 9 {
        Tag::Uniquify
    } else if k == 10 {
        Tag::Std2pc
    } else {
        Tag::GameOver
    }
}

/// Whether any of four truth values is set.
pub fn any_flag(q: &[bool; 4]) -> (r: bool)
    ensures
        r == (q@ != four(false)),
{
    let r = q[0] || q[1] || q[2] || q[3];
    assert(!r ==> q@ =~= four(false));
    assert(r ==> four(false)[0] == false && four(false)[1] == false && four(false)[2] == false
        && four(false)[3] == false);
    r
}

/// Whether the field `tag` of `extra` differs from its default.
pub fn stated(extra: &Extra, tag: Tag) -> (r: bool)
    ensures
        r == is_stated(tag, extra@),
{
    let ghost e = extra@;
    let ghost d = default_extra();
    match tag {
        Tag::Royal => {
            let r = extra.royal[0].is_some() || extra.royal[1].is_some() || extra.royal[2].is_some()
                || extra.royal[3].is_some();
            assert(!r ==> e.royal =~= d.royal);
            assert(r ==> d.royal[0] is None && d.royal[1] is None && d.royal[2] is None
                && d.royal[3] is None);
            r
        },
        Tag::Lives => extra.lives.is_some(),
        Tag::Resigned => any_flag(&extra.resigned),
        Tag::Flagged => any_flag(&extra.flagged),
        Tag::Stalemated => any_flag(&extra.stalemated),
        Tag::ZombieImmune => any_flag(&extra.zombie_immune),
        Tag::ZombieType => {
            let r = !extra.zombie_type[0].as_str().is_empty()
                || !extra.zombie_type[1].as_str().is_empty()
                || !extra.zombie_type[2].as_str().is_empty()
                || !extra.zombie_type[3].as_str().is_empty();
            assert(e.zombie_type[0] == extra.zombie_type[0]@);
            assert(e.zombie_type[1] == extra.zombie_type[1]@);
            assert(e.zombie_type[2] == extra.zombie_type[2]@);
            assert(e.zombie_type[3] == extra.zombie_type[3]@);
            assert(!r ==> e.zombie_type =~~= d.zombie_type);
            assert(r ==> d.zombie_type[0].len() == 0 && d.zombie_type[1].len() == 0
                && d.zombie_type[2].len() == 0 && d.zombie_type[3].len() == 0);
            r
        },
        Tag::EnPassant => {
            let r = extra.enpassant[0].is_some() || extra.enpassant[1].is_some()
                || extra.enpassant[2].is_some() || extra.enpassant[3].is_some();
            assert(!r ==> e.enpassant =~= d.enpassant);
            assert(r ==> d.enpassant[0] is None && d.enpassant[1] is None && d.enpassant[2] is None
                && d.enpassant[3] is None);
            r
        },
        Tag::PawnsBaseRank => extra.pawnbaserank != 2,
        Tag::Uniquify => extra.uniquify != 0,
        Tag::Std2pc => extra.std2pc,
        Tag::GameOver => {
            let r = !extra.game_over.as_str().is_empty();
            assert(!r ==> e.game_over =~= d.game_over);
            r
        },
    }
}

/// `t` in single quotes.
pub fn quote(t: &[char]) -> (out: Vec<char>)
    ensures
        out@ == quoted(t@),
{
    let mut out: Vec<char> = Vec::new();
    out.push('\'');
    push_chars(&mut out, t);
    out.push('\'');
    assert(out@ =~= quoted(t@));
    out
}

/// The four items in parentheses with commas between them.
pub fn array_of(a: &[char], b: &[char], c: &[char], d: &[char]) -> (out: Vec<char>)
    ensures
        out@ == array_text(seq![a@, b@, c@, d@]),
{
    let mut out: Vec<char> = Vec::new();
    out.push('(');
    push_chars(&mut out, a);
    out.push(',');
    push_chars(&mut out, b);
    out.push(',');
    push_chars(&mut out, c);
    out.push(',');
    push_chars(&mut out, d);
    out.push(')');
    proof {
        lemma_join_four(a@, b@, c@, d@, ',');
        assert(out@ =~= array_text(seq![a@, b@, c@, d@]));
    }
    out
}

/// An item of `royal`, or `None` for a square off the board.
pub fn royal_item(v: &Option<Position>) -> (r: Option<Vec<char>>)
    ensures
        r is Some <==> square_writable(*v),
        r is Some ==> r->0@ == royal_item_text(*v),
{
    let mut inner: Vec<char> = Vec::new();
    match v {
        None => {},
        Some(p) => {
            if !write_position(&mut inner, p) {
                return None;
            }
        },
    }
    assert(v is Some ==> inner@ =~= position_text(v->0));
    Some(quote(inner.as_slice()))
}

/// An item of `enPassant`, or `None` for a square off the board.
pub fn enpassant_item(v: &Option<(Position, Position)>) -> (r: Option<Vec<char>>)
    ensures
        r is Some <==> pair_writable(*v),
        r is Some ==> r->0@ == enpassant_item_text(*v),
{
    let mut inner: Vec<char> = Vec::new();
    match v {
        None => {},
        Some((a, b)) => {
            if !write_position(&mut inner, a) {
                return None;
            }
            inner.push(':');
            if !write_position(&mut inner, b) {
                return None;
            }
            assert(inner@ =~= position_text(*a) + seq![':'] + position_text(*b));
        },
    }
    Some(quote(inner.as_slice()))
}

/// A truth value.
pub fn truth(b: bool) -> (out: Vec<char>)
    ensures
        out@ == truth_text(b),
{
    let mut out: Vec<char> = Vec::new();
    if b {
        push_text(&mut out, "true");
    } else {
        push_text(&mut out, "false");
    }
    assert(out@ =~= truth_text(b));
    out
}

/// Four truth values as a quadruple.
pub fn flags(q: &[bool; 4]) -> (out: Vec<char>)
    ensures
        out@ == flags_text(q@),
{
    let a = truth(q[0]);
    let b = truth(q[1]);
    let c = truth(q[2]);
    let d = truth(q[3]);
    array_of(a.as_slice(), b.as_slice(), c.as_slice(), d.as_slice())
}

/// The decimal digits of `n`.
pub fn number(n: usize) -> (out: Vec<char>)
    ensures
        out@ == decimal(n as nat),
{
    let mut out: Vec<char> = Vec::new();
    push_decimal(&mut out, n as u64);
    assert(out@ =~= decimal(n as nat));
    out
}

/// The value of the field `tag` of `extra`, or `None` if the value names a
/// square off the board.
fn value_of(extra: &Extra, tag: Tag) -> (r: Option<Vec<char>>)
    requires
        tag == Tag::Lives ==> extra@.lives is Some,
    ensures
        r is None ==> !extra_writable(extra@),
        r is Some ==> r->0@ == value_text(tag, extra@),
        extra_writable(extra@) ==> r is Some,
{
    match tag {
        Tag::Royal => {
            let a = match royal_item(&extra.royal[0]) {
                Some(t) => t,
                None => {
                    return None;
                },
            };
            let b = match royal_item(&extra.royal[1]) {
                Some(t) => t,
                None => {
                    return None;
                },
            };
            let c = match royal_item(&extra.royal[2]) {
                Some(t) => t,
                None => {
                    return None;
                },
            };
            let d = match royal_item(&extra.royal[3]) {
                Some(t) => t,
                None => {
                    return None;
                },
            };
            Some(array_of(a.as_slice(), b.as_slice(), c.as_slice(), d.as_slice()))
        },
        Tag::Lives => {
            match &extra.lives {
                Some(l) => {
                    let a = number(l[0]);
                    let b = number(l[1]);
                    let c = number(l[2]);
                    let d = number(l[3]);
                    Some(array_of(a.as_slice(), b.as_slice(), c.as_slice(), d.as_slice()))
                },
                None => None,
            }
        },
        Tag::Resigned => Some(flags(&extra.resigned)),
        Tag::Flagged => Some(flags(&extra.flagged)),
        Tag::Stalemated => Some(flags(&extra.stalemated)),
        Tag::ZombieImmune => Some(flags(&extra.zombie_immune)),
        Tag::ZombieType => {
            let n0 = chars_of(extra.zombie_type[0].as_str());
            let n1 = chars_of(extra.zombie_type[1].as_str());
            let n2 = chars_of(extra.zombie_type[2].as_str());
            let n3 = chars_of(extra.zombie_type[3].as_str());
            let a = quote(n0.as_slice());
            let b = quote(n1.as_slice());
            let c = quote(n2.as_slice());
            let d = quote(n3.as_slice());
            assert(extra@.zombie_type[0] == extra.zombie_type[0]@);
            assert(extra@.zombie_type[1] == extra.zombie_type[1]@);
            assert(extra@.zombie_type[2] == extra.zombie_type[2]@);
            assert(extra@.zombie_type[3] == extra.zombie_type[3]@);
            Some(array_of(a.as_slice(), b.as_slice(), c.as_slice(), d.as_slice()))
        },
        Tag::EnPassant => {
            let a = match enpassant_item(&extra.enpassant[0]) {
                Some(t) => t,
                None => {
                    return None;
                },
            };
            let b = match enpassant_item(&extra.enpassant[1]) {
                Some(t) => t,
                None => {
                    return None;
                },
            };
            let c = match enpassant_item(&extra.enpassant[2]) {
                Some(t) => t,
                None => {
                    return None;
                },
            };
            let d = match enpassant_item(&extra.enpassant[3]) {
                Some(t) => t,
                None => {
                    return None;
                },
            };
            Some(array_of(a.as_slice(), b.as_slice(), c.as_slice(), d.as_slice()))
        },
        Tag::PawnsBaseRank => Some(number(extra.pawnbaserank)),
        Tag::Uniquify => Some(number(extra.uniquify)),
        Tag::Std2pc => Some(truth(extra.std2pc)),
        Tag::GameOver => {
            let t = chars_of(extra.game_over.as_str());
            Some(quote(t.as_slice()))
        },
    }
}

/// Appends the label under which the field `tag` is written.
pub fn push_label(out: &mut Vec<char>, tag: Tag)
    ensures
        final(out)@ == old(out)@ + label_of_tag(tag),
{
    match tag {
        Tag::Royal => push_text(out, "royal"),
        Tag::Lives => push_text(out, "lives"),
        Tag::Resigned => push_text(out, "resigned"),
        Tag::Flagged => push_text(out, "flagged"),
        Tag::Stalemated => push_text(out, "stalemated"),
        Tag::ZombieImmune => push_text(out, "zombieImmune"),
        Tag::ZombieType => push_text(out, "zombieType"),
        Tag::EnPassant => push_text(out, "enPassant"),
        Tag::PawnsBaseRank => push_text(out, "pawnsBaseRank"),
        Tag::Uniquify => push_text(out, "uniquify"),
        Tag::Std2pc => push_text(out, "std2pc"),
        Tag::GameOver => push_text(out, "gameOver"),
    }
}

/// The entry of the field `tag` of `extra`, or `None` if its value names a
/// square off the board.
fn entry_of(extra: &Extra, tag: Tag) -> (r: Option<Vec<char>>)
    requires
        tag == Tag::Lives ==> extra@.lives is Some,
    ensures
        r is None ==> !extra_writable(extra@),
        r is Some ==> r->0@ == entry_text(tag, extra@),
        extra_writable(extra@) ==> r is Some,
{
    let value = match value_of(extra, tag) {
        Some(value) => value,
        None => {
            return None;
        },
    };
    let mut out: Vec<char> = Vec::new();
    out.push('\'');
    push_label(&mut out, tag);
    out.push('\'');
    out.push(':');
    push_chars(&mut out, value.as_slice());
    assert(out@ =~= entry_text(tag, extra@));
    Some(out)
}

/// Appends the entries of `extra`, with commas between them and without
/// braces, if every square that `extra` names lies on the board, and says
/// whether it did.
pub fn write_extra(out: &mut Vec<char>, extra: &Extra) -> (ok: bool)
    ensures
        ok == extra_writable(extra@),
        ok ==> final(out)@ == old(out)@ + extra_text(extra@),
        !ok ==> final(out)@ == old(out)@,
{
    let mut entries: Vec<Vec<char>> = Vec::new();
    let mut k: usize = 0;
    assert(texts(entries@) =~= stated_entries(extra@, 0, 0));
    while k < 12
        invariant
            k <= 12,
            texts(entries@) == stated_entries(extra@, 0, k as int),
            out@ == old(out)@,
        decreases 12 - k,
    {
        let tag = tag_by_place(k);
        if stated(extra, tag) {
            let ghost before = texts(entries@);
            match entry_of(extra, tag) {
                Some(entry) => {
                    entries.push(entry);
                    assert(texts(entries@) =~= before.push(entry@));
                },
                None => {
                    return false;
                },
            }
        }
        k += 1;
    }
    let ok = writable(extra);
    if ok {
        let joined = join_text(&entries, ',');
        push_chars(out, joined.as_slice());
    }
    ok
}

/// Whether every square that `extra` names lies on the board.
pub fn writable(extra: &Extra) -> (r: bool)
    ensures
        r == extra_writable(extra@),
{
    square_on_board(&extra.royal[0]) && square_on_board(&extra.royal[1]) && square_on_board(
        &extra.royal[2],
    ) && square_on_board(&extra.royal[3]) && pair_on_board(&extra.enpassant[0]) && pair_on_board(
        &extra.enpassant[1],
    ) && pair_on_board(&extra.enpassant[2]) && pair_on_board(&extra.enpassant[3])
}

/// Whether a square that may be absent lies on the board if it is there.
pub fn square_on_board(v: &Option<Position>) -> (r: bool)
    ensures
        r == square_writable(*v),
{
    match v {
        None => true,
        Some(p) => p.row < 14 && p.col < 14,
    }
}

/// Whether a pair of squares that may be absent lies on the board if it is there.
pub fn pair_on_board(v: &Option<(Position, Position)>) -> (r: bool)
    ensures
        r == pair_writable(*v),
{
    match v {
        None => true,
        Some((a, b)) => a.row < 14 && a.col < 14 && b.row < 14 && b.col < 14,
    }
}

impl Extra {
    /// Whether every field has its default, so that no block is written.
    pub fn is_default(&self) -> (r: bool)
        ensures
            r == (self@ == default_extra()),
    {
        let mut k: usize = 0;
        while k < 12
            invariant
                k <= 12,
                forall|j: int| 0 <= j < k ==> !is_stated(tag_at(j), self@),
            decreases 12 - k,
        {
            if stated(self, tag_by_place(k)) {
                return false;
            }
            k += 1;
        }
        proof {
            let e = self@;
            assert(!is_stated(tag_at(0), e));
            assert(!is_stated(tag_at(1), e));
            assert(!is_stated(tag_at(2), e));
            assert(!is_stated(tag_at(3), e));
            assert(!is_stated(tag_at(4), e));
            assert(!is_stated(tag_at(5), e));
            assert(!is_stated(tag_at(6), e));
            assert(!is_stated(tag_at(7), e));
            assert(!is_stated(tag_at(8), e));
            assert(!is_stated(tag_at(9), e));
            assert(!is_stated(tag_at(10), e));
            assert(!is_stated(tag_at(11), e));
        }
        true
    }

    /// The entries of the options with commas between them, without braces;
    /// the empty string when every field has its default. `None` if the
    /// options name a square off the board.
    pub fn to_string(&self) -> (r: Option<String>)
        ensures
            r is Some <==> extra_writable(self@),
            r is Some ==> r->0@ == extra_text(self@),
    {
        let mut out: Vec<char> = Vec::new();
        if write_extra(&mut out, self) {
            Some(string_of(out.as_slice()))
        } else {
            None
        }
    }
}

} // verus!
