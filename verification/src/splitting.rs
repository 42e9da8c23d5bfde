//! Laws of splitting, joining and trimming: what the parts of a text hold,
//! and when parting undoes joining.

use crate::text::{
    first_index, first_index_either, is_whitespace, join, last_index, lemma_first_index,
    lemma_first_index_either_is, lemma_first_index_is, lemma_last_index_is, split, trim, trim_end,
    trim_start, unquote,
};
use vstd::prelude::*;

verus! {

/// Whether `c` does not occur in `s`.
pub open spec fn lacks(s: Seq<char>, c: char) -> bool {
    forall|i: int| 0 <= i < s.len() ==> s[i] != c
}

/// Whether `c` occurs in none of `parts`.
pub open spec fn all_lack(parts: Seq<Seq<char>>, c: char) -> bool {
    forall|i: int| 0 <= i < parts.len() ==> lacks(#[trigger] parts[i], c)
}

/// A text lacks a character exactly if its two halves do.
pub proof fn lemma_lacks_concat(a: Seq<char>, b: Seq<char>, c: char)
    ensures
        lacks(a + b, c) <==> lacks(a, c) && lacks(b, c),
{
    let s = a + b;
    if lacks(s, c) {
        assert forall|i: int| 0 <= i < a.len() implies a[i] != c by {
            assert(s[i] == a[i]);
        }
        assert forall|i: int| 0 <= i < b.len() implies b[i] != c by {
            assert(s[a.len() + i] == b[i]);
        }
    }
    if lacks(a, c) && lacks(b, c) {
        assert forall|i: int| 0 <= i < s.len() implies s[i] != c by {
            if i < a.len() {
                assert(s[i] == a[i]);
            } else {
                assert(s[i] == b[i - a.len()]);
            }
        }
    }
}

/// What a part of a text lacks when the text lacks it.
pub proof fn lemma_lacks_subrange(s: Seq<char>, from: int, to: int, c: char)
    requires
        0 <= from <= to <= s.len(),
        lacks(s, c),
    ensures
        lacks(s.subrange(from, to), c),
{
    let t = s.subrange(from, to);
    assert forall|i: int| 0 <= i < t.len() implies t[i] != c by {
        assert(t[i] == s[from + i]);
    }
}

/// The first index of a character that the text lacks is the length.
pub proof fn lemma_first_index_absent(s: Seq<char>, c: char)
    requires
        lacks(s, c),
    ensures
        first_index(s, c) == s.len(),
{
    lemma_first_index_is(s, c, s.len() as int);
}

/// The first index of a character that stands right behind a text that lacks it.
pub proof fn lemma_first_index_behind(a: Seq<char>, c: char, rest: Seq<char>)
    requires
        lacks(a, c),
    ensures
        first_index(a + seq![c] + rest, c) == a.len(),
        (a + seq![c] + rest).take(a.len() as int) == a,
        (a + seq![c] + rest).skip(a.len() as int + 1) == rest,
{
    let s = a + seq![c] + rest;
    assert forall|j: int| 0 <= j < a.len() implies s[j] != c by {
        assert(s[j] == a[j]);
    }
    assert(s[a.len() as int] == c);
    lemma_first_index_is(s, c, a.len() as int);
    assert(s.take(a.len() as int) =~= a);
    assert(s.skip(a.len() as int + 1) =~= rest);
}

/// The join of parts that lack a character lacks it, if the separator is another.
pub proof fn lemma_join_lacks(parts: Seq<Seq<char>>, sep: char, c: char)
    requires
        all_lack(parts, c),
        sep != c,
    ensures
        lacks(join(parts, sep), c),
    decreases parts.len(),
{
    if parts.len() == 0 {
    } else if parts.len() == 1 {
        assert(lacks(parts[0], c));
    } else {
        let rest = parts.skip(1);
        assert forall|i: int| 0 <= i < rest.len() implies lacks(#[trigger] rest[i], c) by {
            assert(rest[i] == parts[i + 1]);
        }
        lemma_join_lacks(rest, sep, c);
        assert(lacks(parts[0], c));
        lemma_lacks_concat(parts[0], seq![sep], c);
        lemma_lacks_concat(parts[0] + seq![sep], join(rest, sep), c);
    }
}

/// Parting undoes joining: parts that lack the separator come back as they were.
pub proof fn lemma_split_join(parts: Seq<Seq<char>>, sep: char)
    requires
        parts.len() >= 1,
        all_lack(parts, sep),
    ensures
        split(join(parts, sep), sep) == parts,
    decreases parts.len(),
{
    let s = join(parts, sep);
    assert(lacks(parts[0], sep));
    if parts.len() == 1 {
        lemma_first_index_absent(s, sep);
        assert(split(s, sep) =~= parts);
    } else {
        let rest = parts.skip(1);
        assert forall|i: int| 0 <= i < rest.len() implies lacks(#[trigger] rest[i], sep) by {
            assert(rest[i] == parts[i + 1]);
        }
        lemma_split_join(rest, sep);
        lemma_first_index_behind(parts[0], sep, join(rest, sep));
        assert(split(s, sep) =~= seq![parts[0]] + rest);
        assert(seq![parts[0]] + rest =~= parts);
    }
}

/// The parts of a text: there is at least one, none holds the separator,
/// and none holds a character that the text lacks.
pub proof fn lemma_split_parts(s: Seq<char>, sep: char)
    ensures
        split(s, sep).len() >= 1,
        all_lack(split(s, sep), sep),
        forall|c: char| lacks(s, c) ==> #[trigger] all_lack(split(s, sep), c),
    decreases s.len(),
{
    let i = first_index(s, sep);
    lemma_first_index(s, sep);
    let parts = split(s, sep);
    if i >= s.len() {
        assert(lacks(s, sep));
        assert(parts[0] == s);
    } else {
        let head = s.take(i as int);
        let tail = s.skip(i as int + 1);
        lemma_split_parts(tail, sep);
        let rest = split(tail, sep);
        assert(parts =~= seq![head] + rest);
        assert(lacks(head, sep)) by {
            assert forall|j: int| 0 <= j < head.len() implies head[j] != sep by {
                assert(head[j] == s[j]);
            }
        }
        assert forall|k: int| 0 <= k < parts.len() implies lacks(#[trigger] parts[k], sep) by {
            if k > 0 {
                assert(parts[k] == rest[k - 1]);
            }
        }
        assert forall|c: char| lacks(s, c) implies #[trigger] all_lack(parts, c) by {
            lemma_lacks_subrange(s, 0, i as int, c);
            lemma_lacks_subrange(s, i as int + 1, s.len() as int, c);
            assert(all_lack(rest, c));
            assert forall|k: int| 0 <= k < parts.len() implies lacks(#[trigger] parts[k], c) by {
                if k > 0 {
                    assert(parts[k] == rest[k - 1]);
                }
            }
        }
    }
}

/// What stands between the quotes comes back.
pub proof fn lemma_unquote_quoted(t: Seq<char>)
    ensures
        unquote(seq!['\''] + t + seq!['\'']) == Some(t),
{
    let s = seq!['\''] + t + seq!['\''];
    assert(s.subrange(1, s.len() - 1) =~= t);
}

/// What stood between quotes lacks what the quoted text lacks.
pub proof fn lemma_unquote_lacks(s: Seq<char>, c: char)
    requires
        lacks(s, c),
        unquote(s) is Some,
    ensures
        lacks(unquote(s)->0, c),
{
    lemma_lacks_subrange(s, 1, s.len() - 1, c);
}

/// Trimming at the start leaves a part of the text that reaches its end.
pub proof fn lemma_trim_start(s: Seq<char>)
    ensures
        trim_start(s).len() <= s.len(),
        trim_start(s) == s.skip(s.len() - trim_start(s).len()),
        trim_start(s).len() > 0 ==> !is_whitespace(trim_start(s)[0]),
    decreases s.len(),
{
    if s.len() > 0 && is_whitespace(s[0]) {
        let t = s.skip(1);
        lemma_trim_start(t);
        assert(t.skip(t.len() - trim_start(t).len()) =~= s.skip(s.len() - trim_start(s).len()));
    } else {
        assert(s.skip(0) =~= s);
    }
}

/// Trimming at the end leaves a part of the text that starts where it starts.
pub proof fn lemma_trim_end(s: Seq<char>)
    ensures
        trim_end(s).len() <= s.len(),
        trim_end(s) == s.take(trim_end(s).len() as int),
        trim_end(s).len() > 0 ==> !is_whitespace(trim_end(s).last()),
    decreases s.len(),
{
    if s.len() > 0 && is_whitespace(s.last()) {
        let t = s.drop_last();
        lemma_trim_end(t);
        assert(t.take(trim_end(t).len() as int) =~= s.take(trim_end(s).len() as int));
    } else {
        assert(s.take(s.len() as int) =~= s);
    }
}

/// A trimmed text is a part of the text, and if anything is left of it, it
/// neither starts nor ends with whitespace.
pub proof fn lemma_trim(s: Seq<char>)
    ensures
        trim(s).len() > 0 ==> !is_whitespace(trim(s)[0]) && !is_whitespace(trim(s).last()),
        forall|c: char| lacks(s, c) ==> #[trigger] lacks(trim(s), c),
{
    let a = trim_start(s);
    lemma_trim_start(s);
    lemma_trim_end(a);
    let t = trim(s);
    if t.len() > 0 {
        assert(t[0] == a[0]);
    }
    assert forall|c: char| lacks(s, c) implies #[trigger] lacks(t, c) by {
        lemma_lacks_subrange(s, s.len() - a.len(), s.len() as int, c);
        lemma_lacks_subrange(a, 0, t.len() as int, c);
    }
}

/// A text that neither starts nor ends with whitespace is left as it is, and
/// so is it when whitespace stands in front of it.
pub proof fn lemma_trim_clean(s: Seq<char>, space: char)
    requires
        s.len() > 0,
        !is_whitespace(s[0]),
        !is_whitespace(s.last()),
        is_whitespace(space),
    ensures
        trim(s) == s,
        trim(seq![space] + s) == s,
{
    let t = seq![space] + s;
    assert(t.skip(1) =~= s);
}

/// The last index of a character that ends a text and is lacked by what follows.
pub proof fn lemma_last_index_behind(a: Seq<char>, c: char, rest: Seq<char>)
    requires
        lacks(rest, c),
    ensures
        last_index(a.push(c) + rest, c) == a.len(),
        (a.push(c) + rest).take(a.len() as int) == a,
        (a.push(c) + rest).skip(a.len() as int + 1) == rest,
{
    let s = a.push(c) + rest;
    assert forall|j: int| a.len() < j < s.len() implies s[j] != c by {
        assert(s[j] == rest[j - a.len() - 1]);
    }
    assert(s[a.len() as int] == c);
    lemma_last_index_is(s, c, a.len() as int);
    assert(s.take(a.len() as int) =~= a);
    assert(s.skip(a.len() as int + 1) =~= rest);
}

/// The first of two characters in a text that lacks both up to a place
/// where one of them stands.
pub proof fn lemma_first_either_behind(a: Seq<char>, rest: Seq<char>, x: char, y: char)
    requires
        lacks(a, x),
        lacks(a, y),
        rest.len() > 0,
        rest[0] == x || rest[0] == y,
    ensures
        first_index_either(a + rest, x, y) == a.len(),
        (a + rest).take(a.len() as int) == a,
        (a + rest).skip(a.len() as int) == rest,
{
    let s = a + rest;
    assert forall|j: int| 0 <= j < a.len() implies s[j] != x && s[j] != y by {
        assert(s[j] == a[j]);
    }
    assert(s[a.len() as int] == rest[0]);
    lemma_first_index_either_is(s, x, y, a.len() as int);
    assert(s.take(a.len() as int) =~= a);
    assert(s.skip(a.len() as int) =~= rest);
}

} // verus!
