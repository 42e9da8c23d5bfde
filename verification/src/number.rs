//! Unsigned decimal numbers: reading them from text and writing them back.

use vstd::prelude::*;

verus! {

/// Why a piece of text is not an unsigned decimal number that fits its target.
#[derive(Debug, Clone, Copy, PartialEq, Eq, Hash)]
pub enum NumberParseError {
    /// The text is empty.
    Empty,
    /// A character is not a decimal digit, or a lone `+` has no digits after it.
    InvalidDigit,
    /// The digits read so far already exceed the largest value of the target.
    PosOverflow,
}

/// Whether `c` is one of `0` to `9`.
pub open spec fn is_digit(c: char) -> bool {
    '0' <= c <= '9'
}

/// The value of a decimal digit.
pub open spec fn digit_value(c: char) -> nat {
    (c as u32 - '0' as u32) as nat
}

/// The digit that stands for `d`, for `d` below ten.
pub open spec fn digit_char(d: nat) -> char {
    (d + 48) as char
}

/// The number that a sequence of decimal digits denotes; the empty sequence denotes zero.
pub open spec fn digits_value(s: Seq<char>) -> nat
    decreases s.len(),
{
    if s.len() == 0 {
        0
    } else {
        digits_value(s.drop_last()) * 10 + digit_value(s.last())
    }
}

/// How many characters at the start of `s` are decimal digits.
pub open spec fn digit_prefix_len(s: Seq<char>) -> nat
    decreases s.len(),
{
    if s.len() == 0 || !is_digit(s[0]) {
        0
    } else {
        (1 + digit_prefix_len(s.skip(1))) as nat
    }
}

/// `s` without one leading `+`, if it has one.
pub open spec fn unsigned_body(s: Seq<char>) -> Seq<char> {
    if s.len() > 0 && s[0] == '+' {
        s.skip(1)
    } else {
        s
    }
}

/// Reads `s` as an unsigned decimal number no larger than `max`.
///
/// One leading `+` is accepted. The text is read from the left and the first
/// fault decides the error: a character that is no digit gives `InvalidDigit`,
/// digits whose value exceeds `max` give `PosOverflow`.
pub open spec fn parse_number(s: Seq<char>, max: nat) -> Result<nat, NumberParseError> {
    let body = unsigned_body(s);
    let k = digit_prefix_len(body);
    if s.len() == 0 {
        Err(NumberParseError::Empty)
    } else if body.len() == 0 {
        Err(NumberParseError::InvalidDigit)
    } else if digits_value(body.take(k as int)) > max {
        Err(NumberParseError::PosOverflow)
    } else if k < body.len() {
        Err(NumberParseError::InvalidDigit)
    } else {
        Ok(digits_value(body))
    }
}

/// The decimal digits of `n`, without leading zeros.
pub open spec fn decimal(n: nat) -> Seq<char>
    decreases n,
{
    if n < 10 {
        seq![digit_char(n)]
    } else {
        decimal(n / 10).push(digit_char(n % 10))
    }
}

/// `k` is the length of the digit prefix once everything before it is a digit
/// and the character at it is not.
pub proof fn lemma_digit_prefix_is(s: Seq<char>, k: int)
    requires
        0 <= k <= s.len(),
        forall|j: int| 0 <= j < k ==> is_digit(s[j]),
        k < s.len() ==> !is_digit(s[k]),
    ensures
        digit_prefix_len(s) == k,
    decreases s.len(),
{
    if k > 0 {
        let t = s.skip(1);
        assert forall|j: int| 0 <= j < k - 1 implies is_digit(t[j]) by {
            assert(t[j] == s[j + 1]);
        }
        lemma_digit_prefix_is(t, k - 1);
    }
}

/// Reading more digits never gives a smaller number.
pub proof fn lemma_digits_value_grows(s: Seq<char>, i: int, j: int)
    requires
        0 <= i <= j <= s.len(),
    ensures
        digits_value(s.take(i)) <= digits_value(s.take(j)),
    decreases j - i,
{
    if i < j {
        lemma_digits_value_grows(s, i, j - 1);
        assert(s.take(j).drop_last() == s.take(j - 1));
    }
}

/// The decimal form of a number is a non-empty run of digits.
pub proof fn lemma_decimal_digits(n: nat)
    ensures
        decimal(n).len() >= 1,
        forall|j: int| 0 <= j < decimal(n).len() ==> is_digit(#[trigger] decimal(n)[j]),
    decreases n,
{
    if n >= 10 {
        lemma_decimal_digits(n / 10);
    }
}

/// The decimal form of a number denotes that number.
pub proof fn lemma_decimal_value(n: nat)
    ensures
        digits_value(decimal(n)) == n,
    decreases n,
{
    if n < 10 {
        assert(decimal(n).drop_last() == Seq::<char>::empty());
        assert(digits_value(decimal(n).drop_last()) == 0);
    } else {
        lemma_decimal_value(n / 10);
        assert(decimal(n).drop_last() == decimal(n / 10));
    }
}

/// Reading the decimal form of a number that fits gives the number back.
pub proof fn lemma_parse_decimal(n: nat, max: nat)
    requires
        n <= max,
    ensures
        parse_number(decimal(n), max) == Ok::<nat, NumberParseError>(n),
{
    let s = decimal(n);
    lemma_decimal_digits(n);
    lemma_decimal_value(n);
    assert(is_digit(s[0]));
    assert(unsigned_body(s) == s);
    lemma_digit_prefix_is(s, s.len() as int);
    assert(s.take(s.len() as int) == s);
}

/// The value of `c` as a decimal digit, if it is one.
pub fn digit_of(c: char) -> (r: Option<u8>)
    ensures
        match r {
            Some(d) => is_digit(c) && d == digit_value(c) && d < 10,
            None => !is_digit(c),
        },
{
    let n: u32 = c as u32;
    if 48 <= n && n <= 57 {
        Some((n - 48) as u8)
    } else {
        None
    }
}

/// Reads `s` as an unsigned decimal number no larger than `max`.
pub fn parse_bounded(s: &[char], max: u64) -> (r: Result<u64, NumberParseError>)
    ensures
        match r {
            Ok(v) => v <= max && parse_number(s@, max as nat) == Ok::<nat, NumberParseError>(
                v as nat,
            ),
            Err(e) => parse_number(s@, max as nat) == Err::<nat, NumberParseError>(e),
        },
{
    if s.len() == 0 {
        return Err(NumberParseError::Empty);
    }
    let start: usize = if s[0] == '+' {
        1
    } else {
        0
    };
    let ghost body = unsigned_body(s@);
    assert(body == s@.skip(start as int));
    if start == s.len() {
        return Err(NumberParseError::InvalidDigit);
    }
    let mut acc: u64 = 0;
    let mut i: usize = start;
    assert(body.take(0) == Seq::<char>::empty());
    while i < s.len()
        invariant
            start <= i <= s@.len(),
            s@.len() > 0,
            body == unsigned_body(s@),
            body == s@.skip(start as int),
            body.len() > 0,
            forall|j: int| 0 <= j < i - start ==> is_digit(body[j]),
            acc == digits_value(body.take(i - start)),
            acc <= max,
        decreases s@.len() - i,
    {
        let ghost at = i - start;
        assert(body[at] == s@[i as int]);
        let d: u64 = match digit_of(s[i]) {
            Some(d) => d as u64,
            None => {
                proof {
                    lemma_digit_prefix_is(body, at);
                }
                return Err(NumberParseError::InvalidDigit);
            },
        };
        proof {
            assert(body.take(at + 1).drop_last() == body.take(at));
            assert(body.take(at + 1).last() == body[at]);
            assert(digits_value(body.take(at + 1)) == acc * 10 + d);
        }
        if acc > max / 10 || d > max - acc * 10 {
            proof {
                let k = digit_prefix_len(body) as int;
                lemma_digit_prefix_bounds(body);
                assert(k >= at + 1) by {
                    if k < at + 1 {
                        assert(is_digit(body[k]));
                    }
                }
                lemma_digits_value_grows(body, at + 1, k);
            }
            return Err(NumberParseError::PosOverflow);
        }
        acc = acc * 10 + d;
        i += 1;
    }
    proof {
        lemma_digit_prefix_is(body, body.len() as int);
        assert(body.take(body.len() as int) == body);
    }
    Ok(acc)
}

/// What `digit_prefix_len` returns: everything before it is a digit and the
/// character at it, if there is one, is not.
pub proof fn lemma_digit_prefix_bounds(s: Seq<char>)
    ensures
        digit_prefix_len(s) <= s.len(),
        forall|j: int| 0 <= j < digit_prefix_len(s) ==> is_digit(s[j]),
        digit_prefix_len(s) < s.len() ==> !is_digit(s[digit_prefix_len(s) as int]),
    decreases s.len(),
{
    if !(s.len() == 0 || !is_digit(s[0])) {
        let t = s.skip(1);
        lemma_digit_prefix_bounds(t);
        assert forall|j: int| 0 <= j < digit_prefix_len(s) implies is_digit(s[j]) by {
            if j > 0 {
                assert(t[j - 1] == s[j]);
            }
        }
    }
}

/// Reads `s` as a `usize`.
pub fn parse_usize(s: &[char]) -> (r: Result<usize, NumberParseError>)
    ensures
        match r {
            Ok(v) => parse_number(s@, usize::MAX as nat) == Ok::<nat, NumberParseError>(v as nat),
            Err(e) => parse_number(s@, usize::MAX as nat) == Err::<nat, NumberParseError>(e),
        },
{
    match parse_bounded(s, usize::MAX as u64) {
        Ok(v) => Ok(v as usize),
        Err(e) => Err(e),
    }
}

/// Reads `s` as a `u16`.
pub fn parse_u16(s: &[char]) -> (r: Result<u16, NumberParseError>)
    ensures
        match r {
            Ok(v) => parse_number(s@, u16::MAX as nat) == Ok::<nat, NumberParseError>(v as nat),
            Err(e) => parse_number(s@, u16::MAX as nat) == Err::<nat, NumberParseError>(e),
        },
{
    match parse_bounded(s, u16::MAX as u64) {
        Ok(v) => Ok(v as u16),
        Err(e) => Err(e),
    }
}

/// Appends the decimal digits of `n` to `out`.
pub fn push_decimal(out: &mut Vec<char>, n: u64)
    ensures
        final(out)@ == old(out)@ + decimal(n as nat),
    decreases n,
{
    if n >= 10 {
        push_decimal(out, n / 10);
    }
    let d: u8 = (n % 10) as u8;
    let c: char = (d + 48) as char;
    assert(c == digit_char((n % 10) as nat));
    out.push(c);
    assert(old(out)@ + decimal(n as nat) == out@);
}

} // verus!
