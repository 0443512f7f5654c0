//! Reading a guess from a line of text.
//!
//! A line holds a guess when, with the white space around it removed, it is a
//! decimal number that fits in a `u32`, with or without a plus sign before it.
//! The functions here say so over sequences of characters and `parse_input`
//! is proved to compute exactly that.

use vstd::prelude::*;

verus! {

/// Why a line of text is not a guess.
#[derive(Clone, Copy, Debug, PartialEq, Eq, Structural)]
pub enum ParseError {
    /// Nothing is left once the white space around the text is removed.
    Empty,
    /// A character that is not a decimal digit stands where a digit must.
    InvalidDigit,
    /// The digits spell a number above `u32::MAX`.
    PosOverflow,
}

/// Whether `c` is white space: a character with Unicode's `White_Space`
/// property.
pub open spec fn is_whitespace(c: char) -> bool {
    let u = c as u32;
    ||| 0x09 <= u <= 0x0D
    ||| u == 0x20
    ||| u == 0x85
    ||| u == 0xA0
    ||| u == 0x1680
    ||| 0x2000 <= u <= 0x200A
    ||| u == 0x2028
    ||| u == 0x2029
    ||| u == 0x202F
    ||| u == 0x205F
    ||| u == 0x3000
}

/// Whether `c` is one of the ten decimal digits `0` to `9`.
pub open spec fn is_digit(c: char) -> bool {
    0x30 <= c as u32 <= 0x39
}

/// The number that the digit `c` stands for.
pub open spec fn digit_value(c: char) -> nat {
    if is_digit(c) {
        (c as u32 - 0x30) as nat
    } else {
        0
    }
}

/// `s` without the white space it begins with.
pub open spec fn trim_start(s: Seq<char>) -> Seq<char>
    decreases s.len(),
{
    if s.len() > 0 && is_whitespace(s.first()) {
        trim_start(s.drop_first())
    } else {
        s
    }
}

/// `s` without the white space it ends with.
pub open spec fn trim_end(s: Seq<char>) -> Seq<char>
    decreases s.len(),
{
    if s.len() > 0 && is_whitespace(s.last()) {
        trim_end(s.drop_last())
    } else {
        s
    }
}

/// `s` without the white space around it.
pub open spec fn trim(s: Seq<char>) -> Seq<char> {
    trim_end(trim_start(s))
}

/// `s` without the plus sign that may stand before a number. A plus sign with
/// nothing after it is no sign and stays.
pub open spec fn unsigned(s: Seq<char>) -> Seq<char> {
    if s.len() > 1 && s.first() == '+' {
        s.drop_first()
    } else {
        s
    }
}

/// How many digits `s` begins with.
pub open spec fn leading_digits(s: Seq<char>) -> nat
    decreases s.len(),
{
    if s.len() > 0 && is_digit(s.first()) {
        1 + leading_digits(s.drop_first())
    } else {
        0
    }
}

/// The number that `digits` spell in base ten, the first digit counting most.
pub open spec fn decimal_value(digits: Seq<char>) -> nat
    decreases digits.len(),
{
    if digits.len() == 0 {
        0
    } else {
        10 * decimal_value(digits.drop_last()) + digit_value(digits.last())
    }
}

/// The number that `s` holds, or why it holds none. `s` is read from the
/// left, and what goes wrong first decides the error: the digits that `s`
/// begins with may already spell too large a number, or a character that is
/// no digit may come before that happens.
pub open spec fn parse_number(s: Seq<char>) -> Result<u32, ParseError> {
    let digits = unsigned(s);
    let lead = digits.take(leading_digits(digits) as int);
    if s.len() == 0 {
        Err(ParseError::Empty)
    } else if decimal_value(lead) > u32::MAX {
        Err(ParseError::PosOverflow)
    } else if lead.len() < digits.len() {
        Err(ParseError::InvalidDigit)
    } else {
        Ok(decimal_value(digits) as u32)
    }
}

/// The guess that a line of text holds, or why it holds none.
pub open spec fn parse_line(text: Seq<char>) -> Result<u32, ParseError> {
    parse_number(trim(text))
}

/// Whether every character of `s` is a decimal digit.
pub open spec fn all_digits(s: Seq<char>) -> bool {
    forall|j: int| 0 <= j < s.len() ==> is_digit(#[trigger] s[j])
}

/// `s` begins with at least `m` digits if its first `m` characters are digits,
/// and with exactly `m` if the next character is none or `s` ends there.
proof fn lemma_leading_digits(s: Seq<char>, m: int)
    requires
        0 <= m <= s.len(),
        forall|j: int| 0 <= j < m ==> is_digit(#[trigger] s[j]),
    ensures
        m <= leading_digits(s) <= s.len(),
        (m == s.len() || !is_digit(s[m])) ==> leading_digits(s) == m,
    decreases s.len(),
{
    if s.len() > 0 && is_digit(s.first()) {
        let rest = s.drop_first();
        if m > 0 {
            assert forall|j: int| 0 <= j < m - 1 implies is_digit(#[trigger] rest[j]) by {
                assert(rest[j] == s[j + 1]);
            }
            lemma_leading_digits(rest, m - 1);
        } else {
            lemma_leading_digits(rest, 0);
        }
    }
}

/// The characters that `leading_digits` counts are digits.
proof fn lemma_leading_digits_are_digits(s: Seq<char>)
    ensures
        leading_digits(s) <= s.len(),
        forall|j: int| 0 <= j < leading_digits(s) ==> is_digit(#[trigger] s[j]),
    decreases s.len(),
{
    if s.len() > 0 && is_digit(s.first()) {
        let rest = s.drop_first();
        lemma_leading_digits_are_digits(rest);
        assert forall|j: int| 0 <= j < leading_digits(s) implies is_digit(#[trigger] s[j]) by {
            if j > 0 {
                assert(s[j] == rest[j - 1]);
            }
        }
    }
}

/// A text holds a number exactly when it is a run of at least one digit, with
/// or without a plus sign before it, and the digits spell a number that fits
/// in a `u32`. The number it holds is the one the digits spell.
pub proof fn lemma_parse_number_accepts(s: Seq<char>)
    ensures
        parse_number(s) is Ok <==> s.len() > 0 && all_digits(unsigned(s)) && decimal_value(
            unsigned(s),
        ) <= u32::MAX,
        parse_number(s) matches Ok(n) ==> n == decimal_value(unsigned(s)),
{
    let digits = unsigned(s);
    lemma_leading_digits_are_digits(digits);
    if all_digits(digits) {
        lemma_leading_digits(digits, digits.len() as int);
    }
    assert(digits.take(digits.len() as int) =~= digits);
}

/// What `trim_start` makes of a text that has grown by one character: the
/// character is kept unless only white space came before it.
proof fn lemma_trim_start_push(s: Seq<char>, c: char)
    ensures
        trim_start(s.push(c)) == if trim_start(s).len() > 0 {
            trim_start(s).push(c)
        } else {
            trim_start(seq![c])
        },
    decreases s.len(),
{
    if s.len() == 0 {
        assert(s.push(c) =~= seq![c]);
    } else if is_whitespace(s.first()) {
        assert(s.push(c).drop_first() =~= s.drop_first().push(c));
        lemma_trim_start_push(s.drop_first(), c);
    }
}

/// White space after a text changes neither what is left of the text when it
/// is trimmed nor the guess it holds. A line may thus end in a line feed, or
/// in a carriage return and a line feed, or in neither.
pub proof fn lemma_trailing_whitespace_is_ignored(s: Seq<char>, c: char)
    requires
        is_whitespace(c),
    ensures
        trim(s.push(c)) == trim(s),
        parse_line(s.push(c)) == parse_line(s),
{
    lemma_trim_start_push(s, c);
    let kept = trim_start(s);
    if kept.len() > 0 {
        assert(kept.push(c).drop_last() =~= kept);
    } else {
        let nothing = Seq::<char>::empty();
        assert(seq![c].drop_first() =~= nothing);
        assert(trim_start(nothing) == nothing);
    }
}

/// A longer run of digits from the same start spells no smaller a number.
proof fn lemma_decimal_value_grows(s: Seq<char>, a: int, b: int)
    requires
        0 <= a <= b <= s.len(),
    ensures
        decimal_value(s.take(a)) <= decimal_value(s.take(b)),
    decreases b - a,
{
    if a < b {
        lemma_decimal_value_grows(s, a, b - 1);
        assert(s.take(b).drop_last() =~= s.take(b - 1));
    }
}

fn whitespace(c: char) -> (yes: bool)
    ensures
        yes == is_whitespace(c),
{
    let u: u32 = c as u32;
    (0x09 <= u && u <= 0x0D) || u == 0x20 || u == 0x85 || u == 0xA0 || u == 0x1680 || (0x2000 <= u
        && u <= 0x200A) || u == 0x2028 || u == 0x2029 || u == 0x202F || u == 0x205F || u == 0x3000
}

fn chars_of(text: &str) -> (chars: Vec<char>)
    ensures
        chars@ == text@,
{
    let mut chars: Vec<char> = Vec::new();
    for c in it: text.chars()
        invariant
            it.seq() == text@,
            chars@ == it.seq().take(it.index()),
    {
        chars.push(c);
    }
    chars
}

/// Reads the number that stands in `chars` from `start` up to `end`.
fn parse_digits(chars: &Vec<char>, start: usize, end: usize) -> (parsed: Result<u32, ParseError>)
    requires
        start <= end <= chars.len(),
    ensures
        parsed == parse_number(chars@.subrange(start as int, end as int)),
{
    let ghost s = chars@.subrange(start as int, end as int);
    if start == end {
        return Err(ParseError::Empty);
    }
    let first: usize = if end - start > 1 && chars[start] == '+' {
        start + 1
    } else {
        start
    };
    let ghost digits = chars@.subrange(first as int, end as int);
    let mut value: u32 = 0;
    let mut at: usize = first;
    while at < end
        invariant
            start <= first <= at <= end <= chars.len(),
            s == chars@.subrange(start as int, end as int),
            s.len() > 0,
            digits == unsigned(s),
            digits == chars@.subrange(first as int, end as int),
            forall|j: int| 0 <= j < at - first ==> is_digit(#[trigger] digits[j]),
            value == decimal_value(digits.take(at - first)),
        decreases end - at,
    {
        let c: char = chars[at];
        let code: u32 = c as u32;
        proof {
            assert(digits.take(at - first + 1).drop_last() =~= digits.take(at - first));
        }
        if code < 0x30 || code > 0x39 {
            proof {
                lemma_leading_digits(digits, at - first);
            }
            return Err(ParseError::InvalidDigit);
        }
        let next: Option<u32> = match value.checked_mul(10) {
            Some(tens) => tens.checked_add(code - 0x30),
            None => None,
        };
        match next {
            Some(more) => {
                value = more;
            },
            None => {
                proof {
                    lemma_leading_digits(digits, at - first + 1);
                    lemma_decimal_value_grows(
                        digits,
                        at - first + 1,
                        leading_digits(digits) as int,
                    );
                }
                return Err(ParseError::PosOverflow);
            },
        }
        at += 1;
    }
    proof {
        lemma_leading_digits(digits, digits.len() as int);
        assert(digits.take(digits.len() as int) =~= digits);
    }
    Ok(value)
}

/// Reads a guess from a line of text: the white space around the text is
/// dropped, and what is left must be a decimal number that fits in a `u32`,
/// with or without a plus sign before it. The result is `Ok` with that number
/// exactly when `parse_line` says so, and otherwise the error that
/// `parse_line` gives.
pub fn parse_input(input: &str) -> (parsed: Result<u32, ParseError>)
    ensures
        parsed == parse_line(input@),
{
    let chars = chars_of(input);
    let n: usize = chars.len();
    let mut start: usize = 0;
    assert(chars@.subrange(0, n as int) =~= chars@);
    while start < n && whitespace(chars[start])
        invariant
            start <= n == chars.len(),
            trim_start(chars@) == trim_start(chars@.subrange(start as int, n as int)),
        decreases n - start,
    {
        proof {
            let rest = chars@.subrange(start as int, n as int);
            assert(rest.drop_first() =~= chars@.subrange(start + 1, n as int));
        }
        start += 1;
    }
    let ghost tail = chars@.subrange(start as int, n as int);
    assert(trim_start(chars@) == tail);
    let mut end: usize = n;
    while end > start && whitespace(chars[end - 1])
        invariant
            start <= end <= n == chars.len(),
            tail == chars@.subrange(start as int, n as int),
            trim_end(tail) == trim_end(chars@.subrange(start as int, end as int)),
        decreases end - start,
    {
        proof {
            let rest = chars@.subrange(start as int, end as int);
            assert(rest.drop_last() =~= chars@.subrange(start as int, end - 1));
        }
        end -= 1;
    }
    assert(trim(chars@) == chars@.subrange(start as int, end as int));
    parse_digits(&chars, start, end)
}

} // verus!
