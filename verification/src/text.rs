//! Small verified helpers on text: decimal numerals and blank strings.

use vstd::prelude::*;
use vstd::string::*;

verus! {

/// The character of the decimal digit `d`.
pub open spec fn digit_char(d: int) -> char {
    if d == 0 {
        '0'
    } else if d == 1 {
        '1'
    } else if d == 2 {
        '2'
    } else if d == 3 {
        '3'
    } else if d == 4 {
        '4'
    } else if d == 5 {
        '5'
    } else if d == 6 {
        '6'
    } else if d == 7 {
        '7'
    } else if d == 8 {
        '8'
    } else {
        '9'
    }
}

/// The decimal numeral of a natural number, without leading zeros.
pub open spec fn decimal_of_nat(n: nat) -> Seq<char>
    decreases n,
{
    if n < 10 {
        seq![digit_char(n as int)]
    } else {
        decimal_of_nat(n / 10).push(digit_char((n % 10) as int))
    }
}

/// The decimal numeral of an integer, with a leading minus sign below zero.
pub open spec fn decimal(n: int) -> Seq<char> {
    if n < 0 {
        seq!['-'] + decimal_of_nat((-n) as nat)
    } else {
        decimal_of_nat(n as nat)
    }
}

fn digit_str(d: u64) -> (s: &'static str)
    requires
        d < 10,
    ensures
        s@ == seq![digit_char(d as int)],
{
    proof {
        reveal_strlit("0");
        reveal_strlit("1");
        reveal_strlit("2");
        reveal_strlit("3");
        reveal_strlit("4");
        reveal_strlit("5");
        reveal_strlit("6");
        reveal_strlit("7");
        reveal_strlit("8");
        reveal_strlit("9");
    }
    let s = if d == 0 {
        "0"
    } else if d == 1 {
        "1"
    } else if d == 2 {
        "2"
    } else if d == 3 {
        "3"
    } else if d == 4 {
        "4"
    } else if d == 5 {
        "5"
    } else if d == 6 {
        "6"
    } else if d == 7 {
        "7"
    } else if d == 8 {
        "8"
    } else {
        "9"
    };
    assert(s@ =~= seq![digit_char(d as int)]);
    s
}

fn nat_to_decimal(n: u64) -> (s: String)
    ensures
        s@ == decimal_of_nat(n as nat),
    decreases n,
{
    if n < 10 {
        String::from_str(digit_str(n))
    } else {
        let mut s = nat_to_decimal(n / 10);
        s.append(digit_str(n % 10));
        assert(s@ =~= decimal_of_nat(n as nat));
        s
    }
}

/// Writes `n` as a decimal numeral.
pub fn to_decimal(n: i64) -> (s: String)
    ensures
        s@ == decimal(n as int),
{
    if n < 0 {
        let magnitude: u64 = (-(n + 1)) as u64 + 1;
        let mut s = String::from_str("-");
        let digits = nat_to_decimal(magnitude);
        s.append(digits.as_str());
        proof {
            reveal_strlit("-");
            assert(s@ =~= decimal(n as int));
        }
        s
    } else {
        nat_to_decimal(n as u64)
    }
}

/// The value of a decimal digit, if `c` is one.
pub open spec fn digit_value(c: char) -> Option<int> {
    if c == '0' {
        Some(0)
    } else if c == '1' {
        Some(1)
    } else if c == '2' {
        Some(2)
    } else if c == '3' {
        Some(3)
    } else if c == '4' {
        Some(4)
    } else if c == '5' {
        Some(5)
    } else if c == '6' {
        Some(6)
    } else if c == '7' {
        Some(7)
    } else if c == '8' {
        Some(8)
    } else if c == '9' {
        Some(9)
    } else {
        None
    }
}

/// The number that a run of decimal digits writes; none for an empty run and
/// for one that holds anything but digits.
pub open spec fn digits_value(digits: Seq<char>) -> Option<int>
    decreases digits.len(),
{
    if digits.len() == 0 {
        None
    } else if digits.len() == 1 {
        digit_value(digits[0])
    } else {
        match (digits_value(digits.drop_last()), digit_value(digits.last())) {
            (Some(front), Some(last)) => Some(front * 10 + last),
            _ => None,
        }
    }
}

/// The integer that `text` writes: decimal digits, with a plus or a minus
/// sign before them if one likes, and nothing else. None where the text is
/// not of that form or the number does not fit.
pub open spec fn parsed_integer(text: Seq<char>) -> Option<i64> {
    let signed = text.len() > 0 && (text[0] == '-' || text[0] == '+');
    let negative = text.len() > 0 && text[0] == '-';
    let digits = if signed {
        text.skip(1)
    } else {
        text
    };
    match digits_value(digits) {
        Some(magnitude) => {
            let value = if negative {
                -magnitude
            } else {
                magnitude
            };
            if i64::MIN <= value <= i64::MAX {
                Some(value as i64)
            } else {
                None
            }
        },
        None => None,
    }
}

/// A run of digits writes no smaller a number than any run it begins with.
proof fn lemma_digits_grow(digits: Seq<char>, count: int)
    requires
        1 <= count <= digits.len(),
        digits_value(digits) is Some,
    ensures
        digits_value(digits.take(count)) is Some,
        0 <= digits_value(digits.take(count))->0 <= digits_value(digits)->0,
    decreases digits.len(),
{
    if count == digits.len() {
        assert(digits.take(count) =~= digits);
        if digits.len() > 1 {
            lemma_digits_grow(digits.drop_last(), count - 1);
        }
    } else {
        assert(digits.drop_last().take(count) =~= digits.take(count));
        lemma_digits_grow(digits.drop_last(), count);
    }
}

fn char_digit(c: char) -> (value: Option<u8>)
    ensures
        match value {
            Some(d) => digit_value(c) == Some(d as int) && d < 10,
            None => digit_value(c) is None,
        },
{
    if c == '0' {
        Some(0)
    } else if c == '1' {
        Some(1)
    } else if c == '2' {
        Some(2)
    } else if c == '3' {
        Some(3)
    } else if c == '4' {
        Some(4)
    } else if c == '5' {
        Some(5)
    } else if c == '6' {
        Some(6)
    } else if c == '7' {
        Some(7)
    } else if c == '8' {
        Some(8)
    } else if c == '9' {
        Some(9)
    } else {
        None
    }
}

/// Reads `text` as a decimal integer, with or without a sign.
pub fn parse_integer(text: &str) -> (value: Option<i64>)
    ensures
        value == parsed_integer(text@),
{
    let len = text.unicode_len();
    if len == 0 {
        return None;
    }
    let first = text.get_char(0);
    let negative = first == '-';
    let start: usize = if first == '-' || first == '+' {
        1
    } else {
        0
    };
    let ghost digits = text@.skip(start as int);
    if start == len {
        return None;
    }
    let limit: i128 = if negative {
        0x8000_0000_0000_0000
    } else {
        0x7fff_ffff_ffff_ffff
    };
    let mut magnitude: i128 = 0;
    let mut i: usize = start;
    while i < len
        invariant
            start <= i <= len,
            len == text@.len(),
            start < len,
            digits == text@.skip(start as int),
            0 <= magnitude <= limit,
            negative == (text@[0] == '-'),
            start == (if text@[0] == '-' || text@[0] == '+' {
                1int
            } else {
                0int
            }),
            limit == (if negative {
                0x8000_0000_0000_0000i128
            } else {
                0x7fff_ffff_ffff_ffffi128
            }),
            i > start ==> digits_value(digits.take(i - start)) == Some(magnitude as int),
            i == start ==> magnitude == 0,
        decreases len - i,
    {
        let c = text.get_char(i);
        let ghost taken = digits.take(i + 1 - start);
        proof {
            assert(taken.last() == text@[i as int]);
            assert(taken.drop_last() =~= digits.take(i - start));
        }
        match char_digit(c) {
            Some(d) => {
                let next = magnitude * 10 + d as i128;
                proof {
                    assert(digits_value(taken) == Some(next as int));
                }
                if next > limit {
                    proof {
                        assert(text@.skip(0) =~= text@);
                        if digits_value(digits) is Some {
                            lemma_digits_grow(digits, i + 1 - start);
                        }
                    }
                    return None;
                }
                magnitude = next;
            },
            None => {
                proof {
                    assert(text@.skip(0) =~= text@);
                    assert(digits_value(taken) is None);
                    if digits_value(digits) is Some {
                        lemma_digits_grow(digits, i + 1 - start);
                    }
                }
                return None;
            },
        }
        i += 1;
    }
    proof {
        assert(digits.take(len - start) =~= digits);
        assert(text@.skip(0) =~= text@);
        assert(digits_value(digits) == Some(magnitude as int));
    }
    if negative {
        Some((-magnitude) as i64)
    } else {
        Some(magnitude as i64)
    }
}

/// `String::push` of the standard library: the character is appended.
#[verifier::external_body]
pub(crate) fn push_char(text: &mut String, c: char)
    ensures
        final(text)@ == old(text)@.push(c),
{
    text.push(c);
}

/// `String::pop` of the standard library: the last character is removed,
/// and an empty text stays empty.
#[verifier::external_body]
pub(crate) fn pop_char(text: &mut String)
    ensures
        final(text)@ == without_last(old(text)@),
{
    text.pop();
}

/// `text` without its last character.
pub open spec fn without_last(text: Seq<char>) -> Seq<char> {
    if text.len() > 0 {
        text.drop_last()
    } else {
        text
    }
}

/// White space as Unicode's `White_Space` property defines it.
pub open spec fn is_white_space(c: char) -> bool {
    let code = c as u32;
    ||| 0x09 <= code <= 0x0d
    ||| code == 0x20
    ||| code == 0x85
    ||| code == 0xa0
    ||| code == 0x1680
    ||| 0x2000 <= code <= 0x200a
    ||| code == 0x2028
    ||| code == 0x2029
    ||| code == 0x202f
    ||| code == 0x205f
    ||| code == 0x3000
}

/// Only white space, or nothing at all.
pub open spec fn is_blank(text: Seq<char>) -> bool {
    forall|i: int| 0 <= i < text.len() ==> is_white_space(#[trigger] text[i])
}

/// Whether `c` is white space.
pub fn char_is_white_space(c: char) -> (white: bool)
    ensures
        white == is_white_space(c),
{
    let code = c as u32;
    (0x09 <= code && code <= 0x0d) || code == 0x20 || code == 0x85 || code == 0xa0 || code
        == 0x1680 || (0x2000 <= code && code <= 0x200a) || code == 0x2028 || code == 0x2029 || code
        == 0x202f || code == 0x205f || code == 0x3000
}

/// Whether `text` holds nothing but white space.
pub fn str_is_blank(text: &str) -> (blank: bool)
    ensures
        blank == is_blank(text@),
{
    for c in it: text.chars()
        invariant
            it.seq() == text@,
            forall|i: int| 0 <= i < it.index() ==> is_white_space(#[trigger] text@[i]),
    {
        if !char_is_white_space(c) {
            return false;
        }
    }
    true
}

/// `text` without the white space in front of it.
pub open spec fn without_leading_space(text: Seq<char>) -> Seq<char>
    decreases text.len(),
{
    if text.len() > 0 && is_white_space(text[0]) {
        without_leading_space(text.drop_first())
    } else {
        text
    }
}

/// `text` without the white space behind it.
pub open spec fn without_trailing_space(text: Seq<char>) -> Seq<char>
    decreases text.len(),
{
    if text.len() > 0 && is_white_space(text.last()) {
        without_trailing_space(text.drop_last())
    } else {
        text
    }
}

/// `text` without the white space around it.
pub open spec fn trimmed(text: Seq<char>) -> Seq<char> {
    without_trailing_space(without_leading_space(text))
}

/// The characters of `text`.
pub fn chars_of(text: &str) -> (chars: Vec<char>)
    ensures
        chars@ == text@,
{
    let mut chars: Vec<char> = Vec::new();
    for c in it: text.chars()
        invariant
            it.seq() == text@,
            chars@ == text@.take(it.index()),
    {
        chars.push(c);
        proof {
            assert(chars@ =~= text@.take(it.index() + 1));
        }
    }
    proof {
        assert(text@.take(text@.len() as int) =~= text@);
    }
    chars
}

/// `text` without the white space around it.
pub fn trim_str(text: &str) -> (inner: &str)
    ensures
        inner@ == trimmed(text@),
{
    let chars = chars_of(text);
    let len = chars.len();
    let mut start: usize = 0;
    proof {
        assert(text@.skip(0) =~= text@);
    }
    while start < len && char_is_white_space(chars[start])
        invariant
            start <= len,
            len == text@.len(),
            chars@ == text@,
            without_leading_space(text@) == without_leading_space(text@.skip(start as int)),
        decreases len - start,
    {
        proof {
            assert(text@.skip(start as int).drop_first() =~= text@.skip(start + 1));
        }
        start += 1;
    }
    let ghost body = text@.skip(start as int);
    proof {
        assert(without_leading_space(text@) == body);
        assert(body.take(len - start) =~= body);
    }
    let mut end: usize = len;
    while end > start && char_is_white_space(chars[end - 1])
        invariant
            start <= end <= len,
            len == text@.len(),
            chars@ == text@,
            body == text@.skip(start as int),
            without_trailing_space(body) == without_trailing_space(body.take(end - start)),
        decreases end,
    {
        proof {
            let kept = body.take(end - start);
            assert(kept.last() == text@[end - 1]);
            assert(kept.drop_last() =~= body.take(end - 1 - start));
        }
        end -= 1;
    }
    proof {
        let kept = body.take(end - start);
        if end > start {
            assert(kept.last() == text@[end - 1]);
        }
        assert(without_trailing_space(kept) == kept);
        assert(kept =~= text@.subrange(start as int, end as int));
    }
    text.substring_char(start, end)
}

/// Trimming what is trimmed changes nothing.
pub proof fn lemma_trimmed_is_trimmed(text: Seq<char>)
    ensures
        trimmed(trimmed(text)) == trimmed(text),
{
    let inner = trimmed(text);
    lemma_leading_gone(text);
    lemma_trailing_gone(without_leading_space(text));
    lemma_trailing_keeps_front(without_leading_space(text));
    assert(without_leading_space(inner) == inner);
}

proof fn lemma_leading_gone(text: Seq<char>)
    ensures
        without_leading_space(text).len() > 0 ==> !is_white_space(without_leading_space(text)[0]),
    decreases text.len(),
{
    if text.len() > 0 && is_white_space(text[0]) {
        lemma_leading_gone(text.drop_first());
    }
}

proof fn lemma_trailing_gone(text: Seq<char>)
    ensures
        without_trailing_space(text).len() > 0 ==> !is_white_space(
            without_trailing_space(text).last(),
        ),
        without_trailing_space(without_trailing_space(text)) == without_trailing_space(text),
    decreases text.len(),
{
    if text.len() > 0 && is_white_space(text.last()) {
        lemma_trailing_gone(text.drop_last());
    }
}

proof fn lemma_trailing_keeps_front(text: Seq<char>)
    ensures
        without_trailing_space(text).len() > 0 ==> without_trailing_space(text)[0] == text[0],
        without_trailing_space(text).len() <= text.len(),
    decreases text.len(),
{
    if text.len() > 0 && is_white_space(text.last()) {
        lemma_trailing_keeps_front(text.drop_last());
    }
}

} // verus!
