//! Small pieces of text that labels are made of.

use vstd::prelude::*;

verus! {

/// The character of the decimal digit `d`.
pub open spec fn digit_char(d: int) -> char
    recommends
        0 <= d <= 9,
{
    ((48 + d) as u8) as char
}

/// The last two digits of `n` in decimal, with a leading zero below ten.
pub open spec fn two_digits(n: int) -> Seq<char>
    recommends
        0 <= n,
{
    seq![digit_char(n / 10 % 10), digit_char(n % 10)]
}

/// What a string that may be absent holds.
pub open spec fn text_view(text: Option<String>) -> Option<Seq<char>> {
    match text {
        Some(s) => Some(s@),
        None => None,
    }
}

/// Whether two strings hold the same characters.
pub(crate) fn same_text(a: &str, b: &str) -> (r: bool)
    ensures
        r == (a@ == b@),
{
    let length = a.unicode_len();
    if length != b.unicode_len() {
        return false;
    }
    let mut i: usize = 0;
    while i < length
        invariant
            i <= length,
            length == a@.len(),
            length == b@.len(),
            forall|k: int| 0 <= k < i ==> a@[k] == b@[k],
        decreases length - i,
    {
        if a.get_char(i) != b.get_char(i) {
            return false;
        }
        i += 1;
    }
    assert(a@ =~= b@);
    true
}

/// A copy of a string that may be absent.
pub fn clone_text(text: &Option<String>) -> (r: Option<String>)
    ensures
        r == *text,
{
    match text {
        Some(s) => Some(s.clone()),
        None => None,
    }
}

/// `String::push`: appends one character to the end of the string.
#[verifier::external_body]
pub(crate) fn push_char(s: &mut String, c: char)
    ensures
        final(s)@ == old(s)@.push(c),
{
    s.push(c)
}

/// Appends the last two decimal digits of `n` to `s`.
pub fn push_two_digits(s: &mut String, n: u32)
    ensures
        final(s)@ == old(s)@ + two_digits(n as int),
{
    let tens: u8 = (n / 10 % 10) as u8;
    let ones: u8 = (n % 10) as u8;
    push_char(s, (48 + tens) as char);
    push_char(s, (48 + ones) as char);
}

/// The two parts of `text` around the first `delimiter`, or `None` where
/// `text` holds none.
pub open spec fn split_at_first(text: Seq<char>, delimiter: char) -> Option<
    (Seq<char>, Seq<char>),
> {
    match text.index_of_first(delimiter) {
        Some(i) => Some((text.take(i), text.skip(i + 1))),
        None => None,
    }
}

/// What stands in `text` before the first `delimiter` and what stands
/// after it, or `None` where `text` holds no `delimiter`.
pub(crate) fn split_once<'a>(text: &'a str, delimiter: char) -> (r: Option<(&'a str, &'a str)>)
    ensures
        match r {
            Some((head, tail)) => split_at_first(text@, delimiter) == Some((head@, tail@)),
            None => split_at_first(text@, delimiter) is None,
        },
{
    let length = text.unicode_len();
    let mut i: usize = 0;
    while i < length
        invariant
            i <= length,
            length == text@.len(),
            forall|k: int| 0 <= k < i ==> text@[k] != delimiter,
        decreases length - i,
    {
        if text.get_char(i) == delimiter {
            proof {
                text@.index_of_first_ensures(delimiter);
            }
            return Some((text.substring_char(0, i), text.substring_char(i + 1, length)));
        }
        i += 1;
    }
    proof {
        text@.index_of_first_ensures(delimiter);
    }
    None
}

/// Whether `c` is one of the ten decimal digits.
pub open spec fn is_digit(c: char) -> bool {
    '0' <= c <= '9'
}

/// The number that a sequence of decimal digits writes.
pub open spec fn decimal_value(digits: Seq<char>) -> int
    decreases digits.len(),
{
    if digits.len() == 0 {
        0
    } else {
        10 * decimal_value(digits.drop_last()) + (digits.last() as int - '0' as int)
    }
}

/// Whether `digits` holds decimal digits only.
pub open spec fn all_digits(digits: Seq<char>) -> bool {
    forall|i: int| 0 <= i < digits.len() ==> is_digit(#[trigger] digits[i])
}

/// The number that `text` writes in decimal: digits only, after one `+` at
/// most, and no more than a `u32` holds. `None` for any other text.
pub open spec fn number_of(text: Seq<char>) -> Option<int> {
    let digits = if text.len() > 0 && text[0] == '+' {
        text.skip(1)
    } else {
        text
    };
    if digits.len() > 0 && all_digits(digits) && decimal_value(digits) <= u32::MAX {
        Some(decimal_value(digits))
    } else {
        None
    }
}

/// A number written in digits is not below the number that its first `i`
/// digits write.
proof fn lemma_decimal_value_grows(digits: Seq<char>, i: int)
    requires
        all_digits(digits),
        0 <= i <= digits.len(),
    ensures
        0 <= decimal_value(digits.take(i)) <= decimal_value(digits),
    decreases digits.len() - i,
{
    if i == digits.len() {
        assert(digits.take(i) == digits);
        lemma_decimal_value_is_not_negative(digits);
    } else {
        lemma_decimal_value_grows(digits, i + 1);
        let longer = digits.take(i + 1);
        assert(longer.drop_last() == digits.take(i));
        lemma_decimal_value_is_not_negative(digits.take(i));
    }
}

/// A number written in digits is not below zero.
pub proof fn lemma_decimal_value_is_not_negative(digits: Seq<char>)
    requires
        all_digits(digits),
    ensures
        0 <= decimal_value(digits),
    decreases digits.len(),
{
    if digits.len() > 0 {
        lemma_decimal_value_is_not_negative(digits.drop_last());
    }
}

/// The number that `text` writes in decimal, as `str::parse` reads a `u32`:
/// digits only, after one `+` at most. `None` for any other text and for a
/// number that a `u32` cannot hold.
pub fn parse_number(text: &str) -> (r: Option<u32>)
    ensures
        match r {
            Some(n) => number_of(text@) == Some(n as int),
            None => number_of(text@) is None,
        },
{
    let length = text.unicode_len();
    if length == 0 {
        return None;
    }
    let start: usize = if text.get_char(0) == '+' {
        1
    } else {
        0
    };
    let ghost digits = text@.skip(start as int);
    if start == length {
        return None;
    }
    let mut value: u64 = 0;
    let mut i: usize = start;
    while i < length
        invariant
            start <= i <= length,
            length == text@.len(),
            digits == text@.skip(start as int),
            text@.skip(0) == text@,
            start == (if text@[0] == '+' {
                1int
            } else {
                0int
            }),
            all_digits(digits.take(i - start)),
            value == decimal_value(digits.take(i - start)),
            value <= u32::MAX,
        decreases length - i,
    {
        let c = text.get_char(i);
        proof {
            assert(digits.take(i - start + 1).drop_last() == digits.take(i - start));
        }
        if c < '0' || c > '9' {
            assert(!is_digit(digits[i - start]));
            return None;
        }
        let digit: u64 = (c as u32 - 48) as u64;
        value = value * 10 + digit;
        proof {
        }
        if value > 0xffff_ffff {
            proof {
                if all_digits(digits) {
                    lemma_decimal_value_grows(digits, i - start + 1);
                }
            }
            return None;
        }
        i += 1;
    }
    proof {
        assert(digits.take(length - start) == digits);
    }
    Some(value as u32)
}

} // verus!
