//! Connection identities and their decimal form on the wire.

use crate::utils::str_to_char_vec;
use vstd::prelude::*;

verus! {

/// The value of a decimal digit.
pub open spec fn digit_value(c: char) -> nat {
    (c as nat - '0' as nat) as nat
}

/// Whether a character is one of `0` to `9`.
pub open spec fn is_digit(c: char) -> bool {
    '0' <= c <= '9'
}

/// The character that stands for a value below ten.
pub open spec fn digit_char(value: nat) -> char {
    if value == 0 {
        '0'
    } else if value == 1 {
        '1'
    } else if value == 2 {
        '2'
    } else if value == 3 {
        '3'
    } else if value == 4 {
        '4'
    } else if value == 5 {
        '5'
    } else if value == 6 {
        '6'
    } else if value == 7 {
        '7'
    } else if value == 8 {
        '8'
    } else {
        '9'
    }
}

/// Whether every character of a text is a decimal digit.
pub open spec fn all_digits(text: Seq<char>) -> bool {
    forall|k: int| 0 <= k < text.len() ==> is_digit(#[trigger] text[k])
}

/// The number that a text of decimal digits stands for.
pub open spec fn decimal_value(digits: Seq<char>) -> nat
    decreases digits.len(),
{
    if digits.len() == 0 {
        0
    } else {
        10 * decimal_value(digits.drop_last()) + digit_value(digits.last())
    }
}

/// The decimal form of a number, without leading zeros.
pub open spec fn decimal(value: nat) -> Seq<char>
    decreases value,
{
    if value < 10 {
        seq![digit_char(value)]
    } else {
        decimal(value / 10).push(digit_char(value % 10))
    }
}

/// The identity that a text stands for: an optional `+`, then one decimal
/// digit or more, whose value fits in 32 bits. Any other text stands for
/// none.
pub open spec fn identity_of(text: Seq<char>) -> Option<u32> {
    if text.len() > 0 && text[0] == '+' {
        digits_identity(text.drop_first())
    } else {
        digits_identity(text)
    }
}

/// The identity that a text without a sign stands for.
pub open spec fn digits_identity(digits: Seq<char>) -> Option<u32> {
    if digits.len() > 0 && all_digits(digits) && decimal_value(digits) <= u32::MAX {
        Some(decimal_value(digits) as u32)
    } else {
        None
    }
}

/// Among texts of digits, a prefix stands for no more than the whole.
pub proof fn lemma_prefix_value(digits: Seq<char>, len: int)
    requires
        0 <= len <= digits.len(),
    ensures
        decimal_value(digits.take(len)) <= decimal_value(digits),
    decreases digits.len() - len,
{
    if len == digits.len() {
        assert(digits.take(len) == digits);
    } else {
        lemma_prefix_value(digits.drop_last(), len);
        assert(digits.drop_last().take(len) == digits.take(len));
    }
}

/// The decimal form of a number is a text of digits that stands for it.
pub proof fn lemma_decimal_value(value: nat)
    ensures
        decimal(value).len() > 0,
        all_digits(decimal(value)),
        decimal_value(decimal(value)) == value,
    decreases value,
{
    if value < 10 {
        let text = decimal(value);
        assert(text.drop_last().len() == 0);
        assert(decimal_value(text) == 10 * decimal_value(text.drop_last()) + digit_value(
            text.last(),
        ));
    } else {
        lemma_decimal_value(value / 10);
        let text = decimal(value);
        assert(text.drop_last() == decimal(value / 10));
        assert(text.last() == digit_char(value % 10));
    }
}

/// An identity is what its own decimal form stands for.
pub proof fn lemma_identity_round_trip(id: u32)
    ensures
        identity_of(decimal(id as nat)) == Some(id),
{
    lemma_decimal_value(id as nat);
    let text = decimal(id as nat);
    assert(is_digit(text[0]));
}

/// Parse a text as an identity.
pub fn parse_identity(text: &str) -> (id: Option<u32>)
    ensures
        id == identity_of(text@),
{
    let chars = str_to_char_vec(text);
    let start: usize = if chars.len() > 0 && chars[0] == '+' {
        1
    } else {
        0
    };
    let ghost digits = chars@.skip(start as int);
    assert(start == 1 ==> digits == text@.drop_first());
    assert(start == 0 ==> digits == text@);
    if start == chars.len() {
        return None;
    }
    let mut value: u32 = 0;
    let mut i: usize = start;
    while i < chars.len()
        invariant
            start <= i <= chars.len(),
            digits == chars@.skip(start as int),
            identity_of(text@) == digits_identity(digits),
            all_digits(digits.take(i - start)),
            value == decimal_value(digits.take(i - start)),
        decreases chars.len() - i,
    {
        let c = chars[i];
        if c < '0' || c > '9' {
            assert(!is_digit(digits[i - start]));
            return None;
        }
        let d: u32 = digit_of(c);
        let ghost next = digits.take(i - start + 1);
        proof {
            assert(next.drop_last() == digits.take(i - start));
            assert(next.last() == c);
            lemma_prefix_value(digits, i - start + 1);
        }
        if value > (u32::MAX - d) / 10 {
            assert(decimal_value(next) > u32::MAX);
            return None;
        }
        value = value * 10 + d;
        i += 1;
    }
    assert(digits.take(i - start) == digits);
    Some(value)
}

/// The value of a decimal digit.
fn digit_of(c: char) -> (value: u32)
    requires
        is_digit(c),
    ensures
        value == digit_value(c),
        value <= 9,
{
    c as u32 - '0' as u32
}

/// The character of a value below ten.
fn char_of_digit(value: u32) -> (c: char)
    requires
        value < 10,
    ensures
        c == digit_char(value as nat),
{
    match value {
        0 => '0',
        1 => '1',
        2 => '2',
        3 => '3',
        4 => '4',
        5 => '5',
        6 => '6',
        7 => '7',
        8 => '8',
        _ => '9',
    }
}

/// Append the decimal form of `value` to `text`.
fn push_decimal(text: &mut String, value: u32)
    ensures
        final(text)@ == old(text)@ + decimal(value as nat),
    decreases value,
{
    if value >= 10 {
        push_decimal(text, value / 10);
    }
    text.push(char_of_digit(value % 10));
}

/// The decimal form of an identity, as a sender field carries it.
pub fn identity_to_string(id: u32) -> (text: String)
    ensures
        text@ == decimal(id as nat),
        identity_of(text@) == Some(id),
{
    proof {
        lemma_identity_round_trip(id);
    }
    let mut text = String::new();
    push_decimal(&mut text, id);
    text
}

} // verus!
